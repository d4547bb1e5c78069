//! The list of commands on the main help page, with the subcommands of each
//! command shown below it.

use vstd::prelude::*;
use vstd::string::StringExecFns;
use vstd::utf8::encode_utf8;
use itertools::Itertools;
use crate::help_text::{lines_of, split_lines, strip_chars, stripped};
use crate::text::{
    chars_of, extend_chars, join_words, joined, same_chars, same_text, string_of, sub_chars,
    texts,
};

verus! {

/// One command of the program, as far as the help pages show it.
#[derive(Debug)]
pub struct CommandEntry {
    /// The name of the command.
    pub name: String,
    /// Other names that it goes by.
    pub aliases: Vec<String>,
    /// What it does, in a few words.
    pub about: String,
    /// Whether it is left out of the lists.
    pub hidden: bool,
    /// Its subcommands.
    pub subcommands: Vec<CommandEntry>,
}

/// The codes that switch the colours of a help page on and off.
#[derive(Debug)]
pub struct HelpStyles {
    /// Before a heading.
    pub header_on: String,
    /// Behind a heading.
    pub header_off: String,
    /// Before the name of a command.
    pub literal_on: String,
    /// Behind the name of a command.
    pub literal_off: String,
}

/// `count` spaces.
pub open spec fn spaces(count: nat) -> Seq<char> {
    Seq::new(count, |i: int| ' ')
}

/// How many bytes `name` takes in UTF-8, as a machine number.
pub open spec fn byte_len(name: Seq<char>) -> nat {
    (encode_utf8(name).len() as usize) as nat
}

/// How wide the name of a command stands at `depth`: two columns of margin,
/// two more for each level, and the bytes of the name.
pub open spec fn entry_width(depth: nat, name: Seq<char>) -> nat {
    2 + 2 * depth + byte_len(name)
}

/// The widest name among the visible `entries`, at `depth`.
pub open spec fn widest(entries: Seq<CommandEntry>, depth: nat) -> nat
    decreases entries.len(),
{
    if entries.len() == 0 {
        0
    } else {
        let rest = widest(entries.drop_last(), depth);
        let width = entry_width(depth, entries.last().name@);
        if !entries.last().hidden && width > rest {
            width
        } else {
            rest
        }
    }
}

/// The widest name among the visible `entries` and their visible
/// subcommands, which stand one level deeper.
pub open spec fn widest_with_nested(entries: Seq<CommandEntry>) -> nat
    decreases entries.len(),
{
    if entries.len() == 0 {
        0
    } else {
        let rest = widest_with_nested(entries.drop_last());
        let last = entries.last();
        let width = entry_width(0, last.name@);
        let nested = widest(last.subcommands@, 1);
        let own = if nested > width {
            nested
        } else {
            width
        };
        if !last.hidden && own > rest {
            own
        } else {
            rest
        }
    }
}

/// The line of one command: its name behind the margin, then what it does,
/// set two columns behind the widest name.
pub open spec fn entry_text(
    entry: CommandEntry,
    depth: nat,
    max_width: nat,
    on: Seq<char>,
    off: Seq<char>,
) -> Seq<char> {
    let width = entry_width(depth, entry.name@);
    let gap = if max_width > width {
        (max_width - width + 2) as nat
    } else {
        2
    };
    spaces(2 + 2 * depth) + on + entry.name@ + off + spaces(gap) + entry.about@ + "\n"@
}

/// The lines of the visible `entries` at `depth`.
pub open spec fn entries_text(
    entries: Seq<CommandEntry>,
    depth: nat,
    max_width: nat,
    on: Seq<char>,
    off: Seq<char>,
) -> Seq<char>
    decreases entries.len(),
{
    if entries.len() == 0 {
        Seq::empty()
    } else if entries.last().hidden {
        entries_text(entries.drop_last(), depth, max_width, on, off)
    } else {
        entries_text(entries.drop_last(), depth, max_width, on, off) + entry_text(
            entries.last(),
            depth,
            max_width,
            on,
            off,
        )
    }
}

/// The lines of the visible `entries`, each followed by the lines of its
/// visible subcommands.
pub open spec fn nested_text(
    entries: Seq<CommandEntry>,
    max_width: nat,
    on: Seq<char>,
    off: Seq<char>,
) -> Seq<char>
    decreases entries.len(),
{
    if entries.len() == 0 {
        Seq::empty()
    } else if entries.last().hidden {
        nested_text(entries.drop_last(), max_width, on, off)
    } else {
        nested_text(entries.drop_last(), max_width, on, off) + entry_text(
            entries.last(),
            0,
            max_width,
            on,
            off,
        ) + entries_text(entries.last().subcommands@, 1, max_width, on, off)
    }
}

/// Whether one of the `entries` is visible.
pub open spec fn any_visible(entries: Seq<CommandEntry>) -> bool {
    exists|i: int| 0 <= i < entries.len() && !(#[trigger] entries[i]).hidden
}

/// The section that lists the commands of `cmd`: the heading, the lines of
/// its visible subcommands and theirs, and an empty line. Nothing where no
/// subcommand is visible.
pub open spec fn commands_text(
    cmd: CommandEntry,
    header_on: Seq<char>,
    header_off: Seq<char>,
    on: Seq<char>,
    off: Seq<char>,
) -> Seq<char> {
    if !any_visible(cmd.subcommands@) {
        Seq::empty()
    } else {
        header_on + "Commands:"@ + header_off + "\n"@ + nested_text(
            cmd.subcommands@,
            widest_with_nested(cmd.subcommands@),
            on,
            off,
        ) + "\n"@
    }
}

/// The width of a name at `depth`.
fn width_of(depth: u8, name: &String) -> (width: u128)
    ensures
        width == entry_width(depth as nat, name@),
{
    let bytes = name.as_str().len();
    2 + 2 * (depth as u128) + (bytes as u128)
}

/// Calculate the maximum width needed for the names of the visible commands
/// at one level.
fn widest_at(entries: &Vec<CommandEntry>, depth: u8) -> (max: u128)
    ensures
        max == widest(entries@, depth as nat),
{
    let mut max: u128 = 0;
    let mut i: usize = 0;
    while i < entries.len()
        invariant
            i <= entries.len(),
            max == widest(entries@.take(i as int), depth as nat),
        decreases entries.len() - i,
    {
        assert(entries@.take(i + 1).drop_last() =~= entries@.take(i as int));
        let width = width_of(depth, &entries[i].name);
        if !entries[i].hidden && width > max {
            max = width;
        }
        i += 1;
    }
    assert(entries@.take(entries.len() as int) =~= entries@);
    max
}

/// Calculate the maximum width needed for command names at all nesting
/// levels.
pub fn calculate_max_command_width(commands: &Vec<CommandEntry>) -> (max: u128)
    ensures
        max == widest_with_nested(commands@),
{
    let mut max: u128 = 0;
    let mut i: usize = 0;
    while i < commands.len()
        invariant
            i <= commands.len(),
            max == widest_with_nested(commands@.take(i as int)),
        decreases commands.len() - i,
    {
        assert(commands@.take(i + 1).drop_last() =~= commands@.take(i as int));
        let width = width_of(0, &commands[i].name);
        let nested = widest_at(&commands[i].subcommands, 1);
        let own = if nested > width {
            nested
        } else {
            width
        };
        if !commands[i].hidden && own > max {
            max = own;
        }
        i += 1;
    }
    assert(commands@.take(commands.len() as int) =~= commands@);
    max
}

/// Appends `count` spaces to `out`.
fn push_spaces(out: &mut Vec<char>, count: u128)
    ensures
        final(out)@ == old(out)@ + spaces(count as nat),
{
    let ghost start = out@;
    let mut k: u128 = 0;
    while k < count
        invariant
            k <= count,
            out@ == start + spaces(k as nat),
        decreases count - k,
    {
        out.push(' ');
        assert(out@ =~= start + spaces((k + 1) as nat));
        k += 1;
    }
}

/// Write a single command entry with proper indentation and alignment.
pub fn write_command_entry(
    output: &mut Vec<char>,
    cmd: &CommandEntry,
    depth: u8,
    max_width: u128,
    on: &Vec<char>,
    off: &Vec<char>,
)
    ensures
        final(output)@ == old(output)@ + entry_text(
            *cmd,
            depth as nat,
            max_width as nat,
            on@,
            off@,
        ),
{
    proof {
        reveal_strlit("\n");
    }
    let ghost start = output@;
    let width = width_of(depth, &cmd.name);
    let gap: u128 = if max_width > width {
        max_width - width + 2
    } else {
        2
    };
    push_spaces(output, 2 + 2 * (depth as u128));
    extend_chars(output, on);
    let name = chars_of(cmd.name.as_str());
    extend_chars(output, &name);
    extend_chars(output, off);
    push_spaces(output, gap);
    let about = chars_of(cmd.about.as_str());
    extend_chars(output, &about);
    output.push('\n');
    assert(output@ =~= start + entry_text(*cmd, depth as nat, max_width as nat, on@, off@));
}

/// Whether one of the `entries` is visible.
fn has_visible(entries: &Vec<CommandEntry>) -> (res: bool)
    ensures
        res == any_visible(entries@),
{
    let mut i: usize = 0;
    while i < entries.len()
        invariant
            i <= entries.len(),
            forall|k: int| 0 <= k < i ==> (#[trigger] entries@[k]).hidden,
        decreases entries.len() - i,
    {
        if !entries[i].hidden {
            return true;
        }
        i += 1;
    }
    false
}

/// Writes the lines of the visible `entries` at `depth`.
fn write_entries(
    output: &mut Vec<char>,
    entries: &Vec<CommandEntry>,
    depth: u8,
    max_width: u128,
    on: &Vec<char>,
    off: &Vec<char>,
)
    ensures
        final(output)@ == old(output)@ + entries_text(
            entries@,
            depth as nat,
            max_width as nat,
            on@,
            off@,
        ),
{
    let ghost start = output@;
    let mut i: usize = 0;
    while i < entries.len()
        invariant
            i <= entries.len(),
            output@ == start + entries_text(
                entries@.take(i as int),
                depth as nat,
                max_width as nat,
                on@,
                off@,
            ),
        decreases entries.len() - i,
    {
        assert(entries@.take(i + 1).drop_last() =~= entries@.take(i as int));
        let ghost before = output@;
        if !entries[i].hidden {
            write_command_entry(output, &entries[i], depth, max_width, on, off);
            assert(output@ =~= start + entries_text(
                entries@.take(i + 1),
                depth as nat,
                max_width as nat,
                on@,
                off@,
            ));
        }
        i += 1;
    }
    assert(entries@.take(entries.len() as int) =~= entries@);
}

/// The section that lists the commands of `cmd`, with the given codes
/// around the heading and around each name.
fn render_section(
    cmd: &CommandEntry,
    header_on: &Vec<char>,
    header_off: &Vec<char>,
    on: &Vec<char>,
    off: &Vec<char>,
) -> (output: Vec<char>)
    ensures
        output@ == commands_text(*cmd, header_on@, header_off@, on@, off@),
{
    let mut output: Vec<char> = Vec::new();
    if !has_visible(&cmd.subcommands) {
        return output;
    }
    proof {
        reveal_strlit("\n");
    }
    let max_width = calculate_max_command_width(&cmd.subcommands);
    extend_chars(&mut output, header_on);
    let heading = chars_of("Commands:");
    extend_chars(&mut output, &heading);
    extend_chars(&mut output, header_off);
    output.push('\n');
    let ghost start = output@;
    assert(start =~= header_on@ + "Commands:"@ + header_off@ + "\n"@);
    let mut i: usize = 0;
    while i < cmd.subcommands.len()
        invariant
            i <= cmd.subcommands.len(),
            output@ == start + nested_text(
                cmd.subcommands@.take(i as int),
                max_width as nat,
                on@,
                off@,
            ),
        decreases cmd.subcommands.len() - i,
    {
        assert(cmd.subcommands@.take(i + 1).drop_last() =~= cmd.subcommands@.take(i as int));
        let sub = &cmd.subcommands[i];
        if !sub.hidden {
            write_command_entry(&mut output, sub, 0, max_width, on, off);
            write_entries(&mut output, &sub.subcommands, 1, max_width, on, off);
            assert(output@ =~= start + nested_text(
                cmd.subcommands@.take(i + 1),
                max_width as nat,
                on@,
                off@,
            ));
        }
        i += 1;
    }
    assert(cmd.subcommands@.take(cmd.subcommands.len() as int) =~= cmd.subcommands@);
    output.push('\n');
    assert(output@ =~= commands_text(*cmd, header_on@, header_off@, on@, off@));
    output
}

/// The section of the main help page that lists the commands, as the codes
/// colour it or plain.
pub open spec fn section_text(cmd: CommandEntry, use_colors: bool, styles: HelpStyles) -> Seq<
    char,
> {
    if use_colors {
        commands_text(
            cmd,
            styles.header_on@,
            styles.header_off@,
            styles.literal_on@,
            styles.literal_off@,
        )
    } else {
        commands_text(cmd, Seq::empty(), Seq::empty(), Seq::empty(), Seq::empty())
    }
}

fn section_chars(cmd: &CommandEntry, use_colors: bool, styles: &HelpStyles) -> (output: Vec<char>)
    ensures
        output@ == section_text(*cmd, use_colors, *styles),
{
    if use_colors {
        let header_on = chars_of(styles.header_on.as_str());
        let header_off = chars_of(styles.header_off.as_str());
        let on = chars_of(styles.literal_on.as_str());
        let off = chars_of(styles.literal_off.as_str());
        render_section(cmd, &header_on, &header_off, &on, &off)
    } else {
        let none: Vec<char> = Vec::new();
        render_section(cmd, &none, &none, &none, &none)
    }
}

/// Render a nested commands section showing subcommands indented under
/// their parents, one level deep.
pub fn render_nested_commands(cmd: &CommandEntry, use_colors: bool, styles: &HelpStyles) -> (out:
    String)
    ensures
        out@ == section_text(*cmd, use_colors, *styles),
{
    let output = section_chars(cmd, use_colors, styles);
    string_of(&output)
}

/// Where line `count` starts, if each line before it is followed by one
/// line feed.
pub open spec fn offset_of(lines: Seq<Seq<char>>, count: nat) -> nat
    decreases count,
{
    if count == 0 || count > lines.len() {
        0
    } else {
        offset_of(lines, (count - 1) as nat) + lines[count - 1].len() + 1
    }
}

/// Whether a line heads the list of commands, whatever colours it.
pub open spec fn is_commands_heading(line: Seq<char>) -> bool {
    stripped(line) == "Commands:"@
}

/// Whether a line starts the next section: it is not empty and not
/// indented, seen without its colours.
pub open spec fn starts_section(line: Seq<char>) -> bool {
    stripped(line).len() > 0 && stripped(line)[0] != ' '
}

/// The first of `lines` at or behind `from` that heads the list of commands,
/// or -1.
pub open spec fn heading_line(lines: Seq<Seq<char>>, from: nat) -> int
    decreases lines.len() - from,
{
    if from >= lines.len() {
        -1
    } else if is_commands_heading(lines[from as int]) {
        from as int
    } else {
        heading_line(lines, from + 1)
    }
}

/// The first of `lines` at or behind `from` that starts a section, or -1.
pub open spec fn section_line(lines: Seq<Seq<char>>, from: nat) -> int
    decreases lines.len() - from,
{
    if from >= lines.len() {
        -1
    } else if starts_section(lines[from as int]) {
        from as int
    } else {
        section_line(lines, from + 1)
    }
}

/// The smaller of `place` and `len`.
pub open spec fn within(place: nat, len: nat) -> int {
    if place > len {
        len as int
    } else {
        place as int
    }
}

/// The place behind the first line feed at or behind `from`, or the end of
/// `help` where there is none.
pub open spec fn next_line(help: Seq<char>, from: int) -> int
    decreases help.len() - from,
{
    if from < 0 || from >= help.len() {
        help.len() as int
    } else if help[from] == '\n' {
        from + 1
    } else {
        next_line(help, from + 1)
    }
}

/// The help page with its list of commands replaced by `section`: the list
/// goes from the heading `Commands:` up to the next line that is neither
/// empty nor indented, or to the end. A page without the heading stays as it
/// is.
pub open spec fn replaced(help: Seq<char>, section: Seq<char>) -> Seq<char> {
    let lines = lines_of(help);
    let at = heading_line(lines, 0);
    let start = within(offset_of(lines, at as nat), help.len());
    let content = next_line(help, start);
    let rest = lines_of(help.skip(content));
    let stop = section_line(rest, 0);
    let end = if stop < 0 {
        help.len() as int
    } else {
        within((content + offset_of(rest, stop as nat)) as nat, help.len())
    };
    if at < 0 {
        help
    } else {
        help.take(start) + section + help.skip(end)
    }
}

/// Where line `count` of `lines` starts, but no more than `limit`.
fn offset_within(lines: &Vec<Vec<char>>, count: usize, base: usize, limit: usize) -> (place: usize)
    requires
        count <= lines.len(),
        base <= limit,
    ensures
        place == within((base + offset_of(texts_of(lines@), count as nat)) as nat, limit as nat),
{
    let mut place: usize = base;
    let mut k: usize = 0;
    while k < count
        invariant
            k <= count <= lines.len(),
            base <= limit,
            place == within((base + offset_of(texts_of(lines@), k as nat)) as nat, limit as nat),
        decreases count - k,
    {
        let len = lines[k].len();
        assert(texts_of(lines@)[k as int] == lines@[k as int]@);
        if len >= limit - place {
            place = limit;
        } else {
            place = place + len + 1;
        }
        k += 1;
    }
    place
}

/// The texts of a list of lines.
pub open spec fn texts_of(lines: Seq<Vec<char>>) -> Seq<Seq<char>> {
    Seq::new(lines.len(), |i: int| lines[i]@)
}

fn find_heading(lines: &Vec<Vec<char>>) -> (found: Option<usize>)
    ensures
        match found {
            Some(at) => at == heading_line(texts_of(lines@), 0) && at < lines.len(),
            None => heading_line(texts_of(lines@), 0) == -1,
        },
{
    let heading = chars_of("Commands:");
    let mut i: usize = 0;
    while i < lines.len()
        invariant
            i <= lines.len(),
            heading@ == "Commands:"@,
            heading_line(texts_of(lines@), 0) == heading_line(texts_of(lines@), i as nat),
        decreases lines.len() - i,
    {
        assert(texts_of(lines@)[i as int] == lines@[i as int]@);
        let plain = strip_chars(&lines[i]);
        if same_chars(&plain, &heading) {
            return Some(i);
        }
        i += 1;
    }
    None
}

fn find_section(lines: &Vec<Vec<char>>) -> (found: Option<usize>)
    ensures
        match found {
            Some(at) => at == section_line(texts_of(lines@), 0) && at < lines.len(),
            None => section_line(texts_of(lines@), 0) == -1,
        },
{
    let mut i: usize = 0;
    while i < lines.len()
        invariant
            i <= lines.len(),
            section_line(texts_of(lines@), 0) == section_line(texts_of(lines@), i as nat),
        decreases lines.len() - i,
    {
        assert(texts_of(lines@)[i as int] == lines@[i as int]@);
        let plain = strip_chars(&lines[i]);
        if plain.len() > 0 && plain[0] != ' ' {
            return Some(i);
        }
        i += 1;
    }
    None
}

fn after_line_feed(help: &Vec<char>, from: usize) -> (place: usize)
    requires
        from <= help.len(),
    ensures
        place == next_line(help@, from as int),
        from <= place <= help.len(),
{
    let mut i: usize = from;
    while i < help.len()
        invariant
            from <= i <= help.len(),
            next_line(help@, from as int) == next_line(help@, i as int),
        decreases help.len() - i,
    {
        if help[i] == '\n' {
            return i + 1;
        }
        i += 1;
    }
    help.len()
}

/// The help page with its list of commands replaced by `section`.
pub fn replace_section(help: &Vec<char>, section: &Vec<char>) -> (out: Vec<char>)
    ensures
        out@ == replaced(help@, section@),
{
    let lines = split_lines(help);
    assert(texts_of(lines@) =~= lines_of(help@));
    let at = match find_heading(&lines) {
        Some(at) => at,
        None => {
            let out = sub_chars(help, 0, help.len());
            assert(help@.subrange(0, help.len() as int) =~= help@);
            return out;
        },
    };
    let start = offset_within(&lines, at, 0, help.len());
    let content = after_line_feed(help, start);
    let behind = sub_chars(help, content, help.len());
    assert(behind@ =~= help@.skip(content as int));
    let rest = split_lines(&behind);
    assert(texts_of(rest@) =~= lines_of(behind@));
    let end = match find_section(&rest) {
        Some(stop) => offset_within(&rest, stop, content, help.len()),
        None => help.len(),
    };
    let mut out = sub_chars(help, 0, start);
    extend_chars(&mut out, section);
    let tail = sub_chars(help, end, help.len());
    extend_chars(&mut out, &tail);
    assert(out@ =~= help@.take(start as int) + section@ + help@.skip(end as int));
    out
}

/// Replace the Commands section in the help output with a nested version.
pub fn replace_commands_section(
    help: &str,
    cmd: &CommandEntry,
    use_colors: bool,
    styles: &HelpStyles,
) -> (out: String)
    ensures
        out@ == replaced(help@, section_text(*cmd, use_colors, *styles)),
{
    let chars = chars_of(help);
    let section = section_chars(cmd, use_colors, styles);
    let out = replace_section(&chars, &section);
    string_of(&out)
}

/// `Itertools::join`: the items in a row, each as it is displayed, with
/// `sep` between each two; nothing for no items.
#[verifier::external_body]
fn join_with(words: &Vec<String>, sep: &str) -> (text: String)
    ensures
        text@ == joined(texts(words@), sep@),
{
    words.iter().join(sep)
}

/// Whether the command goes by `word`: it is its name or one of its
/// aliases.
pub open spec fn goes_by(entry: CommandEntry, word: Seq<char>) -> bool {
    entry.name@ == word || exists|i: int|
        0 <= i < entry.aliases.len() && (#[trigger] entry.aliases[i])@ == word
}

/// The place of the first of `entries` at or behind `from` that goes by
/// `word`, or -1.
pub open spec fn subcommand_place(entries: Seq<CommandEntry>, word: Seq<char>, from: nat) -> int
    decreases entries.len() - from,
{
    if from >= entries.len() {
        -1
    } else if goes_by(entries[from as int], word) {
        from as int
    } else {
        subcommand_place(entries, word, from + 1)
    }
}

/// How far the words of `query` from place `from` on lead down from `cmd`:
/// how many words have named a subcommand in turn, and the command that the
/// last of them named.
pub open spec fn descend(cmd: CommandEntry, query: Seq<Seq<char>>, from: nat) -> (
    nat,
    CommandEntry,
)
    decreases query.len() - from,
{
    if from >= query.len() {
        (from, cmd)
    } else {
        let at = subcommand_place(cmd.subcommands@, query[from as int], 0);
        if at < 0 || at >= cmd.subcommands.len() {
            (from, cmd)
        } else {
            descend(cmd.subcommands@[at], query, from + 1)
        }
    }
}

fn is_called(entry: &CommandEntry, word: &str) -> (res: bool)
    ensures
        res == goes_by(*entry, word@),
{
    if same_text(entry.name.as_str(), word) {
        return true;
    }
    let mut i: usize = 0;
    while i < entry.aliases.len()
        invariant
            i <= entry.aliases.len(),
            entry.name@ != word@,
            forall|k: int| 0 <= k < i ==> (#[trigger] entry.aliases[k])@ != word@,
        decreases entry.aliases.len() - i,
    {
        if same_text(entry.aliases[i].as_str(), word) {
            return true;
        }
        i += 1;
    }
    false
}

/// Find the subcommand whose name or one of whose aliases is `word`.
pub fn find_subcommand<'a>(cmd: &'a CommandEntry, word: &str) -> (found: Option<&'a CommandEntry>)
    ensures
        match found {
            Some(sub) => {
                let at = subcommand_place(cmd.subcommands@, word@, 0);
                0 <= at < cmd.subcommands.len() && *sub == cmd.subcommands[at]
            },
            None => subcommand_place(cmd.subcommands@, word@, 0) == -1,
        },
{
    let mut i: usize = 0;
    while i < cmd.subcommands.len()
        invariant
            i <= cmd.subcommands.len(),
            subcommand_place(cmd.subcommands@, word@, 0) == subcommand_place(
                cmd.subcommands@,
                word@,
                i as nat,
            ),
        decreases cmd.subcommands.len() - i,
    {
        if is_called(&cmd.subcommands[i], word) {
            return Some(&cmd.subcommands[i]);
        }
        i += 1;
    }
    None
}

/// Find the command corresponding to a set of arguments, e.g.,
/// `["pip", "install"]`.
///
/// If the command cannot be found, the nearest command is returned, with the
/// number of words that led to it.
pub fn find_command<'a>(query: &Vec<String>, cmd: &'a CommandEntry) -> (res: Result<
    &'a CommandEntry,
    (usize, &'a CommandEntry),
>)
    ensures
        match res {
            Ok(found) => descend(*cmd, texts(query@), 0) == (query@.len(), *found),
            Err((matched, nearest)) => matched < query@.len() && descend(*cmd, texts(query@), 0)
                == (matched as nat, *nearest),
        },
{
    let mut current = cmd;
    let mut i: usize = 0;
    while i < query.len()
        invariant
            i <= query.len(),
            descend(*cmd, texts(query@), 0) == descend(*current, texts(query@), i as nat),
        decreases query.len() - i,
    {
        assert(texts(query@)[i as int] == query@[i as int]@);
        match find_subcommand(current, query[i].as_str()) {
            Some(sub) => {
                current = sub;
            },
            None => {
                return Err((i, current));
            },
        }
        i += 1;
    }
    Ok(current)
}

/// The names of the visible `entries`, but `help`.
pub open spec fn offered(entries: Seq<CommandEntry>) -> Seq<Seq<char>>
    decreases entries.len(),
{
    if entries.len() == 0 {
        Seq::empty()
    } else if entries.last().hidden || entries.last().name@ == "help"@ {
        offered(entries.drop_last())
    } else {
        offered(entries.drop_last()).push(entries.last().name@)
    }
}

/// What the user is told where the first `matched` words of `query` led to
/// `nearest` and the next names none of its subcommands.
pub open spec fn missing_text(query: Seq<Seq<char>>, matched: nat, nearest: CommandEntry) -> Seq<
    char,
> {
    let missing = if matched == 0 {
        "`"@ + joined(query, " "@) + "` for `uv`"@
    } else {
        "`"@ + joined(query.skip(matched as int), " "@) + "` for `uv "@ + nearest.name@ + "`"@
    };
    "There is no command "@ + missing + ". Did you mean one of:\n    "@ + joined(
        offered(nearest.subcommands@),
        "\n    "@,
    )
}

/// What the user is told where no command goes by the words asked for.
pub fn missing_command_message(query: &Vec<String>, matched: usize, nearest: &CommandEntry) -> (text:
    String)
    requires
        matched <= query.len(),
    ensures
        text@ == missing_text(texts(query@), matched as nat, *nearest),
{
    let mut names: Vec<String> = Vec::new();
    let mut i: usize = 0;
    while i < nearest.subcommands.len()
        invariant
            i <= nearest.subcommands.len(),
            texts(names@) == offered(nearest.subcommands@.take(i as int)),
        decreases nearest.subcommands.len() - i,
    {
        assert(nearest.subcommands@.take(i + 1).drop_last() =~= nearest.subcommands@.take(
            i as int,
        ));
        let sub = &nearest.subcommands[i];
        let ghost before = texts(names@);
        if !sub.hidden && !same_text(sub.name.as_str(), "help") {
            names.push(sub.name.clone());
            assert(texts(names@) =~= before.push(sub.name@));
        }
        i += 1;
    }
    assert(nearest.subcommands@.take(nearest.subcommands.len() as int) =~= nearest.subcommands@);
    let mut text = String::from_str("There is no command ");
    text.append("`");
    if matched == 0 {
        let asked = join_words(query, " ");
        text.append(asked.as_str());
        text.append("` for `uv`");
    } else {
        let mut unmatched: Vec<String> = Vec::new();
        let mut k: usize = matched;
        while k < query.len()
            invariant
                matched <= k <= query.len(),
                texts(unmatched@) == texts(query@).subrange(matched as int, k as int),
            decreases query.len() - k,
        {
            let ghost before = texts(unmatched@);
            unmatched.push(query[k].clone());
            assert(texts(unmatched@) =~= before.push(query@[k as int]@));
            assert(texts(query@).subrange(matched as int, k + 1) =~= texts(query@).subrange(
                matched as int,
                k as int,
            ).push(query@[k as int]@));
            k += 1;
        }
        assert(texts(query@).subrange(matched as int, query.len() as int) =~= texts(
            query@,
        ).skip(matched as int));
        let asked = join_words(&unmatched, " ");
        text.append(asked.as_str());
        text.append("` for `uv ");
        text.append(nearest.name.as_str());
        text.append("`");
    }
    text.append(". Did you mean one of:\n    ");
    let list = join_with(&names, "\n    ");
    text.append(list.as_str());
    assert(text@ =~= missing_text(texts(query@), matched as nat, *nearest));
    text
}

} // verus!
