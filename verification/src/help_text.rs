//! The text of help pages: colour codes are looked through, and the notes on
//! environment variables are moved to lines of their own.

use vstd::prelude::*;
use crate::text::{
    blank, chars_of, extend_chars, find_from, first_place, is_blank, is_space, space, string_of,
    sub_chars,
};

verus! {

/// Where a reader stands in a text with colour codes.
#[derive(Debug, Clone, Copy, PartialEq, Eq, Structural)]
pub enum Scan {
    /// In plain text.
    Text,
    /// Behind an escape character.
    Escape,
    /// Inside a colour code, behind the escape character and `[`.
    Code,
}

/// Whether `c` is a letter of the ASCII alphabet. A letter ends a code.
pub open spec fn is_letter(c: char) -> bool {
    ('a' <= c && c <= 'z') || ('A' <= c && c <= 'Z')
}

/// Where the reader stands behind `c`. An escape character starts a code if
/// `[` follows; alone it is dropped. A code goes up to its first letter.
pub open spec fn scan_step(state: Scan, c: char) -> Scan {
    match state {
        Scan::Code => if is_letter(c) {
            Scan::Text
        } else {
            Scan::Code
        },
        Scan::Escape => if c == '[' {
            Scan::Code
        } else if c == '\x1b' {
            Scan::Escape
        } else {
            Scan::Text
        },
        Scan::Text => if c == '\x1b' {
            Scan::Escape
        } else {
            Scan::Text
        },
    }
}

/// Whether `c`, read at `state`, belongs to the plain text.
pub open spec fn is_plain(state: Scan, c: char) -> bool {
    match state {
        Scan::Code => false,
        Scan::Escape => c != '[' && c != '\x1b',
        Scan::Text => c != '\x1b',
    }
}

/// Where the reader stands behind the whole of `s`.
pub open spec fn scan(s: Seq<char>) -> Scan
    decreases s.len(),
{
    if s.len() == 0 {
        Scan::Text
    } else {
        scan_step(scan(s.drop_last()), s.last())
    }
}

/// The plain text of `s`: what is left without its colour codes.
pub open spec fn stripped(s: Seq<char>) -> Seq<char>
    decreases s.len(),
{
    if s.len() == 0 {
        Seq::empty()
    } else if is_plain(scan(s.drop_last()), s.last()) {
        stripped(s.drop_last()).push(s.last())
    } else {
        stripped(s.drop_last())
    }
}

/// The plain text of a text starts with the plain text of each of its
/// beginnings.
pub proof fn plain_text_grows(s: Seq<char>, n: int)
    requires
        0 <= n <= s.len(),
    ensures
        stripped(s.take(n)).is_prefix_of(stripped(s)),
    decreases s.len() - n,
{
    if n == s.len() {
        assert(s.take(n) =~= s);
    } else {
        plain_text_grows(s, n + 1);
        let longer = s.take(n + 1);
        assert(longer.drop_last() =~= s.take(n));
    }
}

fn letter(c: char) -> (res: bool)
    ensures
        res == is_letter(c),
{
    ('a' <= c && c <= 'z') || ('A' <= c && c <= 'Z')
}

fn step(state: Scan, c: char) -> (next: (Scan, bool))
    ensures
        next.0 == scan_step(state, c),
        next.1 == is_plain(state, c),
{
    match state {
        Scan::Code => if letter(c) {
            (Scan::Text, false)
        } else {
            (Scan::Code, false)
        },
        Scan::Escape => if c == '[' {
            (Scan::Code, false)
        } else if c == '\x1b' {
            (Scan::Escape, false)
        } else {
            (Scan::Text, true)
        },
        Scan::Text => if c == '\x1b' {
            (Scan::Escape, false)
        } else {
            (Scan::Text, true)
        },
    }
}

/// The plain text of `s`.
pub fn strip_chars(s: &Vec<char>) -> (out: Vec<char>)
    ensures
        out@ == stripped(s@),
{
    let mut out: Vec<char> = Vec::new();
    let mut state = Scan::Text;
    let mut i: usize = 0;
    while i < s.len()
        invariant
            i <= s.len(),
            state == scan(s@.take(i as int)),
            out@ == stripped(s@.take(i as int)),
        decreases s.len() - i,
    {
        let next = step(state, s[i]);
        assert(s@.take(i + 1).drop_last() =~= s@.take(i as int));
        if next.1 {
            out.push(s[i]);
        }
        state = next.0;
        i += 1;
    }
    assert(s@.take(s.len() as int) =~= s@);
    out
}

/// Strip ANSI escape codes from a string for comparison purposes.
pub fn strip_ansi_codes(s: &str) -> (out: String)
    ensures
        out@ == stripped(s@),
{
    let chars = chars_of(s);
    let plain = strip_chars(&chars);
    string_of(&plain)
}

/// The first character of the plain text of `s`, if it has any.
pub open spec fn first_plain(s: Seq<char>) -> Option<char> {
    if stripped(s).len() > 0 {
        Some(stripped(s)[0])
    } else {
        None
    }
}

/// The first character of `s` at or behind place `start` that belongs to
/// no colour code.
pub fn first_plain_char(s: &Vec<char>, start: usize) -> (found: Option<char>)
    requires
        start <= s.len(),
    ensures
        found == first_plain(s@.skip(start as int)),
{
    let ghost rest = s@.skip(start as int);
    let mut state = Scan::Text;
    let mut i: usize = start;
    while i < s.len()
        invariant
            start <= i <= s.len(),
            rest == s@.skip(start as int),
            state == scan(rest.take(i - start)),
            stripped(rest.take(i - start)).len() == 0,
        decreases s.len() - i,
    {
        let next = step(state, s[i]);
        proof {
            assert(rest[i - start] == s@[i as int]);
            assert(rest.take(i - start + 1).drop_last() =~= rest.take(i - start));
            plain_text_grows(rest, i - start + 1);
        }
        if next.1 {
            proof {
                let upto = rest.take(i - start + 1);
                assert(upto.last() == s@[i as int]);
                assert(stripped(upto) == stripped(upto.drop_last()).push(upto.last()));
                assert(stripped(upto)[0] == s@[i as int]);
                assert(stripped(rest)[0] == stripped(upto)[0]);
            }
            return Some(s[i]);
        }
        state = next.0;
        i += 1;
    }
    assert(rest.take(rest.len() as int) =~= rest);
    None
}

/// Get the first non-ANSI character starting at a given position, counted in
/// characters.
///
/// Returns `None` if the rest of the string is empty or only contains ANSI
/// sequences.
pub fn first_non_ansi_char(s: &str, start: usize) -> (found: Option<char>)
    requires
        start <= s@.len(),
    ensures
        found == first_plain(s@.skip(start as int)),
{
    let chars = chars_of(s);
    first_plain_char(&chars, start)
}

/// Whether `s` is made of capital letters and `_` alone, as the name of an
/// environment variable is.
pub open spec fn is_variable_name(s: Seq<char>) -> bool {
    forall|i: int| 0 <= i < s.len() ==> ('A' <= #[trigger] s[i] && s[i] <= 'Z') || s[i] == '_'
}

/// The note on an environment variable that stands in `line`, and the line
/// without it. The note is ` [env: NAME=]`, looked for at its first ` [env: `
/// and the first `=]` behind that; it is taken without its leading space.
/// There is none where the name is no variable's name, or where the line
/// holds nothing but the note and white space.
pub open spec fn env_note(line: Seq<char>) -> Option<(Seq<char>, Seq<char>)> {
    let start = first_place(line, " [env: "@, 0);
    let name_at = start + " [env: "@.len();
    let end = first_place(line, "=]"@, name_at);
    let note_end = end + "=]"@.len();
    if start < 0 || end < 0 {
        None
    } else if !is_variable_name(line.subrange(name_at, end)) {
        None
    } else if is_blank(line.subrange(0, start) + line.subrange(note_end, line.len() as int)) {
        None
    } else {
        Some(
            (
                line.subrange(start + 1, note_end),
                line.subrange(0, start) + line.subrange(note_end, line.len() as int),
            ),
        )
    }
}

fn variable_name(s: &Vec<char>) -> (res: bool)
    ensures
        res == is_variable_name(s@),
{
    let mut i: usize = 0;
    while i < s.len()
        invariant
            i <= s.len(),
            forall|k: int| 0 <= k < i ==> ('A' <= #[trigger] s@[k] && s@[k] <= 'Z') || s@[k] == '_',
        decreases s.len() - i,
    {
        let c = s[i];
        if !(('A' <= c && c <= 'Z') || c == '_') {
            return false;
        }
        i += 1;
    }
    true
}

/// The note on an environment variable that stands in `line`, and the line
/// without it.
pub fn extract_note(line: &Vec<char>) -> (found: Option<(Vec<char>, Vec<char>)>)
    ensures
        match found {
            Some((note, rest)) => env_note(line@) == Some((note@, rest@)),
            None => env_note(line@) is None,
        },
{
    let opening = chars_of(" [env: ");
    let closing = chars_of("=]");
    proof {
        reveal_strlit(" [env: ");
        reveal_strlit("=]");
    }
    let start = match find_from(line, &opening, 0) {
        Some(start) => start,
        None => {
            return None;
        },
    };
    let name_at = start + opening.len();
    let end = match find_from(line, &closing, name_at) {
        Some(end) => end,
        None => {
            return None;
        },
    };
    let name = sub_chars(line, name_at, end);
    if !variable_name(&name) {
        return None;
    }
    let note_end = end + closing.len();
    let note = sub_chars(line, start + 1, note_end);
    let mut rest = sub_chars(line, 0, start);
    let behind = sub_chars(line, note_end, line.len());
    extend_chars(&mut rest, &behind);
    if blank(&rest) {
        return None;
    }
    Some((note, rest))
}

/// Extract an inline `[env: VAR=]` annotation from a line.
///
/// Returns the annotation and the line with the annotation removed, or `None`
/// if no annotation is found.
pub fn extract_env_annotation(line: &str) -> (found: Option<(String, String)>)
    ensures
        match found {
            Some((note, rest)) => env_note(line@) == Some((note@, rest@)),
            None => env_note(line@) is None,
        },
{
    let chars = chars_of(line);
    match extract_note(&chars) {
        Some((note, rest)) => Some((string_of(&note), string_of(&rest))),
        None => None,
    }
}

/// A line without the carriage return at its end, if it has one.
pub open spec fn chomp(line: Seq<char>) -> Seq<char> {
    if line.len() > 0 && line.last() == '\r' {
        line.drop_last()
    } else {
        line
    }
}

/// What stands in `s` behind its last line feed.
pub open spec fn open_line(s: Seq<char>) -> Seq<char>
    decreases s.len(),
{
    if s.len() == 0 || s.last() == '\n' {
        Seq::empty()
    } else {
        open_line(s.drop_last()).push(s.last())
    }
}

/// The lines of `s` that a line feed ends, each without its line feed and
/// without a carriage return before that.
pub open spec fn closed_lines(s: Seq<char>) -> Seq<Seq<char>>
    decreases s.len(),
{
    if s.len() == 0 {
        Seq::empty()
    } else if s.last() == '\n' {
        closed_lines(s.drop_last()).push(chomp(open_line(s.drop_last())))
    } else {
        closed_lines(s.drop_last())
    }
}

/// The lines of `s`: those that a line feed ends, and what stands behind the
/// last line feed if anything does.
pub open spec fn lines_of(s: Seq<char>) -> Seq<Seq<char>> {
    if open_line(s).len() > 0 {
        closed_lines(s).push(open_line(s))
    } else {
        closed_lines(s)
    }
}

/// The lines of `s`.
pub fn split_lines(s: &Vec<char>) -> (lines: Vec<Vec<char>>)
    ensures
        lines.len() == lines_of(s@).len(),
        forall|k: int| 0 <= k < lines.len() ==> (#[trigger] lines[k])@ == lines_of(s@)[k],
{
    let mut lines: Vec<Vec<char>> = Vec::new();
    let mut current: Vec<char> = Vec::new();
    let mut i: usize = 0;
    while i < s.len()
        invariant
            i <= s.len(),
            current@ == open_line(s@.take(i as int)),
            lines.len() == closed_lines(s@.take(i as int)).len(),
            forall|k: int|
                0 <= k < lines.len() ==> (#[trigger] lines[k])@ == closed_lines(
                    s@.take(i as int),
                )[k],
        decreases s.len() - i,
    {
        assert(s@.take(i + 1).drop_last() =~= s@.take(i as int));
        if s[i] == '\n' {
            if current.len() > 0 && current[current.len() - 1] == '\r' {
                current.pop();
            }
            lines.push(current);
            current = Vec::new();
        } else {
            current.push(s[i]);
        }
        i += 1;
    }
    assert(s@.take(s.len() as int) =~= s@);
    if current.len() > 0 {
        lines.push(current);
    }
    lines
}

/// How many bytes `c` takes in UTF-8.
pub open spec fn utf8_len(c: char) -> nat {
    if c <= '\u{7f}' {
        1
    } else if c <= '\u{7ff}' {
        2
    } else if c <= '\u{ffff}' {
        3
    } else {
        4
    }
}

/// How many characters of white space `line` starts with.
pub open spec fn leading_spaces(line: Seq<char>) -> nat
    decreases line.len(),
{
    if line.len() == 0 || !is_space(line[0]) {
        0
    } else {
        1 + leading_spaces(line.drop_first())
    }
}

/// How many bytes the first `count` characters of `line` take in UTF-8.
pub open spec fn width(line: Seq<char>, count: nat) -> nat
    decreases count,
{
    if count == 0 || count > line.len() {
        0
    } else {
        width(line, (count - 1) as nat) + utf8_len(line[count - 1])
    }
}

/// The indent of a line: how many bytes of white space it starts with.
pub open spec fn indent_of(line: Seq<char>) -> nat {
    width(line, leading_spaces(line))
}

/// The white space at the start of `line` goes on as long as the characters
/// are white space.
proof fn leading_spaces_go_on(line: Seq<char>, n: int)
    requires
        0 <= n <= line.len(),
        forall|k: int| 0 <= k < n ==> is_space(#[trigger] line[k]),
    ensures
        leading_spaces(line) == n + leading_spaces(line.skip(n)),
    decreases n,
{
    if n == 0 {
        assert(line.skip(0) =~= line);
    } else {
        let rest = line.drop_first();
        assert forall|k: int| 0 <= k < n - 1 implies is_space(#[trigger] rest[k]) by {
            assert(rest[k] == line[k + 1]);
        }
        assert(is_space(line[0]));
        leading_spaces_go_on(rest, n - 1);
        assert(rest.skip(n - 1) =~= line.skip(n));
    }
}

fn char_len(c: char) -> (len: usize)
    ensures
        len == utf8_len(c),
{
    if c <= '\u{7f}' {
        1
    } else if c <= '\u{7ff}' {
        2
    } else if c <= '\u{ffff}' {
        3
    } else {
        4
    }
}

/// How many characters of white space `line` starts with, and its indent as
/// far as it matters: an indent above ten is given as some number above ten.
fn measure_indent(line: &Vec<char>) -> (res: (usize, usize))
    ensures
        res.0 == leading_spaces(line@),
        res.0 <= line.len(),
        indent_of(line@) <= 10 ==> res.1 == indent_of(line@),
        indent_of(line@) > 10 ==> res.1 > 10,
{
    let mut count: usize = 0;
    let mut bytes: usize = 0;
    while count < line.len() && space(line[count])
        invariant
            count <= line.len(),
            forall|k: int| 0 <= k < count ==> is_space(#[trigger] line@[k]),
            width(line@, count as nat) <= 10 ==> bytes == width(line@, count as nat),
            width(line@, count as nat) > 10 ==> 10 < bytes <= 14,
            bytes <= 14,
        decreases line.len() - count,
    {
        if bytes <= 10 {
            bytes = bytes + char_len(line[count]);
        }
        count += 1;
    }
    proof {
        leading_spaces_go_on(line@, count as int);
        let rest = line@.skip(count as int);
        if rest.len() > 0 {
            assert(rest[0] == line@[count as int]);
        }
        assert(leading_spaces(rest) == 0);
    }
    (count, bytes)
}

/// `r` without the line feeds at its end but one.
pub open spec fn squeeze(r: Seq<char>) -> Seq<char>
    decreases r.len(),
{
    if r.len() >= 2 && r[r.len() - 1] == '\n' && r[r.len() - 2] == '\n' {
        squeeze(r.drop_last())
    } else {
        r
    }
}

/// `r` with a line feed at its end, added where it has none.
pub open spec fn with_break(r: Seq<char>) -> Seq<char> {
    if r.len() > 0 && r.last() == '\n' {
        r
    } else {
        r.push('\n')
    }
}

/// The text `r` with the note `env` put on a line of its own at its end:
/// behind exactly one empty line, indented by ten spaces, and followed by
/// `tail`.
pub open spec fn flushed(r: Seq<char>, env: Seq<char>, tail: Seq<char>) -> Seq<char> {
    with_break(squeeze(r)).push('\n') + "          "@ + env + tail
}

/// What a line is, by its indent and first character: an argument stands
/// six deep and starts with `-` or `<`, a heading stands at the margin and
/// ends with `:`, a description stands ten deep.
pub struct LineKind {
    /// The line names an argument.
    pub argument: bool,
    /// The line heads a section.
    pub heading: bool,
    /// The line describes an argument.
    pub description: bool,
}

/// What `line` is.
pub open spec fn kind_of(line: Seq<char>) -> LineKind {
    let first = first_plain(line.skip(leading_spaces(line) as int));
    LineKind {
        argument: indent_of(line) == 6 && (first == Some('-') || first == Some('<')),
        heading: indent_of(line) == 0 && line.len() > 0 && line.last() == ':',
        description: indent_of(line) == 10,
    }
}

/// The text so far and the note that waits to be put on its own line.
pub struct Page {
    /// The text so far.
    pub text: Seq<char>,
    /// The note that waits, if one does.
    pub waiting: Option<Seq<char>>,
}

/// The page with the waiting note, if any, put at its end, followed by
/// `tail`.
pub open spec fn settle(page: Page, tail: Seq<char>) -> Page {
    match page.waiting {
        Some(env) => Page { text: flushed(page.text, env, tail), waiting: None },
        None => page,
    }
}

/// A description line without its note, closed with a full stop where it
/// ends with neither a full stop nor a colon.
pub open spec fn closed_sentence(rest: Seq<char>) -> Seq<char> {
    if rest.len() > 0 && (rest.last() == '.' || rest.last() == ':') {
        rest
    } else {
        rest.push('.')
    }
}

/// The page after `line`: a new argument or heading first settles the note
/// that waits; a description with a note goes in without it, and the note
/// waits; any other line goes in as it is.
pub open spec fn add_line(page: Page, line: Seq<char>) -> Page {
    let kind = kind_of(line);
    let before = if kind.argument || kind.heading {
        settle(page, "\n\n"@)
    } else {
        page
    };
    if kind.description && env_note(line) is Some {
        Page {
            text: before.text + closed_sentence(env_note(line).unwrap().1).push('\n'),
            waiting: Some(env_note(line).unwrap().0),
        }
    } else {
        Page { text: (before.text + line).push('\n'), waiting: before.waiting }
    }
}

/// The page after the first `count` of `lines`.
pub open spec fn page_of(lines: Seq<Seq<char>>, count: nat) -> Page
    decreases count,
{
    if count == 0 || count > lines.len() {
        Page { text: Seq::empty(), waiting: None }
    } else {
        add_line(page_of(lines, (count - 1) as nat), lines[count - 1])
    }
}

/// A help page with each inline note on an environment variable moved to a
/// line of its own at the end of the description it stood in.
pub open spec fn reformatted(help: Seq<char>) -> Seq<char> {
    let lines = lines_of(help);
    let text = settle(page_of(lines, lines.len()), "\n"@).text;
    if text.len() > 0 && text.last() == '\n' {
        text.drop_last()
    } else {
        text
    }
}

/// Takes the line feeds at the end of `r` away, but one.
fn squeeze_breaks(r: &mut Vec<char>)
    ensures
        final(r)@ == squeeze(old(r)@),
{
    while r.len() >= 2 && r[r.len() - 1] == '\n' && r[r.len() - 2] == '\n'
        invariant
            squeeze(r@) == squeeze(old(r)@),
        decreases r.len(),
    {
        r.pop();
    }
}

/// Puts the note `env` on a line of its own at the end of `r`, followed by
/// one line feed, or by two with `spaced`.
fn flush(r: &mut Vec<char>, env: &Vec<char>, spaced: bool)
    ensures
        final(r)@ == flushed(
            old(r)@,
            env@,
            if spaced {
                "\n\n"@
            } else {
                "\n"@
            },
        ),
{
    proof {
        reveal_strlit("\n\n");
        reveal_strlit("\n");
    }
    squeeze_breaks(r);
    if !(r.len() > 0 && r[r.len() - 1] == '\n') {
        r.push('\n');
    }
    r.push('\n');
    let margin = chars_of("          ");
    extend_chars(r, &margin);
    extend_chars(r, env);
    let ghost noted = r@;
    r.push('\n');
    if spaced {
        r.push('\n');
        assert(r@ =~= noted + "\n\n"@);
    } else {
        assert(r@ =~= noted + "\n"@);
    }
}

/// What `line` is.
fn line_kind(line: &Vec<char>) -> (kind: LineKind)
    ensures
        kind == kind_of(line@),
{
    let measured = measure_indent(line);
    let first = first_plain_char(line, measured.0);
    let starts = match first {
        Some(c) => c == '-' || c == '<',
        None => false,
    };
    LineKind {
        argument: measured.1 == 6 && starts,
        heading: measured.1 == 0 && line.len() > 0 && line[line.len() - 1] == ':',
        description: measured.1 == 10,
    }
}

/// A help page with each inline note on an environment variable moved to a
/// line of its own.
pub fn reformat_chars(help: &Vec<char>) -> (out: Vec<char>)
    ensures
        out@ == reformatted(help@),
{
    let lines = split_lines(help);
    let ghost all = lines_of(help@);
    let mut text: Vec<char> = Vec::new();
    let mut waiting: Option<Vec<char>> = None;
    let mut i: usize = 0;
    while i < lines.len()
        invariant
            i <= lines.len(),
            lines.len() == all.len(),
            forall|k: int| 0 <= k < lines.len() ==> (#[trigger] lines[k])@ == all[k],
            text@ == page_of(all, i as nat).text,
            match waiting {
                Some(env) => page_of(all, i as nat).waiting == Some(env@),
                None => page_of(all, i as nat).waiting is None,
            },
        decreases lines.len() - i,
    {
        let line = &lines[i];
        assert(line@ == all[i as int]);
        let kind = line_kind(line);
        if kind.argument || kind.heading {
            match waiting {
                Some(env) => {
                    flush(&mut text, &env, true);
                    waiting = None;
                },
                None => {},
            }
        }
        let note = if kind.description {
            extract_note(line)
        } else {
            None
        };
        match note {
            Some((env, rest)) => {
                let ghost before = text@;
                extend_chars(&mut text, &rest);
                if !(rest.len() > 0 && (rest[rest.len() - 1] == '.' || rest[rest.len() - 1]
                    == ':')) {
                    text.push('.');
                }
                text.push('\n');
                assert(text@ =~= before + closed_sentence(rest@).push('\n'));
                waiting = Some(env);
            },
            None => {
                let ghost before = text@;
                extend_chars(&mut text, line);
                text.push('\n');
                assert(text@ =~= (before + line@).push('\n'));
            },
        }
        i += 1;
    }
    match waiting {
        Some(env) => {
            flush(&mut text, &env, false);
        },
        None => {},
    }
    if text.len() > 0 && text[text.len() - 1] == '\n' {
        text.pop();
    }
    text
}

/// Reformat `[env: VAR=]` annotations in long help output.
///
/// Moves inline `[env: VAR=]` annotations to their own line at the end of
/// each argument's description.
pub fn reformat_env_annotations(help: &str) -> (out: String)
    ensures
        out@ == reformatted(help@),
{
    let chars = chars_of(help);
    let text = reformat_chars(&chars);
    string_of(&text)
}

} // verus!
