//! What a tool is asked for by: a bare package name, a name with a version
//! behind `@`, or anything else, which is then read as a requirement.
//!
//! Whether a name, an extra or a version is well formed is decided
//! elsewhere. The text is taken apart first; once its parts have been
//! checked, the target is put together.

use vstd::prelude::*;
use vstd::string::StringExecFns;
use crate::text::{
    chars_of, find_from, first_place, is_space, same_text, space, string_of, sub_chars, texts,
};

verus! {

/// `s` without the white space at its end.
pub open spec fn trim_end(s: Seq<char>) -> Seq<char>
    decreases s.len(),
{
    if s.len() > 0 && is_space(s.last()) {
        trim_end(s.drop_last())
    } else {
        s
    }
}

/// `s` without the white space at its start.
pub open spec fn trim_start(s: Seq<char>) -> Seq<char>
    decreases s.len(),
{
    if s.len() > 0 && is_space(s[0]) {
        trim_start(s.drop_first())
    } else {
        s
    }
}

/// `s` without the white space at its start and at its end.
pub open spec fn trimmed(s: Seq<char>) -> Seq<char> {
    trim_end(trim_start(s))
}

/// What stands in `s` behind its last comma.
pub open spec fn open_piece(s: Seq<char>) -> Seq<char>
    decreases s.len(),
{
    if s.len() == 0 || s.last() == ',' {
        Seq::empty()
    } else {
        open_piece(s.drop_last()).push(s.last())
    }
}

/// The extras that a comma ends in `s`: the pieces between commas, each
/// without the white space around it, but the empty ones.
pub open spec fn closed_extras(s: Seq<char>) -> Seq<Seq<char>>
    decreases s.len(),
{
    if s.len() == 0 {
        Seq::empty()
    } else if s.last() == ',' && trimmed(open_piece(s.drop_last())).len() > 0 {
        closed_extras(s.drop_last()).push(trimmed(open_piece(s.drop_last())))
    } else {
        closed_extras(s.drop_last())
    }
}

/// The extras listed in `s`, separated by commas.
pub open spec fn extras_of(s: Seq<char>) -> Seq<Seq<char>> {
    if trimmed(open_piece(s)).len() > 0 {
        closed_extras(s).push(trimmed(open_piece(s)))
    } else {
        closed_extras(s)
    }
}

/// A name and the extras asked of it.
#[derive(Debug)]
pub struct Named {
    /// The name as it was written.
    pub name: String,
    /// The extras as they were written, without the white space around them.
    pub extras: Vec<String>,
}

/// A name, its extras and the version asked for behind `@`.
#[derive(Debug)]
pub struct Pinned {
    /// The name and its extras.
    pub named: Named,
    /// The version as it was written.
    pub version: String,
}

/// A target taken apart.
#[derive(Debug)]
pub struct TargetParts {
    /// The target read as `name[extras]@version`, where it can be.
    pub pinned: Option<Pinned>,
    /// The target read as `name[extras]`, where it can be.
    pub bare: Option<Named>,
}

/// A name with its extras as texts.
pub struct NamedView {
    /// The name.
    pub name: Seq<char>,
    /// The extras.
    pub extras: Seq<Seq<char>>,
}

impl View for Named {
    type V = NamedView;

    open spec fn view(&self) -> NamedView {
        NamedView { name: self.name@, extras: texts(self.extras@) }
    }
}

/// `s` read as a name with extras in square brackets behind it: the name
/// goes up to the first `[`, and the text behind that must end with `]`.
/// Without `[` the whole is the name.
pub open spec fn named_of(s: Seq<char>) -> Option<NamedView> {
    let at = first_place(s, seq!['['], 0);
    if at < 0 {
        Some(NamedView { name: s, extras: Seq::empty() })
    } else if s.len() > at + 1 && s.last() == ']' {
        Some(
            NamedView {
                name: s.subrange(0, at),
                extras: extras_of(s.subrange(at + 1, s.len() - 1)),
            },
        )
    } else {
        None
    }
}

/// `s` read as `name[extras]@version`: the version is what stands behind
/// the first `@` and must not be empty.
pub open spec fn pinned_of(s: Seq<char>) -> Option<(NamedView, Seq<char>)> {
    let at = first_place(s, seq!['@'], 0);
    if at < 0 || at + 1 >= s.len() {
        None
    } else {
        match named_of(s.subrange(0, at)) {
            Some(named) => Some((named, s.subrange(at + 1, s.len() as int))),
            None => None,
        }
    }
}

fn trim_chars(s: &Vec<char>) -> (out: Vec<char>)
    ensures
        out@ == trimmed(s@),
{
    let mut from: usize = 0;
    assert(s@.skip(0) =~= s@);
    while from < s.len() && space(s[from])
        invariant
            from <= s.len(),
            trim_start(s@) == trim_start(s@.skip(from as int)),
        decreases s.len() - from,
    {
        assert(s@.skip(from as int).drop_first() =~= s@.skip(from + 1));
        from += 1;
    }
    let ghost rest = s@.skip(from as int);
    assert(trim_start(s@) == rest) by {
        if rest.len() > 0 {
            assert(rest[0] == s@[from as int]);
        }
    }
    let mut to: usize = s.len();
    assert(s@.subrange(from as int, to as int) =~= rest);
    while to > from && space(s[to - 1])
        invariant
            from <= to <= s.len(),
            trim_end(rest) == trim_end(s@.subrange(from as int, to as int)),
        decreases to,
    {
        assert(s@.subrange(from as int, to as int).drop_last() =~= s@.subrange(
            from as int,
            to - 1,
        ));
        to -= 1;
    }
    sub_chars(s, from, to)
}

fn split_extras(s: &Vec<char>) -> (extras: Vec<String>)
    ensures
        texts(extras@) == extras_of(s@),
{
    let mut extras: Vec<String> = Vec::new();
    let mut piece: Vec<char> = Vec::new();
    let mut i: usize = 0;
    while i < s.len()
        invariant
            i <= s.len(),
            piece@ == open_piece(s@.take(i as int)),
            texts(extras@) == closed_extras(s@.take(i as int)),
        decreases s.len() - i,
    {
        assert(s@.take(i + 1).drop_last() =~= s@.take(i as int));
        if s[i] == ',' {
            let extra = trim_chars(&piece);
            if extra.len() > 0 {
                let ghost before = texts(extras@);
                extras.push(string_of(&extra));
                assert(texts(extras@) =~= before.push(extra@));
            }
            piece = Vec::new();
        } else {
            piece.push(s[i]);
        }
        i += 1;
    }
    assert(s@.take(s.len() as int) =~= s@);
    let extra = trim_chars(&piece);
    if extra.len() > 0 {
        let ghost before = texts(extras@);
        extras.push(string_of(&extra));
        assert(texts(extras@) =~= before.push(extra@));
    }
    extras
}

fn split_named(s: &Vec<char>) -> (res: Option<Named>)
    ensures
        match res {
            Some(named) => named_of(s@) == Some(named@),
            None => named_of(s@) is None,
        },
{
    let mut bracket: Vec<char> = Vec::new();
    bracket.push('[');
    assert(bracket@ =~= seq!['[']);
    match find_from(s, &bracket, 0) {
        None => {
            let extras: Vec<String> = Vec::new();
            assert(texts(extras@) =~= Seq::<Seq<char>>::empty());
            Some(Named { name: string_of(s), extras })
        },
        Some(at) => {
            if s.len() > at + 1 && s[s.len() - 1] == ']' {
                let name = sub_chars(s, 0, at);
                let listed = sub_chars(s, at + 1, s.len() - 1);
                Some(Named { name: string_of(&name), extras: split_extras(&listed) })
            } else {
                None
            }
        },
    }
}

/// Takes a target apart: as a name with a version behind `@`, and as a bare
/// name, each with extras in square brackets where it has any.
pub fn split_target(target: &str) -> (parts: TargetParts)
    ensures
        match parts.pinned {
            Some(pinned) => pinned_of(target@) == Some((pinned.named@, pinned.version@)),
            None => pinned_of(target@) is None,
        },
        match parts.bare {
            Some(named) => named_of(target@) == Some(named@),
            None => named_of(target@) is None,
        },
{
    let chars = chars_of(target);
    let mut at_sign: Vec<char> = Vec::new();
    at_sign.push('@');
    assert(at_sign@ =~= seq!['@']);
    let pinned = match find_from(&chars, &at_sign, 0) {
        None => None,
        Some(at) => {
            if at + 1 >= chars.len() {
                None
            } else {
                let front = sub_chars(&chars, 0, at);
                match split_named(&front) {
                    Some(named) => {
                        let version = sub_chars(&chars, at + 1, chars.len());
                        Some(Pinned { named, version: string_of(&version) })
                    },
                    None => None,
                }
            }
        },
    };
    TargetParts { pinned, bare: split_named(&chars) }
}

/// What checking a name and its extras has found.
#[derive(Debug)]
pub struct Checked {
    /// The package that the name stands for, if the name is one.
    pub package: Option<String>,
    /// The extras in their normal form, if each of them is one.
    pub extras: Option<Vec<String>>,
}

/// What a tool is asked for by.
#[derive(Debug, PartialEq, Eq)]
pub enum Target {
    /// A bare package name, e.g., `ruff` or `flask[dotenv]`.
    Unspecified { name: String, package: String, extras: Vec<String> },
    /// A raw requirement string that needs further parsing, e.g.,
    /// `ruff>=0.6.0` or `./local-path`.
    Requirement(String),
    /// e.g., `ruff[extra]@0.6.0`
    Version { name: String, package: String, extras: Vec<String>, version: String },
    /// e.g., `ruff[extra]@latest`
    Latest { name: String, package: String, extras: Vec<String> },
}

/// A target as texts.
pub enum TargetView {
    /// A bare package name.
    Unspecified { name: Seq<char>, package: Seq<char>, extras: Seq<Seq<char>> },
    /// A raw requirement string.
    Requirement(Seq<char>),
    /// A name with a version.
    Version {
        name: Seq<char>,
        package: Seq<char>,
        extras: Seq<Seq<char>>,
        version: Seq<char>,
    },
    /// A name with `latest`.
    Latest { name: Seq<char>, package: Seq<char>, extras: Seq<Seq<char>> },
}

impl View for Target {
    type V = TargetView;

    open spec fn view(&self) -> TargetView {
        match self {
            Target::Unspecified { name, package, extras } => TargetView::Unspecified {
                name: name@,
                package: package@,
                extras: texts(extras@),
            },
            Target::Requirement(text) => TargetView::Requirement(text@),
            Target::Version { name, package, extras, version } => TargetView::Version {
                name: name@,
                package: package@,
                extras: texts(extras@),
                version: version@,
            },
            Target::Latest { name, package, extras } => TargetView::Latest {
                name: name@,
                package: package@,
                extras: texts(extras@),
            },
        }
    }
}

/// What checking has found, as texts.
pub struct CheckedView {
    /// The package, if the name is one.
    pub package: Option<Seq<char>>,
    /// The extras, if each is one.
    pub extras: Option<Seq<Seq<char>>>,
}

impl View for Checked {
    type V = CheckedView;

    open spec fn view(&self) -> CheckedView {
        CheckedView {
            package: match self.package {
                Some(package) => Some(package@),
                None => None,
            },
            extras: match self.extras {
                Some(extras) => Some(texts(extras@)),
                None => None,
            },
        }
    }
}

/// The target read as a bare name: a package with its extras where the text
/// can be read so and both are well formed, else a requirement.
pub open spec fn bare_target(target: Seq<char>, checked: Option<CheckedView>) -> TargetView {
    match (named_of(target), checked) {
        (Some(named), Some(CheckedView { package: Some(package), extras: Some(extras) })) => {
            TargetView::Unspecified { name: named.name, package, extras }
        },
        _ => TargetView::Requirement(target),
    }
}

/// The target: a name with `@latest` or with a version where the text can be
/// read so and the name, the extras and the version are well formed; else
/// what it is as a bare name. `version` is the version in its normal form,
/// if what stands behind `@` is one.
pub open spec fn target_of(
    target: Seq<char>,
    pinned: Option<CheckedView>,
    version: Option<Seq<char>>,
    bare: Option<CheckedView>,
) -> TargetView {
    match (pinned_of(target), pinned) {
        (
            Some((named, asked)),
            Some(CheckedView { package: Some(package), extras: Some(extras) }),
        ) => {
            if asked == "latest"@ {
                TargetView::Latest { name: named.name, package, extras }
            } else {
                match version {
                    Some(version) => TargetView::Version {
                        name: named.name,
                        package,
                        extras,
                        version,
                    },
                    None => bare_target(target, bare),
                }
            }
        },
        _ => bare_target(target, bare),
    }
}

fn copy_texts(list: &Vec<String>) -> (copy: Vec<String>)
    ensures
        texts(copy@) == texts(list@),
{
    let mut copy: Vec<String> = Vec::new();
    let mut i: usize = 0;
    while i < list.len()
        invariant
            i <= list.len(),
            texts(copy@) == texts(list@).take(i as int),
        decreases list.len() - i,
    {
        let ghost before = texts(copy@);
        copy.push(list[i].clone());
        assert(texts(copy@) =~= before.push(list@[i as int]@));
        assert(texts(list@).take(i + 1) =~= texts(list@).take(i as int).push(list@[i as int]@));
        i += 1;
    }
    assert(texts(list@).take(list.len() as int) =~= texts(list@));
    copy
}

impl Target {
    /// Try to read `target` as a bare package name with optional extras
    /// (e.g., `ruff` or `flask[dotenv]`). Falls back to a requirement for
    /// anything that is no well-formed package name with well-formed extras.
    /// `checked` is what checking its bare name and extras, as
    /// [`split_target`] gives them, has found.
    pub fn parse_bare(target: &str, checked: Option<&Checked>) -> (res: Target)
        ensures
            res@ == bare_target(
                target@,
                match checked {
                    Some(checked) => Some(checked@),
                    None => None,
                },
            ),
    {
        let parts = split_target(target);
        match (&parts.bare, checked) {
            (Some(named), Some(checked)) => match (&checked.package, &checked.extras) {
                (Some(package), Some(extras)) => Target::Unspecified {
                    name: named.name.clone(),
                    package: package.clone(),
                    extras: copy_texts(extras),
                },
                _ => Target::Requirement(String::from_str(target)),
            },
            _ => Target::Requirement(String::from_str(target)),
        }
    }

    /// Reads a target. Its parts are those that [`split_target`] gives:
    /// `pinned` is what checking the name and extras before `@` has found,
    /// `version` the version behind `@` in its normal form if it is one, and
    /// `bare` what checking the bare name and extras has found.
    pub fn parse(
        target: &str,
        pinned: Option<&Checked>,
        version: Option<&str>,
        bare: Option<&Checked>,
    ) -> (res: Target)
        ensures
            res@ == target_of(
                target@,
                match pinned {
                    Some(checked) => Some(checked@),
                    None => None,
                },
                match version {
                    Some(version) => Some(version@),
                    None => None,
                },
                match bare {
                    Some(checked) => Some(checked@),
                    None => None,
                },
            ),
    {
        let parts = split_target(target);
        match (&parts.pinned, pinned) {
            (Some(asked), Some(checked)) => match (&checked.package, &checked.extras) {
                (Some(package), Some(extras)) => {
                    if same_text(asked.version.as_str(), "latest") {
                        Target::Latest {
                            name: asked.named.name.clone(),
                            package: package.clone(),
                            extras: copy_texts(extras),
                        }
                    } else {
                        match version {
                            Some(version) => Target::Version {
                                name: asked.named.name.clone(),
                                package: package.clone(),
                                extras: copy_texts(extras),
                                version: String::from_str(version),
                            },
                            None => Target::parse_bare(target, bare),
                        }
                    }
                },
                _ => Target::parse_bare(target, bare),
            },
            _ => Target::parse_bare(target, bare),
        }
    }

    /// Convert an unspecified target to the latest; any other stays as it
    /// is.
    pub fn into_latest(self) -> (res: Target)
        ensures
            res@ == (match self@ {
                TargetView::Unspecified { name, package, extras } => TargetView::Latest {
                    name,
                    package,
                    extras,
                },
                other => other,
            }),
    {
        match self {
            Target::Unspecified { name, package, extras } => Target::Latest {
                name,
                package,
                extras,
            },
            other => other,
        }
    }
}

/// A request to run or install a tool (e.g., `uvx ruff@latest`).
#[derive(Debug, PartialEq, Eq)]
pub enum ToolRequest {
    /// Running the interpreter directly, e.g. `uvx python` or `uvx pypy@3.8`.
    Python { executable: Option<String>, request: String },
    /// Running a Python package.
    Package { executable: Option<String>, target: Target },
}

impl ToolRequest {
    /// What of a command line is read, and the executable it names: with
    /// `--from`, the command is an arbitrary program and `--from` is read;
    /// without, the command is read and names no executable.
    pub fn component<'a>(command: &'a str, from: Option<&'a str>) -> (res: (
        &'a str,
        Option<&'a str>,
    ))
        ensures
            res == (match from {
                Some(from) => (from, Some(command)),
                None => (command, None),
            }),
    {
        match from {
            Some(from) => (from, Some(command)),
            None => (command, None),
        }
    }

    /// The request: for the interpreter where what was read names one, for
    /// a package otherwise.
    pub fn parse(executable: Option<String>, python: Option<String>, target: Target) -> (res:
        ToolRequest)
        ensures
            res == (match python {
                Some(request) => ToolRequest::Python { executable, request },
                None => ToolRequest::Package { executable, target },
            }),
    {
        match python {
            Some(request) => ToolRequest::Python { executable, request },
            None => ToolRequest::Package { executable, target },
        }
    }

    /// Returns `true` if the target is `latest`.
    pub fn is_latest(&self) -> (res: bool)
        ensures
            res == (*self matches ToolRequest::Package { target, .. } && target is Latest),
    {
        match self {
            ToolRequest::Package { target, .. } => matches!(target, Target::Latest { .. }),
            _ => false,
        }
    }

    /// Convert an unspecified target to the latest.
    pub fn into_latest(self) -> (res: ToolRequest)
        ensures
            match self {
                ToolRequest::Package { executable, target } => res matches ToolRequest::Package {
                    executable: kept,
                    target: turned,
                } && kept == executable && turned@ == (match target@ {
                    TargetView::Unspecified { name, package, extras } => TargetView::Latest {
                        name,
                        package,
                        extras,
                    },
                    other => other,
                }),
                other => res == other,
            },
    {
        match self {
            ToolRequest::Package { executable, target } => ToolRequest::Package {
                executable,
                target: target.into_latest(),
            },
            other => other,
        }
    }
}

} // verus!
