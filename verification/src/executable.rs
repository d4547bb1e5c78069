//! Which files are worth hard-linking rather than cloning on macOS, and which
//! file is the wheel's `RECORD`.
//!
//! macOS caches the verification of a code signature per inode. A clone gets
//! a new inode, so a cloned library is verified again on first use; a hard
//! link shares the inode of the cached original. Native libraries and Mach-O
//! binaries are therefore hard-linked. This only saves time: nothing depends
//! on it for correctness.

use vstd::prelude::*;
use crate::extraction::{Entry, EntryKind};
use crate::text::{chars_of, same_chars, sub_chars};

verus! {

/// The place of the last `c` in `s`, or -1 if there is none.
pub open spec fn last_place(s: Seq<char>, c: char) -> int
    decreases s.len(),
{
    if s.len() == 0 {
        -1
    } else if s.last() == c {
        s.len() - 1
    } else {
        last_place(s.drop_last(), c)
    }
}

/// The last part of a path: what stands behind its last `/`.
pub open spec fn file_name(path: Seq<char>) -> Seq<char> {
    path.skip(last_place(path, '/') + 1)
}

/// The extension of a file name: what stands behind its last `.`, unless
/// there is none, the only one is the name's first character, or the name is
/// `..`.
pub open spec fn extension(name: Seq<char>) -> Option<Seq<char>> {
    if last_place(name, '.') <= 0 || name == ".."@ {
        None
    } else {
        Some(name.skip(last_place(name, '.') + 1))
    }
}

/// What a file's extension says of it.
#[derive(Debug, Clone, Copy, PartialEq, Eq, Structural)]
pub enum ByExtension {
    /// A dynamic library or shared object.
    Executable,
    /// Anything else that has an extension.
    NotExecutable,
    /// Nothing, for want of an extension: the content decides.
    Unknown,
}

/// What an extension says: `dylib` and `so` are executables, any other
/// extension is none. Only a name without extension leaves it open.
pub open spec fn by_extension(ext: Option<Seq<char>>) -> ByExtension {
    match ext {
        None => ByExtension::Unknown,
        Some(e) => if e == "dylib"@ || e == "so"@ {
            ByExtension::Executable
        } else {
            ByExtension::NotExecutable
        },
    }
}

/// Whether four bytes are one of the Mach-O magic numbers: a 32-bit or
/// 64-bit binary or a universal binary, in either byte order.
pub open spec fn is_magic(b0: u8, b1: u8, b2: u8, b3: u8) -> bool {
    ||| (b0 == 0xFE && b1 == 0xED && b2 == 0xFA && b3 == 0xCE)
    ||| (b0 == 0xCE && b1 == 0xFA && b2 == 0xED && b3 == 0xFE)
    ||| (b0 == 0xFE && b1 == 0xED && b2 == 0xFA && b3 == 0xCF)
    ||| (b0 == 0xCF && b1 == 0xFA && b2 == 0xED && b3 == 0xFE)
    ||| (b0 == 0xCA && b1 == 0xFE && b2 == 0xBA && b3 == 0xBE)
    ||| (b0 == 0xBE && b1 == 0xBA && b2 == 0xFE && b3 == 0xCA)
}

/// Whether a file's content starts with a Mach-O magic number. A file of
/// fewer than four bytes does not.
pub open spec fn starts_with_magic(content: Seq<u8>) -> bool {
    content.len() >= 4 && is_magic(content[0], content[1], content[2], content[3])
}

/// Whether the file at `path` is an executable that is better hard-linked.
/// `leading` is the beginning of its content, or nothing where the file
/// cannot be read. The extension decides where the file has one; the
/// content is looked at for files without extension only.
pub open spec fn spec_is_macos_executable(path: Seq<char>, leading: Option<Seq<u8>>) -> bool {
    match by_extension(extension(file_name(path))) {
        ByExtension::Executable => true,
        ByExtension::NotExecutable => false,
        ByExtension::Unknown => match leading {
            Some(content) => starts_with_magic(content),
            None => false,
        },
    }
}

/// The place of the last `c` in `s`, or nothing if there is none.
fn find_last(s: &Vec<char>, c: char) -> (place: Option<usize>)
    ensures
        match place {
            Some(i) => i == last_place(s@, c) && i < s.len(),
            None => last_place(s@, c) == -1,
        },
{
    let mut i: usize = s.len();
    assert(s@.take(s.len() as int) =~= s@);
    while i > 0
        invariant
            i <= s.len(),
            last_place(s@, c) == last_place(s@.take(i as int), c),
        decreases i,
    {
        if s[i - 1] == c {
            assert(s@.take(i as int).last() == s@[i - 1]);
            return Some(i - 1);
        }
        assert(s@.take(i as int).drop_last() =~= s@.take(i - 1));
        i -= 1;
    }
    assert(s@.take(0).len() == 0);
    None
}

/// What stands in `s` from `start` on.
fn tail_from(s: &Vec<char>, start: usize) -> (tail: Vec<char>)
    requires
        start <= s.len(),
    ensures
        tail@ == s@.skip(start as int),
{
    let tail = sub_chars(s, start, s.len());
    assert(s@.subrange(start as int, s.len() as int) =~= s@.skip(start as int));
    tail
}

/// The last part of a path.
fn name_of(path: &Vec<char>) -> (name: Vec<char>)
    ensures
        name@ == file_name(path@),
{
    match find_last(path, '/') {
        Some(i) => tail_from(path, i + 1),
        None => {
            let name = tail_from(path, 0);
            assert(path@.skip(0) =~= path@);
            name
        },
    }
}

/// Whether `s` holds the text `word`.
fn is_word(s: &Vec<char>, word: &str) -> (res: bool)
    ensures
        res == (s@ == word@),
{
    let w = chars_of(word);
    same_chars(s, &w)
}

/// What the extension of the file at `path` says of it.
pub fn classify_by_extension(path: &str) -> (res: ByExtension)
    ensures
        res == by_extension(extension(file_name(path@))),
{
    let whole = chars_of(path);
    let name = name_of(&whole);
    let place = find_last(&name, '.');
    match place {
        None => ByExtension::Unknown,
        Some(i) => {
            if i == 0 || is_word(&name, "..") {
                ByExtension::Unknown
            } else {
                let ext = tail_from(&name, i + 1);
                if is_word(&ext, "dylib") || is_word(&ext, "so") {
                    ByExtension::Executable
                } else {
                    ByExtension::NotExecutable
                }
            }
        },
    }
}

/// Whether a file's content starts with a Mach-O magic number.
pub fn has_macho_magic(content: &[u8]) -> (res: bool)
    ensures
        res == starts_with_magic(content@),
{
    if content.len() < 4 {
        return false;
    }
    let b0 = content[0];
    let b1 = content[1];
    let b2 = content[2];
    let b3 = content[3];
    (b0 == 0xFE && b1 == 0xED && b2 == 0xFA && b3 == 0xCE) || (b0 == 0xCE && b1 == 0xFA && b2
        == 0xED && b3 == 0xFE) || (b0 == 0xFE && b1 == 0xED && b2 == 0xFA && b3 == 0xCF) || (b0
        == 0xCF && b1 == 0xFA && b2 == 0xED && b3 == 0xFE) || (b0 == 0xCA && b1 == 0xFE && b2
        == 0xBA && b3 == 0xBE) || (b0 == 0xBE && b1 == 0xBA && b2 == 0xFE && b3 == 0xCA)
}

/// Whether the file at `path` is a macOS executable that is better
/// hard-linked than cloned. `leading` is the beginning of the file's
/// content, four bytes or more where the file has as many, or nothing where
/// the file cannot be opened.
pub fn is_macos_executable(path: &str, leading: Option<&[u8]>) -> (res: bool)
    ensures
        res == spec_is_macos_executable(
            path@,
            match leading {
                Some(content) => Some(content@),
                None => None,
            },
        ),
{
    match classify_by_extension(path) {
        ByExtension::Executable => true,
        ByExtension::NotExecutable => false,
        ByExtension::Unknown => match leading {
            Some(content) => has_macho_magic(content),
            None => false,
        },
    }
}

/// Whether the file at `path` is a wheel's `RECORD`: the list of installed
/// files, which the installer rewrites once the files are in place.
pub fn is_record(path: &str) -> (res: bool)
    ensures
        res == (file_name(path@) == "RECORD"@),
{
    let whole = chars_of(path);
    let name = name_of(&whole);
    is_word(&name, "RECORD")
}

impl Entry {
    /// The entry of a wheel at `path`, of the given kind; `executable` says
    /// whether it was found to be a native executable.
    pub fn at(kind: EntryKind, path: &str, executable: bool) -> (entry: Entry)
        ensures
            entry == (Entry { kind, record: file_name(path@) == "RECORD"@, executable }),
    {
        Entry { kind, record: is_record(path), executable }
    }
}

} // verus!
