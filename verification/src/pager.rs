//! Which program shows a help page one screen at a time, and how it is run.

use vstd::prelude::*;
use vstd::string::StringExecFns;
use crate::text::{chars_of, same_text, string_of, texts};

verus! {

/// The kind of a pager.
#[derive(Debug)]
pub enum PagerKind {
    /// `less`
    Less,
    /// `more`
    More,
    /// Another program, by its name.
    Other(String),
}

/// A pager and how to run it.
#[derive(Debug)]
pub struct Pager {
    /// What kind of pager it is.
    pub kind: PagerKind,
    /// The arguments to run it with; with none, the kind's own are used.
    pub args: Vec<String>,
    /// Where the program was found, where it was looked for.
    pub path: Option<String>,
}

/// Whether `c` is white space of the ASCII alphabet.
pub open spec fn is_ascii_space(c: char) -> bool {
    c == ' ' || c == '\t' || c == '\n' || c == '\x0c' || c == '\r'
}

/// What stands in `s` behind its last white space.
pub open spec fn open_word(s: Seq<char>) -> Seq<char>
    decreases s.len(),
{
    if s.len() == 0 || is_ascii_space(s.last()) {
        Seq::empty()
    } else {
        open_word(s.drop_last()).push(s.last())
    }
}

/// The words of `s` that white space follows.
pub open spec fn closed_words(s: Seq<char>) -> Seq<Seq<char>>
    decreases s.len(),
{
    if s.len() == 0 {
        Seq::empty()
    } else if is_ascii_space(s.last()) && open_word(s.drop_last()).len() > 0 {
        closed_words(s.drop_last()).push(open_word(s.drop_last()))
    } else {
        closed_words(s.drop_last())
    }
}

/// The words of `s`: what stands between its stretches of white space.
pub open spec fn words_of(s: Seq<char>) -> Seq<Seq<char>> {
    if open_word(s).len() > 0 {
        closed_words(s).push(open_word(s))
    } else {
        closed_words(s)
    }
}

fn ascii_space(c: char) -> (res: bool)
    ensures
        res == is_ascii_space(c),
{
    c == ' ' || c == '\t' || c == '\n' || c == '\x0c' || c == '\r'
}

/// The words of `s`.
pub fn split_words(s: &str) -> (words: Vec<String>)
    ensures
        texts(words@) == words_of(s@),
{
    let chars = chars_of(s);
    let mut words: Vec<String> = Vec::new();
    let mut current: Vec<char> = Vec::new();
    let mut i: usize = 0;
    while i < chars.len()
        invariant
            chars@ == s@,
            i <= chars.len(),
            current@ == open_word(chars@.take(i as int)),
            texts(words@) == closed_words(chars@.take(i as int)),
        decreases chars.len() - i,
    {
        assert(chars@.take(i + 1).drop_last() =~= chars@.take(i as int));
        let ghost before = texts(words@);
        if ascii_space(chars[i]) {
            if current.len() > 0 {
                let word = string_of(&current);
                words.push(word);
                assert(texts(words@) =~= before.push(current@));
                current = Vec::new();
            }
        } else {
            current.push(chars[i]);
        }
        i += 1;
    }
    assert(chars@.take(chars.len() as int) =~= chars@);
    if current.len() > 0 {
        let ghost before = texts(words@);
        let word = string_of(&current);
        words.push(word);
        assert(texts(words@) =~= before.push(current@));
    }
    words
}

impl PagerKind {
    /// The arguments a pager of this kind is run with where none are given:
    /// `less` needs `-R` to show colours.
    pub fn default_args(&self) -> (args: Vec<String>)
        ensures
            texts(args@) == (if *self is Less {
                seq!["-R"@]
            } else {
                Seq::<Seq<char>>::empty()
            }),
    {
        match self {
            PagerKind::Less => {
                let mut args: Vec<String> = Vec::new();
                args.push(String::from_str("-R"));
                assert(texts(args@) =~= seq!["-R"@]);
                args
            },
            PagerKind::More => {
                let args: Vec<String> = Vec::new();
                assert(texts(args@) =~= Seq::<Seq<char>>::empty());
                args
            },
            PagerKind::Other(_) => {
                let args: Vec<String> = Vec::new();
                assert(texts(args@) =~= Seq::<Seq<char>>::empty());
                args
            },
        }
    }

    /// The name of the program.
    pub open spec fn spec_name(self) -> Seq<char> {
        match self {
            PagerKind::Less => "less"@,
            PagerKind::More => "more"@,
            PagerKind::Other(name) => name@,
        }
    }

    /// The name of the program.
    pub fn name(&self) -> (name: String)
        ensures
            name@ == self.spec_name(),
    {
        match self {
            PagerKind::Less => String::from_str("less"),
            PagerKind::More => String::from_str("more"),
            PagerKind::Other(name) => name.clone(),
        }
    }

    /// The kind of the program called `name`.
    pub fn of(name: &str) -> (kind: PagerKind)
        ensures
            kind.spec_name() == name@,
            kind is Less == (name@ == "less"@),
            kind is More == (name@ == "more"@),
    {
        proof {
            reveal_strlit("less");
            reveal_strlit("more");
            if "less"@ == "more"@ {
                assert("less"@[0] == "more"@[0]);
            }
        }
        if same_text(name, "less") {
            PagerKind::Less
        } else if same_text(name, "more") {
            PagerKind::More
        } else {
            PagerKind::Other(String::from_str(name))
        }
    }
}

/// Whether `-R` is among the arguments.
pub open spec fn has_raw_flag(args: Seq<Seq<char>>) -> bool {
    exists|i: int| 0 <= i < args.len() && #[trigger] args[i] == "-R"@
}

impl Pager {
    /// Reads a pager from a command line: its first word names the program,
    /// the others are its arguments. An empty line names none.
    pub fn from_str(s: &str) -> (res: Result<Pager, ()>)
        ensures
            res is Err == (words_of(s@).len() == 0),
            res matches Ok(pager) ==> {
                &&& pager.kind.spec_name() == words_of(s@)[0]
                &&& pager.kind is Less == (words_of(s@)[0] == "less"@)
                &&& pager.kind is More == (words_of(s@)[0] == "more"@)
                &&& texts(pager.args@) == words_of(s@).skip(1)
                &&& pager.path is None
            },
    {
        let mut words = split_words(s);
        if words.len() == 0 {
            return Err(());
        }
        let ghost all = texts(words@);
        let first = words.remove(0);
        assert(texts(words@) =~= all.skip(1));
        assert(first@ == all[0]);
        Ok(Pager { kind: PagerKind::of(first.as_str()), args: words, path: None })
    }

    /// Whether the pager shows colours: only `less` does, and only with
    /// `-R`, which it is given where it is run without arguments.
    pub fn supports_colors(&self) -> (res: bool)
        ensures
            res == (self.kind is Less && (self.args@.len() == 0 || has_raw_flag(
                texts(self.args@),
            ))),
    {
        match self.kind {
            PagerKind::Less => {
                if self.args.len() == 0 {
                    return true;
                }
                let mut i: usize = 0;
                while i < self.args.len()
                    invariant
                        self.kind is Less,
                        i <= self.args.len(),
                        forall|k: int| 0 <= k < i ==> #[trigger] texts(self.args@)[k] != "-R"@,
                    decreases self.args.len() - i,
                {
                    if same_text(self.args[i].as_str(), "-R") {
                        assert(texts(self.args@)[i as int] == "-R"@);
                        return true;
                    }
                    i += 1;
                }
                false
            },
            PagerKind::More => false,
            PagerKind::Other(_) => false,
        }
    }

    /// The program to run: where it was found, or else its name.
    pub fn command(&self) -> (command: String)
        ensures
            command@ == (match self.path {
                Some(path) => path@,
                None => self.kind.spec_name(),
            }),
    {
        match &self.path {
            Some(path) => path.clone(),
            None => self.kind.name(),
        }
    }

    /// The arguments to run the pager with: its own, or the kind's where it
    /// has none.
    pub fn into_args(self) -> (args: Vec<String>)
        ensures
            texts(args@) == (if self.args@.len() > 0 {
                texts(self.args@)
            } else if self.kind is Less {
                seq!["-R"@]
            } else {
                Seq::<Seq<char>>::empty()
            }),
    {
        if self.args.len() == 0 {
            self.kind.default_args()
        } else {
            self.args
        }
    }

    /// The pager to use: the one that the environment names, where it names
    /// one; else `less` where it was found, else `more` where it was found.
    pub fn pick(named: Option<&str>, less: Option<String>, more: Option<String>) -> (res:
        Option<Pager>)
        ensures
            match named {
                Some(line) if line@.len() > 0 => {
                    &&& res is Some == (words_of(line@).len() > 0)
                    &&& res matches Some(pager) ==> pager.kind.spec_name() == words_of(line@)[0]
                        && texts(pager.args@) == words_of(line@).skip(1) && pager.path is None
                },
                _ => match (less, more) {
                    (Some(path), _) => res matches Some(pager) && pager.kind is Less
                        && pager.args@.len() == 0 && pager.path == Some(path),
                    (None, Some(path)) => res matches Some(pager) && pager.kind is More
                        && pager.args@.len() == 0 && pager.path == Some(path),
                    (None, None) => res is None,
                },
            },
    {
        if let Some(line) = named {
            if line.unicode_len() > 0 {
                return match Pager::from_str(line) {
                    Ok(pager) => Some(pager),
                    Err(_) => None,
                };
            }
        }
        match less {
            Some(path) => Some(Pager { kind: PagerKind::Less, args: Vec::new(), path: Some(path) }),
            None => match more {
                Some(path) => Some(
                    Pager { kind: PagerKind::More, args: Vec::new(), path: Some(path) },
                ),
                None => None,
            },
        }
    }
}

} // verus!
