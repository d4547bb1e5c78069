//! What one installation session shares between the wheels it installs: the
//! locks of the directories that files are copied into, and which wheel has
//! claimed which top-level module.

use vstd::prelude::*;
use vstd::string::StringExecFns;
use std::collections::HashMap;
use rustc_hash::FxBuildHasher;
use crate::extraction::LinkOp;
use crate::name_table::{table_get, table_insert, table_new, table_of};
use crate::text::{precedes, same_text, text_precedes};

verus! {

/// The identity of a wheel, as it is named to the user.
#[derive(Debug, Clone)]
pub struct WheelId {
    /// The name of the package.
    pub name: String,
    /// Its version.
    pub version: String,
}

/// A wheel's identity as text.
pub struct WheelIdView {
    /// The name of the package.
    pub name: Seq<char>,
    /// Its version.
    pub version: Seq<char>,
}

impl View for WheelId {
    type V = WheelIdView;

    open spec fn view(&self) -> WheelIdView {
        WheelIdView { name: self.name@, version: self.version@ }
    }
}

impl WheelId {
    /// A wheel's identity from its name and version.
    pub fn new(name: &str, version: &str) -> (id: WheelId)
        ensures
            id@ == (WheelIdView { name: name@, version: version@ }),
    {
        WheelId { name: String::from_str(name), version: String::from_str(version) }
    }

    /// A copy of the identity.
    pub fn duplicate(&self) -> (copy: WheelId)
        ensures
            copy@ == self@,
    {
        WheelId { name: self.name.clone(), version: self.version.clone() }
    }
}

/// Two wheels provide the same top-level module.
#[derive(Debug, Clone)]
pub struct ModuleConflict {
    /// The module that both provide.
    pub module: String,
    /// Of the two wheels, the one whose name comes later in the order of
    /// strings; the one that claimed last if neither does.
    pub first: WheelId,
    /// The other wheel.
    pub second: WheelId,
}

/// A conflict as text.
pub struct ModuleConflictView {
    /// The module that both wheels provide.
    pub module: Seq<char>,
    /// The wheel named first.
    pub first: WheelIdView,
    /// The wheel named second.
    pub second: WheelIdView,
}

impl View for ModuleConflict {
    type V = ModuleConflictView;

    open spec fn view(&self) -> ModuleConflictView {
        ModuleConflictView { module: self.module@, first: self.first@, second: self.second@ }
    }
}

/// The conflict between the wheel that claims `module` now and the one that
/// had claimed it before: the one with the later name is named first, so that
/// the same two wheels give the same text whichever came first.
pub open spec fn conflict_between(
    module: Seq<char>,
    claimant: WheelIdView,
    before: WheelIdView,
) -> ModuleConflictView {
    if precedes(claimant.name, before.name) {
        ModuleConflictView { module, first: before, second: claimant }
    } else {
        ModuleConflictView { module, first: claimant, second: before }
    }
}

/// The warning that tells the user of a conflict.
pub open spec fn conflict_text(conflict: ModuleConflictView) -> Seq<char> {
    "The module `"@ + conflict.module
        + "` is provided by more than one package, which causes an install race condition and can result in a broken module. Consider removing your dependency on either `"@
        + conflict.first.name + "` (v"@ + conflict.first.version + ") or `"@
        + conflict.second.name + "` (v"@ + conflict.second.version + ")."@
}

impl ModuleConflict {
    /// The warning that tells the user of this conflict.
    pub fn message(&self) -> (text: String)
        ensures
            text@ == conflict_text(self@),
    {
        let mut text = String::from_str("The module `");
        text.append(self.module.as_str());
        text.append(
            "` is provided by more than one package, which causes an install race condition and can result in a broken module. Consider removing your dependency on either `",
        );
        text.append(self.first.name.as_str());
        text.append("` (v");
        text.append(self.first.version.as_str());
        text.append(") or `");
        text.append(self.second.name.as_str());
        text.append("` (v");
        text.append(self.second.version.as_str());
        text.append(").");
        text
    }
}

/// The latest claim on a module.
#[derive(Debug, Clone)]
pub struct ModuleClaim {
    module: String,
    wheel: WheelId,
    warned: bool,
}

/// The latest claim on a module, as the session remembers it.
pub struct Claim {
    /// The wheel that claimed the module last.
    pub wheel: WheelIdView,
    /// Whether the user has been warned of a conflict on this module.
    pub warned: bool,
}

/// What a session holds.
pub struct Session {
    /// Whether conflicts between modules are reported at all.
    pub detect_conflicts: bool,
    /// The latest claim on each top-level module that a wheel has provided.
    pub claims: Map<Seq<char>, Claim>,
    /// The directories that files were copied into, each once, in the order
    /// in which their locks were made. A directory's place is the number of
    /// its lock.
    pub locked_dirs: Seq<Seq<char>>,
    /// The operations of which the user has been told that they do not work
    /// and that files are copied in their place.
    pub noted: Set<LinkOp>,
}

impl Session {
    /// The session in which nothing has been installed yet.
    pub open spec fn fresh(detect_conflicts: bool) -> Session {
        Session {
            detect_conflicts,
            claims: Map::empty(),
            locked_dirs: Seq::empty(),
            noted: Set::empty(),
        }
    }

    /// Whether a claim on `module` has to be reported to the user: another
    /// wheel has claimed it before, conflicts are reported at all, and this
    /// module has not been reported yet.
    pub open spec fn reports(self, module: Seq<char>) -> bool {
        self.detect_conflicts && self.claims.contains_key(module) && !self.claims[module].warned
    }

    /// The session after `wheel` has claimed `module`: the claim replaces
    /// whatever claim there was, and the module counts as reported from the
    /// first report on.
    pub open spec fn claim(self, module: Seq<char>, wheel: WheelIdView) -> Session {
        let warned = self.claims.contains_key(module) && (self.claims[module].warned
            || self.detect_conflicts);
        Session { claims: self.claims.insert(module, Claim { wheel, warned }), ..self }
    }

    /// The warning that a claim on `module` by `wheel` gives rise to, if any.
    pub open spec fn warning(self, module: Seq<char>, wheel: WheelIdView) -> Option<
        ModuleConflictView,
    > {
        if self.reports(module) {
            Some(conflict_between(module, wheel, self.claims[module].wheel))
        } else {
            None
        }
    }

    /// The session after the user has been told that `op` does not work.
    pub open spec fn with_note(self, op: LinkOp) -> Session {
        Session { noted: self.noted.insert(op), ..self }
    }

    /// The session after the lock of `dir` has been asked for: a directory
    /// that has none gets the next one, and no lock is ever removed.
    pub open spec fn with_lock(self, dir: Seq<char>) -> Session {
        if self.locked_dirs.contains(dir) {
            self
        } else {
            Session { locked_dirs: self.locked_dirs.push(dir), ..self }
        }
    }
}

/// The module that an entry of a wheel stands for: an entry at
/// `<name>/__init__.py`, two parts deep, makes `<name>` a top-level module.
/// Anything deeper, shallower or named otherwise does not.
pub open spec fn module_of(relative: Seq<String>) -> Option<Seq<char>> {
    if relative.len() == 2 && relative[1]@ == "__init__.py"@ {
        Some(relative[0]@)
    } else {
        None
    }
}

/// The conflict between the wheel that claims `module` now and the one that
/// had claimed it before.
fn conflict_of(module: &str, claimant: &WheelId, before: WheelId) -> (conflict: ModuleConflict)
    ensures
        conflict@ == conflict_between(module@, claimant@, before@),
{
    if text_precedes(claimant.name.as_str(), before.name.as_str()) {
        ModuleConflict {
            module: String::from_str(module),
            first: before,
            second: claimant.duplicate(),
        }
    } else {
        ModuleConflict {
            module: String::from_str(module),
            first: claimant.duplicate(),
            second: before,
        }
    }
}

/// The state that the wheels of one installation session share.
pub struct Locks {
    /// The place of each locked directory in `dirs`.
    dir_ids: HashMap<String, usize, FxBuildHasher>,
    /// The directories that have a lock, in the order in which they got it.
    dirs: Vec<String>,
    /// The place of each claimed module in `claims`.
    module_ids: HashMap<String, usize, FxBuildHasher>,
    /// The latest claim on each module, in the order of their first claims.
    claims: Vec<ModuleClaim>,
    /// Whether conflicts between modules are reported.
    detect_conflicts: bool,
    /// Whether the user has been told that cloning does not work.
    noted_reflink: bool,
    /// Whether the user has been told that hard links do not work.
    noted_hardlink: bool,
    /// Whether the user has been told that symbolic links do not work.
    noted_symlink: bool,
}

impl Locks {
    /// Whether the session is in order: its tables and its lists agree. Every
    /// session is, from its start on.
    pub closed spec fn wf(&self) -> bool {
        &&& forall|name: Seq<char>| #[trigger]
            table_of(self.dir_ids).contains_key(name) ==> table_of(self.dir_ids)[name]
                < self.dirs.len() && self.dirs[table_of(self.dir_ids)[name] as int]@ == name
        &&& forall|i: int|
            0 <= i < self.dirs.len() ==> table_of(self.dir_ids).contains_key(
                #[trigger] self.dirs[i]@,
            ) && table_of(self.dir_ids)[self.dirs[i]@] == i
        &&& forall|name: Seq<char>| #[trigger]
            table_of(self.module_ids).contains_key(name) ==> table_of(self.module_ids)[name]
                < self.claims.len() && self.claims[table_of(
                self.module_ids,
            )[name] as int].module@ == name
    }

    /// What the session holds.
    pub closed spec fn session(&self) -> Session {
        Session {
            detect_conflicts: self.detect_conflicts,
            claims: Map::new(
                |name: Seq<char>| table_of(self.module_ids).contains_key(name),
                |name: Seq<char>|
                    Claim {
                        wheel: self.claims[table_of(self.module_ids)[name] as int].wheel@,
                        warned: self.claims[table_of(self.module_ids)[name] as int].warned,
                    },
            ),
            locked_dirs: Seq::new(self.dirs.len() as nat, |i: int| self.dirs[i]@),
            noted: Set::new(
                |op: LinkOp|
                    match op {
                        LinkOp::Reflink => self.noted_reflink,
                        LinkOp::Hardlink => self.noted_hardlink,
                        LinkOp::Symlink => self.noted_symlink,
                    },
            ),
        }
    }

    /// Starts a session. With `detect_conflicts`, the user is warned when two
    /// wheels provide the same module.
    pub fn new(detect_conflicts: bool) -> (locks: Locks)
        ensures
            locks.wf(),
            locks.session() == Session::fresh(detect_conflicts),
    {
        let locks = Locks {
            dir_ids: table_new(),
            dirs: Vec::new(),
            module_ids: table_new(),
            claims: Vec::new(),
            detect_conflicts,
            noted_reflink: false,
            noted_hardlink: false,
            noted_symlink: false,
        };
        assert(locks.session().claims =~= Map::empty());
        assert(locks.session().locked_dirs =~= Seq::empty());
        assert(locks.session().noted =~= Set::empty());
        locks
    }

    /// Records that the user is told that `op` does not work and that files
    /// are copied in its place. Returns whether to tell: the first time in
    /// the session only.
    pub fn note_fallback(&mut self, op: LinkOp) -> (tell: bool)
        requires
            old(self).wf(),
        ensures
            final(self).wf(),
            tell == !old(self).session().noted.contains(op),
            final(self).session() == old(self).session().with_note(op),
    {
        let ghost before = self.session();
        let tell = match op {
            LinkOp::Reflink => {
                let tell = !self.noted_reflink;
                self.noted_reflink = true;
                tell
            },
            LinkOp::Hardlink => {
                let tell = !self.noted_hardlink;
                self.noted_hardlink = true;
                tell
            },
            LinkOp::Symlink => {
                let tell = !self.noted_symlink;
                self.noted_symlink = true;
                tell
            },
        };
        assert(self.session().noted =~= before.noted.insert(op));
        assert(self.session().claims =~= before.claims);
        assert(self.session().locked_dirs =~= before.locked_dirs);
        tell
    }

    /// Whether conflicts between modules are reported.
    pub fn detects_conflicts(&self) -> (res: bool)
        ensures
            res == self.session().detect_conflicts,
    {
        self.detect_conflicts
    }

    /// How many directories have a lock.
    pub fn lock_count(&self) -> (count: usize)
        ensures
            count == self.session().locked_dirs.len(),
    {
        self.dirs.len()
    }

    /// The number of the lock that guards copies into `dir`. A directory
    /// keeps the number that it got when it was first asked for; a new
    /// directory gets the next number, which no other directory has.
    pub fn lock_for(&mut self, dir: &str) -> (id: usize)
        requires
            old(self).wf(),
        ensures
            final(self).wf(),
            final(self).session() == old(self).session().with_lock(dir@),
            id < final(self).session().locked_dirs.len(),
            final(self).session().locked_dirs[id as int] == dir@,
            final(self).session().locked_dirs.no_duplicates(),
    {
        let ghost before = self.session();
        match table_get(&self.dir_ids, dir) {
            Some(found) => {
                let id = *found;
                assert(before.locked_dirs[id as int] == dir@);
                id
            },
            None => {
                let id = self.dirs.len();
                assert(!before.locked_dirs.contains(dir@)) by {
                    if before.locked_dirs.contains(dir@) {
                        let i = choose|i: int|
                            0 <= i < before.locked_dirs.len() && before.locked_dirs[i] == dir@;
                        assert(self.dirs[i]@ == dir@);
                    }
                }
                self.dirs.push(String::from_str(dir));
                table_insert(&mut self.dir_ids, String::from_str(dir), id);
                assert(self.session().locked_dirs =~= before.locked_dirs.push(dir@));
                assert(self.session().claims =~= before.claims);
                assert(self.session().noted =~= before.noted);
                id
            },
        }
    }

    /// Records that `wheel` provides the top-level module `module`, and
    /// returns the warning to give if another wheel had claimed it: the
    /// first time only, and only where conflicts are reported.
    pub fn warn_module_conflict(&mut self, module: &str, wheel: &WheelId) -> (warning: Option<
        ModuleConflict,
    >)
        requires
            old(self).wf(),
        ensures
            final(self).wf(),
            final(self).session() == old(self).session().claim(module@, wheel@),
            warning is Some == old(self).session().reports(module@),
            warning matches Some(conflict) ==> Some(conflict@) == old(self).session().warning(
                module@,
                wheel@,
            ),
    {
        let ghost before = self.session();
        match table_get(&self.module_ids, module) {
            Some(found) => {
                let i = *found;
                let previous = self.claims[i].wheel.duplicate();
                let already = self.claims[i].warned;
                let report = self.detect_conflicts && !already;
                let claim = ModuleClaim {
                    module: String::from_str(module),
                    wheel: wheel.duplicate(),
                    warned: already || self.detect_conflicts,
                };
                self.claims.set(i, claim);
                assert(self.session().claims =~= before.claim(module@, wheel@).claims);
                assert(self.session().locked_dirs =~= before.locked_dirs);
                assert(self.session().noted =~= before.noted);
                if report {
                    Some(conflict_of(module, wheel, previous))
                } else {
                    None
                }
            },
            None => {
                let id = self.claims.len();
                let claim = ModuleClaim {
                    module: String::from_str(module),
                    wheel: wheel.duplicate(),
                    warned: false,
                };
                self.claims.push(claim);
                table_insert(&mut self.module_ids, String::from_str(module), id);
                assert(self.session().claims =~= before.claim(module@, wheel@).claims);
                assert(self.session().locked_dirs =~= before.locked_dirs);
                assert(self.session().noted =~= before.noted);
                None
            },
        }
    }
}

/// Looks at one entry of a wheel, given by the parts of its path below the
/// wheel's root, and records the module that it stands for, if any. Returns
/// the warning to give where another wheel has provided that module.
pub fn warn_module_conflict(locks: &mut Locks, wheel: &WheelId, relative: &Vec<String>) -> (warning:
    Option<ModuleConflict>)
    requires
        old(locks).wf(),
    ensures
        final(locks).wf(),
        module_of(relative@) matches Some(module) ==> {
            &&& final(locks).session() == old(locks).session().claim(module, wheel@)
            &&& warning is Some == old(locks).session().reports(module)
            &&& warning matches Some(conflict) ==> Some(conflict@) == old(
                locks,
            ).session().warning(module, wheel@)
        },
        module_of(relative@) is None ==> warning is None && final(locks).session() == old(
            locks,
        ).session(),
{
    if relative.len() == 2 && same_text(relative[1].as_str(), "__init__.py") {
        locks.warn_module_conflict(relative[0].as_str(), wheel)
    } else {
        None
    }
}

} // verus!
