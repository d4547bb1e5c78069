//! The decisions taken while one wheel is extracted: which filesystem
//! operation to try for an entry, what to do when it fails, and when to give
//! the accelerated operation up for the rest of the wheel.
//!
//! The caller walks the wheel and performs the operations; [`Extraction`]
//! tells it which one comes next and takes back how it ended.

use vstd::prelude::*;
use crate::link_mode::{LinkMode, TargetOs};

verus! {

/// Whether the accelerated operation is known to work for this wheel.
///
/// Linking may not be supported, and this cannot be found out ahead of time:
/// the first file is tried, and if that succeeds a later failure is a genuine
/// fault. If it fails, the rest of the wheel is copied.
#[derive(Debug, Clone, Copy, PartialEq, Eq, Structural)]
pub enum Attempt {
    /// Nothing has been tried yet.
    Initial,
    /// The accelerated operation has worked once.
    Subsequent,
    /// The accelerated operation has failed; every remaining file is copied.
    UseCopyFallback,
}

/// How an operation that the caller performed has ended.
#[derive(Debug, Clone, Copy, PartialEq, Eq, Structural)]
pub enum Outcome {
    /// It succeeded.
    Done,
    /// It failed because the destination exists already.
    AlreadyExists,
    /// It failed for any other reason.
    Failed,
}

/// What kind of entry of the wheel is at hand.
#[derive(Debug, Clone, Copy, PartialEq, Eq, Structural)]
pub enum EntryKind {
    /// A directory.
    Dir,
    /// Anything else.
    File,
}

/// One entry of the wheel, as far as the decisions depend on it.
#[derive(Debug, Clone, Copy, PartialEq, Eq, Structural)]
pub struct Entry {
    /// Directory or file.
    pub kind: EntryKind,
    /// Whether the entry is the wheel's `RECORD` file, which the installer
    /// rewrites after placing it.
    pub record: bool,
    /// Whether the entry is a native executable or library, for which the
    /// inode is worth preserving.
    pub executable: bool,
}

/// An accelerated way of making a file appear at the destination.
#[derive(Debug, Clone, Copy, PartialEq, Eq, Structural)]
pub enum LinkOp {
    /// Copy-on-write clone.
    Reflink,
    /// Hard link.
    Hardlink,
    /// Symbolic link.
    Symlink,
}

/// Where a link is created.
#[derive(Debug, Clone, Copy, PartialEq, Eq, Structural)]
pub enum Target {
    /// At the entry's place in the installation directory.
    Destination,
    /// Under the entry's file name inside the temporary directory made for
    /// this entry.
    Temporary,
}

/// One filesystem operation for the caller to perform on the entry at hand.
#[derive(Debug, Clone, Copy, PartialEq, Eq, Structural)]
pub enum Action {
    /// Create the destination directory and its parents.
    CreateDir,
    /// Create a link to the source at the given place.
    Link(LinkOp, Target),
    /// Create a fresh temporary directory beside the destination, in the
    /// destination's parent directory. It lives until the entry is finished
    /// or the extraction fails.
    MakeTempDir,
    /// Move the link out of the temporary directory over the destination.
    Rename,
    /// Copy the source to the destination, holding the lock of the
    /// destination's parent directory.
    Copy,
}

/// Why an extraction cannot go on.
#[derive(Debug, Clone, Copy, PartialEq, Eq, Structural)]
pub enum Failure {
    /// A destination directory could not be created.
    CreateDir,
    /// No temporary directory could be created.
    TempDir,
    /// Linking failed although it had worked before, or could not replace an
    /// existing file.
    Link(LinkOp),
    /// The link could not be moved over the destination.
    Rename,
    /// The file could not be copied.
    Copy,
    /// The caller reported an outcome, announced an entry or left a directory
    /// when that was not its turn, or went on after a failure.
    OutOfTurn,
}

/// What the caller has to do next.
#[derive(Debug, Clone, Copy, PartialEq, Eq, Structural)]
pub enum Step {
    /// Perform the action on the entry at hand and report its outcome.
    Perform(Action),
    /// Announce each entry of the directory at hand in turn, then leave it.
    Descend,
    /// The entry is in place. The flag says whether to tell the user, now and
    /// only now, that this wheel is being copied in full.
    Finished(bool),
    /// The extraction has failed.
    Fatal(Failure),
}

/// Where the handling of the entry at hand stands.
#[derive(Debug, Clone, Copy, PartialEq, Eq, Structural)]
pub enum Stage {
    /// No entry is at hand.
    Idle,
    /// The destination directory is being created.
    CreatingDir,
    /// The link is being created at the destination.
    Linking,
    /// A temporary directory is being made, to replace an existing file.
    MakingTemp,
    /// The link is being created in the temporary directory.
    LinkingTemp,
    /// The link is being moved over the destination.
    Renaming,
    /// The file is being copied.
    Copying,
    /// An executable is being hard-linked at the destination.
    ExecLinking,
    /// A temporary directory is being made, to replace an existing executable.
    ExecMakingTemp,
    /// The executable is being hard-linked in the temporary directory.
    ExecLinkingTemp,
    /// The extraction has failed.
    Aborted,
}

/// What the caller tells an extraction.
#[derive(Debug, Clone, Copy, PartialEq, Eq, Structural)]
pub enum Input {
    /// The next entry of the wheel, or of the directory being descended.
    Enter(Entry),
    /// How the requested action ended.
    Report(Outcome),
    /// Every entry of the directory being descended has been handled.
    Leave,
}

/// The state of one extraction.
pub struct Machine {
    /// The strategy of this extraction.
    pub mode: LinkMode,
    /// The system it runs on.
    pub os: TargetOs,
    /// What is known of the accelerated operation.
    pub attempt: Attempt,
    /// How many entries have been counted as placed.
    pub count: nat,
    /// How many directories are being descended.
    pub depth: nat,
    /// Whether the user has been told of the fallback.
    pub warned: bool,
    /// Where the handling of the entry at hand stands.
    pub stage: Stage,
    /// The entry at hand; meaningful unless the stage is idle or aborted.
    pub entry: Entry,
}

impl LinkMode {
    /// The accelerated operation of a strategy; `Copy` has none.
    pub open spec fn spec_link_op(self) -> Option<LinkOp> {
        match self {
            LinkMode::Clone => Some(LinkOp::Reflink),
            LinkMode::Copy => None,
            LinkMode::Hardlink => Some(LinkOp::Hardlink),
            LinkMode::Symlink => Some(LinkOp::Symlink),
        }
    }

    /// The accelerated operation of a strategy; `Copy` has none.
    pub fn link_op(&self) -> (op: Option<LinkOp>)
        ensures
            op == self.spec_link_op(),
    {
        match self {
            LinkMode::Clone => Some(LinkOp::Reflink),
            LinkMode::Copy => None,
            LinkMode::Hardlink => Some(LinkOp::Hardlink),
            LinkMode::Symlink => Some(LinkOp::Symlink),
        }
    }
}

impl Machine {
    /// The state in which an extraction starts.
    pub open spec fn start(mode: LinkMode, os: TargetOs) -> Machine {
        Machine {
            mode,
            os,
            attempt: Attempt::Initial,
            count: 0,
            depth: 0,
            warned: false,
            stage: Stage::Idle,
            entry: Entry { kind: EntryKind::File, record: false, executable: false },
        }
    }

    /// The operation that the ladder tries; for `Copy`, which never enters
    /// the ladder, a placeholder.
    pub open spec fn op(self) -> LinkOp {
        match self.mode.spec_link_op() {
            Some(op) => op,
            None => LinkOp::Reflink,
        }
    }

    /// The extraction fails.
    pub open spec fn fatal(self, failure: Failure) -> (Machine, Step) {
        (Machine { stage: Stage::Aborted, ..self }, Step::Fatal(failure))
    }

    /// The caller is asked for an action, and its outcome awaited at `stage`.
    pub open spec fn perform(self, action: Action, stage: Stage) -> (Machine, Step) {
        (Machine { stage, ..self }, Step::Perform(action))
    }

    /// The caller is sent into the directory at hand.
    pub open spec fn descend(self) -> (Machine, Step) {
        (Machine { stage: Stage::Idle, depth: self.depth + 1, ..self }, Step::Descend)
    }

    /// The entry at hand, of the given kind, is in place. With `probed`, an
    /// accelerated operation was part of its handling, so that an attempt
    /// that is still initial has now succeeded.
    pub open spec fn finish(self, probed: bool, kind: EntryKind) -> (Machine, Step) {
        let attempt = if probed && self.attempt == Attempt::Initial {
            Attempt::Subsequent
        } else {
            self.attempt
        };
        let counted = if self.mode == LinkMode::Clone {
            self.depth == 0
        } else {
            kind == EntryKind::File
        };
        let notice = attempt == Attempt::UseCopyFallback && !self.warned;
        (
            Machine {
                attempt,
                count: if counted { self.count + 1 } else { self.count },
                warned: self.warned || notice,
                stage: Stage::Idle,
                ..self
            },
            Step::Finished(notice),
        )
    }

    /// The first rung of the ladder for the entry at hand: the accelerated
    /// operation unless it is known to fail, else the plain way.
    pub open spec fn ladder(self) -> (Machine, Step) {
        if self.attempt == Attempt::UseCopyFallback {
            self.plain()
        } else {
            self.perform(Action::Link(self.op(), Target::Destination), Stage::Linking)
        }
    }

    /// The plain way of placing the entry at hand: a directory is created, a
    /// file copied.
    pub open spec fn plain(self) -> (Machine, Step) {
        if self.entry.kind == EntryKind::Dir {
            self.perform(Action::CreateDir, Stage::CreatingDir)
        } else {
            self.perform(Action::Copy, Stage::Copying)
        }
    }

    /// Whether the entry at hand is first hard-linked to keep its inode:
    /// an executable that is cloned on macOS, as long as the wheel is not
    /// being copied in full. The `RECORD` file is never linked, whatever it
    /// looks like.
    pub open spec fn keeps_inode(self) -> bool {
        &&& self.mode == LinkMode::Clone
        &&& self.os == TargetOs::MacOs
        &&& self.entry.kind == EntryKind::File
        &&& self.entry.executable
        &&& !self.entry.record
        &&& self.attempt != Attempt::UseCopyFallback
    }

    /// The handling of the entry at hand from its start.
    pub open spec fn begin(self) -> (Machine, Step) {
        match self.mode {
            LinkMode::Copy => self.plain(),
            LinkMode::Hardlink | LinkMode::Symlink => {
                if self.entry.kind == EntryKind::Dir || self.entry.record {
                    self.plain()
                } else {
                    self.ladder()
                }
            },
            LinkMode::Clone => {
                if self.entry.kind == EntryKind::Dir && self.os.spec_clones_files_only() {
                    self.plain()
                } else if self.keeps_inode() {
                    self.perform(
                        Action::Link(LinkOp::Hardlink, Target::Destination),
                        Stage::ExecLinking,
                    )
                } else {
                    self.ladder()
                }
            },
        }
    }

    /// The accelerated operation has failed for the first time: it is given
    /// up for the rest of the wheel, and the entry at hand placed the plain
    /// way.
    pub open spec fn give_up(self) -> (Machine, Step) {
        (Machine { attempt: Attempt::UseCopyFallback, ..self }).plain()
    }

    /// The caller announces an entry.
    pub open spec fn enter(self, entry: Entry) -> (Machine, Step) {
        if self.stage != Stage::Idle {
            self.fatal(Failure::OutOfTurn)
        } else {
            (Machine { entry, ..self }).begin()
        }
    }

    /// The caller reports how the requested action ended.
    pub open spec fn report(self, outcome: Outcome) -> (Machine, Step) {
        let done = outcome == Outcome::Done;
        let kind = self.entry.kind;
        match self.stage {
            Stage::Idle | Stage::Aborted => self.fatal(Failure::OutOfTurn),
            Stage::CreatingDir => {
                if !done {
                    self.fatal(Failure::CreateDir)
                } else if self.mode == LinkMode::Clone {
                    self.descend()
                } else {
                    self.finish(false, kind)
                }
            },
            Stage::Linking => match outcome {
                Outcome::Done => self.finish(true, kind),
                Outcome::AlreadyExists => {
                    if kind == EntryKind::Dir {
                        self.descend()
                    } else {
                        self.perform(Action::MakeTempDir, Stage::MakingTemp)
                    }
                },
                Outcome::Failed => {
                    if self.attempt == Attempt::Initial {
                        self.give_up()
                    } else {
                        self.fatal(Failure::Link(self.op()))
                    }
                },
            },
            Stage::MakingTemp => {
                if done {
                    self.perform(Action::Link(self.op(), Target::Temporary), Stage::LinkingTemp)
                } else {
                    self.fatal(Failure::TempDir)
                }
            },
            Stage::LinkingTemp => {
                if done {
                    self.perform(Action::Rename, Stage::Renaming)
                } else if self.attempt == Attempt::Initial {
                    (Machine { attempt: Attempt::UseCopyFallback, ..self }).perform(
                        Action::Copy,
                        Stage::Copying,
                    )
                } else {
                    self.fatal(Failure::Link(self.op()))
                }
            },
            Stage::Renaming => {
                if done {
                    self.finish(true, kind)
                } else {
                    self.fatal(Failure::Rename)
                }
            },
            Stage::Copying => {
                if done {
                    self.finish(false, kind)
                } else {
                    self.fatal(Failure::Copy)
                }
            },
            Stage::ExecLinking => match outcome {
                Outcome::Done => self.finish(true, kind),
                Outcome::AlreadyExists => self.perform(Action::MakeTempDir, Stage::ExecMakingTemp),
                Outcome::Failed => self.ladder(),
            },
            Stage::ExecMakingTemp => {
                if done {
                    self.perform(
                        Action::Link(LinkOp::Hardlink, Target::Temporary),
                        Stage::ExecLinkingTemp,
                    )
                } else {
                    self.fatal(Failure::TempDir)
                }
            },
            Stage::ExecLinkingTemp => {
                if done {
                    self.perform(Action::Rename, Stage::Renaming)
                } else {
                    self.ladder()
                }
            },
        }
    }

    /// The caller has handled every entry of the directory it was sent into.
    pub open spec fn leave(self) -> (Machine, Step) {
        if self.stage != Stage::Idle || self.depth == 0 {
            self.fatal(Failure::OutOfTurn)
        } else {
            (Machine { depth: (self.depth - 1) as nat, ..self }).finish(
                !self.os.spec_clones_files_only(),
                EntryKind::Dir,
            )
        }
    }

    /// One turn of the extraction.
    pub open spec fn step(self, input: Input) -> (Machine, Step) {
        match input {
            Input::Enter(entry) => self.enter(entry),
            Input::Report(outcome) => self.report(outcome),
            Input::Leave => self.leave(),
        }
    }
}

/// What an extraction that has come to its end reports.
#[derive(Debug, Clone, Copy, PartialEq, Eq, Structural)]
pub struct Summary {
    /// How many entries were placed: files, or with `Clone` the entries at
    /// the top of the wheel.
    pub count: usize,
    /// Whether the installation directory's modification time has to be set
    /// to the current time, because cloning leaves it untouched.
    pub refresh_mtime: bool,
}

/// One extraction of a wheel under way. It is made for one wheel and never
/// shared: the next wheel starts with a fresh one.
#[derive(Debug, Clone, Copy)]
pub struct Extraction {
    mode: LinkMode,
    os: TargetOs,
    attempt: Attempt,
    count: usize,
    depth: usize,
    warned: bool,
    stage: Stage,
    entry: Entry,
}

impl View for Extraction {
    type V = Machine;

    closed spec fn view(&self) -> Machine {
        Machine {
            mode: self.mode,
            os: self.os,
            attempt: self.attempt,
            count: self.count as nat,
            depth: self.depth as nat,
            warned: self.warned,
            stage: self.stage,
            entry: self.entry,
        }
    }
}

impl Extraction {
    /// Whether the counters can still grow by one.
    pub open spec fn spec_has_room(&self) -> bool {
        self@.count < usize::MAX && self@.depth < usize::MAX
    }

    /// Starts the extraction of one wheel.
    pub fn new(mode: LinkMode, os: TargetOs) -> (ex: Extraction)
        ensures
            ex@ == Machine::start(mode, os),
    {
        Extraction {
            mode,
            os,
            attempt: Attempt::Initial,
            count: 0,
            depth: 0,
            warned: false,
            stage: Stage::Idle,
            entry: Entry { kind: EntryKind::File, record: false, executable: false },
        }
    }

    /// The strategy of this extraction.
    pub fn mode(&self) -> (mode: LinkMode)
        ensures
            mode == self@.mode,
    {
        self.mode
    }

    /// What is known of the accelerated operation.
    pub fn attempt(&self) -> (attempt: Attempt)
        ensures
            attempt == self@.attempt,
    {
        self.attempt
    }

    /// How many entries have been counted as placed.
    pub fn count(&self) -> (count: usize)
        ensures
            count == self@.count,
    {
        self.count
    }

    /// Where the handling of the entry at hand stands.
    pub fn stage(&self) -> (stage: Stage)
        ensures
            stage == self@.stage,
    {
        self.stage
    }

    /// Whether the counters can still grow by one.
    pub fn has_room(&self) -> (res: bool)
        ensures
            res == self.spec_has_room(),
    {
        self.count < usize::MAX && self.depth < usize::MAX
    }

    /// What the extraction reports once the caller has gone through the
    /// wheel: nothing while an entry is at hand, a directory is being
    /// descended or after a failure.
    pub fn summary(&self) -> (res: Option<Summary>)
        ensures
            res == (if self@.stage == Stage::Idle && self@.depth == 0 {
                Some(Summary { count: self@.count as usize, refresh_mtime: self@.mode == LinkMode::Clone })
            } else {
                None
            }),
    {
        if self.stage == Stage::Idle && self.depth == 0 {
            Some(Summary { count: self.count, refresh_mtime: self.mode == LinkMode::Clone })
        } else {
            None
        }
    }

    fn op(&self) -> (op: LinkOp)
        ensures
            op == self@.op(),
    {
        match self.mode.link_op() {
            Some(op) => op,
            None => LinkOp::Reflink,
        }
    }

    fn fatal(&mut self, failure: Failure) -> (step: Step)
        ensures
            (final(self)@, step) == old(self)@.fatal(failure),
    {
        self.stage = Stage::Aborted;
        Step::Fatal(failure)
    }

    fn perform(&mut self, action: Action, stage: Stage) -> (step: Step)
        ensures
            (final(self)@, step) == old(self)@.perform(action, stage),
    {
        self.stage = stage;
        Step::Perform(action)
    }

    fn descend(&mut self) -> (step: Step)
        requires
            old(self).spec_has_room(),
        ensures
            (final(self)@, step) == old(self)@.descend(),
    {
        self.stage = Stage::Idle;
        self.depth = self.depth + 1;
        Step::Descend
    }

    fn finish(&mut self, probed: bool, kind: EntryKind) -> (step: Step)
        requires
            old(self)@.count < usize::MAX,
        ensures
            (final(self)@, step) == old(self)@.finish(probed, kind),
    {
        if probed && self.attempt == Attempt::Initial {
            self.attempt = Attempt::Subsequent;
        }
        let counted = if self.mode == LinkMode::Clone {
            self.depth == 0
        } else {
            kind == EntryKind::File
        };
        if counted {
            self.count = self.count + 1;
        }
        let notice = self.attempt == Attempt::UseCopyFallback && !self.warned;
        if notice {
            self.warned = true;
        }
        self.stage = Stage::Idle;
        Step::Finished(notice)
    }

    fn plain(&mut self) -> (step: Step)
        ensures
            (final(self)@, step) == old(self)@.plain(),
    {
        if self.entry.kind == EntryKind::Dir {
            self.perform(Action::CreateDir, Stage::CreatingDir)
        } else {
            self.perform(Action::Copy, Stage::Copying)
        }
    }

    fn ladder(&mut self) -> (step: Step)
        ensures
            (final(self)@, step) == old(self)@.ladder(),
    {
        if self.attempt == Attempt::UseCopyFallback {
            self.plain()
        } else {
            let op = self.op();
            self.perform(Action::Link(op, Target::Destination), Stage::Linking)
        }
    }

    fn keeps_inode(&self) -> (res: bool)
        ensures
            res == self@.keeps_inode(),
    {
        self.mode == LinkMode::Clone && self.os == TargetOs::MacOs && self.entry.kind
            == EntryKind::File && self.entry.executable && !self.entry.record && self.attempt
            != Attempt::UseCopyFallback
    }

    fn begin(&mut self) -> (step: Step)
        ensures
            (final(self)@, step) == old(self)@.begin(),
    {
        match self.mode {
            LinkMode::Copy => self.plain(),
            LinkMode::Hardlink | LinkMode::Symlink => {
                if self.entry.kind == EntryKind::Dir || self.entry.record {
                    self.plain()
                } else {
                    self.ladder()
                }
            },
            LinkMode::Clone => {
                if self.entry.kind == EntryKind::Dir && self.os.clones_files_only() {
                    self.plain()
                } else if self.keeps_inode() {
                    self.perform(
                        Action::Link(LinkOp::Hardlink, Target::Destination),
                        Stage::ExecLinking,
                    )
                } else {
                    self.ladder()
                }
            },
        }
    }

    fn give_up(&mut self) -> (step: Step)
        ensures
            (final(self)@, step) == old(self)@.give_up(),
    {
        self.attempt = Attempt::UseCopyFallback;
        self.plain()
    }

    /// Announces the next entry of the wheel, or of the directory being
    /// descended, and says what to do with it first.
    pub fn enter(&mut self, entry: Entry) -> (step: Step)
        ensures
            (final(self)@, step) == old(self)@.enter(entry),
    {
        if self.stage != Stage::Idle {
            self.fatal(Failure::OutOfTurn)
        } else {
            self.entry = entry;
            self.begin()
        }
    }

    /// Takes the outcome of the action that was requested last, and says what
    /// comes next for the entry at hand.
    pub fn report(&mut self, outcome: Outcome) -> (step: Step)
        requires
            old(self).spec_has_room(),
        ensures
            (final(self)@, step) == old(self)@.report(outcome),
    {
        let done = outcome == Outcome::Done;
        let kind = self.entry.kind;
        match self.stage {
            Stage::Idle | Stage::Aborted => self.fatal(Failure::OutOfTurn),
            Stage::CreatingDir => {
                if !done {
                    self.fatal(Failure::CreateDir)
                } else if self.mode == LinkMode::Clone {
                    self.descend()
                } else {
                    self.finish(false, kind)
                }
            },
            Stage::Linking => match outcome {
                Outcome::Done => self.finish(true, kind),
                Outcome::AlreadyExists => {
                    if kind == EntryKind::Dir {
                        self.descend()
                    } else {
                        self.perform(Action::MakeTempDir, Stage::MakingTemp)
                    }
                },
                Outcome::Failed => {
                    if self.attempt == Attempt::Initial {
                        self.give_up()
                    } else {
                        let op = self.op();
                        self.fatal(Failure::Link(op))
                    }
                },
            },
            Stage::MakingTemp => {
                if done {
                    let op = self.op();
                    self.perform(Action::Link(op, Target::Temporary), Stage::LinkingTemp)
                } else {
                    self.fatal(Failure::TempDir)
                }
            },
            Stage::LinkingTemp => {
                if done {
                    self.perform(Action::Rename, Stage::Renaming)
                } else if self.attempt == Attempt::Initial {
                    self.attempt = Attempt::UseCopyFallback;
                    self.perform(Action::Copy, Stage::Copying)
                } else {
                    let op = self.op();
                    self.fatal(Failure::Link(op))
                }
            },
            Stage::Renaming => {
                if done {
                    self.finish(true, kind)
                } else {
                    self.fatal(Failure::Rename)
                }
            },
            Stage::Copying => {
                if done {
                    self.finish(false, kind)
                } else {
                    self.fatal(Failure::Copy)
                }
            },
            Stage::ExecLinking => match outcome {
                Outcome::Done => self.finish(true, kind),
                Outcome::AlreadyExists => self.perform(Action::MakeTempDir, Stage::ExecMakingTemp),
                Outcome::Failed => self.ladder(),
            },
            Stage::ExecMakingTemp => {
                if done {
                    self.perform(
                        Action::Link(LinkOp::Hardlink, Target::Temporary),
                        Stage::ExecLinkingTemp,
                    )
                } else {
                    self.fatal(Failure::TempDir)
                }
            },
            Stage::ExecLinkingTemp => {
                if done {
                    self.perform(Action::Rename, Stage::Renaming)
                } else {
                    self.ladder()
                }
            },
        }
    }

    /// Closes the directory that the caller was sent into, once each of its
    /// entries has been handled.
    pub fn leave(&mut self) -> (step: Step)
        requires
            old(self).spec_has_room(),
        ensures
            (final(self)@, step) == old(self)@.leave(),
    {
        if self.stage != Stage::Idle || self.depth == 0 {
            self.fatal(Failure::OutOfTurn)
        } else {
            self.depth = self.depth - 1;
            let probed = !self.os.clones_files_only();
            self.finish(probed, EntryKind::Dir)
        }
    }

    /// One turn of the extraction: takes what the caller tells and says what
    /// it has to do next.
    pub fn step(&mut self, input: Input) -> (step: Step)
        requires
            old(self).spec_has_room(),
        ensures
            (final(self)@, step) == old(self)@.step(input),
    {
        match input {
            Input::Enter(entry) => self.enter(entry),
            Input::Report(outcome) => self.report(outcome),
            Input::Leave => self.leave(),
        }
    }
}

} // verus!
