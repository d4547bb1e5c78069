//! What holds of every extraction, whatever the filesystem answers.

use vstd::prelude::*;
use crate::extraction::{
    Action, Attempt, Entry, EntryKind, Failure, Input, LinkOp, Machine, Outcome, Stage, Step,
    Target,
};
use crate::link_mode::{LinkMode, TargetOs};
use crate::locks::{Session, WheelIdView};

verus! {

impl Machine {
    /// The state after the caller has told `inputs` in turn.
    pub open spec fn run(self, inputs: Seq<Input>) -> Machine
        decreases inputs.len(),
    {
        if inputs.len() == 0 {
            self
        } else {
            self.run(inputs.drop_last()).step(inputs.last()).0
        }
    }

    /// What the caller is told in answer to the input at `index`.
    pub open spec fn answer(self, inputs: Seq<Input>, index: int) -> Step
        recommends
            0 <= index < inputs.len(),
    {
        self.run(inputs.take(index)).step(inputs[index]).1
    }

    /// Whether the stage is one of the ladder's rungs at which the
    /// strategy's own operation is under way.
    pub open spec fn on_ladder(self) -> bool {
        self.stage == Stage::Linking || self.stage == Stage::MakingTemp || self.stage
            == Stage::LinkingTemp
    }

    /// Whether the stage is one at which an executable is being hard-linked.
    pub open spec fn on_inode_path(self) -> bool {
        self.stage == Stage::ExecLinking || self.stage == Stage::ExecMakingTemp || self.stage
            == Stage::ExecLinkingTemp
    }

    /// What holds of every state that an extraction can be in.
    pub open spec fn consistent(self) -> bool {
        &&& self.mode == LinkMode::Copy ==> self.attempt == Attempt::Initial
        &&& self.on_ladder() ==> self.mode != LinkMode::Copy && self.attempt
            != Attempt::UseCopyFallback
        &&& self.on_ladder() && self.mode != LinkMode::Clone ==> self.entry.kind
            == EntryKind::File
        &&& self.on_inode_path() ==> self.keeps_inode()
        &&& self.stage == Stage::Renaming ==> self.mode != LinkMode::Copy
        &&& self.mode != LinkMode::Clone ==> self.depth == 0
        &&& self.stage == Stage::CreatingDir ==> self.entry.kind == EntryKind::Dir
        &&& self.stage == Stage::MakingTemp || self.stage == Stage::LinkingTemp
            ==> self.entry.kind == EntryKind::File
        &&& self.stage == Stage::Copying ==> self.entry.kind == EntryKind::File
    }

    /// An upper bound on the number of actions that the entry at hand can
    /// still ask for.
    pub open spec fn actions_left(self) -> nat {
        let by_stage: nat = match self.stage {
            Stage::Idle | Stage::Aborted => 0,
            Stage::CreatingDir | Stage::Copying | Stage::Renaming => 1,
            Stage::LinkingTemp => 3,
            Stage::MakingTemp => 4,
            Stage::Linking => 5,
            Stage::ExecLinkingTemp => 6,
            Stage::ExecMakingTemp => 7,
            Stage::ExecLinking => 8,
        };
        if self.attempt == Attempt::UseCopyFallback {
            by_stage
        } else {
            by_stage + 10
        }
    }
}

/// Every state of an extraction is consistent: the starting state is, and
/// each turn keeps it so.
pub proof fn consistency_is_kept(m: Machine, input: Input)
    requires
        m.consistent(),
    ensures
        Machine::start(m.mode, m.os).consistent(),
        m.step(input).0.consistent(),
        m.step(input).0.mode == m.mode,
        m.step(input).0.os == m.os,
{
}

/// Whatever the caller tells from the start, the state stays consistent and
/// the strategy and system stay the same.
pub proof fn every_run_is_consistent(mode: LinkMode, os: TargetOs, inputs: Seq<Input>)
    ensures
        Machine::start(mode, os).run(inputs).consistent(),
        Machine::start(mode, os).run(inputs).mode == mode,
        Machine::start(mode, os).run(inputs).os == os,
    decreases inputs.len(),
{
    let start = Machine::start(mode, os);
    if inputs.len() > 0 {
        every_run_is_consistent(mode, os, inputs.drop_last());
        consistency_is_kept(start.run(inputs.drop_last()), inputs.last());
    }
}

/// The attempt only moves forward: it leaves `Initial` for one of the other
/// two states and then stays where it is.
pub proof fn attempt_only_moves_forward(m: Machine, input: Input)
    ensures
        m.step(input).0.attempt == m.attempt || m.attempt == Attempt::Initial,
{
}

/// Once the accelerated operation has been given up, no later turn asks for
/// a link of any kind: every file is copied and every directory created, and
/// the attempt stays given up.
pub proof fn fallback_is_permanent(m: Machine, input: Input)
    requires
        m.consistent(),
        m.attempt == Attempt::UseCopyFallback,
    ensures
        m.step(input).0.attempt == Attempt::UseCopyFallback,
        m.step(input).1 is Perform ==> m.step(input).1 == Step::Perform(Action::Copy) || m.step(
            input,
        ).1 == Step::Perform(Action::CreateDir),
{
}

/// Once an extraction has given the accelerated operation up, none of its
/// later turns asks for a link: whatever is still placed is copied.
pub proof fn no_link_after_fallback(
    mode: LinkMode,
    os: TargetOs,
    inputs: Seq<Input>,
    given_up: int,
    later: int,
)
    requires
        0 <= given_up <= later < inputs.len(),
        Machine::start(mode, os).run(inputs.take(given_up)).attempt == Attempt::UseCopyFallback,
    ensures
        Machine::start(mode, os).run(inputs.take(later)).attempt == Attempt::UseCopyFallback,
        Machine::start(mode, os).answer(inputs, later) is Perform ==> Machine::start(
            mode,
            os,
        ).answer(inputs, later) == Step::Perform(Action::Copy) || Machine::start(mode, os).answer(
            inputs,
            later,
        ) == Step::Perform(Action::CreateDir),
    decreases later - given_up,
{
    let start = Machine::start(mode, os);
    every_run_is_consistent(mode, os, inputs.take(later));
    if given_up < later {
        no_link_after_fallback(mode, os, inputs, given_up, later - 1);
        let before = inputs.take(later - 1);
        assert(inputs.take(later).drop_last() =~= before);
        assert(inputs.take(later).last() == inputs[later - 1]);
        every_run_is_consistent(mode, os, before);
        fallback_is_permanent(start.run(before), inputs[later - 1]);
    }
    fallback_is_permanent(start.run(inputs.take(later)), inputs[later]);
}

/// With hard links and with symbolic links, the `RECORD` file is copied and
/// never linked, whatever the attempt stands at: the copy is the first and
/// only action asked for it.
pub proof fn record_is_always_copied(m: Machine, entry: Entry, outcome: Outcome)
    requires
        m.stage == Stage::Idle,
        m.mode == LinkMode::Hardlink || m.mode == LinkMode::Symlink,
        entry.kind == EntryKind::File,
        entry.record,
    ensures
        m.enter(entry).1 == Step::Perform(Action::Copy),
        outcome == Outcome::Done ==> m.enter(entry).0.report(outcome).1 is Finished,
        outcome != Outcome::Done ==> m.enter(entry).0.report(outcome).1 == Step::Fatal(
            Failure::Copy,
        ),
        m.enter(entry).0.report(outcome).0.attempt == m.attempt,
{
}

/// With the `Copy` strategy every file is copied and every directory
/// created: nothing else is ever asked for.
pub proof fn copy_mode_only_copies(m: Machine, input: Input, entry: Entry)
    requires
        m.consistent(),
        m.mode == LinkMode::Copy,
    ensures
        m.step(input).1 is Perform ==> m.step(input).1 == Step::Perform(Action::Copy) || m.step(
            input,
        ).1 == Step::Perform(Action::CreateDir),
        m.stage == Stage::Idle ==> m.enter(entry).1 == (if entry.kind == EntryKind::Dir {
            Step::Perform(Action::CreateDir)
        } else {
            Step::Perform(Action::Copy)
        }),
{
}

/// The user is told of the fallback at most once per extraction, and has
/// been told whenever an entry is finished after the operation was given up.
pub proof fn notice_is_given_once(m: Machine, input: Input)
    ensures
        m.warned ==> m.step(input).0.warned,
        m.step(input).1 == Step::Finished(true) ==> !m.warned && m.step(input).0.warned,
        m.step(input).1 is Finished && m.step(input).0.attempt == Attempt::UseCopyFallback
            ==> m.step(input).0.warned,
        m.step(input).1 == Step::Finished(true) ==> m.step(input).0.attempt
            == Attempt::UseCopyFallback,
{
}

/// Once the user has been told of the fallback, the state stays so through
/// whatever follows.
pub proof fn warned_stays(m: Machine, inputs: Seq<Input>)
    requires
        m.warned,
    ensures
        m.run(inputs).warned,
    decreases inputs.len(),
{
    if inputs.len() > 0 {
        warned_stays(m, inputs.drop_last());
        notice_is_given_once(m.run(inputs.drop_last()), inputs.last());
    }
}

/// No two turns of one extraction tell the user of the fallback.
pub proof fn no_second_notice(m: Machine, inputs: Seq<Input>, first: int, second: int)
    requires
        0 <= first < second < inputs.len(),
        m.answer(inputs, first) == Step::Finished(true),
    ensures
        m.answer(inputs, second) != Step::Finished(true),
{
    let told = m.run(inputs.take(first)).step(inputs[first]).0;
    notice_is_given_once(m.run(inputs.take(first)), inputs[first]);
    assert(inputs.take(first + 1).drop_last() =~= inputs.take(first));
    assert(inputs.take(first + 1).last() == inputs[first]);
    assert(m.run(inputs.take(first + 1)) == told);
    let rest = inputs.subrange(first + 1, second);
    run_in_two_parts(m, inputs.take(first + 1), rest);
    assert(inputs.take(first + 1) + rest =~= inputs.take(second));
    warned_stays(told, rest);
    notice_is_given_once(m.run(inputs.take(second)), inputs[second]);
}

/// Telling one sequence of inputs and then another leads where telling both
/// in one go does.
pub proof fn run_in_two_parts(m: Machine, first: Seq<Input>, second: Seq<Input>)
    ensures
        m.run(first + second) == m.run(first).run(second),
    decreases second.len(),
{
    if second.len() == 0 {
        assert(first + second =~= first);
    } else {
        run_in_two_parts(m, first, second.drop_last());
        assert((first + second).drop_last() =~= first + second.drop_last());
        assert((first + second).last() == second.last());
    }
}

/// No entry is retried without end: each action that is asked for brings the
/// entry at hand closer to being finished or failed, and fewer than twenty
/// actions are left at any time.
pub proof fn every_entry_ends(m: Machine, entry: Entry, outcome: Outcome)
    ensures
        m.actions_left() < 20,
        m.report(outcome).1 is Perform ==> m.report(outcome).0.actions_left() < m.actions_left(),
        !(m.report(outcome).1 is Perform) ==> m.report(outcome).0.stage == Stage::Idle
            || m.report(outcome).0.stage == Stage::Aborted,
        m.enter(entry).1 is Perform || m.enter(entry).1 == Step::Fatal(Failure::OutOfTurn),
{
}

impl Session {
    /// How many warnings are given when `wheels` claim `module` in turn.
    pub open spec fn warnings_given(self, module: Seq<char>, wheels: Seq<WheelIdView>) -> nat
        decreases wheels.len(),
    {
        if wheels.len() == 0 {
            0
        } else {
            let now: nat = if self.reports(module) {
                1
            } else {
                0
            };
            now + self.claim(module, wheels[0]).warnings_given(module, wheels.drop_first())
        }
    }
}

/// A session that does not report the conflicts on a module now will not
/// report them later either, however many wheels claim the module.
pub proof fn a_silent_module_stays_silent(
    session: Session,
    module: Seq<char>,
    wheels: Seq<WheelIdView>,
)
    requires
        session.claims.contains_key(module),
        !session.reports(module),
    ensures
        session.warnings_given(module, wheels) == 0,
    decreases wheels.len(),
{
    if wheels.len() > 0 {
        a_silent_module_stays_silent(
            session.claim(module, wheels[0]),
            module,
            wheels.drop_first(),
        );
    }
}

/// However many wheels provide a module that none had provided before, the
/// user is warned once where conflicts are reported and two or more wheels
/// provide it, and never otherwise.
pub proof fn a_conflict_is_reported_once(
    session: Session,
    module: Seq<char>,
    wheels: Seq<WheelIdView>,
)
    requires
        !session.claims.contains_key(module),
    ensures
        session.warnings_given(module, wheels) == (if session.detect_conflicts && wheels.len()
            >= 2 {
            1nat
        } else {
            0nat
        }),
{
    if wheels.len() > 0 {
        let first = session.claim(module, wheels[0]);
        let rest = wheels.drop_first();
        if rest.len() > 0 {
            let second = first.claim(module, rest[0]);
            a_silent_module_stays_silent(second, module, rest.drop_first());
            assert(first.warnings_given(module, rest) == (if first.reports(module) {
                1nat
            } else {
                0nat
            }) + second.warnings_given(module, rest.drop_first()));
        } else {
            assert(first.warnings_given(module, rest) == 0);
        }
    }
}

/// Three wheels that provide one module, in whatever order they come: the
/// second is reported against the first where conflicts are reported, the
/// third is not reported, and the module ends up with the third.
pub proof fn three_wheels_give_one_warning(
    session: Session,
    module: Seq<char>,
    a: WheelIdView,
    b: WheelIdView,
    c: WheelIdView,
)
    requires
        !session.claims.contains_key(module),
    ensures
        session.warning(module, a) is None,
        session.claim(module, a).warning(module, b) is Some == session.detect_conflicts,
        session.claim(module, a).claim(module, b).warning(module, c) is None,
        session.claim(module, a).claim(module, b).claim(module, c).claims[module].wheel == c,
        session.warnings_given(module, seq![a, b, c]) == (if session.detect_conflicts {
            1nat
        } else {
            0nat
        }),
{
    a_conflict_is_reported_once(session, module, seq![a, b, c]);
}

/// A claim on one module changes nothing for any other module.
pub proof fn a_claim_touches_one_module(
    session: Session,
    module: Seq<char>,
    wheel: WheelIdView,
    other: Seq<char>,
)
    requires
        other != module,
    ensures
        session.claim(module, wheel).reports(other) == session.reports(other),
        session.claim(module, wheel).claims.contains_key(other) == session.claims.contains_key(
            other,
        ),
        session.claims.contains_key(other) ==> session.claim(module, wheel).claims[other]
            == session.claims[other],
        session.claim(module, wheel).locked_dirs == session.locked_dirs,
{
}

/// Locks are made and never removed: asking for a directory's lock leaves
/// every lock where it was, gives the directory one place and one only, and
/// keeps the directories distinct. Asking twice changes nothing more.
pub proof fn locks_only_grow(session: Session, dir: Seq<char>)
    requires
        session.locked_dirs.no_duplicates(),
    ensures
        session.with_lock(dir).locked_dirs.no_duplicates(),
        session.with_lock(dir).locked_dirs.contains(dir),
        session.locked_dirs.is_prefix_of(session.with_lock(dir).locked_dirs),
        session.with_lock(dir).with_lock(dir) == session.with_lock(dir),
        session.with_lock(dir).claims == session.claims,
{
    let after = session.with_lock(dir).locked_dirs;
    if session.locked_dirs.contains(dir) {
    } else {
        assert(after[after.len() - 1] == dir);
        assert forall|i: int, j: int| 0 <= i < after.len() && 0 <= j < after.len() && i != j implies after[i] != after[j] by {
            if i < session.locked_dirs.len() {
                assert(session.locked_dirs.contains(after[i]));
            }
            if j < session.locked_dirs.len() {
                assert(session.locked_dirs.contains(after[j]));
            }
        }
    }
}

/// Two copies meet at one lock exactly when they go into one directory.
pub proof fn one_lock_per_directory(session: Session, i: int, j: int)
    requires
        session.locked_dirs.no_duplicates(),
        0 <= i < session.locked_dirs.len(),
        0 <= j < session.locked_dirs.len(),
    ensures
        (i == j) == (session.locked_dirs[i] == session.locked_dirs[j]),
{
}

/// What a place in the filesystem holds, as far as the entry at hand goes.
pub enum Holds {
    /// Something else, or nothing.
    Other,
    /// The source's content through a link: a change to either shows in
    /// both.
    Linked,
    /// The source's content in a copy of its own, or in a clone that parts
    /// from the source when either is written to.
    OwnCopy,
}

/// What the destination of the entry at hand and the place in its
/// temporary directory hold.
pub struct Places {
    /// The destination.
    pub destination: Holds,
    /// The place in the temporary directory.
    pub temporary: Holds,
}

/// What a place holds once the operation `op` has put the source there.
pub open spec fn linked_by(op: LinkOp) -> Holds {
    if op == LinkOp::Reflink {
        Holds::OwnCopy
    } else {
        Holds::Linked
    }
}

/// What the places hold after an action on a file: a failed action leaves
/// them as they are, a link or a copy puts the source where it is made, and a
/// rename moves what the temporary place holds over the destination.
pub open spec fn after(places: Places, action: Action, outcome: Outcome) -> Places {
    if outcome != Outcome::Done {
        places
    } else {
        match action {
            Action::Link(op, Target::Destination) => Places {
                destination: linked_by(op),
                ..places
            },
            Action::Link(op, Target::Temporary) => Places { temporary: linked_by(op), ..places },
            Action::Rename => Places { destination: places.temporary, temporary: Holds::Other },
            Action::Copy => Places { destination: Holds::OwnCopy, ..places },
            Action::CreateDir | Action::MakeTempDir => places,
        }
    }
}

impl Machine {
    /// The action whose outcome is awaited at the stage at hand, if any.
    pub open spec fn awaited(self) -> Option<Action> {
        match self.stage {
            Stage::Idle | Stage::Aborted => None,
            Stage::CreatingDir => Some(Action::CreateDir),
            Stage::Linking => Some(Action::Link(self.op(), Target::Destination)),
            Stage::MakingTemp | Stage::ExecMakingTemp => Some(Action::MakeTempDir),
            Stage::LinkingTemp => Some(Action::Link(self.op(), Target::Temporary)),
            Stage::Renaming => Some(Action::Rename),
            Stage::Copying => Some(Action::Copy),
            Stage::ExecLinking => Some(Action::Link(LinkOp::Hardlink, Target::Destination)),
            Stage::ExecLinkingTemp => Some(Action::Link(LinkOp::Hardlink, Target::Temporary)),
        }
    }

    /// Whether the places hold what the stage at hand relies on: a rename is
    /// only asked for once the temporary place holds the source, and the
    /// `RECORD` file never waits for a hard link or a symbolic link.
    pub open spec fn relies_on(self, places: Places) -> bool {
        &&& self.stage == Stage::Renaming ==> places.temporary != Holds::Other
        &&& self.stage == Stage::Renaming && self.record_is_kept_apart() ==> places.temporary
            == Holds::OwnCopy
        &&& self.record_is_kept_apart() && self.on_ladder() ==> self.mode == LinkMode::Clone
        &&& self.record_is_kept_apart() ==> !self.on_inode_path()
    }

    /// Whether the entry at hand is a `RECORD` file, which must not share
    /// its content with the source: the installer rewrites it.
    pub open spec fn record_is_kept_apart(self) -> bool {
        self.entry.kind == EntryKind::File && self.entry.record
    }
}

/// The action that the caller is asked for is the one whose outcome is
/// awaited next.
pub proof fn the_asked_action_is_awaited(m: Machine, input: Input)
    ensures
        m.step(input).1 matches Step::Perform(action) ==> m.step(input).0.awaited() == Some(
            action,
        ),
{
}

/// Every file that is reported as finished reads as its source does: the
/// last action on it was a link, a copy or a rename that succeeded and put
/// the source's content at the destination. A `RECORD` file that is finished
/// holds a copy of its own under every strategy, so that rewriting it leaves
/// the source as it was.
pub proof fn a_finished_file_is_in_place(m: Machine, outcome: Outcome, places: Places)
    requires
        m.consistent(),
        m.relies_on(places),
        m.entry.kind == EntryKind::File,
        m.awaited() is Some,
    ensures
        m.report(outcome).1 is Finished ==> after(
            places,
            m.awaited().unwrap(),
            outcome,
        ).destination != Holds::Other,
        m.report(outcome).1 is Finished && m.record_is_kept_apart() ==> after(
            places,
            m.awaited().unwrap(),
            outcome,
        ).destination == Holds::OwnCopy,
        m.report(outcome).1 is Perform ==> m.report(outcome).0.relies_on(
            after(places, m.awaited().unwrap(), outcome),
        ),
        m.report(outcome).0.entry == m.entry,
{
}

/// The handling of an entry starts in a state that relies on nothing.
pub proof fn an_entry_starts_relying_on_nothing(m: Machine, entry: Entry, places: Places)
    requires
        m.consistent(),
    ensures
        m.enter(entry).0.relies_on(places),
        m.enter(entry).1 is Perform ==> m.enter(entry).0.entry == entry,
{
}

/// A directory that exists at the destination is never replaced as a whole:
/// where cloning it is refused because it exists, the caller is sent into it
/// and its entries are placed one by one, beside whatever the destination
/// holds already.
pub proof fn an_existing_directory_is_merged(m: Machine, entry: Entry)
    requires
        m.stage == Stage::Idle,
        m.mode == LinkMode::Clone,
        !m.os.spec_clones_files_only(),
        m.attempt != Attempt::UseCopyFallback,
        entry.kind == EntryKind::Dir,
    ensures
        m.enter(entry).1 == Step::Perform(Action::Link(LinkOp::Reflink, Target::Destination)),
        m.enter(entry).0.report(Outcome::AlreadyExists).1 == Step::Descend,
        m.enter(entry).0.report(Outcome::AlreadyExists).0.depth == m.depth + 1,
        m.enter(entry).0.report(Outcome::AlreadyExists).0.attempt == m.attempt,
{
}

/// A file that exists at the destination is replaced by the wheel's: the
/// link is made under a temporary name and moved over the destination, which
/// then holds the source's content and at no time is missing.
pub proof fn an_existing_file_is_replaced(m: Machine, places: Places)
    requires
        m.stage == Stage::Linking,
        m.entry.kind == EntryKind::File,
    ensures
        ({
            let replaced = m.report(Outcome::AlreadyExists);
            let temp = replaced.0.report(Outcome::Done);
            let linked = temp.0.report(Outcome::Done);
            let renamed = linked.0.report(Outcome::Done);
            let held = after(
                after(after(places, Action::MakeTempDir, Outcome::Done), temp.1->Perform_0, Outcome::Done),
                linked.1->Perform_0,
                Outcome::Done,
            );
            &&& replaced.1 == Step::Perform(Action::MakeTempDir)
            &&& temp.1 == Step::Perform(Action::Link(m.op(), Target::Temporary))
            &&& linked.1 == Step::Perform(Action::Rename)
            &&& renamed.1 is Finished
            &&& held.destination == linked_by(m.op())
        }),
{
}

/// The user is told once per session that an operation does not work: once
/// it has been noted it stays noted, whatever else the session records.
pub proof fn a_fallback_is_noted_once(
    session: Session,
    op: LinkOp,
    other: LinkOp,
    module: Seq<char>,
    wheel: WheelIdView,
    dir: Seq<char>,
)
    ensures
        session.with_note(op).noted.contains(op),
        session.noted.contains(op) ==> session.with_note(other).noted.contains(op),
        session.noted.contains(op) ==> session.claim(module, wheel).noted.contains(op),
        session.noted.contains(op) ==> session.with_lock(dir).noted.contains(op),
        !Session::fresh(session.detect_conflicts).noted.contains(op),
{
}

/// The handling of one entry from its start: the state, the last answer and
/// what the places hold once the caller has reported `outcomes` in turn.
/// Once the entry is finished or has failed, further reports count for
/// nothing.
pub struct Handling {
    /// The state of the extraction.
    pub state: Machine,
    /// What the caller was told last.
    pub answer: Step,
    /// What the destination and the temporary place hold.
    pub places: Places,
}

impl Machine {
    /// The handling of `entry` after the caller has announced it and
    /// reported `outcomes` in turn. Nothing is known of the places at the
    /// start.
    pub open spec fn handling(self, entry: Entry, outcomes: Seq<Outcome>) -> Handling
        decreases outcomes.len(),
    {
        if outcomes.len() == 0 {
            Handling {
                state: self.enter(entry).0,
                answer: self.enter(entry).1,
                places: Places { destination: Holds::Other, temporary: Holds::Other },
            }
        } else {
            let before = self.handling(entry, outcomes.drop_last());
            match before.answer {
                Step::Perform(action) => Handling {
                    state: before.state.report(outcomes.last()).0,
                    answer: before.state.report(outcomes.last()).1,
                    places: after(before.places, action, outcomes.last()),
                },
                _ => before,
            }
        }
    }
}

/// Whatever the filesystem answers while a file is handled: when the file
/// is reported as finished, its destination holds the content of its
/// source, put there by the last link, copy or rename that succeeded; and
/// the `RECORD` file holds a copy of its own under every strategy. Until
/// then the caller is only ever asked for the action that comes next.
pub proof fn a_finished_file_holds_its_source(m: Machine, entry: Entry, outcomes: Seq<Outcome>)
    requires
        m.consistent(),
        m.stage == Stage::Idle,
        entry.kind == EntryKind::File,
    ensures
        m.handling(entry, outcomes).answer is Finished ==> m.handling(
            entry,
            outcomes,
        ).places.destination != Holds::Other,
        m.handling(entry, outcomes).answer is Finished && entry.record ==> m.handling(
            entry,
            outcomes,
        ).places.destination == Holds::OwnCopy,
        !(m.handling(entry, outcomes).answer is Descend),
        m.handling(entry, outcomes).state.consistent(),
        m.handling(entry, outcomes).state.entry == entry,
        m.handling(entry, outcomes).state.mode == m.mode,
        m.handling(entry, outcomes).answer matches Step::Perform(action) ==> m.handling(
            entry,
            outcomes,
        ).state.awaited() == Some(action) && m.handling(entry, outcomes).state.relies_on(
            m.handling(entry, outcomes).places,
        ),
    decreases outcomes.len(),
{
    if outcomes.len() == 0 {
        consistency_is_kept(m, Input::Enter(entry));
        an_entry_starts_relying_on_nothing(
            m,
            entry,
            Places { destination: Holds::Other, temporary: Holds::Other },
        );
        the_asked_action_is_awaited(m, Input::Enter(entry));
    } else {
        a_finished_file_holds_its_source(m, entry, outcomes.drop_last());
        let before = m.handling(entry, outcomes.drop_last());
        if before.answer is Perform {
            consistency_is_kept(before.state, Input::Report(outcomes.last()));
            a_finished_file_is_in_place(before.state, outcomes.last(), before.places);
            the_asked_action_is_awaited(before.state, Input::Report(outcomes.last()));
        }
    }
}

/// How an action ends on a filesystem that refuses every link and does
/// everything else.
pub open spec fn refuse_links(action: Action) -> Outcome {
    if action is Link {
        Outcome::Failed
    } else {
        Outcome::Done
    }
}

/// How many of the entries are files, the `RECORD` file among them.
pub open spec fn files_among(entries: Seq<Entry>) -> nat
    decreases entries.len(),
{
    if entries.len() == 0 {
        0
    } else if entries.last().kind == EntryKind::File {
        files_among(entries.drop_last()) + 1
    } else {
        files_among(entries.drop_last())
    }
}

/// Whether one of the entries is a file that a linking strategy would link:
/// any file but the `RECORD` file.
pub open spec fn any_to_link(entries: Seq<Entry>) -> bool {
    exists|k: int|
        0 <= k < entries.len() && (#[trigger] entries[k]).kind == EntryKind::File && !entries[k].record
}

impl Machine {
    /// The outcomes that the caller reports for `entry` on a filesystem that
    /// refuses every link: in a walk, two at most.
    pub open spec fn refused_outcomes(self, entry: Entry) -> Seq<Outcome> {
        match self.enter(entry).1 {
            Step::Perform(first) => match self.enter(entry).0.report(refuse_links(first)).1 {
                Step::Perform(second) => seq![refuse_links(first), refuse_links(second)],
                _ => seq![refuse_links(first)],
            },
            _ => Seq::empty(),
        }
    }

    /// The handling of `entry` on a filesystem that refuses every link.
    pub open spec fn refused(self, entry: Entry) -> Handling {
        self.handling(entry, self.refused_outcomes(entry))
    }

    /// The state after a walk over `entries` on a filesystem that refuses
    /// every link.
    pub open spec fn refused_walk(self, entries: Seq<Entry>) -> Machine
        decreases entries.len(),
    {
        if entries.len() == 0 {
            self
        } else {
            self.refused_walk(entries.drop_last()).refused(entries.last()).state
        }
    }

    /// Whether the state is one between two entries of a walk in which no
    /// link has worked: with hard links or symbolic links, nothing at hand,
    /// and the user told of the fallback exactly if it has been reached.
    pub open spec fn between_refusals(self) -> bool {
        &&& self.consistent()
        &&& self.mode == LinkMode::Hardlink || self.mode == LinkMode::Symlink
        &&& self.stage == Stage::Idle
        &&& self.attempt != Attempt::Subsequent
        &&& self.warned == (self.attempt == Attempt::UseCopyFallback)
    }
}

/// On a filesystem that refuses every link, each entry of a walk with hard
/// links or symbolic links is finished: a directory is created, a file is
/// copied and counted, and holds a copy of its own. The first file that
/// would have been linked is tried once, and the user is told then and only
/// then.
pub proof fn a_refused_entry_is_copied(m: Machine, entry: Entry)
    requires
        m.between_refusals(),
    ensures
        m.refused(entry).answer is Finished,
        m.refused(entry).state.between_refusals(),
        m.refused(entry).state.os == m.os,
        m.refused(entry).state.mode == m.mode,
        m.refused(entry).state.count == m.count + (if entry.kind == EntryKind::File {
            1nat
        } else {
            0nat
        }),
        m.refused(entry).state.attempt == (if entry.kind == EntryKind::File && !entry.record {
            Attempt::UseCopyFallback
        } else {
            m.attempt
        }),
        m.refused(entry).answer == Step::Finished(
            entry.kind == EntryKind::File && !entry.record && m.attempt == Attempt::Initial,
        ),
        entry.kind == EntryKind::File ==> m.refused(entry).places.destination == Holds::OwnCopy,
{
    let outcomes = m.refused_outcomes(entry);
    let first = m.enter(entry);
    let none = Seq::<Outcome>::empty();
    assert(m.handling(entry, none).state == first.0);
    if first.1 is Perform {
        let action = first.1->Perform_0;
        let o1 = refuse_links(action);
        let one = seq![o1];
        assert(one.drop_last() =~= none);
        assert(one.last() == o1);
        assert(m.handling(entry, one).answer == first.0.report(o1).1);
        let second = first.0.report(o1);
        if second.1 is Perform {
            let o2 = refuse_links(second.1->Perform_0);
            let two = seq![o1, o2];
            assert(two.drop_last() =~= one);
            assert(two.last() == o2);
            assert(m.handling(entry, two).answer == second.0.report(o2).1);
        }
    }
}

/// On a filesystem that refuses every link, a walk with hard links or
/// symbolic links places every entry all the same: it ends with nothing at
/// hand, counts exactly the files of the wheel, and has fallen back, with
/// the user told once, exactly if the wheel holds a file to link.
pub proof fn a_refused_walk_copies_every_file(mode: LinkMode, os: TargetOs, entries: Seq<Entry>)
    requires
        mode == LinkMode::Hardlink || mode == LinkMode::Symlink,
    ensures
        Machine::start(mode, os).refused_walk(entries).between_refusals(),
        Machine::start(mode, os).refused_walk(entries).mode == mode,
        Machine::start(mode, os).refused_walk(entries).count == files_among(entries),
        Machine::start(mode, os).refused_walk(entries).attempt == (if any_to_link(entries) {
            Attempt::UseCopyFallback
        } else {
            Attempt::Initial
        }),
        Machine::start(mode, os).refused_walk(entries).warned == any_to_link(entries),
    decreases entries.len(),
{
    let start = Machine::start(mode, os);
    if entries.len() > 0 {
        let before = entries.drop_last();
        a_refused_walk_copies_every_file(mode, os, before);
        a_refused_entry_is_copied(start.refused_walk(before), entries.last());
        let last = entries.last();
        if any_to_link(before) {
            let k = choose|k: int|
                0 <= k < before.len() && (#[trigger] before[k]).kind == EntryKind::File
                    && !before[k].record;
            assert(entries[k] == before[k]);
        }
        if last.kind == EntryKind::File && !last.record {
            assert(entries[entries.len() - 1] == last);
        }
        if any_to_link(entries) && !(last.kind == EntryKind::File && !last.record) {
            let k = choose|k: int|
                0 <= k < entries.len() && (#[trigger] entries[k]).kind == EntryKind::File
                    && !entries[k].record;
            assert(before[k] == entries[k]);
        }
    }
}

} // verus!
