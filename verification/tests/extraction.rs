use install_wheel::extraction::{
    Action, Attempt, Entry, EntryKind, Extraction, Failure, Input, LinkOp, Outcome, Stage, Step,
    Summary, Target,
};
use install_wheel::link_mode::{LinkMode, TargetOs};

fn file() -> Entry {
    Entry { kind: EntryKind::File, record: false, executable: false }
}

fn dir() -> Entry {
    Entry { kind: EntryKind::Dir, record: false, executable: false }
}

fn record() -> Entry {
    Entry { kind: EntryKind::File, record: true, executable: false }
}

fn executable() -> Entry {
    Entry { kind: EntryKind::File, record: false, executable: true }
}

#[test]
fn copy_strategy_counts_two_files() {
    // The wheel holds `a/__init__.py` and `a/mod.py`: the walk meets the
    // root, `a`, and the two files.
    let mut ex = Extraction::new(LinkMode::Copy, TargetOs::Linux);
    assert_eq!(ex.enter(dir()), Step::Perform(Action::CreateDir));
    assert_eq!(ex.report(Outcome::Done), Step::Finished(false));
    assert_eq!(ex.enter(dir()), Step::Perform(Action::CreateDir));
    assert_eq!(ex.report(Outcome::Done), Step::Finished(false));
    assert_eq!(ex.enter(file()), Step::Perform(Action::Copy));
    assert_eq!(ex.report(Outcome::Done), Step::Finished(false));
    assert_eq!(ex.enter(file()), Step::Perform(Action::Copy));
    assert_eq!(ex.report(Outcome::Done), Step::Finished(false));
    assert_eq!(ex.summary(), Some(Summary { count: 2, refresh_mtime: false }));
    assert_eq!(ex.attempt(), Attempt::Initial);
}

#[test]
fn hardlink_rejected_falls_back_for_every_file() {
    let mut ex = Extraction::new(LinkMode::Hardlink, TargetOs::Linux);
    assert_eq!(ex.enter(dir()), Step::Perform(Action::CreateDir));
    assert_eq!(ex.report(Outcome::Done), Step::Finished(false));
    // The first file: the hard link is refused, the file is copied.
    assert_eq!(
        ex.enter(file()),
        Step::Perform(Action::Link(LinkOp::Hardlink, Target::Destination))
    );
    assert_eq!(ex.report(Outcome::Failed), Step::Perform(Action::Copy));
    assert_eq!(ex.attempt(), Attempt::UseCopyFallback);
    assert_eq!(ex.report(Outcome::Done), Step::Finished(true));
    // Every later file is copied at once, and the user is not told again.
    let mut notices = 1;
    for _ in 0..5 {
        assert_eq!(ex.enter(file()), Step::Perform(Action::Copy));
        match ex.report(Outcome::Done) {
            Step::Finished(true) => notices += 1,
            Step::Finished(false) => {}
            other => panic!("unexpected step {:?}", other),
        }
        assert_eq!(ex.attempt(), Attempt::UseCopyFallback);
    }
    assert_eq!(notices, 1);
    assert_eq!(ex.summary(), Some(Summary { count: 6, refresh_mtime: false }));
}

#[test]
fn hardlink_that_works_makes_later_failures_fatal() {
    let mut ex = Extraction::new(LinkMode::Hardlink, TargetOs::Linux);
    assert_eq!(
        ex.enter(file()),
        Step::Perform(Action::Link(LinkOp::Hardlink, Target::Destination))
    );
    assert_eq!(ex.report(Outcome::Done), Step::Finished(false));
    assert_eq!(ex.attempt(), Attempt::Subsequent);
    assert_eq!(
        ex.enter(file()),
        Step::Perform(Action::Link(LinkOp::Hardlink, Target::Destination))
    );
    assert_eq!(ex.report(Outcome::Failed), Step::Fatal(Failure::Link(LinkOp::Hardlink)));
    assert_eq!(ex.stage(), Stage::Aborted);
    assert_eq!(ex.summary(), None);
    assert_eq!(ex.enter(file()), Step::Fatal(Failure::OutOfTurn));
}

#[test]
fn existing_destination_is_replaced_through_a_temporary_link() {
    let mut ex = Extraction::new(LinkMode::Symlink, TargetOs::Linux);
    assert_eq!(
        ex.enter(file()),
        Step::Perform(Action::Link(LinkOp::Symlink, Target::Destination))
    );
    assert_eq!(ex.report(Outcome::AlreadyExists), Step::Perform(Action::MakeTempDir));
    assert_eq!(
        ex.report(Outcome::Done),
        Step::Perform(Action::Link(LinkOp::Symlink, Target::Temporary))
    );
    assert_eq!(ex.report(Outcome::Done), Step::Perform(Action::Rename));
    assert_eq!(ex.report(Outcome::Done), Step::Finished(false));
    assert_eq!(ex.attempt(), Attempt::Subsequent);
    assert_eq!(ex.count(), 1);
}

#[test]
fn temporary_link_refused_on_first_file_falls_back() {
    let mut ex = Extraction::new(LinkMode::Hardlink, TargetOs::Linux);
    ex.enter(file());
    assert_eq!(ex.report(Outcome::AlreadyExists), Step::Perform(Action::MakeTempDir));
    ex.report(Outcome::Done);
    assert_eq!(ex.report(Outcome::Failed), Step::Perform(Action::Copy));
    assert_eq!(ex.report(Outcome::Done), Step::Finished(true));
    assert_eq!(ex.attempt(), Attempt::UseCopyFallback);
}

#[test]
fn temporary_link_refused_later_is_fatal() {
    let mut ex = Extraction::new(LinkMode::Hardlink, TargetOs::Linux);
    ex.enter(file());
    ex.report(Outcome::Done);
    ex.enter(file());
    assert_eq!(ex.report(Outcome::AlreadyExists), Step::Perform(Action::MakeTempDir));
    ex.report(Outcome::Done);
    assert_eq!(ex.report(Outcome::Failed), Step::Fatal(Failure::Link(LinkOp::Hardlink)));
}

#[test]
fn failures_of_the_plain_operations_are_fatal() {
    let mut ex = Extraction::new(LinkMode::Copy, TargetOs::Linux);
    ex.enter(dir());
    assert_eq!(ex.report(Outcome::Failed), Step::Fatal(Failure::CreateDir));

    let mut ex = Extraction::new(LinkMode::Copy, TargetOs::Linux);
    ex.enter(file());
    assert_eq!(ex.report(Outcome::AlreadyExists), Step::Fatal(Failure::Copy));

    let mut ex = Extraction::new(LinkMode::Hardlink, TargetOs::Linux);
    ex.enter(file());
    ex.report(Outcome::AlreadyExists);
    assert_eq!(ex.report(Outcome::Failed), Step::Fatal(Failure::TempDir));

    let mut ex = Extraction::new(LinkMode::Hardlink, TargetOs::Linux);
    ex.enter(file());
    ex.report(Outcome::AlreadyExists);
    ex.report(Outcome::Done);
    ex.report(Outcome::Done);
    assert_eq!(ex.report(Outcome::Failed), Step::Fatal(Failure::Rename));
}

#[test]
fn record_is_copied_whatever_the_attempt() {
    for mode in [LinkMode::Hardlink, LinkMode::Symlink] {
        let mut ex = Extraction::new(mode, TargetOs::Linux);
        assert_eq!(ex.enter(record()), Step::Perform(Action::Copy));
        assert_eq!(ex.report(Outcome::Done), Step::Finished(false));
        assert_eq!(ex.attempt(), Attempt::Initial);
        ex.enter(file());
        ex.report(Outcome::Done);
        assert_eq!(ex.attempt(), Attempt::Subsequent);
        assert_eq!(ex.enter(record()), Step::Perform(Action::Copy));
        assert_eq!(ex.report(Outcome::Done), Step::Finished(false));
        assert_eq!(ex.count(), 3);
    }
}

#[test]
fn reports_out_of_turn_end_the_extraction() {
    let mut ex = Extraction::new(LinkMode::Copy, TargetOs::Linux);
    assert_eq!(ex.report(Outcome::Done), Step::Fatal(Failure::OutOfTurn));
    let mut ex = Extraction::new(LinkMode::Copy, TargetOs::Linux);
    assert_eq!(ex.leave(), Step::Fatal(Failure::OutOfTurn));
    let mut ex = Extraction::new(LinkMode::Copy, TargetOs::Linux);
    ex.enter(file());
    assert_eq!(ex.enter(file()), Step::Fatal(Failure::OutOfTurn));
}

#[test]
fn clone_on_linux_walks_directories_and_counts_top_level_entries() {
    let mut ex = Extraction::new(LinkMode::Clone, TargetOs::Linux);
    assert_eq!(ex.enter(dir()), Step::Perform(Action::CreateDir));
    assert_eq!(ex.report(Outcome::Done), Step::Descend);
    assert_eq!(
        ex.enter(file()),
        Step::Perform(Action::Link(LinkOp::Reflink, Target::Destination))
    );
    assert_eq!(ex.report(Outcome::Done), Step::Finished(false));
    assert_eq!(ex.count(), 0);
    assert_eq!(ex.summary(), None);
    assert_eq!(
        ex.enter(file()),
        Step::Perform(Action::Link(LinkOp::Reflink, Target::Destination))
    );
    assert_eq!(ex.report(Outcome::Done), Step::Finished(false));
    assert_eq!(ex.leave(), Step::Finished(false));
    assert_eq!(ex.summary(), Some(Summary { count: 1, refresh_mtime: true }));
}

#[test]
fn clone_on_macos_merges_into_an_existing_directory() {
    let mut ex = Extraction::new(LinkMode::Clone, TargetOs::MacOs);
    // The whole directory is cloned in one go.
    assert_eq!(
        ex.enter(dir()),
        Step::Perform(Action::Link(LinkOp::Reflink, Target::Destination))
    );
    assert_eq!(ex.report(Outcome::Done), Step::Finished(false));
    assert_eq!(ex.attempt(), Attempt::Subsequent);
    // The next directory exists at the destination: its entries are merged.
    ex.enter(dir());
    assert_eq!(ex.report(Outcome::AlreadyExists), Step::Descend);
    // A file that exists already is replaced, one that does not is cloned.
    ex.enter(file());
    assert_eq!(ex.report(Outcome::AlreadyExists), Step::Perform(Action::MakeTempDir));
    assert_eq!(
        ex.report(Outcome::Done),
        Step::Perform(Action::Link(LinkOp::Reflink, Target::Temporary))
    );
    assert_eq!(ex.report(Outcome::Done), Step::Perform(Action::Rename));
    assert_eq!(ex.report(Outcome::Done), Step::Finished(false));
    ex.enter(file());
    assert_eq!(ex.report(Outcome::Done), Step::Finished(false));
    assert_eq!(ex.leave(), Step::Finished(false));
    assert_eq!(ex.summary(), Some(Summary { count: 2, refresh_mtime: true }));
}

#[test]
fn clone_on_macos_hard_links_executables_first() {
    let mut ex = Extraction::new(LinkMode::Clone, TargetOs::MacOs);
    assert_eq!(
        ex.enter(executable()),
        Step::Perform(Action::Link(LinkOp::Hardlink, Target::Destination))
    );
    assert_eq!(ex.report(Outcome::Done), Step::Finished(false));
    assert_eq!(ex.attempt(), Attempt::Subsequent);
    // Where the hard link fails, the file is cloned like any other.
    ex.enter(executable());
    assert_eq!(
        ex.report(Outcome::Failed),
        Step::Perform(Action::Link(LinkOp::Reflink, Target::Destination))
    );
    assert_eq!(ex.report(Outcome::Done), Step::Finished(false));
    // On other systems executables are cloned at once.
    let mut ex = Extraction::new(LinkMode::Clone, TargetOs::Linux);
    assert_eq!(
        ex.enter(executable()),
        Step::Perform(Action::Link(LinkOp::Reflink, Target::Destination))
    );
}

#[test]
fn clone_refused_on_macos_copies_directories_entry_by_entry() {
    let mut ex = Extraction::new(LinkMode::Clone, TargetOs::MacOs);
    ex.enter(dir());
    assert_eq!(ex.report(Outcome::Failed), Step::Perform(Action::CreateDir));
    assert_eq!(ex.attempt(), Attempt::UseCopyFallback);
    assert_eq!(ex.report(Outcome::Done), Step::Descend);
    assert_eq!(ex.enter(file()), Step::Perform(Action::Copy));
    assert_eq!(ex.report(Outcome::Done), Step::Finished(true));
    assert_eq!(ex.enter(dir()), Step::Perform(Action::CreateDir));
    assert_eq!(ex.report(Outcome::Done), Step::Descend);
    assert_eq!(ex.leave(), Step::Finished(false));
    assert_eq!(ex.leave(), Step::Finished(false));
    assert_eq!(ex.summary(), Some(Summary { count: 1, refresh_mtime: true }));
}

#[test]
fn step_takes_each_kind_of_input() {
    let mut ex = Extraction::new(LinkMode::Clone, TargetOs::Windows);
    assert_eq!(ex.step(Input::Enter(dir())), Step::Perform(Action::CreateDir));
    assert_eq!(ex.step(Input::Report(Outcome::Done)), Step::Descend);
    assert_eq!(ex.step(Input::Leave), Step::Finished(false));
    assert!(ex.has_room());
    assert_eq!(ex.mode(), LinkMode::Clone);
}

#[test]
fn executables_are_copied_once_cloning_is_given_up() {
    let mut ex = Extraction::new(LinkMode::Clone, TargetOs::MacOs);
    // The hard link of the first executable fails, and so does the clone.
    assert_eq!(
        ex.enter(executable()),
        Step::Perform(Action::Link(LinkOp::Hardlink, Target::Destination))
    );
    assert_eq!(
        ex.report(Outcome::Failed),
        Step::Perform(Action::Link(LinkOp::Reflink, Target::Destination))
    );
    assert_eq!(ex.report(Outcome::Failed), Step::Perform(Action::Copy));
    assert_eq!(ex.report(Outcome::Done), Step::Finished(true));
    // From here on nothing is linked any more.
    assert_eq!(ex.enter(executable()), Step::Perform(Action::Copy));
    assert_eq!(ex.report(Outcome::Done), Step::Finished(false));
    assert_eq!(ex.enter(file()), Step::Perform(Action::Copy));
    assert_eq!(ex.report(Outcome::Done), Step::Finished(false));
    assert_eq!(ex.summary(), Some(Summary { count: 3, refresh_mtime: true }));
}

#[test]
fn existing_executable_is_replaced_through_a_temporary_hard_link() {
    let mut ex = Extraction::new(LinkMode::Clone, TargetOs::MacOs);
    ex.enter(executable());
    assert_eq!(ex.report(Outcome::AlreadyExists), Step::Perform(Action::MakeTempDir));
    assert_eq!(
        ex.report(Outcome::Done),
        Step::Perform(Action::Link(LinkOp::Hardlink, Target::Temporary))
    );
    assert_eq!(ex.report(Outcome::Done), Step::Perform(Action::Rename));
    assert_eq!(ex.report(Outcome::Done), Step::Finished(false));
    assert_eq!(ex.attempt(), Attempt::Subsequent);
    // Where the temporary hard link fails, the file is cloned.
    ex.enter(executable());
    ex.report(Outcome::AlreadyExists);
    ex.report(Outcome::Done);
    assert_eq!(
        ex.report(Outcome::Failed),
        Step::Perform(Action::Link(LinkOp::Reflink, Target::Destination))
    );
}

#[test]
fn record_is_never_hard_linked_even_where_it_looks_like_an_executable() {
    let odd = Entry { kind: EntryKind::File, record: true, executable: true };
    let mut ex = Extraction::new(LinkMode::Clone, TargetOs::MacOs);
    assert_eq!(
        ex.enter(odd),
        Step::Perform(Action::Link(LinkOp::Reflink, Target::Destination))
    );
    assert_eq!(ex.report(Outcome::Done), Step::Finished(false));
    for mode in [LinkMode::Hardlink, LinkMode::Symlink, LinkMode::Copy] {
        let mut ex = Extraction::new(mode, TargetOs::MacOs);
        assert_eq!(ex.enter(odd), Step::Perform(Action::Copy));
    }
}

#[test]
fn refused_walk_counts_every_file_and_tells_once() {
    for mode in [LinkMode::Hardlink, LinkMode::Symlink] {
        let entries = [dir(), record(), dir(), file(), file(), record(), executable(), dir()];
        let mut ex = Extraction::new(mode, TargetOs::Linux);
        let mut notices = 0;
        for entry in entries {
            let mut step = ex.enter(entry);
            loop {
                match step {
                    Step::Perform(Action::Link(..)) => step = ex.report(Outcome::Failed),
                    Step::Perform(_) => step = ex.report(Outcome::Done),
                    Step::Finished(notice) => {
                        notices += usize::from(notice);
                        break;
                    }
                    other => panic!("unexpected step {:?}", other),
                }
            }
        }
        assert_eq!(notices, 1);
        assert_eq!(ex.attempt(), Attempt::UseCopyFallback);
        assert_eq!(ex.summary(), Some(Summary { count: 5, refresh_mtime: false }));
    }
    // A wheel without a file to link never falls back.
    let mut ex = Extraction::new(LinkMode::Hardlink, TargetOs::Linux);
    ex.enter(dir());
    ex.report(Outcome::Done);
    ex.enter(record());
    assert_eq!(ex.report(Outcome::Done), Step::Finished(false));
    assert_eq!(ex.attempt(), Attempt::Initial);
    assert_eq!(ex.summary(), Some(Summary { count: 1, refresh_mtime: false }));
}
