// Extractions driven against a filesystem kept in memory, in which links can
// be switched off and every call is counted.

use std::cell::RefCell;
use std::collections::BTreeMap;
use std::rc::Rc;

use install_wheel::executable::is_macos_executable;
use install_wheel::extraction::{
    Action, Attempt, Entry, EntryKind, Extraction, LinkOp, Outcome, Step, Target,
};
use install_wheel::link_mode::{LinkMode, TargetOs};
use install_wheel::locks::{warn_module_conflict, Locks, WheelId};

#[derive(Clone, Debug)]
enum Node {
    Dir,
    File(Rc<RefCell<Vec<u8>>>),
    Symlink(String),
}

#[derive(Default)]
struct Disk {
    nodes: BTreeMap<String, Node>,
    links_work: bool,
    link_calls: usize,
    copy_calls: usize,
    temp_dirs: usize,
    warnings: Vec<String>,
}

fn parent(path: &str) -> String {
    path.rsplit_once('/').map(|(dir, _)| dir.to_string()).unwrap_or_default()
}

fn name(path: &str) -> &str {
    path.rsplit_once('/').map(|(_, name)| name).unwrap_or(path)
}

impl Disk {
    fn new(links_work: bool) -> Disk {
        let mut disk = Disk { links_work, ..Disk::default() };
        disk.nodes.insert("/src".into(), Node::Dir);
        disk.nodes.insert("/dst".into(), Node::Dir);
        disk
    }

    fn write(&mut self, path: &str, content: &str) {
        let mut dir = parent(path);
        while !dir.is_empty() && !self.nodes.contains_key(&dir) {
            self.nodes.insert(dir.clone(), Node::Dir);
            dir = parent(&dir);
        }
        let cell = Rc::new(RefCell::new(content.as_bytes().to_vec()));
        self.nodes.insert(path.to_string(), Node::File(cell));
    }

    fn read(&self, path: &str) -> Option<String> {
        match self.nodes.get(path)? {
            Node::File(cell) => Some(String::from_utf8(cell.borrow().clone()).unwrap()),
            Node::Symlink(target) => self.read(target),
            Node::Dir => None,
        }
    }

    /// Overwrites a file in place, as an installer does with `RECORD`.
    fn overwrite(&mut self, path: &str, content: &str) {
        match self.nodes.get(path).cloned() {
            Some(Node::File(cell)) => *cell.borrow_mut() = content.as_bytes().to_vec(),
            Some(Node::Symlink(target)) => self.overwrite(&target, content),
            _ => panic!("no file at {path}"),
        }
    }

    fn is_dir(&self, path: &str) -> bool {
        matches!(self.nodes.get(path), Some(Node::Dir))
    }

    fn children(&self, dir: &str) -> Vec<String> {
        self.nodes.keys().filter(|path| parent(path) == dir).cloned().collect()
    }

    fn below(&self, dir: &str) -> Vec<String> {
        let prefix = format!("{dir}/");
        self.nodes.keys().filter(|path| path.starts_with(&prefix)).cloned().collect()
    }

    fn link(&mut self, op: LinkOp, from: &str, to: &str, whole_dirs: bool) -> Outcome {
        self.link_calls += 1;
        if !self.links_work {
            return Outcome::Failed;
        }
        if self.nodes.contains_key(to) {
            return Outcome::AlreadyExists;
        }
        match (op, self.nodes.get(from).cloned()) {
            (LinkOp::Reflink, Some(Node::Dir)) => {
                if !whole_dirs {
                    return Outcome::Failed;
                }
                self.nodes.insert(to.to_string(), Node::Dir);
                for path in self.below(from) {
                    let copy = match &self.nodes[&path] {
                        Node::File(cell) => Node::File(Rc::new(RefCell::new(cell.borrow().clone()))),
                        other => other.clone(),
                    };
                    self.nodes.insert(format!("{to}{}", &path[from.len()..]), copy);
                }
            }
            (LinkOp::Reflink, Some(Node::File(cell))) => {
                let copy = Rc::new(RefCell::new(cell.borrow().clone()));
                self.nodes.insert(to.to_string(), Node::File(copy));
            }
            (LinkOp::Hardlink, Some(Node::File(cell))) => {
                self.nodes.insert(to.to_string(), Node::File(cell));
            }
            (LinkOp::Symlink, Some(_)) => {
                self.nodes.insert(to.to_string(), Node::Symlink(from.to_string()));
            }
            _ => return Outcome::Failed,
        }
        Outcome::Done
    }

    fn copy(&mut self, from: &str, to: &str) -> Outcome {
        self.copy_calls += 1;
        match self.read(from) {
            Some(content) if self.is_dir(&parent(to)) => {
                let cell = Rc::new(RefCell::new(content.into_bytes()));
                self.nodes.insert(to.to_string(), Node::File(cell));
                Outcome::Done
            }
            _ => Outcome::Failed,
        }
    }

    fn perform(&mut self, action: Action, from: &str, to: &str, temp: &mut Option<String>, os: TargetOs) -> Outcome {
        let whole_dirs = !os.clones_files_only();
        match action {
            Action::CreateDir => {
                let mut dir = to.to_string();
                while !dir.is_empty() && !self.nodes.contains_key(&dir) {
                    self.nodes.insert(dir.clone(), Node::Dir);
                    dir = parent(&dir);
                }
                Outcome::Done
            }
            Action::MakeTempDir => {
                self.temp_dirs += 1;
                let dir = format!("{}/.tmp{}", parent(to), self.temp_dirs);
                self.nodes.insert(dir.clone(), Node::Dir);
                *temp = Some(dir);
                Outcome::Done
            }
            Action::Link(op, Target::Destination) => self.link(op, from, to, whole_dirs),
            Action::Link(op, Target::Temporary) => {
                let place = format!("{}/{}", temp.as_ref().unwrap(), name(from));
                self.link(op, from, &place, whole_dirs)
            }
            Action::Rename => {
                let place = format!("{}/{}", temp.as_ref().unwrap(), name(from));
                match self.nodes.remove(&place) {
                    Some(node) => {
                        self.nodes.insert(to.to_string(), node);
                        Outcome::Done
                    }
                    None => Outcome::Failed,
                }
            }
            Action::Copy => self.copy(from, to),
        }
    }
}

struct Run<'a> {
    disk: &'a mut Disk,
    locks: &'a mut Locks,
    wheel: WheelId,
    os: TargetOs,
}

impl Run<'_> {
    fn place(&mut self, ex: &mut Extraction, from: &str) -> Result<(), String> {
        let to = format!("/dst{}", &from["/src".len()..]);
        let kind = if self.disk.is_dir(from) { EntryKind::Dir } else { EntryKind::File };
        let leading = self.disk.read(from).map(String::into_bytes);
        let executable = self.os == TargetOs::MacOs
            && kind == EntryKind::File
            && is_macos_executable(from, leading.as_deref());
        let mut temp = None;
        let mut step = ex.enter(Entry::at(kind, from, executable));
        let result = loop {
            match step {
                Step::Perform(action) => {
                    let outcome = self.disk.perform(action, from, &to, &mut temp, self.os);
                    step = ex.report(outcome);
                }
                Step::Descend => {
                    for child in self.disk.children(from) {
                        self.place(ex, &child)?;
                    }
                    step = ex.leave();
                }
                Step::Finished(notice) => {
                    let op = ex.mode().link_op();
                    if notice && self.locks.note_fallback(op.unwrap()) {
                        self.disk.warnings.push(format!("falling back from {:?}", ex.mode()));
                    }
                    break Ok(());
                }
                Step::Fatal(failure) => break Err(format!("{failure:?} at {from}")),
            }
        };
        // The temporary directory goes away on every path.
        if let Some(dir) = temp {
            for path in self.disk.below(&dir) {
                self.disk.nodes.remove(&path);
            }
            self.disk.nodes.remove(&dir);
        }
        result
    }

    fn link_wheel_files(&mut self, mode: LinkMode) -> Result<usize, String> {
        let mut ex = Extraction::new(mode, self.os);
        if mode == LinkMode::Clone {
            for entry in self.disk.children("/src") {
                if self.disk.read(&format!("{entry}/__init__.py")).is_some() {
                    if let Some(conflict) = self.locks.warn_module_conflict(name(&entry), &self.wheel) {
                        self.disk.warnings.push(conflict.message());
                    }
                }
                self.place(&mut ex, &entry)?;
            }
        } else {
            let mut entries = vec!["/src".to_string()];
            entries.extend(self.disk.below("/src"));
            for entry in entries {
                let relative: Vec<String> = entry["/src".len()..]
                    .split('/')
                    .filter(|part| !part.is_empty())
                    .map(str::to_string)
                    .collect();
                if let Some(conflict) = warn_module_conflict(self.locks, &self.wheel, &relative) {
                    self.disk.warnings.push(conflict.message());
                }
                self.place(&mut ex, &entry)?;
            }
        }
        assert!(mode != LinkMode::Copy || ex.attempt() == Attempt::Initial);
        Ok(ex.summary().expect("every entry is finished").count)
    }
}

fn extract(disk: &mut Disk, mode: LinkMode, os: TargetOs) -> Result<usize, String> {
    let mut locks = Locks::new(true);
    let mut run = Run { disk, locks: &mut locks, wheel: WheelId::new("pkg", "1.0"), os };
    run.link_wheel_files(mode)
}

fn wheel(disk: &mut Disk) {
    disk.write("/src/a/__init__.py", "X");
    disk.write("/src/a/mod.py", "Y");
    disk.write("/src/a/sub/deep.py", "Z");
    disk.write("/src/a/native.so", "\u{7f}ELF");
    disk.write("/src/a-1.0.dist-info/RECORD", "a/__init__.py,sha256=...");
    disk.write("/src/a-1.0.dist-info/METADATA", "Name: a");
}

fn assert_same_content(disk: &Disk) {
    for path in disk.below("/src") {
        let to = format!("/dst{}", &path["/src".len()..]);
        if disk.is_dir(&path) {
            assert!(disk.is_dir(&to), "{to} is a directory");
        } else {
            assert_eq!(disk.read(&to), disk.read(&path), "{to}");
        }
    }
    // Nothing temporary is left behind.
    assert!(disk.nodes.keys().all(|path| !path.contains("/.tmp")));
}

const MODES: [LinkMode; 4] = [LinkMode::Clone, LinkMode::Copy, LinkMode::Hardlink, LinkMode::Symlink];
const SYSTEMS: [TargetOs; 5] =
    [TargetOs::MacOs, TargetOs::Ios, TargetOs::Linux, TargetOs::Windows, TargetOs::Other];

#[test]
fn copy_of_two_files_gives_their_contents_and_counts_two() {
    let mut disk = Disk::new(true);
    disk.write("/src/a/__init__.py", "X");
    disk.write("/src/a/mod.py", "Y");
    assert_eq!(extract(&mut disk, LinkMode::Copy, TargetOs::Linux), Ok(2));
    assert_eq!(disk.read("/dst/a/__init__.py").as_deref(), Some("X"));
    assert_eq!(disk.read("/dst/a/mod.py").as_deref(), Some("Y"));
    assert_eq!(disk.link_calls, 0);
    assert!(disk.warnings.is_empty());
}

#[test]
fn every_strategy_gives_the_content_of_the_source() {
    for mode in MODES {
        for os in SYSTEMS {
            for links_work in [true, false] {
                let mut disk = Disk::new(links_work);
                wheel(&mut disk);
                let count = extract(&mut disk, mode, os).unwrap();
                assert_same_content(&disk);
                // Cloning counts the entries at the top, the others count files.
                assert_eq!(count, if mode == LinkMode::Clone { 2 } else { 6 });
                // Extracting again over what is there gives the same.
                extract(&mut disk, mode, os).unwrap();
                assert_same_content(&disk);
            }
        }
    }
}

#[test]
fn rejected_hard_links_fall_back_to_copies_with_one_warning() {
    let mut disk = Disk::new(false);
    wheel(&mut disk);
    assert_eq!(extract(&mut disk, LinkMode::Hardlink, TargetOs::Linux), Ok(6));
    assert_same_content(&disk);
    // The first file is tried once; no other file is.
    assert_eq!(disk.link_calls, 1);
    assert_eq!(disk.copy_calls, 6);
    assert_eq!(disk.warnings.len(), 1);
}

#[test]
fn no_link_is_tried_once_the_fallback_is_reached() {
    for mode in [LinkMode::Clone, LinkMode::Hardlink, LinkMode::Symlink] {
        for os in SYSTEMS {
            let mut disk = Disk::new(false);
            wheel(&mut disk);
            extract(&mut disk, mode, os).unwrap();
            // On macOS the clone of the first entry may follow a hard link of
            // an executable; either way the tries end with the first file.
            assert!(disk.link_calls <= 2, "{mode:?} on {os:?}: {}", disk.link_calls);
            assert_eq!(disk.warnings.len(), 1);
        }
    }
}

#[test]
fn record_is_independent_of_the_source() {
    for mode in [LinkMode::Hardlink, LinkMode::Symlink] {
        let mut disk = Disk::new(true);
        wheel(&mut disk);
        extract(&mut disk, mode, TargetOs::Linux).unwrap();
        disk.overwrite("/dst/a-1.0.dist-info/RECORD", "rewritten");
        assert_eq!(
            disk.read("/src/a-1.0.dist-info/RECORD").as_deref(),
            Some("a/__init__.py,sha256=...")
        );
        // Any other file is linked: writing through it reaches the source.
        disk.overwrite("/dst/a/mod.py", "changed");
        assert_eq!(disk.read("/src/a/mod.py").as_deref(), Some("changed"));
    }
}

#[test]
fn cloning_into_an_existing_directory_merges() {
    for os in SYSTEMS {
        let mut disk = Disk::new(true);
        wheel(&mut disk);
        disk.write("/dst/a/mod.py", "old");
        disk.write("/dst/a/other.py", "kept");
        disk.write("/dst/a/sub/extra.py", "kept too");
        extract(&mut disk, LinkMode::Clone, os).unwrap();
        assert_same_content(&disk);
        // The wheel's files win, the others stay.
        assert_eq!(disk.read("/dst/a/mod.py").as_deref(), Some("Y"));
        assert_eq!(disk.read("/dst/a/other.py").as_deref(), Some("kept"));
        assert_eq!(disk.read("/dst/a/sub/extra.py").as_deref(), Some("kept too"));
    }
}

#[test]
fn wheels_that_share_a_module_are_reported_once() {
    let mut disk = Disk::new(true);
    disk.write("/src/pkg/__init__.py", "X");
    let mut locks = Locks::new(true);
    for (wheel, mode) in [("one", LinkMode::Copy), ("two", LinkMode::Hardlink), ("three", LinkMode::Clone)] {
        let mut run =
            Run { disk: &mut disk, locks: &mut locks, wheel: WheelId::new(wheel, "1.0"), os: TargetOs::MacOs };
        run.link_wheel_files(mode).unwrap();
    }
    assert_eq!(disk.warnings.len(), 1);
    assert!(disk.warnings[0].contains("`two` (v1.0) or `one` (v1.0)"));
}
