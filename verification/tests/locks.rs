use install_wheel::extraction::LinkOp;
use install_wheel::link_mode::{LinkMode, TargetOs};
use install_wheel::locks::{warn_module_conflict, Locks, WheelId};

fn parts(path: &str) -> Vec<String> {
    path.split('/').filter(|part| !part.is_empty()).map(|part| part.to_string()).collect()
}

#[test]
fn three_packages_give_one_warning_when_enabled() {
    let wheels = [
        WheelId::new("alpha", "1.0"),
        WheelId::new("beta", "2.0"),
        WheelId::new("gamma", "3.0"),
    ];
    // Whatever the order in which the three wheels come.
    let orders = [[0, 1, 2], [0, 2, 1], [1, 0, 2], [1, 2, 0], [2, 0, 1], [2, 1, 0]];
    for order in orders {
        let mut locks = Locks::new(true);
        let mut warnings = 0;
        for i in order {
            if warn_module_conflict(&mut locks, &wheels[i], &parts("pkg/__init__.py")).is_some() {
                warnings += 1;
            }
        }
        assert_eq!(warnings, 1);
    }
}

#[test]
fn three_packages_give_no_warning_when_disabled() {
    let mut locks = Locks::new(false);
    assert!(!locks.detects_conflicts());
    for name in ["alpha", "beta", "gamma"] {
        let wheel = WheelId::new(name, "1.0");
        assert!(warn_module_conflict(&mut locks, &wheel, &parts("pkg/__init__.py")).is_none());
    }
}

#[test]
fn conflict_names_both_wheels_with_the_later_name_first() {
    let mut locks = Locks::new(true);
    let a = WheelId::new("alpha", "1.0");
    let b = WheelId::new("beta", "2.5");
    assert!(locks.warn_module_conflict("pkg", &a).is_none());
    let conflict = locks.warn_module_conflict("pkg", &b).unwrap();
    assert_eq!(conflict.module, "pkg");
    assert_eq!(conflict.first.name, "beta");
    assert_eq!(conflict.first.version, "2.5");
    assert_eq!(conflict.second.name, "alpha");
    assert_eq!(
        conflict.message(),
        "The module `pkg` is provided by more than one package, which causes an install race condition and can result in a broken module. Consider removing your dependency on either `beta` (v2.5) or `alpha` (v1.0)."
    );

    // The same two wheels in the other order give the same text.
    let mut locks = Locks::new(true);
    assert!(locks.warn_module_conflict("pkg", &b).is_none());
    let other = locks.warn_module_conflict("pkg", &a).unwrap();
    assert_eq!(other.message(), conflict.message());
}

#[test]
fn wheels_of_one_name_are_named_claimant_first() {
    let mut locks = Locks::new(true);
    let old = WheelId::new("pkg", "1.0");
    let new = WheelId::new("pkg", "2.0");
    locks.warn_module_conflict("pkg", &old);
    let conflict = locks.warn_module_conflict("pkg", &new).unwrap();
    assert_eq!(conflict.first.version, "2.0");
    assert_eq!(conflict.second.version, "1.0");
}

#[test]
fn only_top_level_init_files_make_a_module() {
    let mut locks = Locks::new(true);
    let a = WheelId::new("alpha", "1.0");
    let b = WheelId::new("beta", "1.0");
    for path in [
        "",
        "pkg",
        "__init__.py",
        "pkg/mod.py",
        "pkg/sub/__init__.py",
        "pkg/__init__.pyc",
        "pkg-1.0.dist-info/RECORD",
    ] {
        assert!(warn_module_conflict(&mut locks, &a, &parts(path)).is_none());
        assert!(warn_module_conflict(&mut locks, &b, &parts(path)).is_none());
    }
    // Different modules do not conflict.
    assert!(warn_module_conflict(&mut locks, &a, &parts("one/__init__.py")).is_none());
    assert!(warn_module_conflict(&mut locks, &b, &parts("two/__init__.py")).is_none());
    assert!(warn_module_conflict(&mut locks, &b, &parts("one/__init__.py")).is_some());
}

#[test]
fn each_directory_has_one_lock() {
    let mut locks = Locks::new(false);
    assert_eq!(locks.lock_count(), 0);
    let a = locks.lock_for("/site-packages/pkg");
    let b = locks.lock_for("/site-packages/other");
    let c = locks.lock_for("/site-packages/pkg/sub");
    assert_eq!((a, b, c), (0, 1, 2));
    // Asking again gives the same lock and makes no new one.
    assert_eq!(locks.lock_for("/site-packages/pkg"), a);
    assert_eq!(locks.lock_for("/site-packages/other"), b);
    assert_eq!(locks.lock_count(), 3);
    // Claims leave the locks alone.
    locks.warn_module_conflict("pkg", &WheelId::new("alpha", "1.0"));
    assert_eq!(locks.lock_for("/site-packages/pkg/sub"), c);
    assert_eq!(locks.lock_count(), 3);
}

#[test]
fn wheel_identity_can_be_copied() {
    let wheel = WheelId::new("alpha", "1.0");
    let copy = wheel.duplicate();
    assert_eq!(copy.name, "alpha");
    assert_eq!(copy.version, "1.0");
}

#[test]
fn platform_default_is_clone_on_apple_systems() {
    assert_eq!(LinkMode::default_for(TargetOs::MacOs), LinkMode::Clone);
    assert_eq!(LinkMode::default_for(TargetOs::Ios), LinkMode::Clone);
    assert_eq!(LinkMode::default_for(TargetOs::Linux), LinkMode::Hardlink);
    assert_eq!(LinkMode::default_for(TargetOs::Windows), LinkMode::Hardlink);
    assert_eq!(LinkMode::default_for(TargetOs::Other), LinkMode::Hardlink);
    assert_eq!(LinkMode::select(None, TargetOs::MacOs), LinkMode::Clone);
    assert_eq!(LinkMode::select(Some(LinkMode::Copy), TargetOs::MacOs), LinkMode::Copy);
    assert_eq!(LinkMode::select(Some(LinkMode::Symlink), TargetOs::Linux), LinkMode::Symlink);
}

#[test]
fn only_symlink_is_symlink() {
    assert!(LinkMode::Symlink.is_symlink());
    assert!(!LinkMode::Clone.is_symlink());
    assert!(!LinkMode::Copy.is_symlink());
    assert!(!LinkMode::Hardlink.is_symlink());
    assert!(!LinkMode::Copy.is_accelerated());
    assert!(LinkMode::Clone.is_accelerated());
    assert!(TargetOs::Linux.clones_files_only());
    assert!(TargetOs::Windows.clones_files_only());
    assert!(TargetOs::Other.clones_files_only());
    assert!(!TargetOs::MacOs.clones_files_only());
    assert!(!TargetOs::Ios.clones_files_only());
    assert_eq!(LinkMode::Copy.link_op(), None);
}

#[test]
fn fallback_is_told_once_in_a_session() {
    let mut locks = Locks::new(false);
    assert!(locks.note_fallback(LinkOp::Hardlink));
    assert!(!locks.note_fallback(LinkOp::Hardlink));
    // Each operation has its own notice.
    assert!(locks.note_fallback(LinkOp::Reflink));
    assert!(locks.note_fallback(LinkOp::Symlink));
    locks.lock_for("/site-packages");
    locks.warn_module_conflict("pkg", &WheelId::new("alpha", "1.0"));
    assert!(!locks.note_fallback(LinkOp::Reflink));
    assert!(!locks.note_fallback(LinkOp::Symlink));
    assert!(!locks.note_fallback(LinkOp::Hardlink));
    // The next session tells again.
    assert!(Locks::new(false).note_fallback(LinkOp::Hardlink));
}
