use install_wheel::exclusions::{Exclusions, Reinstall};
use install_wheel::name_table::NameMap;
use install_wheel::sources::SourceStrategy;
use install_wheel::upgrade::{
    copy_names, copy_packages, copy_requirements, lower_upgrade, lower_upgrade_with_lock,
    lower_upgrade_without_groups, Lock, LockedPackage, LoweredUpgrade, Requirement, Upgrade,
};

fn names(list: &[&str]) -> NameMap<()> {
    let mut set = NameMap::new();
    for name in list {
        if set.position(name).is_none() {
            set.push(name, ());
        }
    }
    set
}

fn groups(list: &[(&str, &[&str])]) -> NameMap<Vec<Requirement>> {
    let mut map = NameMap::new();
    for (group, packages) in list {
        let reqs = packages.iter().map(|p| Requirement::new(p, ">=1")).collect();
        map.push(group, reqs);
    }
    map
}

fn packages(list: &[(&str, &[&str])]) -> NameMap<Vec<Requirement>> {
    let mut map = NameMap::new();
    for (package, constraints) in list {
        let reqs = constraints.iter().map(|c| Requirement::new(package, c)).collect();
        map.push(package, reqs);
    }
    map
}

fn sorted(map: &NameMap<Vec<Requirement>>) -> Vec<(String, Vec<String>)> {
    let mut out = Vec::new();
    for i in 0..map.len() {
        let constraints = map.value(i).iter().map(|r| r.constraint.clone()).collect();
        out.push((map.name(i).clone(), constraints));
    }
    out.sort();
    out
}

fn lowered_packages(lowered: &LoweredUpgrade) -> Vec<(String, Vec<String>)> {
    match lowered {
        LoweredUpgrade::Packages(map) => sorted(map),
        _ => panic!("expected packages"),
    }
}

fn entry(name: &str, constraints: &[&str]) -> (String, Vec<String>) {
    (name.to_string(), constraints.iter().map(|c| c.to_string()).collect())
}

#[test]
fn nothing_and_all_stay_as_they_are() {
    let defined = groups(&[("dev", &["pytest"])]);
    assert!(matches!(lower_upgrade(&Upgrade::Nothing, &defined), LoweredUpgrade::Nothing));
    assert!(matches!(lower_upgrade(&Upgrade::All, &defined), LoweredUpgrade::All));
    assert!(Upgrade::All.is_all());
    assert!(!Upgrade::Nothing.is_all());
}

#[test]
fn packages_are_kept_with_their_requirements() {
    let defined = groups(&[("dev", &["pytest"])]);
    let upgrade = Upgrade::Packages(packages(&[("flask", &[">=2"]), ("ruff", &[])]));
    let lowered = lower_upgrade(&upgrade, &defined);
    assert_eq!(lowered_packages(&lowered), vec![entry("flask", &[">=2"]), entry("ruff", &[])]);
}

#[test]
fn groups_are_resolved_to_the_packages_they_name() {
    let defined = groups(&[
        ("dev", &["pytest", "ruff"]),
        ("docs", &["sphinx", "ruff"]),
        ("unused", &["tox"]),
    ]);
    let upgrade = Upgrade::Groups(names(&["dev", "docs", "missing"]));
    let lowered = lower_upgrade(&upgrade, &defined);
    assert_eq!(
        lowered_packages(&lowered),
        vec![entry("pytest", &[]), entry("ruff", &[]), entry("sphinx", &[])]
    );
    assert!(lowered.contains("ruff"));
    assert!(!lowered.contains("tox"));
    assert!(!lowered.is_all());
}

#[test]
fn packages_and_groups_are_merged_and_packages_keep_their_requirements() {
    let defined = groups(&[("dev", &["pytest", "flask"])]);
    let upgrade = Upgrade::PackagesAndGroups {
        packages: packages(&[("flask", &[">=2", "<3"])]),
        groups: names(&["dev"]),
    };
    let lowered = lower_upgrade(&upgrade, &defined);
    assert_eq!(
        lowered_packages(&lowered),
        vec![entry("flask", &[">=2", "<3"]), entry("pytest", &[])]
    );
}

#[test]
fn groups_are_looked_up_in_the_lock_and_in_its_packages() {
    let lock = Lock {
        dependency_groups: groups(&[("dev", &["pytest"])]),
        packages: vec![
            LockedPackage {
                name: "app".into(),
                dependency_groups: groups(&[("dev", &["ruff"]), ("docs", &["sphinx"])]),
            },
            LockedPackage { name: "lib".into(), dependency_groups: groups(&[("dev", &["mypy"])]) },
            LockedPackage { name: "bare".into(), dependency_groups: groups(&[]) },
        ],
    };
    let lowered = lower_upgrade_with_lock(&Upgrade::Groups(names(&["dev"])), &lock);
    assert_eq!(
        lowered_packages(&lowered),
        vec![entry("mypy", &[]), entry("pytest", &[]), entry("ruff", &[])]
    );
    let upgrade = Upgrade::PackagesAndGroups {
        packages: packages(&[("sphinx", &["==7"])]),
        groups: names(&["docs"]),
    };
    let lowered = lower_upgrade_with_lock(&upgrade, &lock);
    assert_eq!(lowered_packages(&lowered), vec![entry("sphinx", &["==7"])]);
    assert!(matches!(lower_upgrade_with_lock(&Upgrade::All, &lock), LoweredUpgrade::All));
    assert!(matches!(lower_upgrade_with_lock(&Upgrade::Nothing, &lock), LoweredUpgrade::Nothing));
}

#[test]
fn groups_are_refused_where_none_can_be_looked_up() {
    assert!(matches!(
        lower_upgrade_without_groups(&Upgrade::Nothing),
        Ok(LoweredUpgrade::Nothing)
    ));
    assert!(matches!(lower_upgrade_without_groups(&Upgrade::All), Ok(LoweredUpgrade::All)));
    let kept = lower_upgrade_without_groups(&Upgrade::Packages(packages(&[("flask", &[">=2"])])));
    match kept {
        Ok(lowered) => assert_eq!(lowered_packages(&lowered), vec![entry("flask", &[">=2"])]),
        Err(_) => panic!("packages alone are lowered"),
    }
    match lower_upgrade_without_groups(&Upgrade::Groups(names(&["dev", "docs"]))) {
        Err(error) => {
            assert_eq!(error.groups.len(), 2);
            assert!(error.groups.position("dev").is_some());
            assert!(error.groups.position("docs").is_some());
        }
        Ok(_) => panic!("groups are refused"),
    }
    let both = Upgrade::PackagesAndGroups {
        packages: packages(&[("flask", &[])]),
        groups: names(&["dev"]),
    };
    match lower_upgrade_without_groups(&both) {
        Err(error) => assert!(error.groups.position("dev").is_some()),
        Ok(_) => panic!("groups are refused"),
    }
}

#[test]
fn copies_hold_what_the_original_holds() {
    let reqs = vec![Requirement::new("flask", ">=2"), Requirement::new("ruff", "")];
    let copy = copy_requirements(&reqs);
    assert_eq!(copy.len(), 2);
    assert_eq!(copy[0].name, "flask");
    assert_eq!(copy[0].constraint, ">=2");
    assert_eq!(copy[1].duplicate().name, "ruff");
    let map = packages(&[("b", &["1"]), ("a", &["2", "3"])]);
    let copy = copy_packages(&map);
    assert_eq!(copy.name(0), "b");
    assert_eq!(copy.name(1), "a");
    assert_eq!(sorted(&copy), sorted(&map));
    let set = copy_names(&names(&["x", "y"]));
    assert_eq!(set.len(), 2);
    assert_eq!(set.position("y"), Some(1));
    assert_eq!(set.position("z"), None);
}

#[test]
fn name_map_finds_replaces_and_keeps_order() {
    let mut map: NameMap<u32> = NameMap::new();
    assert_eq!(map.len(), 0);
    assert_eq!(map.position("a"), None);
    map.push("a", 1);
    map.push("b", 2);
    assert_eq!(map.position("a"), Some(0));
    assert_eq!(map.position("b"), Some(1));
    assert_eq!(map.position("c"), None);
    map.replace(0, 10);
    assert_eq!(*map.value(0), 10);
    assert_eq!(*map.value(1), 2);
    assert_eq!(map.name(1), "b");
    assert_eq!(map.len(), 2);
}

#[test]
fn exclusions_hold_what_is_reinstalled_or_upgraded() {
    let upgrade = LoweredUpgrade::Packages(packages(&[("flask", &[])]));
    let exclusions = Exclusions::new(Reinstall::Packages(names(&["ruff"])), upgrade);
    assert!(exclusions.reinstall("ruff"));
    assert!(!exclusions.reinstall("flask"));
    assert!(exclusions.upgrade("flask"));
    assert!(!exclusions.upgrade("ruff"));
    assert!(exclusions.contains("ruff"));
    assert!(exclusions.contains("flask"));
    assert!(!exclusions.contains("pytest"));

    let none = Exclusions::new(Reinstall::Nothing, LoweredUpgrade::Nothing);
    assert!(!none.contains("flask"));
    let all = Exclusions::new(Reinstall::All, LoweredUpgrade::Nothing);
    assert!(all.contains("flask"));
    assert!(all.reinstall("flask"));
    assert!(!all.upgrade("flask"));
    let all = Exclusions::new(Reinstall::Nothing, LoweredUpgrade::All);
    assert!(all.contains("flask"));
    assert!(Reinstall::All.contains_package("x"));
}

#[test]
fn source_strategy_follows_the_arguments() {
    let listed = vec!["flask".to_string(), "ruff".to_string()];
    assert!(SourceStrategy::from_args(Some(true), listed.clone()).is_disabled());
    assert!(SourceStrategy::from_args(Some(false), listed.clone()).is_enabled());
    assert!(SourceStrategy::from_args(None, Vec::new()).is_enabled());
    let strategy = SourceStrategy::from_args(None, listed);
    assert!(!strategy.is_enabled());
    assert!(!strategy.is_disabled());
    assert!(strategy.no_sources_package("flask"));
    assert!(strategy.no_sources_package("ruff"));
    assert!(!strategy.no_sources_package("pytest"));
    assert!(SourceStrategy::Disabled.no_sources_package("pytest"));
    assert!(!SourceStrategy::Enabled.no_sources_package("pytest"));
}
