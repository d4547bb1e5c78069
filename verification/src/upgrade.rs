//! Which packages an upgrade request covers, once its dependency groups are
//! resolved to the packages that they name.

use vstd::prelude::*;
use vstd::string::StringExecFns;
use crate::name_table::NameMap;

verus! {

/// A requirement on one package.
#[derive(Debug)]
pub struct Requirement {
    /// The package that is required.
    pub name: String,
    /// Which versions of it are admitted, as text.
    pub constraint: String,
}

impl Requirement {
    /// The requirement on `name` that admits the versions in `constraint`.
    pub fn new(name: &str, constraint: &str) -> (req: Requirement)
        ensures
            req.name@ == name@,
            req.constraint@ == constraint@,
    {
        Requirement { name: String::from_str(name), constraint: String::from_str(constraint) }
    }

    /// A copy of the requirement.
    pub fn duplicate(&self) -> (copy: Requirement)
        ensures
            copy == *self,
    {
        Requirement { name: self.name.clone(), constraint: self.constraint.clone() }
    }
}

/// The requirements of each name of a map, as sequences.
pub open spec fn requirements_of(map: NameMap<Vec<Requirement>>) -> Map<
    Seq<char>,
    Seq<Requirement>,
> {
    Map::new(
        |name: Seq<char>| map.contents().contains_key(name),
        |name: Seq<char>| map.contents()[name]@,
    )
}

/// The names that a set holds.
pub open spec fn members_of(set: NameMap<()>) -> Set<Seq<char>> {
    set.contents().dom()
}

/// Whether the requirement at place `i` of `reqs` is on `package`.
pub open spec fn requires_at(reqs: Seq<Requirement>, i: int, package: Seq<char>) -> bool {
    0 <= i < reqs.len() && reqs[i].name@ == package
}

/// Whether the dependency group `group` is defined and holds a requirement
/// on `package`.
pub open spec fn group_names(
    defined: Map<Seq<char>, Seq<Requirement>>,
    group: Seq<char>,
    package: Seq<char>,
) -> bool {
    defined.contains_key(group) && exists|i: int| requires_at(defined[group], i, package)
}

/// Whether one of the `groups` is defined and holds a requirement on
/// `package`. A group that is not defined names nothing.
pub open spec fn named_by(
    groups: Set<Seq<char>>,
    defined: Map<Seq<char>, Seq<Requirement>>,
    package: Seq<char>,
) -> bool {
    exists|group: Seq<char>| groups.contains(group) && group_names(defined, group, package)
}

/// A copy of a list of requirements.
pub fn copy_requirements(reqs: &Vec<Requirement>) -> (copy: Vec<Requirement>)
    ensures
        copy@ == reqs@,
{
    let mut copy: Vec<Requirement> = Vec::new();
    let mut i: usize = 0;
    while i < reqs.len()
        invariant
            i <= reqs.len(),
            copy@ == reqs@.take(i as int),
        decreases reqs.len() - i,
    {
        copy.push(reqs[i].duplicate());
        assert(reqs@.take(i + 1) =~= reqs@.take(i as int).push(reqs@[i as int]));
        i += 1;
    }
    assert(reqs@.take(reqs.len() as int) =~= reqs@);
    copy
}

/// A copy of a map from packages to their requirements.
pub fn copy_packages(packages: &NameMap<Vec<Requirement>>) -> (copy: NameMap<Vec<Requirement>>)
    requires
        packages.wf(),
    ensures
        copy.wf(),
        copy.names() == packages.names(),
        requirements_of(copy) == requirements_of(*packages),
{
    let mut copy: NameMap<Vec<Requirement>> = NameMap::new();
    let mut i: usize = 0;
    proof {
        packages.names_are_distinct();
    }
    while i < packages.len()
        invariant
            packages.wf(),
            copy.wf(),
            i <= packages.names().len(),
            packages.names().no_duplicates(),
            copy.names() == packages.names().take(i as int),
            forall|name: Seq<char>| #[trigger]
                copy.contents().contains_key(name) <==> packages.names().take(i as int).contains(
                    name,
                ),
            forall|name: Seq<char>| #[trigger]
                copy.contents().contains_key(name) ==> packages.contents().contains_key(name)
                    && copy.contents()[name]@ == packages.contents()[name]@,
        decreases packages.names().len() - i,
    {
        let name = packages.name(i);
        let reqs = copy_requirements(packages.value(i));
        let ghost taken = packages.names().take(i as int);
        assert(!taken.contains(name@)) by {
            if taken.contains(name@) {
                let k = choose|k: int| 0 <= k < taken.len() && taken[k] == name@;
                assert(packages.names()[k] == packages.names()[i as int]);
            }
        }
        copy.push(name.as_str(), reqs);
        assert(packages.names().take(i + 1) =~= taken.push(name@));
        assert forall|n: Seq<char>| #[trigger]
            copy.contents().contains_key(n) <==> packages.names().take(i + 1).contains(n) by {
            if n == name@ {
                assert(taken.push(name@)[i as int] == n);
            } else if taken.contains(n) {
                let k = choose|k: int| 0 <= k < taken.len() && taken[k] == n;
                assert(taken.push(name@)[k] == n);
            } else if taken.push(name@).contains(n) {
                let k = choose|k: int| 0 <= k < taken.push(name@).len() && taken.push(name@)[k] == n;
                assert(taken[k] == n);
            }
        }
        i += 1;
    }
    proof {
        assert(packages.names().take(packages.names().len() as int) =~= packages.names());
        assert(requirements_of(copy) =~= requirements_of(*packages));
    }
    copy
}

/// Whether one of the first `count` of `groups` is defined and holds a
/// requirement on `package`.
pub open spec fn named_among(
    groups: Seq<Seq<char>>,
    count: int,
    defined: Map<Seq<char>, Seq<Requirement>>,
    package: Seq<char>,
) -> bool {
    exists|k: int| 0 <= k < count && k < groups.len() && group_names(defined, #[trigger] groups[k], package)
}

/// Whether one of the first `count` requirements of `reqs` is on `package`.
pub open spec fn required_among(reqs: Seq<Requirement>, count: int, package: Seq<char>) -> bool {
    exists|i: int| 0 <= i < count && requires_at(reqs, i, package)
}

/// Adds each package that `reqs` names and that `into` does not hold yet,
/// with no requirements of its own. What `into` holds stays as it is.
fn add_required(into: &mut NameMap<Vec<Requirement>>, reqs: &Vec<Requirement>)
    requires
        old(into).wf(),
    ensures
        final(into).wf(),
        forall|p: Seq<char>| #[trigger]
            final(into).contents().contains_key(p) <==> old(into).contents().contains_key(p)
                || required_among(reqs@, reqs.len() as int, p),
        forall|p: Seq<char>| #[trigger]
            old(into).contents().contains_key(p) ==> final(into).contents()[p] == old(
                into,
            ).contents()[p],
        forall|p: Seq<char>| #[trigger]
            final(into).contents().contains_key(p) && !old(into).contents().contains_key(p)
                ==> final(into).contents()[p]@ == Seq::<Requirement>::empty(),
{
    let ghost start = into.contents();
    let mut i: usize = 0;
    while i < reqs.len()
        invariant
            i <= reqs.len(),
            into.wf(),
            forall|p: Seq<char>| #[trigger]
                into.contents().contains_key(p) <==> start.contains_key(p) || required_among(
                    reqs@,
                    i as int,
                    p,
                ),
            forall|p: Seq<char>| #[trigger]
                start.contains_key(p) ==> into.contents()[p] == start[p],
            forall|p: Seq<char>| #[trigger]
                into.contents().contains_key(p) && !start.contains_key(p) ==> into.contents()[p]@
                    == Seq::<Requirement>::empty(),
        decreases reqs.len() - i,
    {
        let ghost held = into.contents();
        let name = reqs[i].name.as_str();
        if into.position(name).is_none() {
            into.push(name, Vec::new());
        }
        assert forall|p: Seq<char>| #[trigger]
            into.contents().contains_key(p) <==> start.contains_key(p) || required_among(
                reqs@,
                i + 1,
                p,
            ) by {
            if required_among(reqs@, i + 1, p) {
                let k = choose|k: int| 0 <= k < i + 1 && requires_at(reqs@, k, p);
                if k < i {
                    assert(required_among(reqs@, i as int, p));
                }
            }
            if required_among(reqs@, i as int, p) {
                let k = choose|k: int| 0 <= k < i && requires_at(reqs@, k, p);
                assert(requires_at(reqs@, k, p));
            }
            if p == name@ {
                assert(requires_at(reqs@, i as int, p));
            }
        }
        i += 1;
    }
}

/// Adds each package that one of the `groups` names through the groups
/// `defined`, and that `into` does not hold yet, with no requirements of its
/// own. What `into` holds stays as it is.
fn add_named(
    into: &mut NameMap<Vec<Requirement>>,
    groups: &NameMap<()>,
    defined: &NameMap<Vec<Requirement>>,
)
    requires
        old(into).wf(),
        groups.wf(),
        defined.wf(),
    ensures
        final(into).wf(),
        forall|p: Seq<char>| #[trigger]
            final(into).contents().contains_key(p) <==> old(into).contents().contains_key(p)
                || named_by(members_of(*groups), requirements_of(*defined), p),
        forall|p: Seq<char>| #[trigger]
            old(into).contents().contains_key(p) ==> final(into).contents()[p] == old(
                into,
            ).contents()[p],
        forall|p: Seq<char>| #[trigger]
            final(into).contents().contains_key(p) && !old(into).contents().contains_key(p)
                ==> final(into).contents()[p]@ == Seq::<Requirement>::empty(),
{
    let ghost start = into.contents();
    let ghost names = groups.names();
    let ghost known = requirements_of(*defined);
    let mut g: usize = 0;
    while g < groups.len()
        invariant
            groups.wf(),
            defined.wf(),
            into.wf(),
            names == groups.names(),
            known == requirements_of(*defined),
            g <= names.len(),
            forall|p: Seq<char>| #[trigger]
                into.contents().contains_key(p) <==> start.contains_key(p) || named_among(
                    names,
                    g as int,
                    known,
                    p,
                ),
            forall|p: Seq<char>| #[trigger]
                start.contains_key(p) ==> into.contents()[p] == start[p],
            forall|p: Seq<char>| #[trigger]
                into.contents().contains_key(p) && !start.contains_key(p) ==> into.contents()[p]@
                    == Seq::<Requirement>::empty(),
        decreases names.len() - g,
    {
        let ghost held = into.contents();
        let group = groups.name(g);
        match defined.position(group.as_str()) {
            Some(at) => {
                let reqs = defined.value(at);
                assert(known[group@] == reqs@);
                add_required(into, reqs);
                assert forall|p: Seq<char>| #[trigger]
                    start.contains_key(p) implies into.contents()[p] == start[p] by {
                    assert(held.contains_key(p));
                }
                assert forall|p: Seq<char>| #[trigger]
                    into.contents().contains_key(p) && !start.contains_key(p) implies into.contents()[p]@
                    == Seq::<Requirement>::empty() by {
                    if held.contains_key(p) {
                    }
                }
                assert forall|p: Seq<char>| #[trigger]
                    into.contents().contains_key(p) <==> start.contains_key(p) || named_among(
                        names,
                        g + 1,
                        known,
                        p,
                    ) by {
                    if named_among(names, g + 1, known, p) {
                        let k = choose|k: int|
                            0 <= k < g + 1 && k < names.len() && group_names(
                                known,
                                #[trigger] names[k],
                                p,
                            );
                        if k < g {
                            assert(named_among(names, g as int, known, p));
                        } else {
                            let i = choose|i: int| requires_at(known[group@], i, p);
                            assert(requires_at(reqs@, i, p));
                            assert(required_among(reqs@, reqs.len() as int, p));
                        }
                    }
                    if named_among(names, g as int, known, p) {
                        let k = choose|k: int|
                            0 <= k < g && k < names.len() && group_names(
                                known,
                                #[trigger] names[k],
                                p,
                            );
                        assert(group_names(known, names[k], p));
                    }
                    if required_among(reqs@, reqs.len() as int, p) {
                        let i = choose|i: int| 0 <= i < reqs.len() && requires_at(reqs@, i, p);
                        assert(requires_at(known[group@], i, p));
                        assert(group_names(known, names[g as int], p));
                    }
                }
            },
            None => {
                assert forall|p: Seq<char>|
                    named_among(names, g + 1, known, p) implies named_among(
                    names,
                    g as int,
                    known,
                    p,
                ) by {
                    let k = choose|k: int|
                        0 <= k < g + 1 && k < names.len() && group_names(
                            known,
                            #[trigger] names[k],
                            p,
                        );
                    assert(k < g);
                }
                assert forall|p: Seq<char>|
                    named_among(names, g as int, known, p) implies named_among(
                    names,
                    g + 1,
                    known,
                    p,
                ) by {
                    let k = choose|k: int|
                        0 <= k < g && k < names.len() && group_names(
                            known,
                            #[trigger] names[k],
                            p,
                        );
                    assert(group_names(known, names[k], p));
                }
            },
        }
        g += 1;
    }
    proof {
        groups.names_are_distinct();
        assert forall|p: Seq<char>|
            named_among(names, names.len() as int, known, p) <==> named_by(
                members_of(*groups),
                known,
                p,
            ) by {
            if named_among(names, names.len() as int, known, p) {
                let k = choose|k: int|
                    0 <= k < names.len() && k < names.len() && group_names(
                        known,
                        #[trigger] names[k],
                        p,
                    );
                assert(names.contains(names[k]));
                assert(members_of(*groups).contains(names[k]));
            }
            if named_by(members_of(*groups), known, p) {
                let group = choose|group: Seq<char>|
                    members_of(*groups).contains(group) && group_names(known, group, p);
                assert(groups.contents().contains_key(group));
                assert(names.contains(group));
                let k = choose|k: int| 0 <= k < names.len() && names[k] == group;
                assert(group_names(known, names[k], p));
            }
        }
    }
}

/// A copy of a set of names.
pub fn copy_names(names: &NameMap<()>) -> (copy: NameMap<()>)
    requires
        names.wf(),
    ensures
        copy.wf(),
        copy.names() == names.names(),
        members_of(copy) == members_of(*names),
{
    let mut copy: NameMap<()> = NameMap::new();
    let mut i: usize = 0;
    proof {
        names.names_are_distinct();
    }
    while i < names.len()
        invariant
            names.wf(),
            copy.wf(),
            i <= names.names().len(),
            names.names().no_duplicates(),
            copy.names() == names.names().take(i as int),
        decreases names.names().len() - i,
    {
        let name = names.name(i);
        let ghost taken = names.names().take(i as int);
        assert(!taken.contains(name@)) by {
            if taken.contains(name@) {
                let k = choose|k: int| 0 <= k < taken.len() && taken[k] == name@;
                assert(names.names()[k] == names.names()[i as int]);
            }
        }
        copy.push(name.as_str(), ());
        assert(names.names().take(i + 1) =~= taken.push(name@));
        i += 1;
    }
    proof {
        assert(names.names().take(names.names().len() as int) =~= names.names());
        copy.names_are_distinct();
        assert(members_of(copy) =~= members_of(*names));
    }
    copy
}

/// Which packages may be moved to a newer version than the one pinned.
pub enum Upgrade {
    /// None of them.
    Nothing,
    /// All of them.
    All,
    /// The given packages, each with the requirements it must then meet.
    Packages(NameMap<Vec<Requirement>>),
    /// The packages that the given dependency groups name.
    Groups(NameMap<()>),
    /// The given packages and those that the given groups name.
    PackagesAndGroups { packages: NameMap<Vec<Requirement>>, groups: NameMap<()> },
}

/// An upgrade request whose groups have been resolved to packages.
pub enum LoweredUpgrade {
    /// No package.
    Nothing,
    /// All of them.
    All,
    /// The given packages, each with the requirements it must then meet.
    Packages(NameMap<Vec<Requirement>>),
}

/// Groups were asked for where no dependency groups can be looked up.
pub struct UpgradeGroupError {
    /// The groups that were asked for.
    pub groups: NameMap<()>,
}

/// An upgrade request as sets and maps.
pub enum UpgradeView {
    /// No package.
    Nothing,
    /// All of them.
    All,
    /// The given packages.
    Packages(Map<Seq<char>, Seq<Requirement>>),
    /// The packages that the given groups name.
    Groups(Set<Seq<char>>),
    /// The given packages and those that the given groups name.
    PackagesAndGroups { packages: Map<Seq<char>, Seq<Requirement>>, groups: Set<Seq<char>> },
}

/// A resolved upgrade request as a map.
pub enum LoweredView {
    /// No package.
    Nothing,
    /// All of them.
    All,
    /// The given packages.
    Packages(Map<Seq<char>, Seq<Requirement>>),
}

impl LoweredView {
    /// Whether `package` may be upgraded.
    pub open spec fn covers(self, package: Seq<char>) -> bool {
        match self {
            LoweredView::Nothing => false,
            LoweredView::All => true,
            LoweredView::Packages(packages) => packages.contains_key(package),
        }
    }
}

impl UpgradeView {
    /// The groups that the request asks for.
    pub open spec fn groups(self) -> Set<Seq<char>> {
        match self {
            UpgradeView::Groups(groups) => groups,
            UpgradeView::PackagesAndGroups { groups, .. } => groups,
            _ => Set::empty(),
        }
    }

    /// Whether the request asks for groups at all.
    pub open spec fn has_groups(self) -> bool {
        self is Groups || self is PackagesAndGroups
    }
}

/// The packages of `packages`, and each of `named` that is not among them
/// with no requirements of its own.
pub open spec fn with_named(
    packages: Map<Seq<char>, Seq<Requirement>>,
    named: Set<Seq<char>>,
) -> Map<Seq<char>, Seq<Requirement>> {
    Map::new(
        |p: Seq<char>| packages.contains_key(p) || named.contains(p),
        |p: Seq<char>|
            if packages.contains_key(p) {
                packages[p]
            } else {
                Seq::empty()
            },
    )
}

/// The request once its groups are known to name the packages `named`.
pub open spec fn lowered(upgrade: UpgradeView, named: Set<Seq<char>>) -> LoweredView {
    match upgrade {
        UpgradeView::Nothing => LoweredView::Nothing,
        UpgradeView::All => LoweredView::All,
        UpgradeView::Packages(packages) => LoweredView::Packages(packages),
        UpgradeView::Groups(_) => LoweredView::Packages(with_named(Map::empty(), named)),
        UpgradeView::PackagesAndGroups { packages, .. } => LoweredView::Packages(
            with_named(packages, named),
        ),
    }
}

impl View for Upgrade {
    type V = UpgradeView;

    open spec fn view(&self) -> UpgradeView {
        match self {
            Upgrade::Nothing => UpgradeView::Nothing,
            Upgrade::All => UpgradeView::All,
            Upgrade::Packages(packages) => UpgradeView::Packages(requirements_of(*packages)),
            Upgrade::Groups(groups) => UpgradeView::Groups(members_of(*groups)),
            Upgrade::PackagesAndGroups { packages, groups } => UpgradeView::PackagesAndGroups {
                packages: requirements_of(*packages),
                groups: members_of(*groups),
            },
        }
    }
}

impl View for LoweredUpgrade {
    type V = LoweredView;

    open spec fn view(&self) -> LoweredView {
        match self {
            LoweredUpgrade::Nothing => LoweredView::Nothing,
            LoweredUpgrade::All => LoweredView::All,
            LoweredUpgrade::Packages(packages) => LoweredView::Packages(
                requirements_of(*packages),
            ),
        }
    }
}

impl Upgrade {
    /// Whether the maps inside are in order.
    pub open spec fn wf(&self) -> bool {
        match self {
            Upgrade::Packages(packages) => packages.wf(),
            Upgrade::Groups(groups) => groups.wf(),
            Upgrade::PackagesAndGroups { packages, groups } => packages.wf() && groups.wf(),
            _ => true,
        }
    }

    /// Whether every package may be upgraded.
    pub fn is_all(&self) -> (res: bool)
        ensures
            res == (self@ is All),
    {
        matches!(self, Upgrade::All)
    }
}

impl LoweredUpgrade {
    /// Whether the map inside is in order.
    pub open spec fn wf(&self) -> bool {
        match self {
            LoweredUpgrade::Packages(packages) => packages.wf(),
            _ => true,
        }
    }

    /// Whether `package` may be upgraded.
    pub open spec fn spec_contains(self, package: Seq<char>) -> bool {
        self@.covers(package)
    }

    /// Whether every package may be upgraded.
    pub fn is_all(&self) -> (res: bool)
        ensures
            res == (self@ is All),
    {
        matches!(self, LoweredUpgrade::All)
    }

    /// Whether `package` may be upgraded.
    pub fn contains(&self, package: &str) -> (res: bool)
        requires
            self.wf(),
        ensures
            res == self.spec_contains(package@),
    {
        match self {
            LoweredUpgrade::Nothing => false,
            LoweredUpgrade::All => true,
            LoweredUpgrade::Packages(packages) => packages.position(package).is_some(),
        }
    }
}

/// The packages that `groups` name through the dependency groups `defined`.
pub open spec fn packages_named(
    groups: Set<Seq<char>>,
    defined: Map<Seq<char>, Seq<Requirement>>,
) -> Set<Seq<char>> {
    Set::new(|p: Seq<char>| named_by(groups, defined, p))
}

/// Resolves the groups of an upgrade request to the packages that they name
/// in the project's dependency groups. A package that only a group names
/// comes with no requirements of its own; a group that the project does not
/// define names nothing.
pub fn lower_upgrade(upgrade: &Upgrade, dependency_groups: &NameMap<Vec<Requirement>>) -> (res:
    LoweredUpgrade)
    requires
        upgrade.wf(),
        dependency_groups.wf(),
    ensures
        res.wf(),
        res@ == lowered(
            upgrade@,
            packages_named(upgrade@.groups(), requirements_of(*dependency_groups)),
        ),
{
    match upgrade {
        Upgrade::Nothing => LoweredUpgrade::Nothing,
        Upgrade::All => LoweredUpgrade::All,
        Upgrade::Packages(packages) => LoweredUpgrade::Packages(copy_packages(packages)),
        Upgrade::Groups(groups) => {
            let mut all: NameMap<Vec<Requirement>> = NameMap::new();
            add_named(&mut all, groups, dependency_groups);
            let ghost named = packages_named(
                members_of(*groups),
                requirements_of(*dependency_groups),
            );
            assert(requirements_of(all) =~= with_named(Map::empty(), named));
            LoweredUpgrade::Packages(all)
        },
        Upgrade::PackagesAndGroups { packages, groups } => {
            let mut all = copy_packages(packages);
            let ghost copied = all;
            add_named(&mut all, groups, dependency_groups);
            let ghost named = packages_named(
                members_of(*groups),
                requirements_of(*dependency_groups),
            );
            assert forall|p: Seq<char>| #[trigger]
                requirements_of(all).contains_key(p) implies requirements_of(all)[p]
                == with_named(requirements_of(*packages), named)[p] by {
                if requirements_of(*packages).contains_key(p) {
                    assert(requirements_of(copied).contains_key(p));
                    assert(requirements_of(copied)[p] == requirements_of(*packages)[p]);
                } else {
                    assert(!requirements_of(copied).contains_key(p));
                }
            }
            assert forall|p: Seq<char>|
                requirements_of(all).contains_key(p) <==> #[trigger] with_named(
                    requirements_of(*packages),
                    named,
                ).contains_key(p) by {
                assert(requirements_of(copied).contains_key(p) <==> requirements_of(
                    *packages,
                ).contains_key(p));
            }
            assert(requirements_of(all) =~= with_named(requirements_of(*packages), named));
            LoweredUpgrade::Packages(all)
        },
    }
}

/// Lowers an upgrade request where no dependency groups can be looked up:
/// a request that asks for groups is refused, with the groups it asked for;
/// any other is lowered as it stands.
pub fn lower_upgrade_without_groups(upgrade: &Upgrade) -> (res: Result<
    LoweredUpgrade,
    UpgradeGroupError,
>)
    requires
        upgrade.wf(),
    ensures
        res is Err == upgrade@.has_groups(),
        match res {
            Ok(lower) => lower.wf() && lower@ == lowered(upgrade@, Set::empty()),
            Err(error) => error.groups.wf() && members_of(error.groups) == upgrade@.groups(),
        },
{
    match upgrade {
        Upgrade::Nothing => Ok(LoweredUpgrade::Nothing),
        Upgrade::All => Ok(LoweredUpgrade::All),
        Upgrade::Packages(packages) => Ok(LoweredUpgrade::Packages(copy_packages(packages))),
        Upgrade::Groups(groups) => Err(UpgradeGroupError { groups: copy_names(groups) }),
        Upgrade::PackagesAndGroups { groups, .. } => Err(
            UpgradeGroupError { groups: copy_names(groups) },
        ),
    }
}

/// One package of a lockfile, as far as upgrades depend on it.
pub struct LockedPackage {
    /// The name of the package.
    pub name: String,
    /// The dependency groups that the package defines.
    pub dependency_groups: NameMap<Vec<Requirement>>,
}

/// A lockfile, as far as upgrades depend on it.
pub struct Lock {
    /// The dependency groups of the lockfile itself, for projects that are
    /// no package.
    pub dependency_groups: NameMap<Vec<Requirement>>,
    /// The locked packages.
    pub packages: Vec<LockedPackage>,
}

impl Lock {
    /// Whether the maps inside are in order.
    pub open spec fn wf(&self) -> bool {
        &&& self.dependency_groups.wf()
        &&& forall|k: int|
            0 <= k < self.packages.len() ==> (#[trigger] self.packages[k]).dependency_groups.wf()
    }
}

/// Whether one of the `groups` names `package` in the groups that the locked
/// package at place `k` defines.
pub open spec fn named_in_package(
    groups: Set<Seq<char>>,
    lock: Lock,
    k: int,
    package: Seq<char>,
) -> bool {
    0 <= k < lock.packages.len() && named_by(
        groups,
        requirements_of(lock.packages[k].dependency_groups),
        package,
    )
}

/// Whether one of the `groups` names `package` in the lockfile: in its own
/// dependency groups or in those of one of its packages.
pub open spec fn named_in_lock(groups: Set<Seq<char>>, lock: Lock, package: Seq<char>) -> bool {
    named_by(groups, requirements_of(lock.dependency_groups), package) || exists|k: int|
        named_in_package(groups, lock, k, package)
}

/// The packages that `groups` name in the lockfile.
pub open spec fn packages_named_in_lock(groups: Set<Seq<char>>, lock: Lock) -> Set<Seq<char>> {
    Set::new(|p: Seq<char>| named_in_lock(groups, lock, p))
}

/// Whether one of the `groups` names `package` in the lockfile's own groups
/// or in those of one of its first `count` packages.
pub open spec fn named_in_lock_among(
    groups: Set<Seq<char>>,
    lock: Lock,
    count: int,
    package: Seq<char>,
) -> bool {
    named_by(groups, requirements_of(lock.dependency_groups), package) || exists|k: int|
        0 <= k < count && named_in_package(groups, lock, k, package)
}

/// Adds each package that one of the `groups` names in the lockfile, and
/// that `into` does not hold yet, with no requirements of its own. What
/// `into` holds stays as it is.
fn add_named_in_lock(into: &mut NameMap<Vec<Requirement>>, groups: &NameMap<()>, lock: &Lock)
    requires
        old(into).wf(),
        groups.wf(),
        lock.wf(),
    ensures
        final(into).wf(),
        forall|p: Seq<char>| #[trigger]
            final(into).contents().contains_key(p) <==> old(into).contents().contains_key(p)
                || named_in_lock(members_of(*groups), *lock, p),
        forall|p: Seq<char>| #[trigger]
            old(into).contents().contains_key(p) ==> final(into).contents()[p] == old(
                into,
            ).contents()[p],
        forall|p: Seq<char>| #[trigger]
            final(into).contents().contains_key(p) && !old(into).contents().contains_key(p)
                ==> final(into).contents()[p]@ == Seq::<Requirement>::empty(),
{
    let ghost start = into.contents();
    let ghost asked = members_of(*groups);
    add_named(into, groups, &lock.dependency_groups);
    let mut k: usize = 0;
    while k < lock.packages.len()
        invariant
            groups.wf(),
            lock.wf(),
            into.wf(),
            asked == members_of(*groups),
            k <= lock.packages.len(),
            forall|p: Seq<char>| #[trigger]
                into.contents().contains_key(p) <==> start.contains_key(p) || named_in_lock_among(
                    asked,
                    *lock,
                    k as int,
                    p,
                ),
            forall|p: Seq<char>| #[trigger]
                start.contains_key(p) ==> into.contents()[p] == start[p],
            forall|p: Seq<char>| #[trigger]
                into.contents().contains_key(p) && !start.contains_key(p) ==> into.contents()[p]@
                    == Seq::<Requirement>::empty(),
        decreases lock.packages.len() - k,
    {
        let ghost held = into.contents();
        add_named(into, groups, &lock.packages[k].dependency_groups);
        assert forall|p: Seq<char>| #[trigger]
            start.contains_key(p) implies into.contents()[p] == start[p] by {
            assert(held.contains_key(p));
        }
        assert forall|p: Seq<char>| #[trigger]
            into.contents().contains_key(p) && !start.contains_key(p) implies into.contents()[p]@
            == Seq::<Requirement>::empty() by {
            if held.contains_key(p) {
            }
        }
        assert forall|p: Seq<char>| #[trigger]
            into.contents().contains_key(p) <==> start.contains_key(p) || named_in_lock_among(
                asked,
                *lock,
                k + 1,
                p,
            ) by {
            if named_in_lock_among(asked, *lock, k + 1, p) && !named_by(
                asked,
                requirements_of(lock.dependency_groups),
                p,
            ) {
                let j = choose|j: int| 0 <= j < k + 1 && named_in_package(asked, *lock, j, p);
                if j < k {
                    assert(named_in_lock_among(asked, *lock, k as int, p));
                }
            }
            if named_in_lock_among(asked, *lock, k as int, p) && !named_by(
                asked,
                requirements_of(lock.dependency_groups),
                p,
            ) {
                let j = choose|j: int| 0 <= j < k && named_in_package(asked, *lock, j, p);
                assert(named_in_package(asked, *lock, j, p));
            }
            if named_by(asked, requirements_of(lock.packages[k as int].dependency_groups), p) {
                assert(named_in_package(asked, *lock, k as int, p));
            }
        }
        k += 1;
    }
    proof {
        assert forall|p: Seq<char>|
            named_in_lock_among(asked, *lock, lock.packages.len() as int, p) <==> named_in_lock(
                asked,
                *lock,
                p,
            ) by {
            if named_in_lock(asked, *lock, p) && !named_by(
                asked,
                requirements_of(lock.dependency_groups),
                p,
            ) {
                let j = choose|j: int| named_in_package(asked, *lock, j, p);
                assert(0 <= j < lock.packages.len());
            }
        }
    }
}

/// Resolves the groups of an upgrade request to the packages that they name
/// in a lockfile: in the lockfile's own dependency groups and in those of
/// each locked package. For use where the project's own groups are not at
/// hand.
pub fn lower_upgrade_with_lock(upgrade: &Upgrade, lock: &Lock) -> (res: LoweredUpgrade)
    requires
        upgrade.wf(),
        lock.wf(),
    ensures
        res.wf(),
        res@ == lowered(upgrade@, packages_named_in_lock(upgrade@.groups(), *lock)),
{
    match upgrade {
        Upgrade::Nothing => LoweredUpgrade::Nothing,
        Upgrade::All => LoweredUpgrade::All,
        Upgrade::Packages(packages) => LoweredUpgrade::Packages(copy_packages(packages)),
        Upgrade::Groups(groups) => {
            let mut all: NameMap<Vec<Requirement>> = NameMap::new();
            add_named_in_lock(&mut all, groups, lock);
            let ghost named = packages_named_in_lock(members_of(*groups), *lock);
            assert(requirements_of(all) =~= with_named(Map::empty(), named));
            LoweredUpgrade::Packages(all)
        },
        Upgrade::PackagesAndGroups { packages, groups } => {
            let mut all = copy_packages(packages);
            let ghost copied = all;
            add_named_in_lock(&mut all, groups, lock);
            let ghost named = packages_named_in_lock(members_of(*groups), *lock);
            assert forall|p: Seq<char>| #[trigger]
                requirements_of(all).contains_key(p) implies requirements_of(all)[p]
                == with_named(requirements_of(*packages), named)[p] by {
                if requirements_of(*packages).contains_key(p) {
                    assert(requirements_of(copied).contains_key(p));
                    assert(requirements_of(copied)[p] == requirements_of(*packages)[p]);
                } else {
                    assert(!requirements_of(copied).contains_key(p));
                }
            }
            assert forall|p: Seq<char>|
                requirements_of(all).contains_key(p) <==> #[trigger] with_named(
                    requirements_of(*packages),
                    named,
                ).contains_key(p) by {
                assert(requirements_of(copied).contains_key(p) <==> requirements_of(
                    *packages,
                ).contains_key(p));
            }
            assert(requirements_of(all) =~= with_named(requirements_of(*packages), named));
            LoweredUpgrade::Packages(all)
        },
    }
}

/// A version of a package that an earlier resolution settled on.
#[derive(Debug)]
pub struct Preference {
    /// The package.
    pub name: String,
    /// The version it was pinned to, as text.
    pub pin: String,
}

impl Preference {
    /// A copy of the preference.
    pub fn duplicate(&self) -> (copy: Preference)
        ensures
            copy == *self,
    {
        Preference { name: self.name.clone(), pin: self.pin.clone() }
    }
}

/// What an earlier resolution settled on.
#[derive(Debug)]
pub struct LockedRequirements {
    /// The pinned versions from the lockfile.
    pub preferences: Vec<Preference>,
    /// The pinned Git commits from the lockfile.
    pub git: Vec<String>,
}

impl LockedRequirements {
    /// Create a [`LockedRequirements`] from a list of preferences, with no
    /// pinned Git commits.
    pub fn from_preferences(preferences: Vec<Preference>) -> (res: LockedRequirements)
        ensures
            res.preferences == preferences,
            res.git@.len() == 0,
    {
        LockedRequirements { preferences, git: Vec::new() }
    }
}

impl UpgradeView {
    /// Whether a pinned version of `package` is kept where no groups can be
    /// resolved: groups then name no package, so that only the packages
    /// given by name lose their pins, and `All` drops every pin.
    pub open spec fn keeps_pin(self, package: Seq<char>) -> bool {
        match self {
            UpgradeView::Nothing => true,
            UpgradeView::All => false,
            UpgradeView::Packages(packages) => !packages.contains_key(package),
            UpgradeView::Groups(_) => true,
            UpgradeView::PackagesAndGroups { packages, .. } => !packages.contains_key(package),
        }
    }
}

/// The preferences whose package keeps its pin, in their order.
pub open spec fn pinned(preferences: Seq<Preference>, upgrade: UpgradeView) -> Seq<Preference>
    decreases preferences.len(),
{
    if preferences.len() == 0 {
        Seq::empty()
    } else if upgrade.keeps_pin(preferences.last().name@) {
        pinned(preferences.drop_last(), upgrade).push(preferences.last())
    } else {
        pinned(preferences.drop_last(), upgrade)
    }
}

impl Upgrade {
    /// Whether a pinned version of `package` is kept where no groups can be
    /// resolved.
    pub fn keeps_pin(&self, package: &str) -> (res: bool)
        requires
            self.wf(),
        ensures
            res == self@.keeps_pin(package@),
    {
        match self {
            Upgrade::Nothing => true,
            Upgrade::All => false,
            Upgrade::Packages(packages) => packages.position(package).is_none(),
            Upgrade::Groups(_) => true,
            Upgrade::PackagesAndGroups { packages, .. } => packages.position(package).is_none(),
        }
    }
}

/// Applies an upgrade request to the pinned versions read from a
/// requirements file: the pins of the packages to upgrade are dropped, the
/// others kept in their order. Groups cannot be resolved there and drop
/// nothing.
pub fn retain_pinned(preferences: &Vec<Preference>, upgrade: &Upgrade) -> (kept: Vec<Preference>)
    requires
        upgrade.wf(),
    ensures
        kept@ == pinned(preferences@, upgrade@),
{
    let mut kept: Vec<Preference> = Vec::new();
    let mut i: usize = 0;
    while i < preferences.len()
        invariant
            upgrade.wf(),
            i <= preferences.len(),
            kept@ == pinned(preferences@.take(i as int), upgrade@),
        decreases preferences.len() - i,
    {
        assert(preferences@.take(i + 1).drop_last() =~= preferences@.take(i as int));
        if upgrade.keeps_pin(preferences[i].name.as_str()) {
            kept.push(preferences[i].duplicate());
        }
        i += 1;
    }
    assert(preferences@.take(preferences.len() as int) =~= preferences@);
    kept
}

/// The places of the first `count` locked packages that the lowered request
/// does not upgrade, in their order.
pub open spec fn kept_places(lock: Lock, lowered: LoweredView, count: nat) -> Seq<usize>
    decreases count,
{
    if count == 0 || count > lock.packages.len() {
        Seq::empty()
    } else if lowered.covers(lock.packages[count - 1].name@) {
        kept_places(lock, lowered, (count - 1) as nat)
    } else {
        kept_places(lock, lowered, (count - 1) as nat).push((count - 1) as usize)
    }
}

/// The locked packages whose pins are kept under an upgrade request: the
/// places of those that the request, once lowered against the lockfile, does
/// not cover. Where every package is upgraded there are none.
pub fn locked_packages_to_keep(lock: &Lock, upgrade: &Upgrade) -> (places: Vec<usize>)
    requires
        upgrade.wf(),
        lock.wf(),
    ensures
        places@ == kept_places(
            *lock,
            lowered_view(upgrade@, *lock),
            lock.packages.len() as nat,
        ),
        forall|k: int| 0 <= k < places.len() ==> (#[trigger] places[k]) < lock.packages.len(),
{
    let lowered = lower_upgrade_with_lock(upgrade, lock);
    let mut places: Vec<usize> = Vec::new();
    let mut i: usize = 0;
    while i < lock.packages.len()
        invariant
            lowered.wf(),
            i <= lock.packages.len(),
            lowered@ == lowered_view(upgrade@, *lock),
            places@ == kept_places(*lock, lowered@, i as nat),
            forall|k: int| 0 <= k < places.len() ==> (#[trigger] places[k]) < lock.packages.len(),
        decreases lock.packages.len() - i,
    {
        if !lowered.contains(lock.packages[i].name.as_str()) {
            places.push(i);
        }
        i += 1;
    }
    places
}

/// The request lowered against a lockfile.
pub open spec fn lowered_view(upgrade: UpgradeView, lock: Lock) -> LoweredView {
    lowered(upgrade, packages_named_in_lock(upgrade.groups(), lock))
}

} // verus!
