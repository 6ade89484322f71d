//! Which targets of which packages a build is asked for, and for which kinds
//! of target it compiles.

use vstd::prelude::*;
use crate::order::str_eq;

verus! {

/// What code is compiled for.
#[derive(Debug, PartialEq, Eq)]
pub enum CompileKind {
    /// The machine that builds.
    Host,
    /// The target of this name.
    Target(String),
}

/// What a [`CompileKind`] is in contracts.
pub enum CompileKindView {
    Host,
    Target(Seq<char>),
}

impl View for CompileKind {
    type V = CompileKindView;

    open spec fn view(&self) -> CompileKindView {
        match *self {
            CompileKind::Host => CompileKindView::Host,
            CompileKind::Target(name) => CompileKindView::Target(name@),
        }
    }
}

impl DeepView for CompileKind {
    type V = CompileKindView;

    open spec fn deep_view(&self) -> CompileKindView {
        self.view()
    }
}

impl CompileKind {
    /// Whether `self` and `other` are the same kind.
    pub fn same(&self, other: &CompileKind) -> (same: bool)
        ensures
            same == (self@ == other@),
    {
        match (self, other) {
            (CompileKind::Host, CompileKind::Host) => true,
            (CompileKind::Target(a), CompileKind::Target(b)) => str_eq(a.as_str(), b.as_str()),
            _ => false,
        }
    }

    /// A copy of the kind.
    pub fn duplicate(&self) -> (copy: CompileKind)
        ensures
            copy@ == self@,
    {
        match self {
            CompileKind::Host => CompileKind::Host,
            CompileKind::Target(name) => CompileKind::Target(name.clone()),
        }
    }
}

/// A target of a package, and whether the filter of the request runs it.
#[derive(Debug, PartialEq, Eq)]
pub struct Target {
    pub name: String,
    pub selected: bool,
}

/// A package of the workspace: its targets, and the kinds that its manifest
/// sets by default or forces.
#[derive(Debug, PartialEq, Eq)]
pub struct Package {
    pub name: String,
    pub targets: Vec<Target>,
    pub default_kind: Option<CompileKind>,
    pub forced_kind: Option<CompileKind>,
}

/// What a build was asked for.
#[derive(Debug, PartialEq, Eq)]
pub struct Config {
    /// The members of the workspace that the request selects.
    pub members: Vec<Package>,
    /// The packages that the request names, if it names any.
    pub requested: Vec<Package>,
    /// Whether the request asks for all targets.
    pub all_targets: bool,
    /// The kinds that the request asks for.
    pub requested_kinds: Vec<CompileKind>,
    /// The name of the target of the machine that builds.
    pub host_target: String,
    /// The triple that the compiler reports for the machine that builds.
    pub rustc_host: String,
}

/// A package with those of its targets that are asked for.
pub type Possible = (Package, Seq<Target>);

/// Those of `targets` that are asked for, in their order: all of them where
/// all targets are asked for, else those that the filter runs.
pub open spec fn wanted(all: bool, targets: Seq<Target>) -> Seq<Target>
    decreases targets.len(),
{
    if targets.len() == 0 {
        Seq::empty()
    } else if all || targets.last().selected {
        wanted(all, targets.drop_last()).push(targets.last())
    } else {
        wanted(all, targets.drop_last())
    }
}

/// The packages among `members` that have a target that is asked for, in
/// their order, each with those targets.
pub open spec fn possible(all: bool, members: Seq<Package>) -> Seq<Possible>
    decreases members.len(),
{
    if members.len() == 0 {
        Seq::empty()
    } else {
        let before = possible(all, members.drop_last());
        let targets = wanted(all, members.last().targets@);
        if targets.len() > 0 {
            before.push((members.last(), targets))
        } else {
            before
        }
    }
}

/// What a list of packages with targets is in contracts.
pub open spec fn listed(found: Seq<(&Package, Vec<&Target>)>) -> Seq<Possible> {
    found.map_values(
        |entry: (&Package, Vec<&Target>)| (*entry.0, entry.1@.map_values(|t: &Target| *t)),
    )
}

/// The kind that a manifest may set, as a list of none or one.
pub open spec fn kind_of(kind: Option<CompileKind>) -> Seq<CompileKindView> {
    match kind {
        Some(k) => seq![k@],
        None => Seq::empty(),
    }
}

/// The kinds that the manifests of `members` set: for each member its default
/// kind, then its forced kind.
pub open spec fn declared_kinds(members: Seq<Package>) -> Seq<CompileKindView>
    decreases members.len(),
{
    if members.len() == 0 {
        Seq::empty()
    } else {
        declared_kinds(members.drop_last()) + kind_of(members.last().default_kind) + kind_of(
            members.last().forced_kind,
        )
    }
}

/// `kinds`, followed by the target of the host where the host is among them
/// and its target is not.
pub open spec fn with_host_target(kinds: Seq<CompileKindView>, host: Seq<char>) -> Seq<
    CompileKindView,
> {
    if kinds.contains(CompileKindView::Host) && !kinds.contains(CompileKindView::Target(host)) {
        kinds.push(CompileKindView::Target(host))
    } else {
        kinds
    }
}

/// Whether `kind` is among `kinds`.
fn contains_kind(kinds: &Vec<CompileKind>, kind: &CompileKind) -> (found: bool)
    ensures
        found == kinds.deep_view().contains(kind@),
{
    let mut i: usize = 0;
    while i < kinds.len()
        invariant
            i <= kinds.len(),
            forall|k: int| 0 <= k < i ==> kinds.deep_view()[k] != kind@,
        decreases kinds.len() - i,
    {
        if kinds[i].same(kind) {
            assert(kinds.deep_view()[i as int] == kind@);
            return true;
        }
        i += 1;
    }
    false
}

/// Adds the kind that a manifest may set to `kinds`.
fn push_kind(kinds: &mut Vec<CompileKind>, kind: &Option<CompileKind>)
    ensures
        final(kinds).deep_view() == old(kinds).deep_view() + kind_of(*kind),
{
    match kind {
        Some(k) => {
            kinds.push(k.duplicate());
            assert(kinds.deep_view() =~= old(kinds).deep_view() + kind_of(*kind));
        },
        None => {
            assert(kinds.deep_view() =~= old(kinds).deep_view() + kind_of(*kind));
        },
    }
}

impl Config {
    /// The members of the workspace that the request selects.
    pub fn members_with_features(&self) -> (members: &Vec<Package>)
        ensures
            members == self.members,
    {
        &self.members
    }

    /// Those of the targets of `package` that are asked for.
    pub fn wanted_targets<'t>(&self, package: &'t Package) -> (found: Vec<&'t Target>)
        ensures
            found@.map_values(|t: &Target| *t) == wanted(self.all_targets, package.targets@),
    {
        let mut found: Vec<&'t Target> = Vec::new();
        let mut i: usize = 0;
        assert(package.targets@.take(0) =~= Seq::empty());
        assert(found@.map_values(|t: &Target| *t) =~= Seq::empty());
        while i < package.targets.len()
            invariant
                i <= package.targets.len(),
                found@.map_values(|t: &Target| *t) == wanted(
                    self.all_targets,
                    package.targets@.take(i as int),
                ),
            decreases package.targets.len() - i,
        {
            let target = &package.targets[i];
            let ghost held = found@.map_values(|t: &Target| *t);
            proof {
                let next = package.targets@.take(i + 1);
                assert(next.drop_last() =~= package.targets@.take(i as int));
                assert(next.last() == *target);
            }
            if self.all_targets || target.selected {
                found.push(target);
                assert(found@.map_values(|t: &Target| *t) =~= held.push(*target));
            }
            i += 1;
        }
        assert(package.targets@.take(i as int) =~= package.targets@);
        found
    }

    /// The packages among `members` that have a target that is asked for,
    /// each with those targets.
    pub fn possible_targets_with<'t>(&self, members: &'t Vec<Package>) -> (found: Vec<
        (&'t Package, Vec<&'t Target>),
    >)
        ensures
            listed(found@) == possible(self.all_targets, members@),
    {
        let mut found: Vec<(&'t Package, Vec<&'t Target>)> = Vec::new();
        let mut i: usize = 0;
        assert(members@.take(0) =~= Seq::empty());
        assert(listed(found@) =~= Seq::empty());
        while i < members.len()
            invariant
                i <= members.len(),
                listed(found@) == possible(self.all_targets, members@.take(i as int)),
            decreases members.len() - i,
        {
            let package = &members[i];
            let targets = self.wanted_targets(package);
            let ghost held = listed(found@);
            let ghost shown = targets@.map_values(|t: &Target| *t);
            proof {
                let next = members@.take(i + 1);
                assert(next.drop_last() =~= members@.take(i as int));
                assert(next.last() == *package);
            }
            if targets.len() > 0 {
                found.push((package, targets));
                assert(listed(found@) =~= held.push((*package, shown)));
            }
            i += 1;
        }
        assert(members@.take(i as int) =~= members@);
        found
    }

    /// The targets that the request asks for, among the members of the
    /// workspace that it selects.
    pub fn possible_targets<'t>(&'t self) -> (found: Vec<(&'t Package, Vec<&'t Target>)>)
        ensures
            listed(found@) == possible(self.all_targets, self.members@),
    {
        self.possible_targets_with(self.members_with_features())
    }

    /// The targets that the request asks for: among the packages that it
    /// names, and, where it names none, among the members of the workspace.
    pub fn possible_targets_ext<'t>(&'t self) -> (found: Vec<(&'t Package, Vec<&'t Target>)>)
        ensures
            listed(found@) == possible(
                self.all_targets,
                if self.requested@.len() == 0 {
                    self.members@
                } else {
                    self.requested@
                },
            ),
    {
        if self.requested.len() == 0 {
            self.possible_targets()
        } else {
            self.possible_targets_with(&self.requested)
        }
    }

    /// The kinds that the build compiles for: those that the request asks
    /// for, then those that the manifests of the members set, and at last the
    /// target of the host where the host is among them and its target is not.
    pub fn possible_compile_kinds(&self) -> (kinds: Vec<CompileKind>)
        ensures
            kinds.deep_view() == with_host_target(
                self.requested_kinds.deep_view() + declared_kinds(self.members@),
                self.host_target@,
            ),
    {
        let mut kinds: Vec<CompileKind> = Vec::new();
        let mut i: usize = 0;
        assert(kinds.deep_view() =~= self.requested_kinds.deep_view().take(0));
        while i < self.requested_kinds.len()
            invariant
                i <= self.requested_kinds.len(),
                kinds.deep_view() == self.requested_kinds.deep_view().take(i as int),
            decreases self.requested_kinds.len() - i,
        {
            let ghost held = kinds.deep_view();
            kinds.push(self.requested_kinds[i].duplicate());
            assert(kinds.deep_view() =~= held.push(self.requested_kinds.deep_view()[i as int]));
            assert(kinds.deep_view() =~= self.requested_kinds.deep_view().take(i + 1));
            i += 1;
        }
        assert(self.requested_kinds.deep_view().take(i as int) =~= self.requested_kinds.deep_view());
        let mut m: usize = 0;
        assert(self.members@.take(0) =~= Seq::empty());
        assert(kinds.deep_view() =~= self.requested_kinds.deep_view() + declared_kinds(
            self.members@.take(0),
        ));
        while m < self.members.len()
            invariant
                m <= self.members.len(),
                kinds.deep_view() == self.requested_kinds.deep_view() + declared_kinds(
                    self.members@.take(m as int),
                ),
            decreases self.members.len() - m,
        {
            let ghost held = kinds.deep_view();
            let member = &self.members[m];
            push_kind(&mut kinds, &member.default_kind);
            push_kind(&mut kinds, &member.forced_kind);
            proof {
                let next = self.members@.take(m + 1);
                assert(next.drop_last() =~= self.members@.take(m as int));
                assert(next.last() == *member);
                assert(kinds.deep_view() =~= self.requested_kinds.deep_view() + declared_kinds(
                    next,
                ));
            }
            m += 1;
        }
        assert(self.members@.take(m as int) =~= self.members@);
        if contains_kind(&kinds, &CompileKind::Host) {
            let exact = CompileKind::Target(self.host_target.clone());
            if !contains_kind(&kinds, &exact) {
                let ghost held = kinds.deep_view();
                kinds.push(exact);
                assert(kinds.deep_view() =~= held.push(CompileKindView::Target(self.host_target@)));
            }
        }
        kinds
    }

    /// The triple that the compiler is asked about for `kind`: that of the
    /// host, or the name of the target.
    pub fn triple<'t>(&'t self, kind: &'t CompileKind) -> (triple: &'t String)
        ensures
            triple@ == match kind@ {
                CompileKindView::Host => self.rustc_host@,
                CompileKindView::Target(name) => name,
            },
    {
        match kind {
            CompileKind::Host => &self.rustc_host,
            CompileKind::Target(name) => name,
        }
    }
}

} // verus!
