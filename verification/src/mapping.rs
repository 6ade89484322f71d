//! Mappings, plans, and the flat list of `(target, source)` pairs that a plan
//! stands for.

use vstd::prelude::*;
use crate::text::join;
use crate::text::joined;

verus! {

/// The pair of expressions of the declared rule that a mapping comes from.
#[derive(Debug, PartialEq, Eq)]
pub struct Rule {
    pub left: String,
    pub right: String,
}

/// What a [`Rule`] is in contracts.
pub struct RuleView {
    pub left: Seq<char>,
    pub right: Seq<char>,
}

impl View for Rule {
    type V = RuleView;

    open spec fn view(&self) -> RuleView {
        RuleView { left: self.left@, right: self.right@ }
    }
}

impl DeepView for Rule {
    type V = RuleView;

    open spec fn deep_view(&self) -> RuleView {
        self.view()
    }
}

/// One file matched by a fan-out rule: where it lies, and the relative name
/// that it keeps under the rule's target directory.
#[derive(Debug, PartialEq, Eq)]
pub struct Source {
    pub path: String,
    pub name: String,
}

/// What a [`Source`] is in contracts.
pub struct SourceView {
    pub path: Seq<char>,
    pub name: Seq<char>,
}

impl View for Source {
    type V = SourceView;

    open spec fn view(&self) -> SourceView {
        SourceView { path: self.path@, name: self.name@ }
    }
}

impl DeepView for Source {
    type V = SourceView;

    open spec fn deep_view(&self) -> SourceView {
        self.view()
    }
}

/// A resolved unit of work.
#[derive(Debug, PartialEq, Eq)]
pub enum Mapping {
    /// One source goes to one target, content unchanged.
    Direct { source: String, target: String, rule: Rule },
    /// One source goes to one target, its content processed by the rule.
    Transformed { source: String, target: String, rule: Rule },
    /// Many sources go under one target directory, each keeping its
    /// relative name.
    FanOut { sources: Vec<Source>, target: String, rule: Rule },
}

/// What a [`Mapping`] is in contracts.
pub enum MappingView {
    Direct { source: Seq<char>, target: Seq<char>, rule: RuleView },
    Transformed { source: Seq<char>, target: Seq<char>, rule: RuleView },
    FanOut { sources: Seq<SourceView>, target: Seq<char>, rule: RuleView },
}

impl View for Mapping {
    type V = MappingView;

    open spec fn view(&self) -> MappingView {
        match *self {
            Mapping::Direct { source, target, rule } => MappingView::Direct {
                source: source@,
                target: target@,
                rule: rule@,
            },
            Mapping::Transformed { source, target, rule } => MappingView::Transformed {
                source: source@,
                target: target@,
                rule: rule@,
            },
            Mapping::FanOut { sources, target, rule } => MappingView::FanOut {
                sources: sources.deep_view(),
                target: target@,
                rule: rule@,
            },
        }
    }
}

impl DeepView for Mapping {
    type V = MappingView;

    open spec fn deep_view(&self) -> MappingView {
        self.view()
    }
}

/// A `(target, source)` pair in contracts.
pub type PairView = (Seq<char>, Seq<char>);

impl MappingView {
    /// The rule that the mapping comes from.
    pub open spec fn rule(self) -> RuleView {
        match self {
            MappingView::Direct { rule, .. } => rule,
            MappingView::Transformed { rule, .. } => rule,
            MappingView::FanOut { rule, .. } => rule,
        }
    }

    /// The `(target, source)` pairs of the mapping: one for a single file,
    /// one per matched file for a fan-out, each under the target directory.
    pub open spec fn pairs(self) -> Seq<PairView> {
        match self {
            MappingView::Direct { source, target, .. } => seq![(target, source)],
            MappingView::Transformed { source, target, .. } => seq![(target, source)],
            MappingView::FanOut { sources, target, .. } => sources.map_values(
                |s: SourceView| (joined(target, s.name), s.path),
            ),
        }
    }
}

/// The pairs of all the mappings, in the order of the mappings.
pub open spec fn flattened(mappings: Seq<MappingView>) -> Seq<PairView>
    decreases mappings.len(),
{
    if mappings.len() == 0 {
        Seq::empty()
    } else {
        flattened(mappings.drop_last()) + mappings.last().pairs()
    }
}

impl Mapping {
    /// The rule that the mapping comes from.
    pub fn rule(&self) -> (rule: &Rule)
        ensures
            rule@ == self@.rule(),
    {
        match self {
            Mapping::Direct { rule, .. } => rule,
            Mapping::Transformed { rule, .. } => rule,
            Mapping::FanOut { rule, .. } => rule,
        }
    }

    /// Adds the `(target, source)` pairs of the mapping to `out`.
    pub fn push_pairs(&self, out: &mut Vec<(String, String)>)
        ensures
            final(out).deep_view() == old(out).deep_view() + self@.pairs(),
    {
        match self {
            Mapping::Direct { source, target, .. } => {
                out.push((target.clone(), source.clone()));
                assert(out.deep_view() =~= old(out).deep_view() + self@.pairs());
            },
            Mapping::Transformed { source, target, .. } => {
                out.push((target.clone(), source.clone()));
                assert(out.deep_view() =~= old(out).deep_view() + self@.pairs());
            },
            Mapping::FanOut { sources, target, .. } => {
                let mut i: usize = 0;
                while i < sources.len()
                    invariant
                        i <= sources.len(),
                        self@ matches MappingView::FanOut { sources: s, target: t, .. }
                            && s == sources.deep_view() && t == target@,
                        out.deep_view() == old(out).deep_view() + self@.pairs().take(i as int),
                    decreases sources.len() - i,
                {
                    let member = &sources[i];
                    let placed = join(target.as_str(), member.name.as_str());
                    let ghost before = out.deep_view();
                    out.push((placed, member.path.clone()));
                    proof {
                        let pairs = self@.pairs();
                        assert(sources.deep_view()[i as int] == member@);
                        assert(pairs[i as int] == (placed@, member.path@));
                        assert(out.deep_view() =~= before.push(pairs[i as int]));
                        assert(pairs.take(i + 1) =~= pairs.take(i as int).push(pairs[i as int]));
                    }
                    i += 1;
                }
                assert(self@.pairs().take(i as int) =~= self@.pairs());
            },
        }
    }
}

/// An ordered sequence of mappings: the order is that in which the rules
/// were evaluated, and matters only to what is shown.
#[derive(Debug, PartialEq, Eq)]
pub struct Plan {
    pub mappings: Vec<Mapping>,
}

impl View for Plan {
    type V = Seq<MappingView>;

    open spec fn view(&self) -> Seq<MappingView> {
        self.mappings.deep_view()
    }
}

impl DeepView for Plan {
    type V = Seq<MappingView>;

    open spec fn deep_view(&self) -> Seq<MappingView> {
        self.view()
    }
}

impl Plan {
    /// A plan of the given mappings.
    pub fn new(mappings: Vec<Mapping>) -> (plan: Plan)
        ensures
            plan@ == mappings.deep_view(),
    {
        Plan { mappings }
    }

    /// The mappings of the plan.
    pub fn as_inner(&self) -> (mappings: &Vec<Mapping>)
        ensures
            mappings.deep_view() == self@,
    {
        &self.mappings
    }

    /// The `(target, source)` pairs of the plan, in the order of its mappings.
    pub fn flatten(&self) -> (pairs: Vec<(String, String)>)
        ensures
            pairs.deep_view() == flattened(self@),
    {
        let mut out: Vec<(String, String)> = Vec::new();
        let mut i: usize = 0;
        assert(self@.take(0) =~= Seq::empty());
        while i < self.mappings.len()
            invariant
                i <= self.mappings.len(),
                out.deep_view() == flattened(self@.take(i as int)),
            decreases self.mappings.len() - i,
        {
            self.mappings[i].push_pairs(&mut out);
            proof {
                let next = self@.take(i + 1);
                assert(next.drop_last() =~= self@.take(i as int));
                assert(next.last() == self.mappings[i as int]@);
            }
            i += 1;
        }
        assert(self@.take(i as int) =~= self@);
        out
    }
}

} // verus!
