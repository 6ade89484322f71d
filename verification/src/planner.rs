//! Deriving the cached plan of a project, one step at a time.
//!
//! What has to be done outside (resolving the environment, evaluating the
//! rules, reading the cache file) is asked for as an [`Action`]; its outcome
//! comes back as an [`Event`]. Which action follows which event is decided
//! here. A project without rules is done at once, and nothing is asked for.

use vstd::prelude::*;
use crate::cache::canonical_text;
use crate::cache::compared;
use crate::cache::CachedPlan;
use crate::cache::CachedPlanView;
use crate::difference::Difference;
use crate::env::EnvError;
use crate::env::EnvErrorView;
use crate::error::PlanError;
use crate::error::PlanErrorView;
use crate::mapping::MappingView;
use crate::mapping::Plan;

verus! {

/// What is known of a project before any work is done.
#[derive(Debug, PartialEq, Eq)]
pub struct PlanRequest {
    /// The number of asset rules that the project declares.
    pub rule_count: usize,
    /// The directory of the manifest, if the manifest path has a parent.
    pub manifest_root: Option<String>,
    /// The path of the cache file of the project.
    pub cache_path: String,
    /// Whether the caller forces a rebuild.
    pub force_rebuild: bool,
}

/// What a [`PlanRequest`] is in contracts.
pub struct PlanRequestView {
    pub rule_count: nat,
    pub manifest_root: Option<Seq<char>>,
    pub cache_path: Seq<char>,
    pub force_rebuild: bool,
}

impl View for PlanRequest {
    type V = PlanRequestView;

    open spec fn view(&self) -> PlanRequestView {
        PlanRequestView {
            rule_count: self.rule_count as nat,
            manifest_root: self.manifest_root.deep_view(),
            cache_path: self.cache_path@,
            force_rebuild: self.force_rebuild,
        }
    }
}

/// How far the derivation has come.
#[derive(Debug, PartialEq, Eq)]
pub enum Stage {
    /// Nothing was asked for yet.
    Start,
    /// The environment was asked for.
    Environment,
    /// The plan was asked for.
    Build,
    /// The content of the cache file was asked for; the plan is at hand.
    Cache(Plan),
    /// The derivation has ended.
    Finished,
}

/// What a [`Stage`] is in contracts.
pub enum StageView {
    Start,
    Environment,
    Build,
    Cache(Seq<MappingView>),
    Finished,
}

impl View for Stage {
    type V = StageView;

    open spec fn view(&self) -> StageView {
        match *self {
            Stage::Start => StageView::Start,
            Stage::Environment => StageView::Environment,
            Stage::Build => StageView::Build,
            Stage::Cache(plan) => StageView::Cache(plan@),
            Stage::Finished => StageView::Finished,
        }
    }
}

impl StageView {
    /// The number of events that the stage can still take before the
    /// derivation has ended.
    pub open spec fn steps_left(self) -> nat {
        match self {
            StageView::Start => 4,
            StageView::Environment => 3,
            StageView::Build => 2,
            StageView::Cache(_) => 1,
            StageView::Finished => 0,
        }
    }
}

/// The outcome of work done outside.
#[derive(Debug, PartialEq, Eq)]
pub enum Event {
    /// The derivation is to begin.
    Begin,
    /// The environment is resolved.
    EnvironmentReady,
    /// The environment could not be resolved.
    EnvironmentFailed(EnvError),
    /// The rules were evaluated to this plan.
    PlanBuilt(Plan),
    /// The rules could not be evaluated; the text says why.
    PlanFailed(String),
    /// The cache file holds this text; `None`: there is no cache file.
    CacheRead(Option<String>),
    /// There is a cache file, and it could not be read.
    CacheUnreadable,
}

/// What an [`Event`] is in contracts.
pub enum EventView {
    Begin,
    EnvironmentReady,
    EnvironmentFailed(EnvErrorView),
    PlanBuilt(Seq<MappingView>),
    PlanFailed(Seq<char>),
    CacheRead(Option<Seq<char>>),
    CacheUnreadable,
}

impl View for Event {
    type V = EventView;

    open spec fn view(&self) -> EventView {
        match *self {
            Event::Begin => EventView::Begin,
            Event::EnvironmentReady => EventView::EnvironmentReady,
            Event::EnvironmentFailed(e) => EventView::EnvironmentFailed(e@),
            Event::PlanBuilt(plan) => EventView::PlanBuilt(plan@),
            Event::PlanFailed(text) => EventView::PlanFailed(text@),
            Event::CacheRead(text) => EventView::CacheRead(text.deep_view()),
            Event::CacheUnreadable => EventView::CacheUnreadable,
        }
    }
}

/// What is to be done next.
#[derive(Debug, PartialEq, Eq)]
pub enum Action {
    /// Resolve the environment of the project.
    ResolveEnvironment,
    /// Evaluate the rules of the project against the directory `root`.
    BuildPlan { root: String },
    /// Read the cache file at `path`.
    ReadCache { path: String },
    /// The derivation has ended: with a cached plan, or with none for a
    /// project without rules.
    Done(Option<CachedPlan>),
    /// The derivation has failed.
    Fail(PlanError),
}

/// What an [`Action`] is in contracts.
pub enum ActionView {
    ResolveEnvironment,
    BuildPlan { root: Seq<char> },
    ReadCache { path: Seq<char> },
    Done(Option<CachedPlanView>),
    Fail(PlanErrorView),
}

impl View for Action {
    type V = ActionView;

    open spec fn view(&self) -> ActionView {
        match *self {
            Action::ResolveEnvironment => ActionView::ResolveEnvironment,
            Action::BuildPlan { root } => ActionView::BuildPlan { root: root@ },
            Action::ReadCache { path } => ActionView::ReadCache { path: path@ },
            Action::Done(made) => ActionView::Done(
                match made {
                    Some(cached) => Some(cached@),
                    None => None,
                },
            ),
            Action::Fail(e) => ActionView::Fail(e@),
        }
    }
}

impl ActionView {
    /// Whether the action touches the cache file.
    pub open spec fn touches_cache(self) -> bool {
        self is ReadCache
    }

    /// Whether the action ends the derivation.
    pub open spec fn is_final(self) -> bool {
        self is Done || self is Fail
    }
}

/// The cached plan that ends a derivation for `request`: built from `plan`
/// and from what the cache file holds, with the verdict `Missing` where a
/// rebuild is forced.
pub open spec fn derived(
    request: PlanRequestView,
    plan: Seq<MappingView>,
    cached: Option<Seq<char>>,
) -> CachedPlanView {
    compared(request.cache_path, plan, canonical_text(plan), cached).forced(
        request.force_rebuild,
    )
}

/// Whether `action` and the stage `after` are what follows `event` at the
/// stage `before`.
///
/// A project without rules is done at the first step. Else the environment
/// is resolved, then the rules are evaluated against the directory of the
/// manifest, then the cache file is read and compared. A cache file that
/// cannot be read counts as missing. An event out of turn ends the
/// derivation with a failure.
pub open spec fn follows(
    request: PlanRequestView,
    before: StageView,
    event: EventView,
    after: StageView,
    action: ActionView,
) -> bool {
    match (before, event) {
        (StageView::Start, EventView::Begin) => if request.rule_count == 0 {
            after == StageView::Finished && action == ActionView::Done(None)
        } else {
            after == StageView::Environment && action == ActionView::ResolveEnvironment
        },
        (StageView::Environment, EventView::EnvironmentReady) => match request.manifest_root {
            Some(root) => after == StageView::Build && action == (ActionView::BuildPlan { root }),
            None => after == StageView::Finished && action == ActionView::Fail(
                PlanErrorView::NoManifestParent,
            ),
        },
        (StageView::Environment, EventView::EnvironmentFailed(e)) => after == StageView::Finished
            && action == ActionView::Fail(PlanErrorView::Environment(e)),
        (StageView::Build, EventView::PlanBuilt(plan)) => after == StageView::Cache(plan)
            && action == (ActionView::ReadCache { path: request.cache_path }),
        (StageView::Build, EventView::PlanFailed(text)) => after == StageView::Finished && action
            == ActionView::Fail(PlanErrorView::Rules(text)),
        (StageView::Cache(plan), EventView::CacheRead(cached)) => after == StageView::Finished
            && action == ActionView::Done(Some(derived(request, plan, cached))),
        (StageView::Cache(plan), EventView::CacheUnreadable) => after == StageView::Finished
            && action == ActionView::Done(Some(derived(request, plan, None))),
        _ => after == StageView::Finished && action == ActionView::Fail(PlanErrorView::OutOfTurn),
    }
}

/// A derivation under way: the request, and how far it has come.
#[derive(Debug, PartialEq, Eq)]
pub struct Planner {
    pub request: PlanRequest,
    pub stage: Stage,
}

impl Planner {
    /// A derivation for `request` that has not begun.
    pub fn new(request: PlanRequest) -> (planner: Planner)
        ensures
            planner.request == request,
            planner.stage == Stage::Start,
    {
        Planner { request, stage: Stage::Start }
    }
}

/// Takes the derivation one step further: given the outcome `event` of what
/// was asked for last, says what is to be done next.
pub fn plan_for(planner: Planner, event: Event) -> (next: (Planner, Action))
    ensures
        next.0.request == planner.request,
        follows(planner.request@, planner.stage@, event@, next.0.stage@, next.1@),
{
    let Planner { request, stage } = planner;
    match (stage, event) {
        (Stage::Start, Event::Begin) => {
            if request.rule_count == 0 {
                (Planner { request, stage: Stage::Finished }, Action::Done(None))
            } else {
                (Planner { request, stage: Stage::Environment }, Action::ResolveEnvironment)
            }
        },
        (Stage::Environment, Event::EnvironmentReady) => {
            match &request.manifest_root {
                Some(root) => {
                    let root = root.clone();
                    (Planner { request, stage: Stage::Build }, Action::BuildPlan { root })
                },
                None => (
                    Planner { request, stage: Stage::Finished },
                    Action::Fail(PlanError::NoManifestParent),
                ),
            }
        },
        (Stage::Environment, Event::EnvironmentFailed(e)) => (
            Planner { request, stage: Stage::Finished },
            Action::Fail(PlanError::Environment(e)),
        ),
        (Stage::Build, Event::PlanBuilt(plan)) => {
            let path = request.cache_path.clone();
            (Planner { request, stage: Stage::Cache(plan) }, Action::ReadCache { path })
        },
        (Stage::Build, Event::PlanFailed(text)) => (
            Planner { request, stage: Stage::Finished },
            Action::Fail(PlanError::Rules(text)),
        ),
        (Stage::Cache(plan), Event::CacheRead(cached)) => {
            let action = finish(&request, plan, cached);
            (Planner { request, stage: Stage::Finished }, action)
        },
        (Stage::Cache(plan), Event::CacheUnreadable) => {
            let action = finish(&request, plan, None);
            (Planner { request, stage: Stage::Finished }, action)
        },
        _ => (Planner { request, stage: Stage::Finished }, Action::Fail(PlanError::OutOfTurn)),
    }
}

/// Ends a derivation: builds the cached plan from `plan` and from what the
/// cache file holds, and forces the verdict where the request says so.
fn finish(request: &PlanRequest, plan: Plan, cached: Option<String>) -> (action: Action)
    ensures
        action@ == ActionView::Done(Some(derived(request@, plan@, cached.deep_view()))),
{
    match CachedPlan::new(request.cache_path.clone(), plan, cached) {
        Ok(made) => Action::Done(Some(made.force(request.force_rebuild))),
        Err(e) => Action::Fail(e),
    }
}

/// A project without rules is done at the first step, with no plan: neither
/// the environment nor the cache file is asked for.
pub proof fn lemma_no_rules_no_work(request: PlanRequestView, after: StageView, action: ActionView)
    requires
        request.rule_count == 0,
        follows(request, StageView::Start, EventView::Begin, after, action),
    ensures
        action == ActionView::Done(None),
        after == StageView::Finished,
        !action.touches_cache(),
{
}

/// Where a rebuild is forced, the derivation ends with the verdict `Missing`,
/// whatever the cache file holds.
pub proof fn lemma_forced_is_missing(
    request: PlanRequestView,
    plan: Seq<MappingView>,
    cached: Option<Seq<char>>,
    after: StageView,
    action: ActionView,
)
    requires
        request.force_rebuild,
        follows(request, StageView::Cache(plan), EventView::CacheRead(cached), after, action),
    ensures
        action matches ActionView::Done(Some(made)) && made.difference == Difference::Missing,
{
}

/// Every step brings the end nearer, and an action that ends the derivation
/// leaves it finished: no derivation takes more than four steps.
pub proof fn lemma_steps_run_out(
    request: PlanRequestView,
    before: StageView,
    event: EventView,
    after: StageView,
    action: ActionView,
)
    requires
        follows(request, before, event, after, action),
    ensures
        before != StageView::Finished ==> after.steps_left() < before.steps_left(),
        action.is_final() <==> after == StageView::Finished,
        action.touches_cache() ==> before == StageView::Build,
{
}

} // verus!
