//! A plan together with the state of its cache file.
//!
//! The cache file holds the canonical text of the plan that was last applied
//! without error. A cached plan is built from the fresh plan and from what
//! the cache file held; once the plan was applied, it says whether, and with
//! what, the file is to be overwritten. Reading and writing the file is left
//! to the caller.

use vstd::prelude::*;
use crate::canonical::canonical;
use crate::canonical::lemma_canonical_ignores_order;
use crate::difference::Difference;
use crate::encoding::encode;
use crate::encoding::json_text;
use crate::error::PlanError;
use crate::mapping::flattened;
use crate::mapping::MappingView;
use crate::mapping::Plan;
use crate::report::BuildReport;

verus! {

/// The text that stands for a plan in its cache file.
pub open spec fn canonical_text(plan: Seq<MappingView>) -> Seq<char> {
    json_text(canonical(plan))
}

/// The verdict on a cache file that holds `cached` (`None`: there is no
/// file), given the canonical text `fresh` of the plan at hand.
pub open spec fn verdict(cached: Option<Seq<char>>, fresh: Seq<char>) -> Difference {
    match cached {
        None => Difference::Missing,
        Some(text) => if text == fresh {
            Difference::Same
        } else {
            Difference::Different
        },
    }
}

/// The text kept for a later write: the fresh text, unless the cache file
/// holds it already.
pub open spec fn pending_for(cached: Option<Seq<char>>, fresh: Seq<char>) -> Option<Seq<char>> {
    if verdict(cached, fresh) == Difference::Same {
        None
    } else {
        Some(fresh)
    }
}

/// The text to write after the plan was applied: the pending text, and only
/// if nothing failed.
pub open spec fn committed(pending: Option<Seq<char>>, failed: bool) -> Option<Seq<char>> {
    if failed {
        None
    } else {
        pending
    }
}

/// What a cache file holds after a write was carried out, or after none was
/// asked for.
pub open spec fn file_after(file: Option<Seq<char>>, write: Option<Seq<char>>) -> Option<
    Seq<char>,
> {
    match write {
        Some(text) => Some(text),
        None => file,
    }
}

/// A write of the whole cache file, for the caller to carry out.
#[derive(Debug, PartialEq, Eq)]
pub struct CacheWrite {
    /// The path of the cache file.
    pub path: String,
    /// The text that the file is to hold.
    pub data: String,
}

/// What a [`CacheWrite`] is in contracts.
pub struct CacheWriteView {
    pub path: Seq<char>,
    pub data: Seq<char>,
}

impl View for CacheWrite {
    type V = CacheWriteView;

    open spec fn view(&self) -> CacheWriteView {
        CacheWriteView { path: self.path@, data: self.data@ }
    }
}

impl DeepView for CacheWrite {
    type V = CacheWriteView;

    open spec fn deep_view(&self) -> CacheWriteView {
        self.view()
    }
}

/// A plan, the path of its cache file, the verdict on that file, and the
/// text that is waiting to be written to it.
#[derive(Debug, PartialEq, Eq)]
pub struct CachedPlan {
    plan: Plan,
    path: String,
    difference: Difference,
    serialized: Option<String>,
}

/// What a [`CachedPlan`] is in contracts.
pub struct CachedPlanView {
    pub plan: Seq<MappingView>,
    pub path: Seq<char>,
    pub difference: Difference,
    pub pending: Option<Seq<char>>,
}

impl CachedPlanView {
    /// The write that follows an application of the plan: the pending text
    /// to the path of the cache file, and none if something failed or nothing
    /// is pending.
    pub open spec fn write_after(self, failed: bool) -> Option<CacheWriteView> {
        match committed(self.pending, failed) {
            Some(text) => Some(CacheWriteView { path: self.path, data: text }),
            None => None,
        }
    }

    /// The same cached plan, with the verdict replaced by `Missing` where a
    /// rebuild is forced.
    pub open spec fn forced(self, force_rebuild: bool) -> CachedPlanView {
        if force_rebuild {
            CachedPlanView { difference: Difference::Missing, ..self }
        } else {
            self
        }
    }
}

/// The cached plan that is built for `plan`, whose canonical text is
/// `fresh`, beside a cache file at `path` that holds `cached`.
pub open spec fn compared(
    path: Seq<char>,
    plan: Seq<MappingView>,
    fresh: Seq<char>,
    cached: Option<Seq<char>>,
) -> CachedPlanView {
    CachedPlanView {
        plan,
        path,
        difference: verdict(cached, fresh),
        pending: pending_for(cached, fresh),
    }
}

impl View for CachedPlan {
    type V = CachedPlanView;

    closed spec fn view(&self) -> CachedPlanView {
        CachedPlanView {
            plan: self.plan@,
            path: self.path@,
            difference: self.difference,
            pending: self.serialized.deep_view(),
        }
    }
}

impl CachedPlan {
    /// Builds the cached plan for `plan` from its canonical text `fresh` and
    /// from what the cache file at `path` holds: `None` where there is no
    /// such file. The fresh text is kept for a later write unless the file
    /// holds it already.
    pub fn compare(path: String, plan: Plan, fresh: String, cached: Option<String>) -> (made:
        CachedPlan)
        ensures
            made@ == compared(path@, plan@, fresh@, cached.deep_view()),
    {
        let difference = match &cached {
            None => Difference::Missing,
            Some(text) => if *text == fresh {
                Difference::Same
            } else {
                Difference::Different
            },
        };
        let serialized = if difference.is_same() {
            None
        } else {
            Some(fresh)
        };
        CachedPlan { plan, path, difference, serialized }
    }

    /// Builds the cached plan for `plan` beside a cache file at `path` that
    /// holds `cached`, `None` where there is no such file: encodes the
    /// canonical pairs of the plan and compares the text with the file's.
    /// Every plan has its cached plan.
    pub fn new(path: String, plan: Plan, cached: Option<String>) -> (r: Result<
        CachedPlan,
        PlanError,
    >)
        ensures
            r is Ok,
            r matches Ok(made) ==> made@ == compared(
                path@,
                plan@,
                canonical_text(plan@),
                cached.deep_view(),
            ),
    {
        let pairs = plan.canonical_pairs();
        match encode(&pairs) {
            Ok(fresh) => Ok(CachedPlan::compare(path, plan, fresh, cached)),
            Err(e) => Err(e),
        }
    }

    /// Replaces the verdict by `Missing` where a rebuild is forced. What is
    /// pending stays as it is.
    pub fn force(self, force_rebuild: bool) -> (made: CachedPlan)
        ensures
            made@ == self@.forced(force_rebuild),
    {
        if force_rebuild {
            CachedPlan { difference: Difference::Missing, ..self }
        } else {
            self
        }
    }

    /// The verdict on the cache file.
    pub fn difference(&self) -> (difference: Difference)
        ensures
            difference == self@.difference,
    {
        self.difference
    }

    /// The path of the cache file.
    pub fn path(&self) -> (path: &String)
        ensures
            path@ == self@.path,
    {
        &self.path
    }

    /// The plan.
    pub fn as_inner(&self) -> (plan: &Plan)
        ensures
            plan@ == self@.plan,
    {
        &self.plan
    }

    /// The write that commits the cache after the plan was applied with the
    /// outcomes in `report`: none if a mapping failed or nothing is pending,
    /// else the pending text to the path of the cache file.
    pub fn save(&self, report: &BuildReport) -> (write: Option<CacheWrite>)
        ensures
            write.deep_view() == self@.write_after(report.failed()),
    {
        if report.has_errors() {
            None
        } else {
            match &self.serialized {
                Some(data) => Some(CacheWrite { path: self.path.clone(), data: data.clone() }),
                None => None,
            }
        }
    }

    /// Closes the application of the plan: hands back the report, and with it
    /// the write that commits the cache, as [`CachedPlan::save`] decides it.
    pub fn apply(self, report: BuildReport) -> (done: (BuildReport, Option<CacheWrite>))
        ensures
            done.0 == report,
            done.1.deep_view() == self@.write_after(report.failed()),
    {
        let write = self.save(&report);
        (report, write)
    }
}

/// What is told of a cached plan to whoever asks for it in a structured
/// form: the package, the plan, the verdict and the path of the cache file.
#[derive(Debug, PartialEq, Eq)]
pub struct SerializablePlan<'p> {
    /// The package that the plan belongs to.
    pub package: String,
    /// The plan.
    pub plan: &'p Plan,
    /// The verdict on the cache file.
    pub difference: Difference,
    /// The path of the cache file.
    pub path: &'p String,
}

impl CachedPlan {
    /// The cached plan of the package named `package`, to be told in a
    /// structured form.
    pub fn printable_serializable<'p>(&'p self, package: String) -> (told: SerializablePlan<'p>)
        ensures
            told.package == package,
            told.plan@ == self@.plan,
            told.difference == self@.difference,
            told.path@ == self@.path,
    {
        SerializablePlan {
            package,
            plan: &self.plan,
            difference: self.difference,
            path: &self.path,
        }
    }
}

/// Two plans that stand for the same pairs have the same canonical text, in
/// whatever order the pairs were found, and so the same verdict beside any
/// cache file.
pub proof fn lemma_text_ignores_order(
    p: Seq<MappingView>,
    q: Seq<MappingView>,
    cached: Option<Seq<char>>,
)
    requires
        flattened(p).to_multiset() == flattened(q).to_multiset(),
    ensures
        canonical_text(p) == canonical_text(q),
        verdict(cached, canonical_text(p)) == verdict(cached, canonical_text(q)),
{
    lemma_canonical_ignores_order(p, q);
}

/// A cache file is only ever overwritten after an application without
/// failure, and then with the canonical text of the plan that was applied.
pub proof fn lemma_written_text_is_canonical(
    path: Seq<char>,
    plan: Seq<MappingView>,
    cached: Option<Seq<char>>,
    force_rebuild: bool,
    failed: bool,
)
    ensures
        compared(path, plan, canonical_text(plan), cached).forced(force_rebuild).write_after(
            failed,
        ) matches Some(write) ==> !failed && write.path == path && write.data == canonical_text(
            plan,
        ),
{
}

/// After a plan was applied without failure and the cache was saved, building
/// the cached plan for the same plan again finds the cache `Same`, whatever
/// the file held before.
pub proof fn lemma_second_build_is_same(
    path: Seq<char>,
    plan: Seq<MappingView>,
    cached: Option<Seq<char>>,
    force_rebuild: bool,
)
    ensures
        ({
            let fresh = canonical_text(plan);
            let first = compared(path, plan, fresh, cached).forced(force_rebuild);
            let file = file_after(cached, committed(first.pending, false));
            compared(path, plan, fresh, file).difference == Difference::Same
        }),
{
}

/// Where a mapping failed, saving leaves the cache file as it was: no write
/// is asked for, and no file comes to be where none was.
pub proof fn lemma_failure_leaves_cache(made: CachedPlanView, file: Option<Seq<char>>)
    ensures
        made.write_after(true) is None,
        file_after(file, committed(made.pending, true)) == file,
{
}

/// After a failed application the next build on unchanged rules does not find
/// the cache `Same`, unless it was `Same` before.
pub proof fn lemma_failure_is_retried(
    path: Seq<char>,
    plan: Seq<MappingView>,
    cached: Option<Seq<char>>,
)
    ensures
        ({
            let fresh = canonical_text(plan);
            let first = compared(path, plan, fresh, cached);
            let file = file_after(cached, committed(first.pending, true));
            compared(path, plan, fresh, file).difference == first.difference
        }),
{
}

/// A forced rebuild makes the verdict `Missing`, also where the cache file
/// holds the fresh text.
pub proof fn lemma_force_overrides(made: CachedPlanView)
    ensures
        made.forced(true).difference == Difference::Missing,
        made.forced(true).pending == made.pending,
        made.forced(false) == made,
{
}

/// A verdict of `Same` leaves nothing pending: saving is then a no-op.
pub proof fn lemma_same_has_nothing_pending(
    path: Seq<char>,
    plan: Seq<MappingView>,
    fresh: Seq<char>,
    cached: Option<Seq<char>>,
    failed: bool,
)
    requires
        verdict(cached, fresh) == Difference::Same,
    ensures
        cached == Some(fresh),
        compared(path, plan, fresh, cached).write_after(failed) is None,
{
}

} // verus!
