use plan_cache::cache::CachedPlan;
use plan_cache::difference::Difference;
use plan_cache::error::PlanError;
use plan_cache::mapping::{Mapping, Plan, Rule, Source};
use plan_cache::planner::{plan_for, Action, Event, PlanRequest, Planner, Stage};
use plan_cache::report::{BuildReport, Outcome};

fn rule(left: &str, right: &str) -> Rule {
    Rule { left: left.to_string(), right: right.to_string() }
}

fn direct(source: &str, target: &str) -> Mapping {
    Mapping::Direct { source: source.to_string(), target: target.to_string(), rule: rule(target, source) }
}

fn fonts(names: &[&str]) -> Mapping {
    Mapping::FanOut {
        sources: names
            .iter()
            .map(|n| Source { path: format!("/src/fonts/{n}"), name: n.to_string() })
            .collect(),
        target: "fonts".to_string(),
        rule: rule("fonts/", "fonts/*.png"),
    }
}

fn clean(mappings: usize) -> BuildReport {
    BuildReport { results: (0..mappings).map(|_| vec![Outcome::Written(1)]).collect() }
}

fn text_of(plan: Plan) -> String {
    let made = CachedPlan::new("cache.json".to_string(), plan, None).unwrap();
    made.save(&clean(1)).unwrap().data
}

#[test]
fn missing_cache_is_created_with_the_canonical_pair() {
    let plan = Plan::new(vec![direct("sprite.png", "sprite.png")]);
    let made = CachedPlan::new("out/plan.json".to_string(), plan, None).unwrap();
    assert_eq!(made.difference(), Difference::Missing);
    assert!(!made.difference().is_same());
    let write = made.save(&clean(1)).unwrap();
    assert_eq!(write.path, "out/plan.json");
    assert_eq!(write.data, "[[\"sprite.png\",\"sprite.png\"]]");
}

#[test]
fn same_pairs_in_another_order_are_same() {
    let cached = text_of(Plan::new(vec![fonts(&["a.png", "b.png"])]));
    assert_eq!(
        cached,
        "[[\"fonts/a.png\",\"/src/fonts/a.png\"],[\"fonts/b.png\",\"/src/fonts/b.png\"]]"
    );
    let fresh = Plan::new(vec![fonts(&["b.png", "a.png"])]);
    let made = CachedPlan::new("cache.json".to_string(), fresh, Some(cached)).unwrap();
    assert_eq!(made.difference(), Difference::Same);
    assert!(made.difference().is_same());
    assert_eq!(made.save(&clean(1)), None);
}

#[test]
fn canonical_text_ignores_the_order_of_mappings() {
    let one = Plan::new(vec![direct("b", "b"), fonts(&["a.png"]), direct("a", "a")]);
    let two = Plan::new(vec![direct("a", "a"), direct("b", "b"), fonts(&["a.png"])]);
    assert_eq!(text_of(one), text_of(two));
}

#[test]
fn equal_targets_are_ordered_by_source() {
    let one = Plan::new(vec![direct("z", "t"), direct("a", "t")]);
    assert_eq!(one.canonical_pairs(), vec![
        ("t".to_string(), "a".to_string()),
        ("t".to_string(), "z".to_string()),
    ]);
}

#[test]
fn targets_are_ordered_by_their_bytes() {
    let plan = Plan::new(vec![direct("1", "b"), direct("2", "B"), direct("3", "ab"), direct("4", "a")]);
    let targets: Vec<String> = plan.canonical_pairs().into_iter().map(|p| p.0).collect();
    assert_eq!(targets, vec!["B", "a", "ab", "b"]);
}

#[test]
fn stale_cache_is_different_and_overwritten() {
    let stale = text_of(Plan::new(vec![direct("sprite.png", "sprite.png"), direct("old.png", "old.png")]));
    let fresh = Plan::new(vec![direct("sprite.png", "sprite.png")]);
    let made = CachedPlan::new("cache.json".to_string(), fresh, Some(stale)).unwrap();
    assert_eq!(made.difference(), Difference::Different);
    let (report, write) = made.apply(clean(1));
    assert!(!report.has_errors());
    assert_eq!(write.unwrap().data, "[[\"sprite.png\",\"sprite.png\"]]");
}

#[test]
fn failed_mapping_keeps_the_cache_as_it_was() {
    let plan = || Plan::new(vec![direct("a", "a"), direct("b", "b"), direct("c", "c")]);
    let report = BuildReport {
        results: vec![
            vec![Outcome::Written(3)],
            vec![Outcome::Failed("no such file".to_string())],
            vec![Outcome::Skipped],
        ],
    };
    assert!(report.has_errors());
    assert_eq!(report.failed_mappings(), vec![1]);
    let made = CachedPlan::new("cache.json".to_string(), plan(), Some("[]".to_string())).unwrap();
    assert_eq!(made.difference(), Difference::Different);
    assert_eq!(made.save(&report), None);
    // the file still holds "[]": the next build finds it different again
    let again = CachedPlan::new("cache.json".to_string(), plan(), Some("[]".to_string())).unwrap();
    assert_eq!(again.difference(), Difference::Different);
    let none = CachedPlan::new("cache.json".to_string(), plan(), None).unwrap();
    assert_eq!(none.save(&report), None);
}

#[test]
fn second_build_after_save_is_same() {
    let plan = || Plan::new(vec![fonts(&["b.png", "a.png"]), direct("s", "s")]);
    let first = CachedPlan::new("cache.json".to_string(), plan(), Some("stale".to_string())).unwrap();
    let write = first.save(&clean(2)).unwrap();
    let second = CachedPlan::new("cache.json".to_string(), plan(), Some(write.data)).unwrap();
    assert_eq!(second.difference(), Difference::Same);
}

#[test]
fn forced_rebuild_is_missing() {
    let cached = text_of(Plan::new(vec![direct("s", "s")]));
    let made = CachedPlan::new("cache.json".to_string(), Plan::new(vec![direct("s", "s")]), Some(cached))
        .unwrap();
    assert_eq!(made.difference(), Difference::Same);
    let forced = made.force(true);
    assert_eq!(forced.difference(), Difference::Missing);
    assert_eq!(forced.save(&clean(1)), None);
}

#[test]
fn compare_takes_the_text_as_it_is() {
    let made = CachedPlan::compare(
        "p".to_string(),
        Plan::new(vec![]),
        "fresh".to_string(),
        Some("fresh".to_string()),
    );
    assert_eq!(made.difference(), Difference::Same);
    let made = CachedPlan::compare(
        "p".to_string(),
        Plan::new(vec![]),
        "fresh".to_string(),
        Some("other".to_string()),
    );
    assert_eq!(made.difference(), Difference::Different);
    assert_eq!(made.path(), "p");
    assert_eq!(made.as_inner().as_inner().len(), 0);
    assert_eq!(made.save(&clean(0)).unwrap().data, "fresh");
}

#[test]
fn printable_serializable_tells_what_there_is() {
    let made = CachedPlan::new("p.json".to_string(), Plan::new(vec![direct("s", "t")]), None).unwrap();
    let told = made.printable_serializable("game 0.1.0".to_string());
    assert_eq!(told.package, "game 0.1.0");
    assert_eq!(told.difference, Difference::Missing);
    assert_eq!(told.path, "p.json");
    assert_eq!(told.plan.as_inner().len(), 1);
}

fn request(rule_count: usize, force_rebuild: bool) -> PlanRequest {
    PlanRequest {
        rule_count,
        manifest_root: Some("/game".to_string()),
        cache_path: "/out/game.json".to_string(),
        force_rebuild,
    }
}

#[test]
fn project_without_rules_is_done_at_once() {
    let (planner, action) = plan_for(Planner::new(request(0, false)), Event::Begin);
    assert_eq!(action, Action::Done(None));
    assert_eq!(planner.stage, Stage::Finished);
}

#[test]
fn derivation_asks_for_each_step_in_turn() {
    let (planner, action) = plan_for(Planner::new(request(2, false)), Event::Begin);
    assert_eq!(action, Action::ResolveEnvironment);
    let (planner, action) = plan_for(planner, Event::EnvironmentReady);
    assert_eq!(action, Action::BuildPlan { root: "/game".to_string() });
    let (planner, action) = plan_for(planner, Event::PlanBuilt(Plan::new(vec![direct("s", "s")])));
    assert_eq!(action, Action::ReadCache { path: "/out/game.json".to_string() });
    let (planner, action) = plan_for(planner, Event::CacheRead(None));
    assert_eq!(planner.stage, Stage::Finished);
    match action {
        Action::Done(Some(made)) => {
            assert_eq!(made.difference(), Difference::Missing);
            assert_eq!(made.path(), "/out/game.json");
        },
        other => panic!("unexpected {other:?}"),
    }
}

#[test]
fn forced_derivation_ends_missing_beside_an_equal_cache() {
    let cached = text_of(Plan::new(vec![direct("s", "s")]));
    let planner = Planner { request: request(1, true), stage: Stage::Cache(Plan::new(vec![direct("s", "s")])) };
    let (_, action) = plan_for(planner, Event::CacheRead(Some(cached.clone())));
    match action {
        Action::Done(Some(made)) => assert_eq!(made.difference(), Difference::Missing),
        other => panic!("unexpected {other:?}"),
    }
    let planner = Planner { request: request(1, false), stage: Stage::Cache(Plan::new(vec![direct("s", "s")])) };
    let (_, action) = plan_for(planner, Event::CacheRead(Some(cached)));
    match action {
        Action::Done(Some(made)) => assert_eq!(made.difference(), Difference::Same),
        other => panic!("unexpected {other:?}"),
    }
}

#[test]
fn unreadable_cache_counts_as_missing() {
    let planner = Planner { request: request(1, false), stage: Stage::Cache(Plan::new(vec![direct("s", "s")])) };
    let (_, action) = plan_for(planner, Event::CacheUnreadable);
    match action {
        Action::Done(Some(made)) => assert_eq!(made.difference(), Difference::Missing),
        other => panic!("unexpected {other:?}"),
    }
}

#[test]
fn derivation_fails_as_its_steps_fail() {
    let mut req = request(1, false);
    req.manifest_root = None;
    let planner = Planner { request: req, stage: Stage::Environment };
    let (_, action) = plan_for(planner, Event::EnvironmentReady);
    assert_eq!(action, Action::Fail(PlanError::NoManifestParent));

    let planner = Planner { request: request(1, false), stage: Stage::Build };
    let (planner, action) = plan_for(planner, Event::PlanFailed("bad rule".to_string()));
    assert_eq!(action, Action::Fail(PlanError::Rules("bad rule".to_string())));
    assert_eq!(planner.stage, Stage::Finished);

    let (_, action) = plan_for(planner, Event::Begin);
    assert_eq!(action, Action::Fail(PlanError::OutOfTurn));
}
