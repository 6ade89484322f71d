use plan_cache::env::{Env, EnvError};
use plan_cache::lazy::LazyEnvBuilder;
use plan_cache::error::PlanError;
use plan_cache::planner::{plan_for, Action, Event, PlanRequest, Planner, Stage};

fn pairs(items: &[(&str, &str)]) -> Vec<(String, String)> {
    items.iter().map(|(k, v)| (k.to_string(), v.to_string())).collect()
}

#[test]
fn project_variables_win_over_those_of_the_process() {
    let mut builder = LazyEnvBuilder::new("game".to_string(), "/game".to_string(), Some("/sdk".to_string()));
    assert!(builder.peek().is_none());
    let process = pairs(&[("HOME", "/home/me"), ("CARGO_PKG_NAME", "other"), ("HOME", "/second")]);
    let env = builder.get(&process).unwrap();
    assert_eq!(env.get("CARGO_PKG_NAME").unwrap(), "game");
    assert_eq!(env.get("CARGO_MANIFEST_DIR").unwrap(), "/game");
    assert_eq!(env.get("PLAYDATE_SDK_PATH").unwrap(), "/sdk");
    assert_eq!(env.get("HOME").unwrap(), "/home/me");
    assert!(env.get("PATH").is_none());
    assert_eq!(env.vars().len(), 4);
}

#[test]
fn missing_sdk_path_is_left_out() {
    let mut builder = LazyEnvBuilder::new("game".to_string(), "/game".to_string(), None);
    let env = builder.get(&pairs(&[])).unwrap();
    assert!(!env.contains_key("PLAYDATE_SDK_PATH"));
    assert!(env.contains_key("CARGO_PKG_NAME"));
}

#[test]
fn environment_is_built_once() {
    let mut builder = LazyEnvBuilder::new("game".to_string(), "/game".to_string(), None);
    builder.get(&pairs(&[("A", "1")])).unwrap();
    let env = builder.get(&pairs(&[("A", "2"), ("B", "3"), ("=bad", "x")])).unwrap();
    assert_eq!(env.get("A").unwrap(), "1");
    assert!(env.get("B").is_none());
    assert!(builder.peek().is_some());
}

#[test]
fn every_name_of_the_process_is_taken() {
    let mut builder = LazyEnvBuilder::new("game".to_string(), "/game".to_string(), None);
    let env = builder.get(&pairs(&[("A", "1"), ("=C:", "C:\\game"), ("", "y"), ("B=C", "x")])).unwrap();
    assert_eq!(env.get("A").unwrap(), "1");
    assert_eq!(env.get("=C:").unwrap(), "C:\\game");
    assert_eq!(env.get("").unwrap(), "y");
    assert_eq!(env.get("B=C").unwrap(), "x");
    assert_eq!(env.vars().len(), 6);
}

#[test]
fn assembling_needs_name_and_manifest_directory() {
    assert_eq!(
        Env::try_from_iter(pairs(&[("CARGO_MANIFEST_DIR", "/game")])),
        Err(EnvError::Missing("CARGO_PKG_NAME".to_string()))
    );
    assert_eq!(
        Env::try_from_iter(pairs(&[("CARGO_PKG_NAME", "game")])),
        Err(EnvError::Missing("CARGO_MANIFEST_DIR".to_string()))
    );
    assert_eq!(
        Env::try_from_iter(pairs(&[("", "x")])),
        Err(EnvError::Missing("CARGO_PKG_NAME".to_string()))
    );
    let odd = Env::try_from_iter(pairs(&[("CARGO_PKG_NAME", "g"), ("CARGO_MANIFEST_DIR", "/g"), ("=", "x")]));
    assert_eq!(odd.unwrap().get("=").unwrap(), "x");
    let env = Env::try_from_iter(pairs(&[
        ("CARGO_PKG_NAME", "first"),
        ("CARGO_MANIFEST_DIR", "/game"),
        ("CARGO_PKG_NAME", "second"),
    ]))
    .unwrap();
    assert_eq!(env.get("CARGO_PKG_NAME").unwrap(), "second");
    assert_eq!(env.vars().len(), 2);
}

#[test]
fn insert_and_fill() {
    let mut env = Env::new();
    env.insert("A".to_string(), "1".to_string());
    env.insert("A".to_string(), "2".to_string());
    assert_eq!(env.get("A").unwrap(), "2");
    env.fill(&pairs(&[("A", "3"), ("B", "4"), ("B", "5")]));
    assert_eq!(env.get("A").unwrap(), "2");
    assert_eq!(env.get("B").unwrap(), "4");
    assert!(!env.contains_key("C"));
    assert_eq!(env.vars().len(), 2);
}

#[test]
fn resolve_puts_the_project_first() {
    let env = Env::resolve("game", "/game", &Some("/sdk".to_string()), &pairs(&[
        ("PLAYDATE_SDK_PATH", "/other"),
        ("PATH", "/bin"),
    ])).unwrap();
    assert_eq!(env.get("PLAYDATE_SDK_PATH").unwrap(), "/sdk");
    assert_eq!(env.get("PATH").unwrap(), "/bin");
    assert_eq!(env.get("CARGO_PKG_NAME").unwrap(), "game");
    let env = Env::resolve("game", "/game", &None, &pairs(&[("PLAYDATE_SDK_PATH", "/other")])).unwrap();
    assert_eq!(env.get("PLAYDATE_SDK_PATH").unwrap(), "/other");
}

#[test]
fn failed_environment_ends_the_derivation() {
    let request = PlanRequest {
        rule_count: 1,
        manifest_root: Some("/game".to_string()),
        cache_path: "c".to_string(),
        force_rebuild: false,
    };
    let planner = Planner { request, stage: Stage::Environment };
    let (_, action) = plan_for(planner, Event::EnvironmentFailed(EnvError::Missing("CARGO_PKG_NAME".to_string())));
    assert_eq!(action, Action::Fail(PlanError::Environment(EnvError::Missing("CARGO_PKG_NAME".to_string()))));
}
