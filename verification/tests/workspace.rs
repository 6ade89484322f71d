use plan_cache::bitmap::{data_len, mask_len};
use plan_cache::workspace::{CompileKind, Config, Package, Target};

fn target(name: &str, selected: bool) -> Target {
    Target { name: name.to_string(), selected }
}

fn package(name: &str, targets: Vec<Target>) -> Package {
    Package { name: name.to_string(), targets, default_kind: None, forced_kind: None }
}

fn config(members: Vec<Package>, requested: Vec<Package>, all_targets: bool) -> Config {
    Config {
        members,
        requested,
        all_targets,
        requested_kinds: vec![],
        host_target: "x86_64-unknown-linux-gnu".to_string(),
        rustc_host: "x86_64-unknown-linux-gnu".to_string(),
    }
}

fn names(found: &[(&Package, Vec<&Target>)]) -> Vec<(String, Vec<String>)> {
    found
        .iter()
        .map(|(p, ts)| (p.name.clone(), ts.iter().map(|t| t.name.clone()).collect()))
        .collect()
}

#[test]
fn packages_without_a_wanted_target_are_left_out() {
    let cfg = config(
        vec![
            package("a", vec![target("lib", false), target("bin", true), target("ex", true)]),
            package("b", vec![target("lib", false)]),
            package("c", vec![]),
        ],
        vec![],
        false,
    );
    let expected = vec![("a".to_string(), vec!["bin".to_string(), "ex".to_string()])];
    assert_eq!(names(&cfg.possible_targets()), expected);
    assert_eq!(names(&cfg.possible_targets_ext()), expected);
    assert_eq!(cfg.members_with_features().len(), 3);
}

#[test]
fn all_targets_takes_every_target() {
    let cfg = config(
        vec![package("a", vec![target("lib", false)]), package("c", vec![])],
        vec![],
        true,
    );
    assert_eq!(names(&cfg.possible_targets()), vec![("a".to_string(), vec!["lib".to_string()])]);
}

#[test]
fn named_packages_come_before_members() {
    let cfg = config(
        vec![package("a", vec![target("bin", true)])],
        vec![package("z", vec![target("bin", true)])],
        false,
    );
    assert_eq!(names(&cfg.possible_targets_ext()), vec![("z".to_string(), vec!["bin".to_string()])]);
    assert_eq!(names(&cfg.possible_targets()), vec![("a".to_string(), vec!["bin".to_string()])]);
    let others = vec![package("q", vec![target("t", true)])];
    assert_eq!(names(&cfg.possible_targets_with(&others)), vec![("q".to_string(), vec!["t".to_string()])]);
}

#[test]
fn host_brings_its_target_along() {
    let mut cfg = config(vec![], vec![], false);
    cfg.requested_kinds = vec![CompileKind::Host];
    assert_eq!(cfg.possible_compile_kinds(), vec![
        CompileKind::Host,
        CompileKind::Target("x86_64-unknown-linux-gnu".to_string()),
    ]);
    cfg.requested_kinds =
        vec![CompileKind::Target("x86_64-unknown-linux-gnu".to_string()), CompileKind::Host];
    assert_eq!(cfg.possible_compile_kinds().len(), 2);
    cfg.requested_kinds = vec![CompileKind::Target("thumbv7em-none-eabihf".to_string())];
    assert_eq!(cfg.possible_compile_kinds().len(), 1);
}

#[test]
fn kinds_of_the_manifests_follow_the_requested_ones() {
    let mut a = package("a", vec![]);
    a.default_kind = Some(CompileKind::Target("thumbv7em-none-eabihf".to_string()));
    a.forced_kind = Some(CompileKind::Host);
    let mut b = package("b", vec![]);
    b.forced_kind = Some(CompileKind::Target("wasm32".to_string()));
    let mut cfg = config(vec![a, b], vec![], false);
    cfg.requested_kinds = vec![CompileKind::Target("arm".to_string())];
    assert_eq!(cfg.possible_compile_kinds(), vec![
        CompileKind::Target("arm".to_string()),
        CompileKind::Target("thumbv7em-none-eabihf".to_string()),
        CompileKind::Host,
        CompileKind::Target("wasm32".to_string()),
        CompileKind::Target("x86_64-unknown-linux-gnu".to_string()),
    ]);
}

#[test]
fn triple_of_a_kind() {
    let mut cfg = config(vec![], vec![], false);
    cfg.rustc_host = "aarch64-apple-darwin".to_string();
    assert_eq!(cfg.triple(&CompileKind::Host), "aarch64-apple-darwin");
    assert_eq!(cfg.triple(&CompileKind::Target("wasm32".to_string())), "wasm32");
    assert!(CompileKind::Host.same(&CompileKind::Host));
    assert!(!CompileKind::Host.same(&CompileKind::Target("x".to_string())));
    assert_eq!(CompileKind::Target("x".to_string()).duplicate(), CompileKind::Target("x".to_string()));
}

#[test]
fn bitmap_buffers_hold_one_or_two_planes() {
    assert_eq!(data_len(52, 240, true), Some(12480));
    assert_eq!(data_len(52, 240, false), Some(24960));
    assert_eq!(mask_len(52, 240), Some(12480));
    assert_eq!(data_len(0, 240, false), Some(0));
    assert_eq!(data_len(-1, 240, true), None);
    assert_eq!(data_len(-2, -3, true), Some(6));
    assert_eq!(data_len(65536, 32768, true), None);
    assert_eq!(data_len(32768, 32768, false), None);
    assert_eq!(data_len(32768, 32768, true), Some(1 << 30));
}
