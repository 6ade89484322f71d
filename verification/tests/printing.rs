use plan_cache::cache::CachedPlan;
use plan_cache::mapping::{Mapping, Plan, Rule, Source};
use plan_cache::order::{str_eq, str_le};
use plan_cache::printable::{group_rows, render, title, Section};
use plan_cache::text::{chars_of, join, pad_right, relative_to};

fn rule(left: &str, right: &str) -> Rule {
    Rule { left: left.to_string(), right: right.to_string() }
}

#[test]
fn sections_are_grouped_sorted_and_aligned() {
    let plan = Plan::new(vec![
        Mapping::FanOut {
            sources: vec![
                Source { path: "/game/assets/fonts/b.png".to_string(), name: "b.png".to_string() },
                Source { path: "/game/assets/fonts/a.png".to_string(), name: "a.png".to_string() },
            ],
            target: "fonts".to_string(),
            rule: rule("fonts/", "assets/fonts/*.png"),
        },
        Mapping::Direct {
            source: "/game/assets/s.png".to_string(),
            target: "s.png".to_string(),
            rule: rule("a", "b"),
        },
        Mapping::Transformed {
            source: "/elsewhere/t.wav".to_string(),
            target: "/game/sounds/t.wav".to_string(),
            rule: rule("a", "b"),
        },
    ]);
    let made = CachedPlan::new("c".to_string(), plan, None).unwrap();
    let sections = made.pretty_print("/game");
    assert_eq!(sections, vec![
        Section {
            title: "rule: a = b".to_string(),
            rows: vec![
                "  s.png        <- assets/s.png".to_string(),
                "  sounds/t.wav <- /elsewhere/t.wav".to_string(),
            ],
        },
        Section {
            title: "rule: fonts/ = assets/fonts/*.png".to_string(),
            rows: vec![
                "  fonts/b.png  <- assets/fonts/b.png".to_string(),
                "  fonts/a.png  <- assets/fonts/a.png".to_string(),
            ],
        },
    ]);
}

#[test]
fn empty_plan_shows_nothing() {
    let (groups, width) = group_rows(&Plan::new(vec![]), "/game");
    assert_eq!(width, 0);
    assert!(render(groups, width).is_empty());
}

#[test]
fn title_names_both_sides_of_the_rule() {
    assert_eq!(title(&rule("img/", "assets/**/*.png")), "rule: img/ = assets/**/*.png");
}

#[test]
fn join_places_a_name_under_a_directory() {
    assert_eq!(join("fonts", "a.png"), "fonts/a.png");
    assert_eq!(join("fonts/", "a.png"), "fonts/a.png");
    assert_eq!(join("", "a.png"), "a.png");
    assert_eq!(join("fonts", "/abs/a.png"), "/abs/a.png");
    assert_eq!(join("fonts", ""), "fonts/");
}

#[test]
fn relative_to_strips_the_root_and_its_separator() {
    assert_eq!(relative_to("/game/a/b", "/game"), "a/b");
    assert_eq!(relative_to("/game/a/b", "/game/"), "a/b");
    assert_eq!(relative_to("/game", "/game"), "");
    assert_eq!(relative_to("/gamer/a", "/game"), "/gamer/a");
    assert_eq!(relative_to("/other/a", "/game"), "/other/a");
    assert_eq!(relative_to("a", ""), "a");
    assert_eq!(relative_to("/é/ü", "/é"), "ü");
}

#[test]
fn pad_right_counts_characters() {
    assert_eq!(pad_right("ab".to_string(), 4), "ab  ");
    assert_eq!(pad_right("abcd".to_string(), 2), "abcd");
    assert_eq!(pad_right("é".to_string(), 3), "é  ");
    assert_eq!(chars_of("aé"), vec!['a', 'é']);
}

#[test]
fn texts_are_ordered_as_str_is() {
    for (a, b) in [("", "a"), ("a", "ab"), ("B", "a"), ("a", "é"), ("z", "é"), ("ab", "b"), ("x", "x")] {
        assert_eq!(str_le(a, b), a <= b);
        assert_eq!(str_le(b, a), b <= a);
        assert_eq!(str_eq(a, b), a == b);
    }
}
