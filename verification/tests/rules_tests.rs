use deb_manifest::error::CargoDebError;
use deb_manifest::rules::{
    explicit_assets, is_glob_pattern, literal_prefix, names_directory, place, place_found,
    place_match, place_matches, read_rule, AssetRule, FoundPath, GlobOutcome, RulePlan,
};

fn strings(items: &[&str]) -> Vec<String> {
    items.iter().map(|s| String::from(*s)).collect()
}

fn file(path: &str) -> FoundPath {
    FoundPath { path: String::from(path), is_dir: false }
}

fn directory(path: &str) -> FoundPath {
    FoundPath { path: String::from(path), is_dir: true }
}

fn files(paths: &[&str]) -> Vec<FoundPath> {
    paths.iter().map(|p| file(p)).collect()
}

fn rule(fields: &[&str], found: &[&str]) -> AssetRule {
    AssetRule { fields: strings(fields), found: GlobOutcome::Matches(files(found)) }
}

fn plan(pattern: &str, target: &str, mode: u32) -> RulePlan {
    RulePlan { pattern: String::from(pattern), target: String::from(target), mode }
}

#[test]
fn pattern_characters_are_recognised() {
    assert!(is_glob_pattern("*.txt"));
    assert!(is_glob_pattern("a[0-9]"));
    assert!(is_glob_pattern("a]"));
    assert!(is_glob_pattern("!a"));
    assert!(!is_glob_pattern("docs/readme.txt"));
    assert!(!is_glob_pattern("what?"));
    assert!(!is_glob_pattern(""));
}

#[test]
fn literal_prefix_ends_before_the_first_pattern_component() {
    assert_eq!(literal_prefix("assets/img/*.png"), "assets/img");
    assert_eq!(literal_prefix("assets/*/x.png"), "assets");
    assert_eq!(literal_prefix("/usr/share/*"), "/usr/share");
    assert_eq!(literal_prefix("*.txt"), "");
    assert_eq!(literal_prefix("/*.txt"), "/");
    assert_eq!(literal_prefix("a/b/c"), "a/b/c");
    assert_eq!(literal_prefix("a//b/*"), "a//b");
}

#[test]
fn rule_fields_are_read_in_order() {
    let p = read_rule(&strings(&["docs/a.txt", "usr/share/doc/a.txt", "644"]), "target").unwrap();
    assert_eq!(p.pattern, "docs/a.txt");
    assert_eq!(p.target, "usr/share/doc/a.txt");
    assert_eq!(p.mode, 0o644);
}

#[test]
fn rule_sources_under_the_release_marker_move_to_the_build_output() {
    let p = read_rule(&strings(&["target/release/tool", "usr/bin/", "755"]), "/b/target").unwrap();
    assert_eq!(p.pattern, "/b/target/release/tool");
    let p = read_rule(&strings(&["target/release/lib/*.so", "usr/lib/", "644"]), "out/arm").unwrap();
    assert_eq!(p.pattern, "out/arm/release/lib/*.so");
    let p = read_rule(&strings(&["target/released/tool", "usr/bin/", "755"]), "/b/target").unwrap();
    assert_eq!(p.pattern, "target/released/tool");
}

#[test]
fn incomplete_rules_are_refused() {
    assert!(matches!(read_rule(&strings(&[]), "t"), Err(CargoDebError::MissingAssetPath)));
    assert!(matches!(read_rule(&strings(&["a"]), "t"), Err(CargoDebError::MissingAssetTarget)));
    assert!(matches!(read_rule(&strings(&["a", "b"]), "t"), Err(CargoDebError::MissingAssetChmod)));
}

#[test]
fn malformed_permission_bits_fail_the_rule() {
    match read_rule(&strings(&["a", "b", "75a"]), "t") {
        Err(CargoDebError::InvalidChmod(text)) => assert_eq!(text, "75a"),
        other => panic!("unexpected: {:?}", other),
    }
}

#[test]
fn literal_rule_sends_its_file_to_the_declared_destination() {
    let r = rule(&["docs/guide.txt", "usr/share/doc/tool/guide", "644"], &["docs/guide.txt"]);
    let assets = r.expand("target").unwrap();
    assert_eq!(assets.len(), 1);
    assert_eq!(assets[0].source_file, "docs/guide.txt");
    assert_eq!(assets[0].target_path, "usr/share/doc/tool/guide");
    assert_eq!(assets[0].chmod, 0o644);
}

#[test]
fn pattern_rule_keeps_the_structure_beyond_its_literal_prefix() {
    let r = rule(
        &["assets/*/*.png", "usr/share/tool", "644"],
        &["assets/a/one.png", "assets/b/two.png"],
    );
    let assets = r.expand("target").unwrap();
    assert_eq!(assets.len(), 2);
    assert_eq!(assets[0].source_file, "assets/a/one.png");
    assert_eq!(assets[0].target_path, "usr/share/tool/a/one.png");
    assert_eq!(assets[1].source_file, "assets/b/two.png");
    assert_eq!(assets[1].target_path, "usr/share/tool/b/two.png");
    assert_eq!(assets[1].chmod, 0o644);
}

#[test]
fn pattern_rule_with_star_names_each_file() {
    let r = rule(&["conf/*", "/etc/tool/", "600"], &["conf/a.toml", "conf/b.toml"]);
    let assets = r.expand("target").unwrap();
    assert_eq!(assets.len(), 2);
    assert_eq!(assets[0].target_path, "etc/tool/a.toml");
    assert_eq!(assets[1].target_path, "etc/tool/b.toml");
    assert_eq!(assets[0].chmod, 0o600);
}

#[test]
fn directories_among_the_matches_give_no_asset() {
    let r = AssetRule {
        fields: strings(&["share/*", "usr/share/tool/", "644"]),
        found: GlobOutcome::Matches(vec![
            directory("share/icons"),
            file("share/a.txt"),
            directory("share/locale"),
            file("share/b.txt"),
        ]),
    };
    let assets = r.expand("target").unwrap();
    assert_eq!(assets.len(), 2);
    assert_eq!(assets[0].source_file, "share/a.txt");
    assert_eq!(assets[0].target_path, "usr/share/tool/a.txt");
    assert_eq!(assets[1].source_file, "share/b.txt");
    let only_directories = AssetRule {
        fields: strings(&["share", "usr/share/tool", "644"]),
        found: GlobOutcome::Matches(vec![directory("share")]),
    };
    assert!(only_directories.expand("target").unwrap().is_empty());
}

#[test]
fn directories_are_passed_over_before_they_are_judged() {
    let p = plan("conf/*", "etc/", 0o644);
    let found = vec![directory("other/place"), directory(".."), file("conf/a")];
    let assets = place_matches(&p, &found).unwrap();
    assert_eq!(assets.len(), 1);
    assert_eq!(assets[0].target_path, "etc/a");
}

#[test]
fn absolute_directory_destination_names_each_file() {
    let r = rule(&["bin/tool", "/usr/bin/", "755"], &["bin/tool"]);
    let assets = r.expand("target").unwrap();
    assert_eq!(assets.len(), 1);
    assert_eq!(assets[0].target_path, "usr/bin/tool");
}

#[test]
fn rule_without_matches_gives_no_asset() {
    let r = rule(&["conf/*", "etc/tool/", "600"], &[]);
    assert_eq!(r.expand("target").unwrap().len(), 0);
}

#[test]
fn malformed_patterns_are_refused() {
    let r = rule(&["assets/***", "usr/share", "644"], &[]);
    match r.expand("target") {
        Err(CargoDebError::InvalidPattern(p)) => assert_eq!(p, "assets/***"),
        other => panic!("unexpected: {:?}", other),
    }
    let r = rule(&["assets/[", "usr/share", "644"], &[]);
    assert!(matches!(r.expand("target"), Err(CargoDebError::InvalidPattern(_))));
    assert!(matches!(r.pattern("target"), Err(CargoDebError::InvalidPattern(_))));
    let r = rule(&["a**/b", "usr/share", "644"], &[]);
    assert!(matches!(r.pattern("target"), Err(CargoDebError::InvalidPattern(_))));
}

#[test]
fn well_formed_patterns_are_handed_out() {
    let r = rule(&["assets/**/*.png", "usr/share", "644"], &[]);
    assert_eq!(r.pattern("target").unwrap(), "assets/**/*.png");
    let r = rule(&["target/release/tool", "usr/bin/", "755"], &[]);
    assert_eq!(r.pattern("build").unwrap(), "build/release/tool");
    let r = rule(&["assets/[ab]?.txt", "usr/share", "644"], &[]);
    assert_eq!(r.pattern("target").unwrap(), "assets/[ab]?.txt");
}

#[test]
fn bad_fields_come_before_bad_patterns() {
    let r = rule(&["assets/***", "usr/share", "9"], &[]);
    assert!(matches!(r.expand("target"), Err(CargoDebError::InvalidChmod(_))));
    assert!(matches!(r.pattern("target"), Err(CargoDebError::InvalidChmod(_))));
}

#[test]
fn unreadable_paths_fail_the_rule() {
    let r = AssetRule {
        fields: strings(&["conf/*", "etc/", "644"]),
        found: GlobOutcome::Failed(String::from("permission denied")),
    };
    match r.expand("target") {
        Err(CargoDebError::UnreadableMatch(reason)) => assert_eq!(reason, "permission denied"),
        other => panic!("unexpected: {:?}", other),
    }
    let p = plan("conf/*", "etc/", 0o644);
    assert!(matches!(
        place_found(&p, &GlobOutcome::Failed(String::from("x"))),
        Err(CargoDebError::UnreadableMatch(_))
    ));
}

#[test]
fn match_outside_of_the_prefix_is_refused() {
    let p = plan("conf/*", "etc/", 0o644);
    match place_match(&p, "other/a.toml") {
        Err(CargoDebError::MisplacedMatch(m)) => assert_eq!(m, "other/a.toml"),
        other => panic!("unexpected: {:?}", other),
    }
    assert!(matches!(
        place_matches(&p, &files(&["conf/a", "other/b"])),
        Err(CargoDebError::MisplacedMatch(_))
    ));
}

#[test]
fn source_without_name_cannot_go_into_a_directory() {
    match place(String::from("foo/.."), String::from("usr/bin/"), 0o755) {
        Err(CargoDebError::SourceWithoutName(s)) => assert_eq!(s, "foo/.."),
        other => panic!("unexpected: {:?}", other),
    }
    let a = place(String::from("foo/.."), String::from("usr/bin/x"), 0o755).unwrap();
    assert_eq!(a.target_path, "usr/bin/x");
    let p = plan("foo/..", "usr/bin/", 0o755);
    assert!(matches!(place_match(&p, "foo/.."), Err(CargoDebError::SourceWithoutName(_))));
}

#[test]
fn directory_destinations_are_recognised() {
    assert!(names_directory("usr/bin/"));
    assert!(!names_directory("usr/bin"));
    assert!(names_directory("/usr/bin/"));
    assert!(!names_directory("/usr/bin"));
    assert!(!names_directory("/"));
    assert!(!names_directory(""));
}

#[test]
fn rules_are_expanded_in_order() {
    let rules = vec![
        rule(&["a.txt", "usr/share/a.txt", "644"], &["a.txt"]),
        rule(&["bin/*", "usr/bin/", "755"], &["bin/x", "bin/y"]),
    ];
    let assets = explicit_assets(&rules, "target").unwrap();
    assert_eq!(assets.len(), 3);
    assert_eq!(assets[0].target_path, "usr/share/a.txt");
    assert_eq!(assets[1].target_path, "usr/bin/x");
    assert_eq!(assets[2].target_path, "usr/bin/y");
    assert_eq!(assets[2].chmod, 0o755);
}

#[test]
fn first_failing_rule_decides() {
    let rules = vec![
        rule(&["a.txt", "usr/share/a.txt", "644"], &["a.txt"]),
        rule(&["b.txt"], &[]),
        rule(&["c.txt", "x", "bad"], &[]),
    ];
    assert!(matches!(explicit_assets(&rules, "target"), Err(CargoDebError::MissingAssetTarget)));
}

#[test]
fn duplicate_destinations_are_kept() {
    let rules = vec![
        rule(&["a.txt", "usr/share/x", "644"], &["a.txt"]),
        rule(&["b.txt", "usr/share/x", "644"], &["b.txt"]),
    ];
    let assets = explicit_assets(&rules, "target").unwrap();
    assert_eq!(assets.len(), 2);
    assert_eq!(assets[0].target_path, assets[1].target_path);
}
