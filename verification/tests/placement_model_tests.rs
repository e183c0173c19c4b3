use deb_manifest::asset::Asset;
use deb_manifest::path::strip_prefix;
use deb_manifest::rules::{is_glob_pattern, literal_prefix, place, place_match, RulePlan};
use std::path::{Path, PathBuf};

fn paths() -> Vec<&'static str> {
    vec![
        "", "/", ".", "..", "a", "/a", "a/", "/a/", "a/b", "/a/b", "a//b", "a/./b", "a/b/.",
        "a/b/..", "./a", "../a", "//a//b//", "baz/", "/baz/quz", "/baz/", "foo/bar", "usr/bin/",
        "/./baz/", "/.", "//",
        "/usr/bin/", "usr/share/doc/x", "target/release/tool",
    ]
}

fn patterns() -> Vec<&'static str> {
    vec![
        "*", "*.txt", "a/*", "/a/*", "a/b/*.png", "a/*/c", "./a/*", "a//b/*", "a/b", "/a/b",
        "a/[xy]/c", "a/b!", "**/x", "a/./b/*", "",
    ]
}

fn expected_target(source: &str, target: &str) -> Option<String> {
    let mut rest = target;
    if rest.starts_with('/') {
        loop {
            if rest.starts_with('/') {
                rest = &rest[1..];
            } else if rest.starts_with("./") {
                rest = &rest[2..];
            } else if rest == "." {
                rest = "";
            } else {
                break;
            }
        }
    }
    let mut target_path = PathBuf::from(rest);
    if rest.ends_with('/') {
        target_path = target_path.join(Path::new(source).file_name()?);
    }
    Some(String::from(target_path.to_str().unwrap()))
}

#[test]
fn destinations_agree_with_the_standard_library() {
    for source in paths() {
        for target in paths() {
            let expected = expected_target(source, target);
            let placed = place(String::from(source), String::from(target), 0o644);
            match (placed, expected) {
                (Ok(asset), Some(t)) => {
                    assert_eq!(asset.target_path, t, "{:?} {:?}", source, target);
                    assert_eq!(asset.source_file, source);
                    assert!(!Path::new(&asset.target_path).is_absolute());
                    let again = Asset::new(String::from(source), String::from(target), 0o644);
                    assert_eq!(again.target_path, t);
                }
                (Err(_), None) => {}
                (got, want) => panic!("{:?} {:?}: {:?} {:?}", source, target, got, want),
            }
        }
    }
}

#[test]
fn literal_prefixes_agree_with_the_standard_library() {
    for pattern in patterns() {
        let expected: PathBuf = Path::new(pattern)
            .iter()
            .take_while(|part| !is_glob_pattern(part.to_str().unwrap()))
            .collect();
        let prefix = literal_prefix(pattern);
        for m in paths() {
            let want = Path::new(m)
                .strip_prefix(&expected)
                .ok()
                .map(|rest| String::from(rest.to_str().unwrap()));
            assert_eq!(strip_prefix(m, &prefix), want, "{:?} {:?}", pattern, m);
        }
    }
}

#[test]
fn placed_matches_agree_with_the_standard_library() {
    for pattern in patterns() {
        let prefix: PathBuf = Path::new(pattern)
            .iter()
            .take_while(|part| !is_glob_pattern(part.to_str().unwrap()))
            .collect();
        for target in ["usr/share", "usr/share/", "/opt/x/", ""] {
            let plan = RulePlan {
                pattern: String::from(pattern),
                target: String::from(target),
                mode: 0o644,
            };
            for m in paths() {
                let declared = PathBuf::from(target);
                let target_file = if is_glob_pattern(pattern) {
                    Path::new(m).strip_prefix(&prefix).ok().map(|rest| declared.join(rest))
                } else {
                    Some(declared)
                };
                let want = target_file.and_then(|t| expected_target(m, t.to_str().unwrap()));
                let got = place_match(&plan, m).ok().map(|asset| asset.target_path);
                assert_eq!(got, want, "{:?} {:?} {:?}", pattern, target, m);
            }
        }
    }
}

#[test]
fn executables_agree_with_the_standard_library() {
    for source in paths() {
        for root in ["/work", "", "/work/", "ws"] {
            for prefix in ["/work/target/release", "target/release", "/work/a", "a", "/", ""] {
                let asset = Asset {
                    source_file: String::from(source),
                    target_path: String::from("x"),
                    chmod: 0o755,
                };
                let want = Path::new(root).join(source).starts_with(prefix);
                assert_eq!(
                    asset.is_binary_executable(root, prefix),
                    want,
                    "{:?} {:?} {:?}",
                    source,
                    root,
                    prefix
                );
            }
        }
    }
}
