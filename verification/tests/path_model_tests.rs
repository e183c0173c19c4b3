use deb_manifest::path::{file_name, is_absolute, join, parent, starts_with, strip_prefix};
use std::path::Path;

fn samples() -> Vec<&'static str> {
    vec![
        "", "/", "//", ".", "..", "./", "../", "/.", "/..", "a", "/a", "a/", "/a/", "a/b", "/a/b",
        "a//b", "a/./b", "a/b/.", "a/b/..", "./a", "./a/b", "././a", "../a", "a/../b", "/./a",
        "//a//b//", "a/b/c", "/a/b/c/", "target/release", "target/release/", "target/release/x",
        "target//release/./x/", "target/released", "/target/release/x", "baz/", "/baz/quz",
        "/baz/", "foo/bar", "a.b/c.d", ".hidden", "a/.hidden", "...", "a/...", "usr/bin",
        "/usr/share/doc", "x/*", "x/[ab]/y",
    ]
}

fn as_text(p: &Path) -> String {
    String::from(p.to_str().unwrap())
}

#[test]
fn absoluteness_agrees_with_the_standard_library() {
    for p in samples() {
        assert_eq!(is_absolute(p), Path::new(p).is_absolute(), "{:?}", p);
    }
}

#[test]
fn file_names_agree_with_the_standard_library() {
    for p in samples() {
        let expected = Path::new(p).file_name().map(|n| String::from(n.to_str().unwrap()));
        assert_eq!(file_name(p), expected, "{:?}", p);
    }
}

#[test]
fn parents_agree_with_the_standard_library() {
    for p in samples() {
        let expected = Path::new(p).parent().map(as_text);
        assert_eq!(parent(p), expected, "{:?}", p);
    }
}

#[test]
fn joins_agree_with_the_standard_library() {
    for a in samples() {
        for b in samples() {
            let expected = as_text(&Path::new(a).join(b));
            assert_eq!(join(a, b), expected, "{:?} {:?}", a, b);
        }
    }
}

#[test]
fn prefixes_agree_with_the_standard_library() {
    for a in samples() {
        for b in samples() {
            assert_eq!(starts_with(a, b), Path::new(a).starts_with(b), "{:?} {:?}", a, b);
        }
    }
}

#[test]
fn stripped_prefixes_agree_with_the_standard_library() {
    for a in samples() {
        for b in samples() {
            let expected = Path::new(a).strip_prefix(b).ok().map(as_text);
            assert_eq!(strip_prefix(a, b), expected, "{:?} {:?}", a, b);
        }
    }
}
