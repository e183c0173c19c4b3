use deb_manifest::asset::Asset;
use deb_manifest::config::Config;
use deb_manifest::depends::{collect_resolved, Resolution};

fn strings(items: &[&str]) -> Vec<String> {
    items.iter().map(|s| String::from(*s)).collect()
}

fn config_with_depends(depends: &str) -> Config {
    Config {
        workspace_root: String::from("/work"),
        target: None,
        target_dir: String::from("/work/target"),
        name: String::from("tool"),
        license: None,
        license_file: None,
        license_file_skip_lines: 0,
        copyright: String::from("c"),
        version: String::from("1.0.0"),
        homepage: None,
        documentation: None,
        repository: None,
        description: String::from("d"),
        extended_description: None,
        maintainer: String::from("m"),
        depends: String::from(depends),
        section: None,
        priority: String::from("optional"),
        conflicts: None,
        breaks: None,
        replaces: None,
        provides: None,
        architecture: String::from("amd64"),
        conf_files: None,
        assets: vec![],
        maintainer_scripts: None,
        features: vec![],
        default_features: true,
        strip: true,
    }
}

fn resolved(binary: &str, names: &[&str]) -> Resolution {
    Resolution { binary: String::from(binary), outcome: Ok(strings(names)) }
}

fn failed(binary: &str, reason: &str) -> Resolution {
    Resolution { binary: String::from(binary), outcome: Err(String::from(reason)) }
}

fn with_assets(depends: &str) -> Config {
    let mut config = config_with_depends(depends);
    config.assets = vec![
        Asset::new(String::from("target/release/tool"), String::from("usr/bin/tool"), 0o755),
        Asset::new(String::from("README.md"), String::from("usr/share/doc/tool/README.md"), 0o644),
        Asset::new(String::from("target/release/helper"), String::from("usr/bin/helper"), 0o755),
    ];
    config
}

#[test]
fn executables_are_resolved_only_where_the_directive_asks() {
    let asked = strings(&["target/release/tool", "target/release/helper"]);
    assert_eq!(with_assets("$auto").binaries_to_resolve(), asked);
    assert_eq!(with_assets("libc6, $auto").binaries_to_resolve(), asked);
    assert_eq!(with_assets(" $auto ,libc6").binaries_to_resolve(), asked);
    assert_eq!(with_assets("$auto, $auto").binaries_to_resolve(), asked);
    assert!(with_assets("libc6").binaries_to_resolve().is_empty());
    assert!(with_assets("").binaries_to_resolve().is_empty());
    assert!(with_assets("libc6, $automatic").binaries_to_resolve().is_empty());
    assert!(with_assets("$auto libc6").binaries_to_resolve().is_empty());
    assert!(config_with_depends("$auto").binaries_to_resolve().is_empty());
}

#[test]
fn resolutions_are_not_looked_at_without_auto() {
    let config = config_with_depends("libc6, libz");
    let table = vec![resolved("a", &["libssl"]), failed("b", "boom")];
    let (line, warnings) = config.get_dependencies(&table);
    assert_eq!(line, "libc6, libz");
    assert!(warnings.is_empty());
}

#[test]
fn auto_with_nothing_resolved_is_empty() {
    let config = config_with_depends("$auto");
    let (line, warnings) = config.get_dependencies(&vec![]);
    assert_eq!(line, "");
    assert!(warnings.is_empty());
}

#[test]
fn auto_with_only_failures_is_empty_and_warns() {
    let config = config_with_depends("$auto");
    let table = vec![failed("target/release/a", "no dpkg"), failed("target/release/b", "boom")];
    let (line, warnings) = config.get_dependencies(&table);
    assert_eq!(line, "");
    assert_eq!(
        warnings,
        strings(&[
            "warning: no dpkg (no auto deps for target/release/a)",
            "warning: boom (no auto deps for target/release/b)",
        ])
    );
}

#[test]
fn listed_and_resolved_names_come_once() {
    let config = config_with_depends("libc6, $auto");
    let table = vec![
        resolved("target/release/a", &["libssl1.1", "libc6"]),
        resolved("target/release/b", &["libssl1.1", "zlib1g"]),
    ];
    let (line, warnings) = config.get_dependencies(&table);
    assert_eq!(line, "libc6, libssl1.1, zlib1g");
    assert!(warnings.is_empty());
}

#[test]
fn failure_of_one_executable_leaves_the_others() {
    let config = config_with_depends("libc6, $auto");
    let table = vec![
        failed("target/release/a", "boom"),
        resolved("target/release/b", &["zlib1g"]),
    ];
    let (line, warnings) = config.get_dependencies(&table);
    assert_eq!(line, "libc6, zlib1g");
    assert_eq!(warnings, strings(&["warning: boom (no auto deps for target/release/a)"]));
}

#[test]
fn literal_names_are_trimmed_and_kept_once() {
    let config = config_with_depends(" libc6 ,libfoo (>= 1.2),\tlibc6");
    let (line, _) = config.get_dependencies(&vec![resolved("x", &["ignored"])]);
    assert_eq!(line, "libc6, libfoo (>= 1.2)");
}

#[test]
fn auto_may_stand_anywhere_in_the_directive() {
    let config = config_with_depends("$auto,libz");
    let (line, _) = config.get_dependencies(&vec![resolved("x", &["liba", "libz"])]);
    assert_eq!(line, "liba, libz");
}

#[test]
fn empty_directive_gives_the_empty_line() {
    let config = config_with_depends("");
    let (line, warnings) = config.get_dependencies(&vec![resolved("x", &["liba"])]);
    assert_eq!(line, "");
    assert!(warnings.is_empty());
}

#[test]
fn resolved_names_are_collected_in_order() {
    let table = vec![
        resolved("a", &["x", "y"]),
        failed("b", "why"),
        resolved("c", &["y", "z"]),
    ];
    let (names, warnings) = collect_resolved(&table);
    assert_eq!(names, strings(&["x", "y", "y", "z"]));
    assert_eq!(warnings, strings(&["warning: why (no auto deps for b)"]));
}
