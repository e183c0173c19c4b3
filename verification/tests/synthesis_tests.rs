use deb_manifest::cargo::{
    Cargo, CargoDeb, CargoMetadata, CargoMetadataPackage, CargoMetadataResolve,
    CargoMetadataTarget, CargoPackage, CargoPackageMetadata, CargoProfile, CargoProfiles,
    ProjectFiles,
};
use deb_manifest::config::Config;
use deb_manifest::error::CargoDebError;
use deb_manifest::rules::{AssetRule, FoundPath, GlobOutcome};
use deb_manifest::synthesis::output_dir;

fn strings(items: &[&str]) -> Vec<String> {
    items.iter().map(|s| String::from(*s)).collect()
}

fn text(s: &str) -> Option<String> {
    Some(String::from(s))
}

fn package(name: &str) -> CargoPackage {
    CargoPackage {
        name: String::from(name),
        authors: Some(strings(&["Ann <ann@example.org>", "Bob <bob@example.org>"])),
        license: text("MIT"),
        license_file: None,
        homepage: text("https://example.org"),
        documentation: None,
        repository: text("https://github.com/example/tool"),
        version: String::from("1.2.3"),
        description: text("A tool"),
        readme: None,
        metadata: None,
    }
}

fn with_deb(mut p: CargoPackage, deb: CargoDeb) -> Cargo {
    p.metadata = Some(CargoPackageMetadata { deb: Some(deb) });
    Cargo { package: p, profile: None }
}

fn target(name: &str, kind: &[&str], crate_types: &[&str]) -> CargoMetadataTarget {
    CargoMetadataTarget {
        name: String::from(name),
        kind: strings(kind),
        crate_types: strings(crate_types),
    }
}

fn root(targets: Vec<CargoMetadataTarget>) -> CargoMetadataPackage {
    CargoMetadataPackage {
        id: String::from("tool 1.2.3 (path+file:///work)"),
        targets,
        manifest_path: String::from("/work/Cargo.toml"),
    }
}

fn one_binary() -> CargoMetadataPackage {
    root(vec![target("tool", &["bin"], &["bin"])])
}

fn nothing_on_disk() -> ProjectFiles {
    ProjectFiles {
        readme_text: Ok(String::new()),
        readme_md_exists: false,
        readme_txt_exists: false,
        readme_exists: false,
    }
}

fn rule(fields: &[&str], found: &[&str]) -> AssetRule {
    let found =
        found.iter().map(|p| FoundPath { path: String::from(*p), is_dir: false }).collect();
    AssetRule { fields: strings(fields), found: GlobOutcome::Matches(found) }
}

fn resolve(cargo: Cargo, root: &CargoMetadataPackage) -> Result<(Config, Vec<String>), CargoDebError> {
    cargo.to_config(root, "/work", "/work/target", None, "x86_64", &nothing_on_disk())
}

#[test]
fn plain_project_resolves_with_defaults() {
    let cargo = Cargo { package: package("tool"), profile: None };
    let (config, warnings) = resolve(cargo, &one_binary()).unwrap();
    assert!(warnings.is_empty());
    assert_eq!(config.workspace_root, "/work");
    assert_eq!(config.target, None);
    assert_eq!(config.target_dir, "/work/target");
    assert_eq!(config.name, "tool");
    assert_eq!(config.license, text("MIT"));
    assert_eq!(config.license_file, None);
    assert_eq!(config.license_file_skip_lines, 0);
    assert_eq!(config.copyright, "Ann <ann@example.org>, Bob <bob@example.org>");
    assert_eq!(config.version, "1.2.3");
    assert_eq!(config.homepage, text("https://example.org"));
    assert_eq!(config.documentation, None);
    assert_eq!(config.repository, text("https://github.com/example/tool"));
    assert_eq!(config.description, "A tool");
    assert_eq!(config.extended_description, None);
    assert_eq!(config.maintainer, "Ann <ann@example.org>");
    assert_eq!(config.depends, "$auto");
    assert_eq!(config.section, None);
    assert_eq!(config.priority, "optional");
    assert_eq!(config.conflicts, None);
    assert_eq!(config.breaks, None);
    assert_eq!(config.replaces, None);
    assert_eq!(config.provides, None);
    assert_eq!(config.architecture, "amd64");
    assert_eq!(config.conf_files, None);
    assert_eq!(config.maintainer_scripts, None);
    assert!(config.features.is_empty());
    assert!(config.default_features);
    assert!(config.strip);
    assert_eq!(config.assets.len(), 2);
    assert_eq!(config.assets[0].source_file, "/work/target/release/tool");
    assert_eq!(config.assets[0].target_path, "usr/bin/tool");
    assert_eq!(config.assets[0].chmod, 0o755);
    assert_eq!(config.assets[1].source_file, "/work/target/debian/copyright");
    assert_eq!(config.assets[1].target_path, "usr/share/doc/tool/copyright");
    assert_eq!(config.assets[1].chmod, 0o644);
}

#[test]
fn directives_override_what_is_derived() {
    let mut deb = CargoDeb::default();
    deb.maintainer = text("Pat <pat@example.org>");
    deb.copyright = text("2024, Example");
    deb.license_file = Some(strings(&["LICENSE", "3"]));
    deb.changelog = text("debian/changelog");
    deb.depends = text("libc6");
    deb.conflicts = text("a");
    deb.breaks = text("b");
    deb.replaces = text("c");
    deb.provides = text("d");
    deb.extended_description = text("Long text");
    deb.section = text("utils");
    deb.priority = text("extra");
    deb.revision = text("2");
    deb.conf_files = Some(strings(&["/etc/tool.toml", "/etc/tool.d/x"]));
    deb.maintainer_scripts = text("debian/scripts");
    deb.features = Some(strings(&["tls", "cli"]));
    deb.default_features = Some(false);
    let mut cargo = with_deb(package("tool"), deb);
    cargo.profile = Some(CargoProfiles { release: Some(CargoProfile { debug: Some(true) }) });
    let (config, warnings) = cargo
        .to_config(
            &one_binary(),
            "/work",
            "/work/target",
            Some("armv7-unknown-linux-gnueabihf"),
            "x86_64",
            &nothing_on_disk(),
        )
        .unwrap();
    assert!(warnings.is_empty());
    assert_eq!(config.target, text("armv7-unknown-linux-gnueabihf"));
    assert_eq!(config.target_dir, "/work/target/armv7-unknown-linux-gnueabihf");
    assert_eq!(config.architecture, "armhf");
    assert_eq!(config.maintainer, "Pat <pat@example.org>");
    assert_eq!(config.copyright, "2024, Example");
    assert_eq!(config.license_file, text("LICENSE"));
    assert_eq!(config.license_file_skip_lines, 3);
    assert_eq!(config.depends, "libc6");
    assert_eq!(config.conflicts, text("a"));
    assert_eq!(config.breaks, text("b"));
    assert_eq!(config.replaces, text("c"));
    assert_eq!(config.provides, text("d"));
    assert_eq!(config.extended_description, text("Long text"));
    assert_eq!(config.section, text("utils"));
    assert_eq!(config.priority, "extra");
    assert_eq!(config.version, "1.2.3-2");
    assert_eq!(config.conf_files, text("/etc/tool.toml\n/etc/tool.d/x\n"));
    assert_eq!(config.maintainer_scripts, text("debian/scripts"));
    assert_eq!(config.features, strings(&["tls", "cli"]));
    assert!(!config.default_features);
    assert!(!config.strip);
    assert_eq!(config.assets.len(), 3);
    assert_eq!(
        config.assets[0].source_file,
        "/work/target/armv7-unknown-linux-gnueabihf/release/tool"
    );
    assert_eq!(
        config.assets[1].source_file,
        "/work/target/armv7-unknown-linux-gnueabihf/debian/copyright"
    );
    assert_eq!(config.assets[2].source_file, "debian/changelog");
    assert_eq!(config.assets[2].target_path, "usr/share/doc/tool/changelog");
    assert_eq!(config.assets[2].chmod, 0o644);
}

#[test]
fn synthesis_fails_without_authors_and_copyright() {
    let mut p = package("tool");
    p.authors = None;
    let cargo = Cargo { package: p, profile: None };
    assert!(matches!(resolve(cargo, &one_binary()), Err(CargoDebError::MissingCopyright)));
}

#[test]
fn synthesis_fails_without_authors_and_maintainer() {
    let mut p = package("tool");
    p.authors = None;
    let mut deb = CargoDeb::default();
    deb.copyright = text("2024");
    let cargo = with_deb(p, deb);
    assert!(matches!(resolve(cargo, &one_binary()), Err(CargoDebError::MissingMaintainer)));
}

#[test]
fn synthesis_fails_with_no_author_in_the_list() {
    let mut p = package("tool");
    p.authors = Some(vec![]);
    let cargo = Cargo { package: p, profile: None };
    assert!(matches!(resolve(cargo, &one_binary()), Err(CargoDebError::MissingMaintainer)));
}

#[test]
fn overrides_stand_in_for_authors() {
    let mut p = package("tool");
    p.authors = None;
    let mut deb = CargoDeb::default();
    deb.copyright = text("2024");
    deb.maintainer = text("Pat");
    let (config, _) = resolve(with_deb(p, deb), &one_binary()).unwrap();
    assert_eq!(config.copyright, "2024");
    assert_eq!(config.maintainer, "Pat");
}

#[test]
fn synthesis_fails_without_assets() {
    let cargo = Cargo { package: package("tool"), profile: None };
    let library_only = root(vec![target("tool", &["lib"], &["lib"])]);
    assert!(matches!(resolve(cargo, &library_only), Err(CargoDebError::NoAssets)));
}

#[test]
fn directories_alone_make_no_package() {
    let mut deb = CargoDeb::default();
    deb.assets = Some(vec![AssetRule {
        fields: strings(&["share/*", "usr/share/", "644"]),
        found: GlobOutcome::Matches(vec![FoundPath { path: String::from("share/x"), is_dir: true }]),
    }]);
    let cargo = with_deb(package("tool"), deb);
    assert!(matches!(resolve(cargo, &one_binary()), Err(CargoDebError::NoAssets)));
}

#[test]
fn changelog_alone_makes_no_package() {
    let mut deb = CargoDeb::default();
    deb.changelog = text("debian/changelog");
    deb.assets = Some(vec![rule(&["nothing/*", "usr/share/", "644"], &[])]);
    let cargo = with_deb(package("tool"), deb);
    assert!(matches!(resolve(cargo, &one_binary()), Err(CargoDebError::NoAssets)));
}

#[test]
fn declared_rules_replace_the_implied_assets() {
    let mut deb = CargoDeb::default();
    deb.assets = Some(vec![
        rule(&["target/release/tool", "usr/bin/", "755"], &["/work/target/release/tool"]),
        rule(&["docs/*", "usr/share/doc/tool/", "644"], &["docs/a.md", "docs/b.md"]),
    ]);
    let mut p = package("tool");
    p.readme = text("README.txt");
    let (config, _) = resolve(with_deb(p, deb), &one_binary()).unwrap();
    assert_eq!(config.assets.len(), 4);
    assert_eq!(config.assets[0].source_file, "/work/target/release/tool");
    assert_eq!(config.assets[0].target_path, "usr/bin/tool");
    assert_eq!(config.assets[1].target_path, "usr/share/doc/tool/a.md");
    assert_eq!(config.assets[2].target_path, "usr/share/doc/tool/b.md");
    assert_eq!(config.assets[3].target_path, "usr/share/doc/tool/copyright");
}

#[test]
fn rule_errors_fail_the_synthesis() {
    let mut deb = CargoDeb::default();
    deb.assets = Some(vec![rule(&["a", "b", "75a"], &["a"])]);
    assert!(matches!(
        resolve(with_deb(package("tool"), deb), &one_binary()),
        Err(CargoDebError::InvalidChmod(_))
    ));
}

#[test]
fn implied_assets_are_the_executables_and_the_readme() {
    let mut p = package("tool");
    p.readme = text("README.txt");
    let cargo = Cargo { package: p, profile: None };
    let files = ProjectFiles {
        readme_text: Ok(String::from("Read me.")),
        readme_md_exists: true,
        readme_txt_exists: true,
        readme_exists: true,
    };
    let targets = root(vec![
        target("tool", &["bin"], &["bin"]),
        target("tool", &["lib"], &["lib"]),
        target("helper", &["bin"], &["bin"]),
        target("ex", &["example"], &["bin"]),
        target("odd", &["bin"], &["cdylib"]),
    ]);
    let (config, warnings) =
        cargo.to_config(&targets, "/work", "target", None, "aarch64", &files).unwrap();
    assert!(warnings.is_empty());
    assert_eq!(config.architecture, "arm64");
    assert_eq!(config.extended_description, text("Read me."));
    assert_eq!(config.assets.len(), 4);
    assert_eq!(config.assets[0].source_file, "target/release/tool");
    assert_eq!(config.assets[0].target_path, "usr/bin/tool");
    assert_eq!(config.assets[1].source_file, "target/release/helper");
    assert_eq!(config.assets[1].target_path, "usr/bin/helper");
    assert_eq!(config.assets[1].chmod, 0o755);
    assert_eq!(config.assets[2].source_file, "README.txt");
    assert_eq!(config.assets[2].target_path, "usr/share/doc/tool/README.txt");
    assert_eq!(config.assets[2].chmod, 0o644);
    assert_eq!(config.assets[3].target_path, "usr/share/doc/tool/copyright");
}

#[test]
fn missing_fields_earn_warnings() {
    let mut p = package("tool");
    p.description = None;
    p.license = None;
    let files = ProjectFiles {
        readme_text: Ok(String::new()),
        readme_md_exists: false,
        readme_txt_exists: true,
        readme_exists: true,
    };
    let cargo = Cargo { package: p, profile: None };
    let (config, warnings) =
        cargo.to_config(&one_binary(), "/work", "/work/target", None, "x86_64", &files).unwrap();
    assert_eq!(
        warnings,
        strings(&[
            "description field is missing in Cargo.toml",
            "license field is missing in Cargo.toml",
            "README.txt file exists, but is not specified in `readme` Cargo.toml field",
        ])
    );
    assert_eq!(config.description, "tool -- autogenerated Rust project");
}

#[test]
fn stray_readme_is_named_by_the_first_that_exists() {
    let cargo = Cargo { package: package("tool"), profile: None };
    let mut files = nothing_on_disk();
    files.readme_md_exists = true;
    files.readme_exists = true;
    let warnings = cargo.check_config(None, &CargoDeb::default(), &files);
    assert_eq!(
        warnings,
        strings(&["README.md file exists, but is not specified in `readme` Cargo.toml field"])
    );
    files.readme_md_exists = false;
    let warnings = cargo.check_config(None, &CargoDeb::default(), &files);
    assert_eq!(
        warnings,
        strings(&["README file exists, but is not specified in `readme` Cargo.toml field"])
    );
}

#[test]
fn markdown_readme_earns_a_warning() {
    let cargo = Cargo { package: package("tool"), profile: None };
    let mut files = nothing_on_disk();
    files.readme_md_exists = true;
    let readme = String::from("README.md");
    let warnings = cargo.check_config(Some(&readme), &CargoDeb::default(), &files);
    assert_eq!(
        warnings,
        strings(&[
            "extended-description field missing. Using README.md, but markdown may not render well."
        ])
    );
    let readme = String::from("docs/intro.markdown");
    assert_eq!(cargo.check_config(Some(&readme), &CargoDeb::default(), &files).len(), 1);
    let readme = String::from("README.txt");
    assert!(cargo.check_config(Some(&readme), &CargoDeb::default(), &files).is_empty());
    let mut deb = CargoDeb::default();
    deb.extended_description = text("Long");
    let readme = String::from("README.md");
    assert!(cargo.check_config(Some(&readme), &deb, &files).is_empty());
}

#[test]
fn unreadable_readme_fails_only_where_it_is_needed() {
    let mut p = package("tool");
    p.readme = text("README.md");
    let files = ProjectFiles {
        readme_text: Err(String::from("not found")),
        readme_md_exists: false,
        readme_txt_exists: false,
        readme_exists: false,
    };
    let cargo = Cargo { package: p.clone(), profile: None };
    assert_eq!(cargo.readme_to_read(), Some(&String::from("README.md")));
    match cargo.to_config(&one_binary(), "/work", "/work/target", None, "x86_64", &files) {
        Err(CargoDebError::UnreadableReadme(path, reason)) => {
            assert_eq!(path, "README.md");
            assert_eq!(reason, "not found");
        }
        other => panic!("unexpected: {:?}", other),
    }
    let mut deb = CargoDeb::default();
    deb.extended_description = text("Long");
    let cargo = with_deb(p, deb);
    assert_eq!(cargo.readme_to_read(), None);
    let (config, _) =
        cargo.to_config(&one_binary(), "/work", "/work/target", None, "x86_64", &files).unwrap();
    assert_eq!(config.extended_description, text("Long"));
}

#[test]
fn license_file_comes_from_the_directive_or_the_project() {
    let mut p = package("tool");
    p.license_file = text("COPYING");
    let cargo = Cargo { package: p, profile: None };
    assert_eq!(cargo.license_file(None).unwrap(), (text("COPYING"), 0));
    assert_eq!(cargo.license_file(Some(&strings(&["LICENSE"]))).unwrap(), (text("LICENSE"), 0));
    assert_eq!(
        cargo.license_file(Some(&strings(&["LICENSE", "12"]))).unwrap(),
        (text("LICENSE"), 12)
    );
    assert_eq!(cargo.license_file(Some(&strings(&[]))).unwrap(), (None, 0));
    assert_eq!(
        cargo.license_file(Some(&strings(&["LICENSE", "4", "more"]))).unwrap(),
        (text("LICENSE"), 4)
    );
}

#[test]
fn license_line_count_must_be_a_number() {
    let cargo = Cargo { package: package("tool"), profile: None };
    match cargo.license_file(Some(&strings(&["LICENSE", "two"]))) {
        Err(CargoDebError::InvalidLicenseLines(text)) => assert_eq!(text, "two"),
        other => panic!("unexpected: {:?}", other),
    }
    let mut deb = CargoDeb::default();
    deb.license_file = Some(strings(&["LICENSE", "-1"]));
    let mut p = package("tool");
    p.authors = None;
    assert!(matches!(
        resolve(with_deb(p, deb), &one_binary()),
        Err(CargoDebError::InvalidLicenseLines(_))
    ));
}

#[test]
fn version_carries_the_revision() {
    let cargo = Cargo { package: package("tool"), profile: None };
    assert_eq!(cargo.version_string(None), "1.2.3");
    assert_eq!(cargo.version_string(text("1")), "1.2.3-1");
}

#[test]
fn extended_description_prefers_the_directive() {
    let cargo = Cargo { package: package("tool"), profile: None };
    let readme = String::from("README");
    let read: Result<String, String> = Ok(String::from("From the readme"));
    assert_eq!(cargo.extended_description(text("Declared"), Some(&readme), &read).unwrap(), text("Declared"));
    assert_eq!(cargo.extended_description(None, Some(&readme), &read).unwrap(), text("From the readme"));
    assert_eq!(cargo.extended_description(None, None, &read).unwrap(), None);
}

#[test]
fn output_directory_follows_the_target() {
    assert_eq!(output_dir("target", None), "target");
    assert_eq!(output_dir("target", Some("x86_64-unknown-linux-musl")), "target/x86_64-unknown-linux-musl");
}

fn metadata(root_id: &str, workspace_root: Option<String>) -> CargoMetadata {
    CargoMetadata {
        packages: vec![
            CargoMetadataPackage {
                id: String::from("dep 0.1.0"),
                targets: vec![target("dep", &["lib"], &["lib"])],
                manifest_path: String::from("/registry/dep/Cargo.toml"),
            },
            one_binary(),
        ],
        resolve: CargoMetadataResolve { root: String::from(root_id) },
        target_directory: String::from("/work/target"),
        workspace_root,
    }
}

#[test]
fn root_package_is_found_by_its_identifier() {
    let m = metadata("tool 1.2.3 (path+file:///work)", None);
    let found = m.root_package().unwrap();
    assert_eq!(found.manifest_path, "/work/Cargo.toml");
    assert_eq!(m.workspace_root_of(found), text("/work"));
    let m = metadata("tool 1.2.3 (path+file:///work)", text("/ws"));
    assert_eq!(m.workspace_root_of(m.root_package().unwrap()), text("/ws"));
    assert!(metadata("unknown", None).root_package().is_none());
}

#[test]
fn manifest_resolves_against_the_build_description() {
    let m = metadata("tool 1.2.3 (path+file:///work)", None);
    let cargo = Cargo { package: package("tool"), profile: None };
    let (config, warnings) =
        Config::from_manifest(Some("aarch64-unknown-linux-gnu"), &m, cargo, "x86_64", &nothing_on_disk())
            .unwrap();
    assert!(warnings.is_empty());
    assert_eq!(config.workspace_root, "/work");
    assert_eq!(config.target_dir, "/work/target/aarch64-unknown-linux-gnu");
    assert_eq!(config.architecture, "arm64");
    assert_eq!(config.assets.len(), 2);
}

#[test]
fn manifest_needs_its_root_package() {
    let m = metadata("unknown", None);
    let cargo = Cargo { package: package("tool"), profile: None };
    assert!(matches!(
        Config::from_manifest(None, &m, cargo, "x86_64", &nothing_on_disk()),
        Err(CargoDebError::NoRootPackage)
    ));
}

#[test]
fn manifest_needs_a_workspace_root() {
    let mut m = metadata("tool 1.2.3 (path+file:///work)", None);
    m.packages[1].manifest_path = String::from("/");
    let cargo = Cargo { package: package("tool"), profile: None };
    assert!(matches!(
        Config::from_manifest(None, &m, cargo, "x86_64", &nothing_on_disk()),
        Err(CargoDebError::NoWorkspaceRoot(_))
    ));
}
