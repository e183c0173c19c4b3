use deb_manifest::error::CargoDebError;

#[test]
fn errors_without_detail_have_fixed_messages() {
    assert_eq!(
        CargoDebError::NoRootPackage.message(),
        "Unable to find root package in cargo metadata"
    );
    assert_eq!(
        CargoDebError::MissingCopyright.message(),
        "Package must have a copyright or authors"
    );
    assert_eq!(
        CargoDebError::MissingMaintainer.message(),
        "Package must have a maintainer or authors"
    );
    assert_eq!(CargoDebError::MissingAssetPath.message(), "missing path for asset");
    assert_eq!(CargoDebError::MissingAssetTarget.message(), "missing target for asset");
    assert_eq!(CargoDebError::MissingAssetChmod.message(), "missing chmod for asset");
    assert_eq!(
        CargoDebError::NoAssets.message(),
        "No binaries found. The package is empty. Please specify some assets to package in Cargo.toml"
    );
}

#[test]
fn errors_with_detail_name_it() {
    assert_eq!(
        CargoDebError::InvalidChmod(String::from("75a")).message(),
        "unable to parse chmod argument: 75a"
    );
    assert_eq!(
        CargoDebError::InvalidLicenseLines(String::from("two")).message(),
        "invalid number of lines: two"
    );
    assert_eq!(
        CargoDebError::UnreadableReadme(String::from("README.md"), String::from("not found"))
            .message(),
        "unable to read README: README.md: not found"
    );
    assert_eq!(
        CargoDebError::InvalidPattern(String::from("a/***")).message(),
        "invalid glob pattern: a/***"
    );
    assert_eq!(
        CargoDebError::UnreadableMatch(String::from("denied")).message(),
        "unable to read a matched path: denied"
    );
    assert_eq!(
        CargoDebError::MisplacedMatch(String::from("x/y")).message(),
        "match outside of its pattern: x/y"
    );
    assert_eq!(
        CargoDebError::SourceWithoutName(String::from("..")).message(),
        "source must be a file: .."
    );
    assert_eq!(
        CargoDebError::NoWorkspaceRoot(String::from("/")).message(),
        "no workspace_root: /"
    );
}
