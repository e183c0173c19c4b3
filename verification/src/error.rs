//! Why a manifest could not be turned into a package description.

use vstd::prelude::*;

verus! {

/// A fatal error: no package description is produced.
#[derive(Debug)]
pub enum CargoDebError {
    /// The build metadata names a root package that it does not list.
    NoRootPackage,
    /// The manifest's path has no directory to take as the workspace root.
    NoWorkspaceRoot(String),
    /// The number of lines to skip in the license file is no number.
    InvalidLicenseLines(String),
    /// Neither a copyright nor authors are given.
    MissingCopyright,
    /// The readme at this path could not be read, for this reason.
    UnreadableReadme(String, String),
    /// Neither a maintainer nor authors are given.
    MissingMaintainer,
    /// An asset rule names no source.
    MissingAssetPath,
    /// An asset rule names no destination.
    MissingAssetTarget,
    /// An asset rule names no permission bits.
    MissingAssetChmod,
    /// The permission bits of an asset rule are no octal number.
    InvalidChmod(String),
    /// The source of an asset rule is no valid pattern.
    InvalidPattern(String),
    /// A file that a pattern may match could not be read, for this reason.
    UnreadableMatch(String),
    /// A matched file does not lie under the literal part of its pattern.
    MisplacedMatch(String),
    /// The destination names a directory and this source has no file name.
    SourceWithoutName(String),
    /// No asset was found: the package would be empty.
    NoAssets,
}

/// An error as plain values.
pub enum ErrorView {
    NoRootPackage,
    NoWorkspaceRoot(Seq<char>),
    InvalidLicenseLines(Seq<char>),
    MissingCopyright,
    UnreadableReadme(Seq<char>, Seq<char>),
    MissingMaintainer,
    MissingAssetPath,
    MissingAssetTarget,
    MissingAssetChmod,
    InvalidChmod(Seq<char>),
    InvalidPattern(Seq<char>),
    UnreadableMatch(Seq<char>),
    MisplacedMatch(Seq<char>),
    SourceWithoutName(Seq<char>),
    NoAssets,
}

impl View for CargoDebError {
    type V = ErrorView;

    open spec fn view(&self) -> ErrorView {
        match self {
            CargoDebError::NoRootPackage => ErrorView::NoRootPackage,
            CargoDebError::NoWorkspaceRoot(p) => ErrorView::NoWorkspaceRoot(p@),
            CargoDebError::InvalidLicenseLines(s) => ErrorView::InvalidLicenseLines(s@),
            CargoDebError::MissingCopyright => ErrorView::MissingCopyright,
            CargoDebError::UnreadableReadme(p, r) => ErrorView::UnreadableReadme(p@, r@),
            CargoDebError::MissingMaintainer => ErrorView::MissingMaintainer,
            CargoDebError::MissingAssetPath => ErrorView::MissingAssetPath,
            CargoDebError::MissingAssetTarget => ErrorView::MissingAssetTarget,
            CargoDebError::MissingAssetChmod => ErrorView::MissingAssetChmod,
            CargoDebError::InvalidChmod(s) => ErrorView::InvalidChmod(s@),
            CargoDebError::InvalidPattern(s) => ErrorView::InvalidPattern(s@),
            CargoDebError::UnreadableMatch(s) => ErrorView::UnreadableMatch(s@),
            CargoDebError::MisplacedMatch(s) => ErrorView::MisplacedMatch(s@),
            CargoDebError::SourceWithoutName(s) => ErrorView::SourceWithoutName(s@),
            CargoDebError::NoAssets => ErrorView::NoAssets,
        }
    }
}

/// The text that tells a user of the error `e`.
pub open spec fn message_spec(e: ErrorView) -> Seq<char> {
    match e {
        ErrorView::NoRootPackage => "Unable to find root package in cargo metadata"@,
        ErrorView::NoWorkspaceRoot(p) => "no workspace_root: "@ + p,
        ErrorView::InvalidLicenseLines(s) => "invalid number of lines: "@ + s,
        ErrorView::MissingCopyright => "Package must have a copyright or authors"@,
        ErrorView::UnreadableReadme(p, r) => "unable to read README: "@ + p + ": "@ + r,
        ErrorView::MissingMaintainer => "Package must have a maintainer or authors"@,
        ErrorView::MissingAssetPath => "missing path for asset"@,
        ErrorView::MissingAssetTarget => "missing target for asset"@,
        ErrorView::MissingAssetChmod => "missing chmod for asset"@,
        ErrorView::InvalidChmod(s) => "unable to parse chmod argument: "@ + s,
        ErrorView::InvalidPattern(s) => "invalid glob pattern: "@ + s,
        ErrorView::UnreadableMatch(s) => "unable to read a matched path: "@ + s,
        ErrorView::MisplacedMatch(s) => "match outside of its pattern: "@ + s,
        ErrorView::SourceWithoutName(s) => "source must be a file: "@ + s,
        ErrorView::NoAssets =>
            "No binaries found. The package is empty. Please specify some assets to package in Cargo.toml"@,
    }
}

/// `head` followed by `tail`.
fn with_detail(head: &str, tail: &str) -> (r: String)
    ensures
        r@ == head@ + tail@,
{
    let mut r = String::from_str(head);
    r.append(tail);
    r
}

impl CargoDebError {
    /// The text that tells a user of this error.
    pub fn message(&self) -> (text: String)
        ensures
            text@ == message_spec(self@),
    {
        match self {
            CargoDebError::NoRootPackage => String::from_str(
                "Unable to find root package in cargo metadata",
            ),
            CargoDebError::NoWorkspaceRoot(p) => with_detail("no workspace_root: ", p.as_str()),
            CargoDebError::InvalidLicenseLines(s) => with_detail(
                "invalid number of lines: ",
                s.as_str(),
            ),
            CargoDebError::MissingCopyright => String::from_str(
                "Package must have a copyright or authors",
            ),
            CargoDebError::UnreadableReadme(p, r) => {
                let mut text = with_detail("unable to read README: ", p.as_str());
                text.append(": ");
                text.append(r.as_str());
                text
            },
            CargoDebError::MissingMaintainer => String::from_str(
                "Package must have a maintainer or authors",
            ),
            CargoDebError::MissingAssetPath => String::from_str("missing path for asset"),
            CargoDebError::MissingAssetTarget => String::from_str("missing target for asset"),
            CargoDebError::MissingAssetChmod => String::from_str("missing chmod for asset"),
            CargoDebError::InvalidChmod(s) => with_detail(
                "unable to parse chmod argument: ",
                s.as_str(),
            ),
            CargoDebError::InvalidPattern(s) => with_detail("invalid glob pattern: ", s.as_str()),
            CargoDebError::UnreadableMatch(s) => with_detail(
                "unable to read a matched path: ",
                s.as_str(),
            ),
            CargoDebError::MisplacedMatch(s) => with_detail(
                "match outside of its pattern: ",
                s.as_str(),
            ),
            CargoDebError::SourceWithoutName(s) => with_detail(
                "source must be a file: ",
                s.as_str(),
            ),
            CargoDebError::NoAssets => String::from_str(
                "No binaries found. The package is empty. Please specify some assets to package in Cargo.toml",
            ),
        }
    }
}

} // verus!
