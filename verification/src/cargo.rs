//! The project descriptor with its packaging directives, the build's own
//! description of the project, and what they resolve to.

use vstd::prelude::*;
use crate::error::{CargoDebError, ErrorView};
use crate::number::{parse_count, parse_count_spec};
use crate::rules::AssetRule;
use crate::text::{ends_with, join_with};

verus! {

/// A project descriptor.
#[derive(Clone, Debug)]
pub struct Cargo {
    pub package: CargoPackage,
    pub profile: Option<CargoProfiles>,
}

/// The identity of the project.
#[derive(Clone, Debug)]
pub struct CargoPackage {
    pub name: String,
    pub authors: Option<Vec<String>>,
    pub license: Option<String>,
    pub license_file: Option<String>,
    pub homepage: Option<String>,
    pub documentation: Option<String>,
    pub repository: Option<String>,
    pub version: String,
    pub description: Option<String>,
    pub readme: Option<String>,
    pub metadata: Option<CargoPackageMetadata>,
}

/// What the descriptor holds for tools other than the build.
#[derive(Clone, Debug)]
pub struct CargoPackageMetadata {
    pub deb: Option<CargoDeb>,
}

/// The build profiles of the descriptor.
#[derive(Clone, Debug)]
pub struct CargoProfiles {
    pub release: Option<CargoProfile>,
}

/// One build profile.
#[derive(Clone, Debug)]
pub struct CargoProfile {
    pub debug: Option<bool>,
}

/// The packaging directives: each overrides what is derived from the
/// identity of the project.
#[derive(Clone, Debug)]
pub struct CargoDeb {
    pub maintainer: Option<String>,
    pub copyright: Option<String>,
    pub license_file: Option<Vec<String>>,
    pub changelog: Option<String>,
    pub depends: Option<String>,
    pub conflicts: Option<String>,
    pub breaks: Option<String>,
    pub replaces: Option<String>,
    pub provides: Option<String>,
    pub extended_description: Option<String>,
    pub section: Option<String>,
    pub priority: Option<String>,
    pub revision: Option<String>,
    pub conf_files: Option<Vec<String>>,
    pub assets: Option<Vec<AssetRule>>,
    pub maintainer_scripts: Option<String>,
    pub features: Option<Vec<String>>,
    pub default_features: Option<bool>,
}

/// The build's description of a workspace.
#[derive(Debug)]
pub struct CargoMetadata {
    pub packages: Vec<CargoMetadataPackage>,
    pub resolve: CargoMetadataResolve,
    pub target_directory: String,
    pub workspace_root: Option<String>,
}

/// Which package the build was asked about.
#[derive(Debug)]
pub struct CargoMetadataResolve {
    pub root: String,
}

/// The build's description of one package.
#[derive(Debug)]
pub struct CargoMetadataPackage {
    pub id: String,
    pub targets: Vec<CargoMetadataTarget>,
    pub manifest_path: String,
}

/// The build's description of one target of a package.
#[derive(Debug)]
pub struct CargoMetadataTarget {
    pub name: String,
    pub kind: Vec<String>,
    pub crate_types: Vec<String>,
}

/// What was found on disk around the project.
#[derive(Debug)]
pub struct ProjectFiles {
    /// The text of the readme that the descriptor names, or why it could
    /// not be read. It is looked at only where the descriptor names a
    /// readme and no extended description.
    pub readme_text: Result<String, String>,
    /// Whether a file `README.md` exists.
    pub readme_md_exists: bool,
    /// Whether a file `README.txt` exists.
    pub readme_txt_exists: bool,
    /// Whether a file `README` exists.
    pub readme_exists: bool,
}

/// Directives that override nothing.
pub open spec fn no_directives() -> CargoDeb {
    CargoDeb {
        maintainer: None,
        copyright: None,
        license_file: None,
        changelog: None,
        depends: None,
        conflicts: None,
        breaks: None,
        replaces: None,
        provides: None,
        extended_description: None,
        section: None,
        priority: None,
        revision: None,
        conf_files: None,
        assets: None,
        maintainer_scripts: None,
        features: None,
        default_features: None,
    }
}

impl Default for CargoDeb {
    fn default() -> (deb: CargoDeb)
        ensures
            deb == no_directives(),
    {
        CargoDeb {
            maintainer: None,
            copyright: None,
            license_file: None,
            changelog: None,
            depends: None,
            conflicts: None,
            breaks: None,
            replaces: None,
            provides: None,
            extended_description: None,
            section: None,
            priority: None,
            revision: None,
            conf_files: None,
            assets: None,
            maintainer_scripts: None,
            features: None,
            default_features: None,
        }
    }
}

/// The directives of a descriptor, or directives that override nothing.
pub open spec fn directives_of(metadata: Option<CargoPackageMetadata>) -> CargoDeb {
    match metadata {
        Some(m) => match m.deb {
            Some(deb) => deb,
            None => no_directives(),
        },
        None => no_directives(),
    }
}

/// The version of the package: that of the project, followed by `-` and
/// the revision where one is given.
pub open spec fn version_string_spec(version: Seq<char>, revision: Option<Seq<char>>) -> Seq<char> {
    match revision {
        Some(r) => version + seq!['-'] + r,
        None => version,
    }
}

/// The license file and the number of its lines to skip. The directive
/// gives the file and, as a second item, the number; without the
/// directive the file is that of the project and nothing is skipped.
pub open spec fn license_file_spec(
    project_file: Option<Seq<char>>,
    directive: Option<Seq<Seq<char>>>,
) -> Result<(Option<Seq<char>>, usize), ErrorView> {
    match directive {
        Some(args) => {
            let file = if args.len() >= 1 {
                Some(args[0])
            } else {
                None
            };
            if args.len() >= 2 {
                match parse_count_spec(args[1]) {
                    Some(lines) => Ok((file, lines as usize)),
                    None => Err(ErrorView::InvalidLicenseLines(args[1])),
                }
            } else {
                Ok((file, 0usize))
            }
        },
        None => Ok((project_file, 0usize)),
    }
}

/// The extended description: the directive, else the text of the readme
/// that the project names, else none. A readme that is needed and could
/// not be read is an error.
pub open spec fn extended_description_spec(
    desc: Option<Seq<char>>,
    readme: Option<Seq<char>>,
    readme_text: Result<String, String>,
) -> Result<Option<Seq<char>>, ErrorView> {
    if desc is Some {
        Ok(desc)
    } else {
        match readme {
            Some(path) => match readme_text {
                Ok(text) => Ok(Some(text@)),
                Err(reason) => Err(ErrorView::UnreadableReadme(path, reason@)),
            },
            None => Ok(None),
        }
    }
}

/// The copyright: the directive, else the authors in a row.
pub open spec fn copyright_spec(
    directive: Option<Seq<char>>,
    authors: Option<Seq<Seq<char>>>,
) -> Result<Seq<char>, ErrorView> {
    match directive {
        Some(c) => Ok(c),
        None => match authors {
            Some(a) => Ok(join_with(a, ", "@)),
            None => Err(ErrorView::MissingCopyright),
        },
    }
}

/// The maintainer: the directive, else the first author.
pub open spec fn maintainer_spec(
    directive: Option<Seq<char>>,
    authors: Option<Seq<Seq<char>>>,
) -> Result<Seq<char>, ErrorView> {
    match directive {
        Some(m) => Ok(m),
        None => match authors {
            Some(a) => if a.len() > 0 {
                Ok(a[0])
            } else {
                Err(ErrorView::MissingMaintainer)
            },
            None => Err(ErrorView::MissingMaintainer),
        },
    }
}

/// Whether debug symbols are stripped: unless the release profile asks
/// for them.
pub open spec fn strip_spec(profile: Option<CargoProfiles>) -> bool {
    match profile {
        Some(p) => match p.release {
            Some(r) => match r.debug {
                Some(debug) => !debug,
                None => true,
            },
            None => true,
        },
        None => true,
    }
}

/// The warning for a markdown readme that stands in for the extended
/// description.
pub open spec fn markdown_warning(readme: Seq<char>) -> Seq<char> {
    "extended-description field missing. Using "@ + readme
        + ", but markdown may not render well."@
}

/// The warning for a readme that lies on disk and is not named.
pub open spec fn stray_readme_warning(file: Seq<char>) -> Seq<char> {
    file + " file exists, but is not specified in `readme` Cargo.toml field"@
}

/// The first of `README.md`, `README.txt` and `README` that exists.
pub open spec fn stray_readme(files: ProjectFiles) -> Option<Seq<char>> {
    if files.readme_md_exists {
        Some("README.md"@)
    } else if files.readme_txt_exists {
        Some("README.txt"@)
    } else if files.readme_exists {
        Some("README"@)
    } else {
        None
    }
}

/// The warning about the readme, if any: a named markdown readme that
/// stands in for the extended description, or a readme that lies on disk
/// while none is named.
pub open spec fn readme_warning(
    readme: Option<Seq<char>>,
    extended_description: Option<Seq<char>>,
    files: ProjectFiles,
) -> Option<Seq<char>> {
    match readme {
        Some(r) => if extended_description is None && (".md"@.is_suffix_of(r)
            || ".markdown"@.is_suffix_of(r)) {
            Some(markdown_warning(r))
        } else {
            None
        },
        None => match stray_readme(files) {
            Some(file) => Some(stray_readme_warning(file)),
            None => None,
        },
    }
}

/// `s` with `item` added where there is one.
pub open spec fn push_if(s: Seq<Seq<char>>, item: Option<Seq<char>>) -> Seq<Seq<char>> {
    match item {
        Some(i) => s.push(i),
        None => s,
    }
}

/// The warnings that a descriptor earns, in this order: no description,
/// no license, the readme.
pub open spec fn check_config_spec(
    description: Option<Seq<char>>,
    license: Option<Seq<char>>,
    readme: Option<Seq<char>>,
    extended_description: Option<Seq<char>>,
    files: ProjectFiles,
) -> Seq<Seq<char>> {
    push_if(
        push_if(
            push_if(
                Seq::empty(),
                if description is None {
                    Some("description field is missing in Cargo.toml"@)
                } else {
                    None
                },
            ),
            if license is None {
                Some("license field is missing in Cargo.toml"@)
            } else {
                None
            },
        ),
        readme_warning(readme, extended_description, files),
    )
}

impl Cargo {
    /// The warnings that this descriptor earns.
    pub fn check_config(&self, readme: Option<&String>, deb: &CargoDeb, files: &ProjectFiles) -> (warnings:
        Vec<String>)
        ensures
            warnings.deep_view() == check_config_spec(
                self.package.description.deep_view(),
                self.package.license.deep_view(),
                readme.deep_view(),
                deb.extended_description.deep_view(),
                *files,
            ),
    {
        let mut warnings: Vec<String> = Vec::new();
        assert(warnings.deep_view() =~= Seq::<Seq<char>>::empty());
        if self.package.description.is_none() {
            let ghost before = warnings.deep_view();
            warnings.push(String::from_str("description field is missing in Cargo.toml"));
            assert(warnings.deep_view() =~= before.push(
                "description field is missing in Cargo.toml"@,
            ));
        }
        if self.package.license.is_none() {
            let ghost before = warnings.deep_view();
            warnings.push(String::from_str("license field is missing in Cargo.toml"));
            assert(warnings.deep_view() =~= before.push("license field is missing in Cargo.toml"@));
        }
        if let Some(readme) = readme {
            if deb.extended_description.is_none() && (ends_with(readme.as_str(), ".md")
                || ends_with(readme.as_str(), ".markdown")) {
                let mut text = String::from_str("extended-description field missing. Using ");
                text.append(readme.as_str());
                text.append(", but markdown may not render well.");
                let ghost before = warnings.deep_view();
                warnings.push(text);
                assert(warnings.deep_view() =~= before.push(markdown_warning(readme@)));
            }
        } else {
            let found: Option<&'static str> = if files.readme_md_exists {
                Some("README.md")
            } else if files.readme_txt_exists {
                Some("README.txt")
            } else if files.readme_exists {
                Some("README")
            } else {
                None
            };
            if let Some(p) = found {
                let mut text = String::from_str(p);
                text.append(" file exists, but is not specified in `readme` Cargo.toml field");
                let ghost before = warnings.deep_view();
                warnings.push(text);
                assert(warnings.deep_view() =~= before.push(stray_readme_warning(p@)));
            }
        }
        warnings
    }

    /// The extended description of the package.
    pub fn extended_description(
        &self,
        desc: Option<String>,
        readme: Option<&String>,
        readme_text: &Result<String, String>,
    ) -> (r: Result<Option<String>, CargoDebError>)
        ensures
            match r {
                Ok(d) => extended_description_spec(desc.deep_view(), readme.deep_view(), *readme_text)
                    == Ok::<Option<Seq<char>>, ErrorView>(d.deep_view()),
                Err(e) => extended_description_spec(
                    desc.deep_view(),
                    readme.deep_view(),
                    *readme_text,
                ) == Err::<Option<Seq<char>>, ErrorView>(e@),
            },
    {
        if desc.is_some() {
            Ok(desc)
        } else if let Some(readme) = readme {
            match readme_text {
                Ok(text) => Ok(Some(text.clone())),
                Err(reason) => Err(CargoDebError::UnreadableReadme(readme.clone(), reason.clone())),
            }
        } else {
            Ok(None)
        }
    }

    /// The license file and the number of its lines to skip.
    pub fn license_file(&self, license_file: Option<&Vec<String>>) -> (r: Result<
        (Option<String>, usize),
        CargoDebError,
    >)
        ensures
            match r {
                Ok((file, lines)) => license_file_spec(
                    self.package.license_file.deep_view(),
                    license_file.deep_view(),
                ) == Ok::<(Option<Seq<char>>, usize), ErrorView>((file.deep_view(), lines)),
                Err(e) => license_file_spec(
                    self.package.license_file.deep_view(),
                    license_file.deep_view(),
                ) == Err::<(Option<Seq<char>>, usize), ErrorView>(e@),
            },
    {
        if let Some(args) = license_file {
            let file: Option<String> = if args.len() >= 1 {
                Some(args[0].clone())
            } else {
                None
            };
            let lines: usize = if args.len() >= 2 {
                match parse_count(args[1].as_str()) {
                    Some(lines) => lines,
                    None => {
                        return Err(CargoDebError::InvalidLicenseLines(args[1].clone()));
                    },
                }
            } else {
                0
            };
            Ok((file, lines))
        } else {
            Ok((self.package.license_file.clone(), 0))
        }
    }

    /// The version of the package.
    pub fn version_string(&self, revision: Option<String>) -> (version: String)
        ensures
            version@ == version_string_spec(self.package.version@, revision.deep_view()),
    {
        if let Some(revision) = revision {
            let mut version = self.package.version.clone();
            proof {
                reveal_strlit("-");
                assert("-"@ =~= seq!['-']);
            }
            version.append("-");
            version.append(revision.as_str());
            version
        } else {
            self.package.version.clone()
        }
    }
}

} // verus!
