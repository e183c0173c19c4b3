//! The resolved description of the package to build.

use vstd::prelude::*;
use crate::asset::{
    can_place, is_binary_executable_spec, is_directory_target, placed, Asset, AssetView,
};
use crate::path::{
    component_ranges, is_absolute_spec, join, join_spec, lemma_component_has_no_separator, parent,
    parent_spec, without_root,
};
use crate::text::{contains, ends_with, has_substring, starts_with};

verus! {

/// Everything that is known of the package once its manifest is resolved.
#[derive(Debug)]
pub struct Config {
    /// The directory that relative sources are taken from.
    pub workspace_root: String,
    /// The target triple built for, where the build is a cross build.
    pub target: Option<String>,
    /// The directory that holds the build's output.
    pub target_dir: String,
    /// The name of the project to build
    pub name: String,
    /// The software license of the project.
    pub license: Option<String>,
    /// The location of the license file
    pub license_file: Option<String>,
    /// The number of lines to skip at the start of the license file.
    pub license_file_skip_lines: usize,
    /// The copyright of the project.
    pub copyright: String,
    /// The version number of the project.
    pub version: String,
    /// The homepage of the project.
    pub homepage: Option<String>,
    /// Where the project's documentation is found.
    pub documentation: Option<String>,
    /// The URL of the software repository.
    pub repository: Option<String>,
    /// A short description of the project.
    pub description: String,
    /// An extended description of the project.
    pub extended_description: Option<String>,
    /// The maintainer of the Debian package.
    pub maintainer: String,
    /// The Debian dependencies required to run the project.
    pub depends: String,
    /// The category by which the package belongs.
    pub section: Option<String>,
    /// The priority of the project. Typically 'optional'.
    pub priority: String,
    /// Packages that this one conflicts with.
    pub conflicts: Option<String>,
    /// Packages that this one breaks.
    pub breaks: Option<String>,
    /// Packages that this one replaces.
    pub replaces: Option<String>,
    /// Packages that this one provides.
    pub provides: Option<String>,
    /// The architecture of the running system.
    pub architecture: String,
    /// A list of configuration files installed by the package.
    pub conf_files: Option<String>,
    /// All of the files that are to be packaged.
    pub assets: Vec<Asset>,
    /// The path were possible maintainer scripts live
    pub maintainer_scripts: Option<String>,
    /// List of Cargo features to use during build
    pub features: Vec<String>,
    /// Whether the default features are built.
    pub default_features: bool,
    /// Should the binary be stripped from debug symbols?
    pub strip: bool,
}

/// A package description as plain values.
pub struct ConfigView {
    pub workspace_root: Seq<char>,
    pub target: Option<Seq<char>>,
    pub target_dir: Seq<char>,
    pub name: Seq<char>,
    pub license: Option<Seq<char>>,
    pub license_file: Option<Seq<char>>,
    pub license_file_skip_lines: usize,
    pub copyright: Seq<char>,
    pub version: Seq<char>,
    pub homepage: Option<Seq<char>>,
    pub documentation: Option<Seq<char>>,
    pub repository: Option<Seq<char>>,
    pub description: Seq<char>,
    pub extended_description: Option<Seq<char>>,
    pub maintainer: Seq<char>,
    pub depends: Seq<char>,
    pub section: Option<Seq<char>>,
    pub priority: Seq<char>,
    pub conflicts: Option<Seq<char>>,
    pub breaks: Option<Seq<char>>,
    pub replaces: Option<Seq<char>>,
    pub provides: Option<Seq<char>>,
    pub architecture: Seq<char>,
    pub conf_files: Option<Seq<char>>,
    pub assets: Seq<AssetView>,
    pub maintainer_scripts: Option<Seq<char>>,
    pub features: Seq<Seq<char>>,
    pub default_features: bool,
    pub strip: bool,
}

impl View for Config {
    type V = ConfigView;

    open spec fn view(&self) -> ConfigView {
        ConfigView {
            workspace_root: self.workspace_root@,
            target: self.target.deep_view(),
            target_dir: self.target_dir@,
            name: self.name@,
            license: self.license.deep_view(),
            license_file: self.license_file.deep_view(),
            license_file_skip_lines: self.license_file_skip_lines,
            copyright: self.copyright@,
            version: self.version@,
            homepage: self.homepage.deep_view(),
            documentation: self.documentation.deep_view(),
            repository: self.repository.deep_view(),
            description: self.description@,
            extended_description: self.extended_description.deep_view(),
            maintainer: self.maintainer@,
            depends: self.depends@,
            section: self.section.deep_view(),
            priority: self.priority@,
            conflicts: self.conflicts.deep_view(),
            breaks: self.breaks.deep_view(),
            replaces: self.replaces.deep_view(),
            provides: self.provides.deep_view(),
            architecture: self.architecture@,
            conf_files: self.conf_files.deep_view(),
            assets: self.assets.deep_view(),
            maintainer_scripts: self.maintainer_scripts.deep_view(),
            features: self.features.deep_view(),
            default_features: self.default_features,
            strip: self.strip,
        }
    }
}

/// Where the build puts `rel_path`: under `release` in the target directory.
pub open spec fn path_in_build_spec(target_dir: Seq<char>, rel_path: Seq<char>) -> Seq<char> {
    join_spec(join_spec(target_dir, "release"@), rel_path)
}

/// The directory in which the package is put together.
pub open spec fn deb_dir_spec(target_dir: Seq<char>) -> Seq<char> {
    join_spec(target_dir, "debian"@)
}

/// Where `rel_path` lies in the directory in which the package is put together.
pub open spec fn path_in_deb_spec(target_dir: Seq<char>, rel_path: Seq<char>) -> Seq<char> {
    join_spec(deb_dir_spec(target_dir), rel_path)
}

/// Where the documentation file `file` of the package `name` is installed.
pub open spec fn doc_path_spec(name: Seq<char>, file: Seq<char>) -> Seq<char> {
    join_spec(join_spec("usr/share/doc"@, name), file)
}

/// The asset that carries the package's copyright file.
pub open spec fn copyright_asset(target_dir: Seq<char>, name: Seq<char>) -> AssetView {
    placed(path_in_deb_spec(target_dir, "copyright"@), doc_path_spec(name, "copyright"@), 0o644)
}

/// The asset that carries the changelog read from `log_file`.
pub open spec fn changelog_asset(name: Seq<char>, log_file: Seq<char>) -> AssetView {
    placed(log_file, doc_path_spec(name, "changelog"@), 0o644)
}

/// The directory that holds release builds: `release` in the target
/// directory, or beside it where the target directory is that of a cross
/// build.
pub open spec fn release_dir_spec(target: Option<Seq<char>>, target_dir: Seq<char>) -> Seq<char> {
    join_spec(
        if target is Some {
            parent_spec(target_dir)->0
        } else {
            target_dir
        },
        "release"@,
    )
}

/// The sources of those of `assets` that are executables of the build, in
/// their order.
pub open spec fn binaries_spec(
    assets: Seq<AssetView>,
    workspace_root: Seq<char>,
    release_dir: Seq<char>,
) -> Seq<Seq<char>>
    decreases assets.len(),
{
    if assets.len() == 0 {
        Seq::empty()
    } else {
        let before = binaries_spec(assets.drop_last(), workspace_root, release_dir);
        if is_binary_executable_spec(assets.last(), workspace_root, release_dir) {
            before.push(assets.last().source_file)
        } else {
            before
        }
    }
}

/// Whether a repository URL looks like one of Git.
pub open spec fn looks_like_git(repo: Seq<char>) -> bool {
    "git+"@.is_prefix_of(repo) || ".git"@.is_suffix_of(repo) || has_substring(repo, "git@"@)
        || has_substring(repo, "github.com"@) || has_substring(repo, "gitlab.com"@)
}

/// Whether a repository URL looks like one of CVS.
pub open spec fn looks_like_cvs(repo: Seq<char>) -> bool {
    "cvs+"@.is_prefix_of(repo) || has_substring(repo, "pserver:"@) || has_substring(
        repo,
        "@cvs."@,
    )
}

/// Whether a repository URL looks like one of Mercurial.
pub open spec fn looks_like_hg(repo: Seq<char>) -> bool {
    "hg+"@.is_prefix_of(repo) || has_substring(repo, "hg@"@) || has_substring(repo, "/hg."@)
}

/// Whether a repository URL looks like one of Subversion.
pub open spec fn looks_like_svn(repo: Seq<char>) -> bool {
    "svn+"@.is_prefix_of(repo) || has_substring(repo, "/svn."@)
}

/// The kind of source control that a repository URL suggests. The first
/// kind that applies decides.
pub open spec fn repository_type_spec(repository: Option<Seq<char>>) -> Option<Seq<char>> {
    match repository {
        Some(repo) => if looks_like_git(repo) {
            Some("Git"@)
        } else if looks_like_cvs(repo) {
            Some("Cvs"@)
        } else if looks_like_hg(repo) {
            Some("Hg"@)
        } else if looks_like_svn(repo) {
            Some("Svn"@)
        } else {
            None
        },
        None => None,
    }
}

/// A destination that ends in a file's name takes any source.
pub proof fn lemma_file_target_can_be_placed(source: Seq<char>, target: Seq<char>)
    requires
        target.len() > 0,
        target.last() != '/',
    ensures
        can_place(source, target),
        !is_directory_target(target),
{
    if is_absolute_spec(target) {
        let r = component_ranges(target);
        if r.len() > 0 {
            lemma_component_has_no_separator(target, 0);
            let rest = without_root(target);
            assert(rest.last() == target.last());
        }
    }
}

/// A documentation path ends in the name of its file.
proof fn lemma_doc_path_ends_in_file(name: Seq<char>, file: Seq<char>)
    requires
        file.len() > 0,
        file.last() != '/',
    ensures
        doc_path_spec(name, file).len() > 0,
        doc_path_spec(name, file).last() != '/',
{
}

impl Config {
    /// Where the build puts `rel_path`.
    pub fn path_in_build(&self, rel_path: &str) -> (path: String)
        ensures
            path@ == path_in_build_spec(self.target_dir@, rel_path@),
    {
        let release = join(self.target_dir.as_str(), "release");
        join(release.as_str(), rel_path)
    }

    /// The directory in which the package is put together.
    pub fn deb_dir(&self) -> (path: String)
        ensures
            path@ == deb_dir_spec(self.target_dir@),
    {
        join(self.target_dir.as_str(), "debian")
    }

    /// Where `rel_path` lies in the directory in which the package is put
    /// together.
    pub fn path_in_deb(&self, rel_path: &str) -> (path: String)
        ensures
            path@ == path_in_deb_spec(self.target_dir@, rel_path@),
    {
        let dir = self.deb_dir();
        join(dir.as_str(), rel_path)
    }

    /// Where the documentation file `file` of this package is installed.
    fn doc_path(&self, file: &str) -> (path: String)
        ensures
            path@ == doc_path_spec(self.name@, file@),
    {
        let dir = join("usr/share/doc", self.name.as_str());
        join(dir.as_str(), file)
    }

    /// Appends the asset of the copyright file, which is written later.
    pub fn add_copyright_asset(&mut self)
        ensures
            final(self)@ == (ConfigView {
                assets: old(self)@.assets.push(
                    copyright_asset(old(self).target_dir@, old(self).name@),
                ),
                ..old(self)@
            }),
    {
        let path = self.path_in_deb("copyright");
        let target = self.doc_path("copyright");
        proof {
            reveal_strlit("copyright");
            lemma_doc_path_ends_in_file(self.name@, "copyright"@);
            lemma_file_target_can_be_placed(path@, target@);
        }
        let asset = Asset::new(path, target, 0o644);
        let ghost before = self.assets.deep_view();
        self.assets.push(asset);
        assert(self.assets.deep_view() =~= before.push(asset@));
    }

    /// Appends the asset of the changelog, where one is given.
    pub fn add_changelog_asset(&mut self, changelog: Option<String>)
        ensures
            final(self)@ == (ConfigView {
                assets: match changelog {
                    Some(log_file) => old(self)@.assets.push(
                        changelog_asset(old(self).name@, log_file@),
                    ),
                    None => old(self)@.assets,
                },
                ..old(self)@
            }),
    {
        if let Some(log_file) = changelog {
            let target = self.doc_path("changelog");
            proof {
                reveal_strlit("changelog");
                lemma_doc_path_ends_in_file(self.name@, "changelog"@);
                lemma_file_target_can_be_placed(log_file@, target@);
            }
            let asset = Asset::new(log_file, target, 0o644);
            let ghost before = self.assets.deep_view();
            self.assets.push(asset);
            assert(self.assets.deep_view() =~= before.push(asset@));
        }
    }

    /// The sources of the assets that are executables of the build.
    pub fn binaries(&self) -> (sources: Vec<String>)
        requires
            self.target is Some ==> parent_spec(self.target_dir@) is Some,
        ensures
            sources.deep_view() == binaries_spec(
                self@.assets,
                self.workspace_root@,
                release_dir_spec(self@.target, self.target_dir@),
            ),
    {
        let release_dir_prefix = if self.target.is_some() {
            let dir = parent(self.target_dir.as_str());
            assert(dir.deep_view() is Some);
            let dir = dir.unwrap();
            join(dir.as_str(), "release")
        } else {
            join(self.target_dir.as_str(), "release")
        };
        let ghost release = release_dir_spec(self@.target, self.target_dir@);
        assert(release_dir_prefix@ == release);
        let ghost all = self.assets.deep_view();
        let mut sources: Vec<String> = Vec::new();
        let mut i: usize = 0;
        assert(all.take(0) =~= Seq::<AssetView>::empty());
        while i < self.assets.len()
            invariant
                i <= self.assets.len(),
                all == self.assets.deep_view(),
                release_dir_prefix@ == release,
                sources.deep_view() == binaries_spec(
                    all.take(i as int),
                    self.workspace_root@,
                    release,
                ),
            decreases self.assets.len() - i,
        {
            let asset = &self.assets[i];
            proof {
                assert(all.take(i + 1).drop_last() =~= all.take(i as int));
                assert(all.take(i + 1).last() == asset@);
            }
            // Assumes files in build dir which have executable flag set are binaries
            if asset.is_binary_executable(
                self.workspace_root.as_str(),
                release_dir_prefix.as_str(),
            ) {
                let ghost before = sources.deep_view();
                sources.push(asset.source_file.clone());
                assert(sources.deep_view() =~= before.push(asset.source_file@));
            }
            i += 1;
        }
        assert(all.take(i as int) =~= all);
        sources
    }

    /// Tries to guess type of source control used for the repo URL.
    /// It's a guess, and it won't be 100% accurate, because Cargo suggests using
    /// user-friendly URLs or webpages instead of tool-specific URL schemes.
    pub fn repository_type(&self) -> (kind: Option<&'static str>)
        ensures
            match kind {
                Some(k) => repository_type_spec(self@.repository) == Some(k@),
                None => repository_type_spec(self@.repository) is None,
            },
    {
        if let Some(repo) = &self.repository {
            let repo: &str = repo.as_str();
            if starts_with(repo, "git+") || ends_with(repo, ".git") || contains(repo, "git@")
                || contains(repo, "github.com") || contains(repo, "gitlab.com") {
                return Some("Git");
            }
            if starts_with(repo, "cvs+") || contains(repo, "pserver:") || contains(repo, "@cvs.") {
                return Some("Cvs");
            }
            if starts_with(repo, "hg+") || contains(repo, "hg@") || contains(repo, "/hg.") {
                return Some("Hg");
            }
            if starts_with(repo, "svn+") || contains(repo, "/svn.") {
                return Some("Svn");
            }
            return None;
        }
        None
    }
}

} // verus!
