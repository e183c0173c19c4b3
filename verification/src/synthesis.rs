//! From a project descriptor to the description of its package.

use vstd::prelude::*;
use crate::arch::{get_arch, get_arch_spec};
use crate::asset::{Asset, AssetView};
use crate::cargo::{
    check_config_spec, copyright_spec, directives_of, extended_description_spec,
    license_file_spec, maintainer_spec, no_directives, strip_spec, version_string_spec, Cargo,
    CargoDeb, CargoMetadata, CargoMetadataPackage, CargoMetadataTarget, ProjectFiles,
};
use crate::config::{
    changelog_asset, copyright_asset, doc_path_spec, path_in_build_spec, Config, ConfigView,
};
use crate::error::{CargoDebError, ErrorView};
use crate::path::{join, join_spec, parent, parent_spec};
use crate::rules::{
    assets_result_view, explicit_assets, explicit_assets_spec, place, place_spec, AssetRule,
    AssetRuleView,
};
use crate::text::{any_equals, concat_lines, join_strings, lines_of, str_eq};

verus! {

/// Whether a target is an executable: both its kinds and its crate types
/// name `bin`.
pub open spec fn is_binary_target(target: CargoMetadataTarget) -> bool {
    target.crate_types.deep_view().contains("bin"@) && target.kind.deep_view().contains("bin"@)
}

/// The asset of the executable `name`: from the build's output to
/// `usr/bin`, with the bits 755.
pub open spec fn binary_asset_spec(target_dir: Seq<char>, name: Seq<char>) -> Result<
    AssetView,
    ErrorView,
> {
    place_spec(path_in_build_spec(target_dir, name), join_spec("usr/bin"@, name), 0o755)
}

/// The assets of the executables among `targets`, in their order.
pub open spec fn binary_assets_spec(target_dir: Seq<char>, targets: Seq<CargoMetadataTarget>) -> Result<
    Seq<AssetView>,
    ErrorView,
>
    decreases targets.len(),
{
    if targets.len() == 0 {
        Ok(Seq::empty())
    } else {
        match binary_assets_spec(target_dir, targets.drop_last()) {
            Err(e) => Err(e),
            Ok(assets) => if is_binary_target(targets.last()) {
                match binary_asset_spec(target_dir, targets.last().name@) {
                    Err(e) => Err(e),
                    Ok(asset) => Ok(assets.push(asset)),
                }
            } else {
                Ok(assets)
            },
        }
    }
}

/// The asset of the readme: to the documentation of the package, with the
/// bits 644.
pub open spec fn readme_asset_spec(name: Seq<char>, readme: Seq<char>) -> Result<
    AssetView,
    ErrorView,
> {
    place_spec(readme, doc_path_spec(name, readme), 0o644)
}

/// The assets of a project that declares none: its executables, then its
/// readme where it names one.
pub open spec fn implied_assets_spec(
    target_dir: Seq<char>,
    name: Seq<char>,
    targets: Seq<CargoMetadataTarget>,
    readme: Option<Seq<char>>,
) -> Result<Seq<AssetView>, ErrorView> {
    match binary_assets_spec(target_dir, targets) {
        Err(e) => Err(e),
        Ok(assets) => match readme {
            Some(r) => match readme_asset_spec(name, r) {
                Err(e) => Err(e),
                Ok(asset) => Ok(assets.push(asset)),
            },
            None => Ok(assets),
        },
    }
}

/// The assets of a project: those of its declared rules, or, where it
/// declares none, the implied ones.
pub open spec fn take_assets_spec(
    target_dir: Seq<char>,
    name: Seq<char>,
    rules: Option<Seq<AssetRuleView>>,
    targets: Seq<CargoMetadataTarget>,
    readme: Option<Seq<char>>,
) -> Result<Seq<AssetView>, ErrorView> {
    match rules {
        Some(r) => explicit_assets_spec(target_dir, r),
        None => implied_assets_spec(target_dir, name, targets, readme),
    }
}

/// Once the first `i` targets fail, so do all of them, with the same error.
proof fn lemma_binary_assets_fail_later(
    target_dir: Seq<char>,
    targets: Seq<CargoMetadataTarget>,
    i: int,
)
    requires
        0 <= i <= targets.len(),
        binary_assets_spec(target_dir, targets.take(i)) is Err,
    ensures
        binary_assets_spec(target_dir, targets) == binary_assets_spec(target_dir, targets.take(i)),
    decreases targets.len() - i,
{
    if i < targets.len() {
        assert(targets.take(i + 1).drop_last() =~= targets.take(i));
        lemma_binary_assets_fail_later(target_dir, targets, i + 1);
    } else {
        assert(targets.take(i) =~= targets);
    }
}

/// Makes the assets of the executables among `targets`.
fn binary_assets(options: &Config, targets: &Vec<CargoMetadataTarget>) -> (r: Result<
    Vec<Asset>,
    CargoDebError,
>)
    ensures
        assets_result_view(r) == binary_assets_spec(options.target_dir@, targets@),
{
    let ghost all = targets@;
    let mut assets: Vec<Asset> = Vec::new();
    let mut i: usize = 0;
    assert(all.take(0) =~= Seq::<CargoMetadataTarget>::empty());
    assert(assets.deep_view() =~= Seq::<AssetView>::empty());
    while i < targets.len()
        invariant
            i <= targets.len(),
            all == targets@,
            binary_assets_spec(options.target_dir@, all.take(i as int)) == Ok::<
                Seq<AssetView>,
                ErrorView,
            >(assets.deep_view()),
        decreases targets.len() - i,
    {
        let bin = &targets[i];
        proof {
            assert(all.take(i + 1).drop_last() =~= all.take(i as int));
            assert(all.take(i + 1).last() == *bin);
        }
        if any_equals(&bin.crate_types, "bin") && any_equals(&bin.kind, "bin") {
            let source = options.path_in_build(bin.name.as_str());
            let target = join("usr/bin", bin.name.as_str());
            match place(source, target, 0o755) {
                Ok(asset) => {
                    let ghost before = assets.deep_view();
                    assets.push(asset);
                    assert(assets.deep_view() =~= before.push(asset@));
                },
                Err(e) => {
                    proof {
                        lemma_binary_assets_fail_later(options.target_dir@, all, i + 1);
                    }
                    return Err(e);
                },
            }
        }
        i += 1;
    }
    assert(all.take(i as int) =~= all);
    Ok(assets)
}

/// The lines of the configuration files, where any are declared.
pub open spec fn conf_files_spec(conf_files: Option<Seq<Seq<char>>>) -> Option<Seq<char>> {
    match conf_files {
        Some(files) => Some(concat_lines(files)),
        None => None,
    }
}

/// The short description: that of the project, or one made of its name.
pub open spec fn description_spec(description: Option<Seq<char>>, name: Seq<char>) -> Seq<char> {
    match description {
        Some(d) => d,
        None => name + " -- autogenerated Rust project"@,
    }
}

/// `given`, or `fallback` where nothing is given.
pub open spec fn or_default(given: Option<Seq<char>>, fallback: Seq<char>) -> Seq<char> {
    match given {
        Some(g) => g,
        None => fallback,
    }
}

/// The directory that holds the build's output: that of the target where
/// the build is a cross build.
pub open spec fn output_dir_spec(target_dir: Seq<char>, target: Option<Seq<char>>) -> Seq<char> {
    match target {
        Some(t) => join_spec(target_dir, t),
        None => target_dir,
    }
}

/// The assets of the package: those found, then the copyright file, then
/// the changelog where one is declared.
pub open spec fn packaged_assets_spec(
    found: Seq<AssetView>,
    target_dir: Seq<char>,
    name: Seq<char>,
    changelog: Option<Seq<char>>,
) -> Seq<AssetView> {
    let with_copyright = found.push(copyright_asset(target_dir, name));
    match changelog {
        Some(log_file) => with_copyright.push(changelog_asset(name, log_file)),
        None => with_copyright,
    }
}

/// The readme whose text the extended description is taken from.
pub open spec fn readme_to_read_spec(cargo: Cargo) -> Option<Seq<char>> {
    if directives_of(cargo.package.metadata).extended_description is Some {
        None
    } else {
        cargo.package.readme.deep_view()
    }
}

/// What the descriptor alone decides of the package, with no asset yet,
/// or the first error met in this order: the license file's line count,
/// the copyright, the extended description, the maintainer.
pub open spec fn base_config_spec(
    cargo: Cargo,
    workspace_root: Seq<char>,
    target_dir: Seq<char>,
    target: Option<Seq<char>>,
    host_arch: Seq<char>,
    files: ProjectFiles,
) -> Result<ConfigView, ErrorView> {
    let package = cargo.package;
    let deb = directives_of(package.metadata);
    let authors = package.authors.deep_view();
    let license = license_file_spec(package.license_file.deep_view(), deb.license_file.deep_view());
    let copyright = copyright_spec(deb.copyright.deep_view(), authors);
    let extended = extended_description_spec(
        deb.extended_description.deep_view(),
        package.readme.deep_view(),
        files.readme_text,
    );
    let maintainer = maintainer_spec(deb.maintainer.deep_view(), authors);
    if license is Err {
        Err(license->Err_0)
    } else if copyright is Err {
        Err(copyright->Err_0)
    } else if extended is Err {
        Err(extended->Err_0)
    } else if maintainer is Err {
        Err(maintainer->Err_0)
    } else {
        Ok(
            ConfigView {
                workspace_root,
                target,
                target_dir: output_dir_spec(target_dir, target),
                name: package.name@,
                license: package.license.deep_view(),
                license_file: license->Ok_0.0,
                license_file_skip_lines: license->Ok_0.1,
                copyright: copyright->Ok_0,
                version: version_string_spec(package.version@, deb.revision.deep_view()),
                homepage: package.homepage.deep_view(),
                documentation: package.documentation.deep_view(),
                repository: package.repository.deep_view(),
                description: description_spec(package.description.deep_view(), package.name@),
                extended_description: extended->Ok_0,
                maintainer: maintainer->Ok_0,
                depends: or_default(deb.depends.deep_view(), "$auto"@),
                section: deb.section.deep_view(),
                priority: or_default(deb.priority.deep_view(), "optional"@),
                conflicts: deb.conflicts.deep_view(),
                breaks: deb.breaks.deep_view(),
                replaces: deb.replaces.deep_view(),
                provides: deb.provides.deep_view(),
                architecture: get_arch_spec(or_default(target, host_arch)),
                conf_files: conf_files_spec(deb.conf_files.deep_view()),
                assets: Seq::empty(),
                maintainer_scripts: deb.maintainer_scripts.deep_view(),
                features: features_spec(deb.features.deep_view()),
                default_features: default_features_spec(deb.default_features),
                strip: strip_spec(cargo.profile),
            },
        )
    }
}

/// The features to build with: those declared, or none.
pub open spec fn features_spec(features: Option<Seq<Seq<char>>>) -> Seq<Seq<char>> {
    match features {
        Some(f) => f,
        None => Seq::empty(),
    }
}

/// Whether the default features are built: unless the directive says no.
pub open spec fn default_features_spec(directive: Option<bool>) -> bool {
    match directive {
        Some(d) => d,
        None => true,
    }
}

/// The description of the package and the warnings earned, or the first
/// error met: one of what the descriptor alone decides, then those of the
/// assets rule by rule, and at last an empty list of assets. The list is
/// judged before the copyright file and the changelog are added to it.
pub open spec fn to_config_spec(
    cargo: Cargo,
    root_package: CargoMetadataPackage,
    workspace_root: Seq<char>,
    target_dir: Seq<char>,
    target: Option<Seq<char>>,
    host_arch: Seq<char>,
    files: ProjectFiles,
) -> Result<(ConfigView, Seq<Seq<char>>), ErrorView> {
    let package = cargo.package;
    let deb = directives_of(package.metadata);
    let out_dir = output_dir_spec(target_dir, target);
    match base_config_spec(cargo, workspace_root, target_dir, target, host_arch, files) {
        Err(e) => Err(e),
        Ok(base) => match take_assets_spec(
            out_dir,
            package.name@,
            deb.assets.deep_view(),
            root_package.targets@,
            package.readme.deep_view(),
        ) {
            Err(e) => Err(e),
            Ok(found) => if found.len() == 0 {
                Err(ErrorView::NoAssets)
            } else {
                Ok(
                    (
                        ConfigView {
                            assets: packaged_assets_spec(
                                found,
                                out_dir,
                                package.name@,
                                deb.changelog.deep_view(),
                            ),
                            ..base
                        },
                        check_config_spec(
                            package.description.deep_view(),
                            package.license.deep_view(),
                            package.readme.deep_view(),
                            deb.extended_description.deep_view(),
                            files,
                        ),
                    ),
                )
            },
        },
    }
}

/// A package description with its warnings, or an error, as plain values.
pub open spec fn config_result_view(r: Result<(Config, Vec<String>), CargoDebError>) -> Result<
    (ConfigView, Seq<Seq<char>>),
    ErrorView,
> {
    match r {
        Ok((config, warnings)) => Ok((config@, warnings.deep_view())),
        Err(e) => Err(e@),
    }
}

/// A copy of `items`.
fn copy_strings(items: &Vec<String>) -> (copy: Vec<String>)
    ensures
        copy.deep_view() == items.deep_view(),
{
    let mut copy: Vec<String> = Vec::new();
    let mut i: usize = 0;
    while i < items.len()
        invariant
            i <= items.len(),
            copy.len() == i,
            forall|j: int| 0 <= j < i ==> copy[j]@ == items[j]@,
        decreases items.len() - i,
    {
        copy.push(items[i].clone());
        i += 1;
    }
    assert(copy.deep_view() =~= items.deep_view());
    copy
}

impl Cargo {
    /// The assets of the project, before the copyright file and the
    /// changelog are added.
    pub fn take_assets(
        &self,
        options: &Config,
        assets: Option<&Vec<AssetRule>>,
        targets: &Vec<CargoMetadataTarget>,
        readme: Option<&String>,
    ) -> (r: Result<Vec<Asset>, CargoDebError>)
        ensures
            assets_result_view(r) == take_assets_spec(
                options.target_dir@,
                self.package.name@,
                assets.deep_view(),
                targets@,
                readme.deep_view(),
            ),
    {
        if let Some(assets) = assets {
            explicit_assets(assets, options.target_dir.as_str())
        } else {
            let mut implied_assets = match binary_assets(options, targets) {
                Ok(assets) => assets,
                Err(e) => {
                    return Err(e);
                },
            };
            if let Some(readme) = readme {
                let dir = join("usr/share/doc", self.package.name.as_str());
                let target_path = join(dir.as_str(), readme.as_str());
                match place(readme.clone(), target_path, 0o644) {
                    Ok(asset) => {
                        let ghost before = implied_assets.deep_view();
                        implied_assets.push(asset);
                        assert(implied_assets.deep_view() =~= before.push(asset@));
                    },
                    Err(e) => {
                        return Err(e);
                    },
                }
            }
            Ok(implied_assets)
        }
    }

    /// The directives of this descriptor: its own, or such that override
    /// nothing.
    fn directives<'a>(&'a self, fallback: &'a CargoDeb) -> (deb: &'a CargoDeb)
        requires
            *fallback == no_directives(),
        ensures
            *deb == directives_of(self.package.metadata),
    {
        match &self.package.metadata {
            Some(m) => match &m.deb {
                Some(deb) => deb,
                None => fallback,
            },
            None => fallback,
        }
    }

    /// The copyright of the package.
    fn copyright(&self, deb: &CargoDeb) -> (r: Result<String, CargoDebError>)
        ensures
            text_result_view(r) == copyright_spec(
                deb.copyright.deep_view(),
                self.package.authors.deep_view(),
            ),
    {
        match &deb.copyright {
            Some(c) => Ok(c.clone()),
            None => match &self.package.authors {
                Some(authors) => Ok(join_strings(authors, ", ")),
                None => Err(CargoDebError::MissingCopyright),
            },
        }
    }

    /// The maintainer of the package.
    fn maintainer(&self, deb: &CargoDeb) -> (r: Result<String, CargoDebError>)
        ensures
            text_result_view(r) == maintainer_spec(
                deb.maintainer.deep_view(),
                self.package.authors.deep_view(),
            ),
    {
        match &deb.maintainer {
            Some(m) => Ok(m.clone()),
            None => match &self.package.authors {
                Some(authors) => if authors.len() > 0 {
                    assert(authors.deep_view()[0] == authors[0]@);
                    Ok(authors[0].clone())
                } else {
                    Err(CargoDebError::MissingMaintainer)
                },
                None => Err(CargoDebError::MissingMaintainer),
            },
        }
    }

    /// The short description of the package.
    fn description(&self) -> (text: String)
        ensures
            text@ == description_spec(self.package.description.deep_view(), self.package.name@),
    {
        match &self.package.description {
            Some(d) => d.clone(),
            None => {
                let mut d = self.package.name.clone();
                d.append(" -- autogenerated Rust project");
                d
            },
        }
    }

    /// Whether debug symbols are stripped.
    fn strip(&self) -> (b: bool)
        ensures
            b == strip_spec(self.profile),
    {
        match &self.profile {
            Some(p) => match &p.release {
                Some(r) => match r.debug {
                    Some(debug) => !debug,
                    None => true,
                },
                None => true,
            },
            None => true,
        }
    }

    /// The readme whose text is needed to resolve this descriptor: the one
    /// it names, where it declares no extended description.
    pub fn readme_to_read(&self) -> (readme: Option<&String>)
        ensures
            readme.deep_view() == readme_to_read_spec(*self),
    {
        let fallback = CargoDeb::default();
        let described = self.directives(&fallback).extended_description.is_some();
        if described {
            None
        } else {
            self.package.readme.as_ref()
        }
    }

    /// What this descriptor alone decides of the package, with no asset yet.
    fn base_config(
        &self,
        workspace_root: &str,
        target_dir: &str,
        target: Option<&str>,
        host_arch: &str,
        files: &ProjectFiles,
    ) -> (r: Result<Config, CargoDebError>)
        ensures
            match r {
                Ok(config) => base_config_spec(
                    *self,
                    workspace_root@,
                    target_dir@,
                    target.deep_view(),
                    host_arch@,
                    *files,
                ) == Ok::<ConfigView, ErrorView>(config@),
                Err(e) => base_config_spec(
                    *self,
                    workspace_root@,
                    target_dir@,
                    target.deep_view(),
                    host_arch@,
                    *files,
                ) == Err::<ConfigView, ErrorView>(e@),
            },
    {
        let fallback = CargoDeb::default();
        let deb = self.directives(&fallback);
        let (license_file, license_file_skip_lines) = match self.license_file(
            deb.license_file.as_ref(),
        ) {
            Ok(found) => found,
            Err(e) => {
                return Err(e);
            },
        };
        let copyright = match self.copyright(deb) {
            Ok(c) => c,
            Err(e) => {
                return Err(e);
            },
        };
        let extended_description = match self.extended_description(
            copy_text(&deb.extended_description),
            self.package.readme.as_ref(),
            &files.readme_text,
        ) {
            Ok(d) => d,
            Err(e) => {
                return Err(e);
            },
        };
        let maintainer = match self.maintainer(deb) {
            Ok(m) => m,
            Err(e) => {
                return Err(e);
            },
        };
        let assets: Vec<Asset> = Vec::new();
        assert(assets.deep_view() =~= Seq::<AssetView>::empty());
        Ok(
            Config {
                workspace_root: String::from_str(workspace_root),
                target: owned(target),
                // Cargo cross-compiles to a dir
                target_dir: output_dir(target_dir, target),
                name: self.package.name.clone(),
                license: copy_text(&self.package.license),
                license_file,
                license_file_skip_lines,
                copyright,
                version: self.version_string(copy_text(&deb.revision)),
                homepage: copy_text(&self.package.homepage),
                documentation: copy_text(&self.package.documentation),
                repository: copy_text(&self.package.repository),
                description: self.description(),
                extended_description,
                maintainer,
                depends: or_fallback(&deb.depends, "$auto"),
                conflicts: copy_text(&deb.conflicts),
                breaks: copy_text(&deb.breaks),
                replaces: copy_text(&deb.replaces),
                provides: copy_text(&deb.provides),
                section: copy_text(&deb.section),
                priority: or_fallback(&deb.priority, "optional"),
                architecture: architecture(target, host_arch),
                conf_files: conf_files(&deb.conf_files),
                assets,
                maintainer_scripts: copy_text(&deb.maintainer_scripts),
                features: features(&deb.features),
                default_features: match deb.default_features {
                    Some(d) => d,
                    None => true,
                },
                strip: self.strip(),
            },
        )
    }

    /// Resolves this descriptor into the description of its package and
    /// the warnings that it earns.
    pub fn to_config(
        self,
        root_package: &CargoMetadataPackage,
        workspace_root: &str,
        target_dir: &str,
        target: Option<&str>,
        host_arch: &str,
        files: &ProjectFiles,
    ) -> (r: Result<(Config, Vec<String>), CargoDebError>)
        ensures
            config_result_view(r) == to_config_spec(
                self,
                *root_package,
                workspace_root@,
                target_dir@,
                target.deep_view(),
                host_arch@,
                *files,
            ),
    {
        let fallback = CargoDeb::default();
        let deb = self.directives(&fallback);
        let readme = self.package.readme.as_ref();
        let warnings = self.check_config(readme, deb, files);
        let mut config = match self.base_config(
            workspace_root,
            target_dir,
            target,
            host_arch,
            files,
        ) {
            Ok(config) => config,
            Err(e) => {
                return Err(e);
            },
        };
        let ghost base = config@;
        let mut assets = match self.take_assets(
            &config,
            deb.assets.as_ref(),
            &root_package.targets,
            readme,
        ) {
            Ok(assets) => assets,
            Err(e) => {
                return Err(e);
            },
        };
        if assets.len() == 0 {
            return Err(CargoDebError::NoAssets);
        }
        let ghost found = assets.deep_view();
        let ghost found_assets = assets@;
        assert(config.assets.deep_view().len() == 0);
        assert(config.assets@.len() == 0);
        config.assets.append(&mut assets);
        assert(config.assets@ =~= found_assets);
        assert(config.assets.deep_view() =~= found);
        assert(config@ == (ConfigView { assets: found, ..base }));
        config.add_copyright_asset();
        config.add_changelog_asset(deb.changelog.clone());
        Ok((config, warnings))
    }
}

/// A text, or an error, as plain values.
pub open spec fn text_result_view(r: Result<String, CargoDebError>) -> Result<Seq<char>, ErrorView> {
    match r {
        Ok(text) => Ok(text@),
        Err(e) => Err(e@),
    }
}

/// A copy of a text, where there is one.
fn copy_text(text: &Option<String>) -> (copy: Option<String>)
    ensures
        copy.deep_view() == text.deep_view(),
{
    match text {
        Some(t) => Some(t.clone()),
        None => None,
    }
}

/// An owned copy of a borrowed text, where there is one.
fn owned(text: Option<&str>) -> (copy: Option<String>)
    ensures
        copy.deep_view() == text.deep_view(),
{
    match text {
        Some(t) => Some(String::from_str(t)),
        None => None,
    }
}

/// The directory that holds the build's output: that of the target where
/// the build is a cross build.
pub fn output_dir(target_dir: &str, target: Option<&str>) -> (dir: String)
    ensures
        dir@ == output_dir_spec(target_dir@, target.deep_view()),
{
    match target {
        Some(t) => join(target_dir, t),
        None => String::from_str(target_dir),
    }
}

/// `given`, or `fallback` where nothing is given.
fn or_fallback(given: &Option<String>, fallback: &str) -> (text: String)
    ensures
        text@ == or_default(given.deep_view(), fallback@),
{
    match given {
        Some(g) => g.clone(),
        None => String::from_str(fallback),
    }
}

/// Debian's name for the architecture built for: that of the target, or
/// that of the host where no target is given.
fn architecture(target: Option<&str>, host_arch: &str) -> (tag: String)
    ensures
        tag@ == get_arch_spec(or_default(target.deep_view(), host_arch@)),
{
    match target {
        Some(t) => get_arch(t),
        None => get_arch(host_arch),
    }
}

/// The lines of the configuration files, where any are declared.
fn conf_files(declared: &Option<Vec<String>>) -> (lines: Option<String>)
    ensures
        lines.deep_view() == conf_files_spec(declared.deep_view()),
{
    match declared {
        Some(files) => Some(lines_of(files)),
        None => None,
    }
}

/// The features to build with.
fn features(declared: &Option<Vec<String>>) -> (list: Vec<String>)
    ensures
        list.deep_view() == features_spec(declared.deep_view()),
{
    match declared {
        Some(f) => copy_strings(f),
        None => {
            let list: Vec<String> = Vec::new();
            assert(list.deep_view() =~= Seq::<Seq<char>>::empty());
            list
        },
    }
}

/// The position of the first of `packages` from `i` on whose identifier
/// is `root`, or their number where there is none.
pub open spec fn root_package_from(packages: Seq<CargoMetadataPackage>, root: Seq<char>, i: int) -> int
    decreases packages.len() - i,
{
    if i < 0 || i >= packages.len() {
        packages.len() as int
    } else if packages[i].id@ == root {
        i
    } else {
        root_package_from(packages, root, i + 1)
    }
}

/// The package that the build was asked about: the first one listed under
/// the root's identifier.
pub open spec fn root_package_spec(metadata: CargoMetadata) -> Option<CargoMetadataPackage> {
    let k = root_package_from(metadata.packages@, metadata.resolve.root@, 0);
    if k < metadata.packages.len() {
        Some(metadata.packages@[k])
    } else {
        None
    }
}

/// The root of the workspace: as the build gives it, else the directory
/// of the root package's descriptor.
pub open spec fn workspace_root_spec(
    given: Option<Seq<char>>,
    manifest_path: Seq<char>,
) -> Option<Seq<char>> {
    match given {
        Some(root) => Some(root),
        None => parent_spec(manifest_path),
    }
}

/// The description of the package of a parsed descriptor, given the
/// build's description of the workspace: the root package must be listed
/// and a workspace root must be found; then the descriptor is resolved.
pub open spec fn from_manifest_spec(
    target: Option<Seq<char>>,
    metadata: CargoMetadata,
    manifest: Cargo,
    host_arch: Seq<char>,
    files: ProjectFiles,
) -> Result<(ConfigView, Seq<Seq<char>>), ErrorView> {
    match root_package_spec(metadata) {
        None => Err(ErrorView::NoRootPackage),
        Some(root_package) => match workspace_root_spec(
            metadata.workspace_root.deep_view(),
            root_package.manifest_path@,
        ) {
            None => Err(ErrorView::NoWorkspaceRoot(root_package.manifest_path@)),
            Some(workspace_root) => to_config_spec(
                manifest,
                root_package,
                workspace_root,
                metadata.target_directory@,
                target,
                host_arch,
                files,
            ),
        },
    }
}

impl CargoMetadata {
    /// The package that the build was asked about.
    pub fn root_package(&self) -> (found: Option<&CargoMetadataPackage>)
        ensures
            match found {
                Some(package) => root_package_spec(*self) == Some(*package),
                None => root_package_spec(*self) is None,
            },
    {
        let mut i: usize = 0;
        while i < self.packages.len()
            invariant
                i <= self.packages.len(),
                root_package_from(self.packages@, self.resolve.root@, 0) == root_package_from(
                    self.packages@,
                    self.resolve.root@,
                    i as int,
                ),
            decreases self.packages.len() - i,
        {
            if str_eq(self.packages[i].id.as_str(), self.resolve.root.as_str()) {
                return Some(&self.packages[i]);
            }
            i += 1;
        }
        None
    }

    /// The root of the workspace of the package `root_package`.
    pub fn workspace_root_of(&self, root_package: &CargoMetadataPackage) -> (root: Option<String>)
        ensures
            root.deep_view() == workspace_root_spec(
                self.workspace_root.deep_view(),
                root_package.manifest_path@,
            ),
    {
        match &self.workspace_root {
            Some(root) => Some(root.clone()),
            None => parent(root_package.manifest_path.as_str()),
        }
    }
}

impl Config {
    /// Makes the description of the package from the parsed descriptor
    /// `manifest` of the root package, the build's description `metadata`
    /// of the workspace, the architecture of the host and what was found
    /// on disk. `target` is the target triple of a cross build.
    pub fn from_manifest(
        target: Option<&str>,
        metadata: &CargoMetadata,
        manifest: Cargo,
        host_arch: &str,
        files: &ProjectFiles,
    ) -> (r: Result<(Config, Vec<String>), CargoDebError>)
        ensures
            config_result_view(r) == from_manifest_spec(
                target.deep_view(),
                *metadata,
                manifest,
                host_arch@,
                *files,
            ),
    {
        let root_package = match metadata.root_package() {
            Some(package) => package,
            None => {
                return Err(CargoDebError::NoRootPackage);
            },
        };
        let workspace_root = match metadata.workspace_root_of(root_package) {
            Some(root) => root,
            None => {
                return Err(CargoDebError::NoWorkspaceRoot(root_package.manifest_path.clone()));
            },
        };
        manifest.to_config(
            root_package,
            workspace_root.as_str(),
            metadata.target_directory.as_str(),
            target,
            host_arch,
            files,
        )
    }
}

} // verus!
