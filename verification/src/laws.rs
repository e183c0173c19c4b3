//! What holds of the library as a whole, proved from the definitions that
//! its functions are held to.

use vstd::prelude::*;
use crate::arch::debian_arch;
use crate::asset::{
    can_place, is_directory_target, placed, placed_target, rooted_in_package, AssetView,
};
use crate::cargo::{directives_of, Cargo, CargoMetadataPackage, CargoMetadataTarget, ProjectFiles};
use crate::config::{
    doc_path_spec, lemma_file_target_can_be_placed, path_in_build_spec, path_in_deb_spec,
    ConfigView,
};
use crate::depends::{
    all_names, all_warnings, asks_for_resolved, auto_names, dependency_names,
    dependency_warnings, distinct, get_dependencies_spec, is_auto, resolved_names,
    ResolutionView,
};
use crate::error::ErrorView;
use crate::path::{
    closing, component_ranges, is_absolute_spec, is_component, join_spec,
    lemma_component_has_no_separator, lemma_file_name_is_relative, ranges_scan,
    strip_prefix_spec,
};
use crate::rules::{
    expand_rule_spec, explicit_assets_spec, is_glob_pattern_spec, literal_prefix_spec,
    match_target, place_found_spec, place_match_spec, place_matches_spec, place_spec,
    read_rule_spec, AssetRuleView, FoundPathView, GlobOutcomeView, RulePlanView,
};
use crate::synthesis::{
    base_config_spec, binary_assets_spec, is_binary_target, output_dir_spec, take_assets_spec,
    to_config_spec,
};
use crate::text::{
    drop_whitespace, first_index, first_index_from, is_whitespace, last_index, skip_whitespace,
    split_on, split_scan, trim_spec,
};

verus! {

/// The destination of an asset is always relative to the package root.
pub proof fn law_destination_is_relative(source: Seq<char>, target: Seq<char>)
    requires
        can_place(source, target),
    ensures
        !is_absolute_spec(placed_target(source, target)),
{
    let rooted = rooted_in_package(target);
    if is_absolute_spec(target) {
        let r = component_ranges(target);
        if r.len() > 0 {
            lemma_component_has_no_separator(target, 0);
            assert(rooted[0] == target[r[0].0]);
        }
    }
    assert(!is_absolute_spec(rooted));
    if is_directory_target(target) {
        lemma_file_name_is_relative(source);
    }
}

/// A destination that is relative and names no directory is kept as it is
/// declared.
pub proof fn law_plain_destination_is_kept(source: Seq<char>, target: Seq<char>)
    requires
        !is_absolute_spec(target),
        !(target.len() > 0 && target.last() == '/'),
    ensures
        can_place(source, target),
        placed_target(source, target) == target,
{
}

/// Whether none of the matches `ms` is a directory.
pub open spec fn all_files(ms: Seq<FoundPathView>) -> bool {
    forall|i: int| 0 <= i < ms.len() ==> !(#[trigger] ms[i]).is_dir
}

/// Where the matches of a rule are files and every one of them can be
/// placed, the rule yields one asset for each, in their order.
pub proof fn law_one_asset_per_match(plan: RulePlanView, ms: Seq<FoundPathView>)
    requires
        all_files(ms),
        forall|i: int| 0 <= i < ms.len() ==> (#[trigger] place_match_spec(plan, ms[i].path)) is Ok,
    ensures
        place_matches_spec(plan, ms) is Ok,
        place_matches_spec(plan, ms)->Ok_0.len() == ms.len(),
        forall|i: int|
            0 <= i < ms.len() ==> Ok::<AssetView, ErrorView>(
                #[trigger] place_matches_spec(plan, ms)->Ok_0[i],
            ) == place_match_spec(plan, ms[i].path),
    decreases ms.len(),
{
    if ms.len() > 0 {
        let shorter = ms.drop_last();
        assert forall|i: int| 0 <= i < shorter.len() implies (#[trigger] place_match_spec(
            plan,
            shorter[i].path,
        )) is Ok by {
            assert(shorter[i] == ms[i]);
        }
        assert(all_files(shorter)) by {
            assert forall|i: int| 0 <= i < shorter.len() implies !(#[trigger] shorter[i]).is_dir by {
                assert(shorter[i] == ms[i]);
            }
        }
        law_one_asset_per_match(plan, shorter);
        assert(!ms[ms.len() - 1].is_dir);
        assert(place_match_spec(plan, ms[ms.len() - 1].path) is Ok);
        let assets = place_matches_spec(plan, ms)->Ok_0;
        assert forall|i: int| 0 <= i < ms.len() implies Ok::<AssetView, ErrorView>(
            #[trigger] assets[i],
        ) == place_match_spec(plan, ms[i].path) by {
            if i < shorter.len() {
                assert(shorter[i] == ms[i]);
                assert(assets[i] == place_matches_spec(plan, shorter)->Ok_0[i]);
            }
        }
    }
}

/// A match that is a directory gives no asset: the rule yields what it
/// yields without that match.
pub proof fn law_directories_are_skipped(plan: RulePlanView, ms: Seq<FoundPathView>, k: int)
    requires
        0 <= k < ms.len(),
        ms[k].is_dir,
    ensures
        place_matches_spec(plan, ms) == place_matches_spec(plan, ms.remove(k)),
    decreases ms.len(),
{
    if k == ms.len() - 1 {
        assert(ms.remove(k) =~= ms.drop_last());
        let before = place_matches_spec(plan, ms.drop_last());
        assert(place_matches_spec(plan, ms) == before);
    } else {
        law_directories_are_skipped(plan, ms.drop_last(), k);
        assert(ms.remove(k).drop_last() =~= ms.drop_last().remove(k));
        assert(ms.remove(k).last() == ms.last());
    }
}

/// A rule whose source is a literal path is never refused as a pattern,
/// and each file found for it goes to the declared destination, whatever
/// the file's own path: with one file found it yields exactly one asset.
pub proof fn law_literal_rule(target_dir: Seq<char>, rule: AssetRuleView, ms: Seq<FoundPathView>)
    requires
        read_rule_spec(target_dir, rule.fields) is Ok,
        !is_glob_pattern_spec(read_rule_spec(target_dir, rule.fields)->Ok_0.pattern),
        rule.found == GlobOutcomeView::Matches(ms),
        all_files(ms),
        forall|i: int|
            0 <= i < ms.len() ==> can_place(
                (#[trigger] ms[i]).path,
                read_rule_spec(target_dir, rule.fields)->Ok_0.target,
            ),
    ensures
        expand_rule_spec(target_dir, rule) is Ok,
        expand_rule_spec(target_dir, rule)->Ok_0.len() == ms.len(),
        forall|i: int|
            0 <= i < ms.len() ==> (#[trigger] expand_rule_spec(target_dir, rule)->Ok_0[i])
                == placed(
                ms[i].path,
                read_rule_spec(target_dir, rule.fields)->Ok_0.target,
                read_rule_spec(target_dir, rule.fields)->Ok_0.mode,
            ),
{
    let plan = read_rule_spec(target_dir, rule.fields)->Ok_0;
    assert forall|i: int| 0 <= i < ms.len() implies (#[trigger] place_match_spec(
        plan,
        ms[i].path,
    )) is Ok by {
        assert(can_place(ms[i].path, plan.target));
    }
    law_one_asset_per_match(plan, ms);
    assert(expand_rule_spec(target_dir, rule) == place_matches_spec(plan, ms));
    let assets = place_matches_spec(plan, ms)->Ok_0;
    assert forall|i: int| 0 <= i < ms.len() implies (#[trigger] assets[i]) == placed(
        ms[i].path,
        plan.target,
        plan.mode,
    ) by {
        assert(can_place(ms[i].path, plan.target));
        assert(Ok::<AssetView, ErrorView>(assets[i]) == place_match_spec(plan, ms[i].path));
    }
}

/// Where a file found for a pattern goes: the declared destination
/// extended by what the file's path has beyond the pattern's literal
/// prefix.
pub open spec fn pattern_destination(plan: RulePlanView, m: Seq<char>) -> Seq<char> {
    join_spec(plan.target, strip_prefix_spec(m, literal_prefix_spec(plan.pattern))->0)
}

/// A rule whose source is a pattern yields one asset for each file found
/// for it, and each goes to the declared destination extended by what the
/// file's path has beyond the literal prefix of the pattern.
pub proof fn law_pattern_rule(plan: RulePlanView, ms: Seq<FoundPathView>)
    requires
        is_glob_pattern_spec(plan.pattern),
        all_files(ms),
        forall|i: int|
            0 <= i < ms.len() ==> (#[trigger] strip_prefix_spec(
                ms[i].path,
                literal_prefix_spec(plan.pattern),
            )) is Some,
        forall|i: int|
            0 <= i < ms.len() ==> can_place(
                ms[i].path,
                #[trigger] pattern_destination(plan, ms[i].path),
            ),
    ensures
        place_found_spec(plan, GlobOutcomeView::Matches(ms)) is Ok,
        place_found_spec(plan, GlobOutcomeView::Matches(ms))->Ok_0.len() == ms.len(),
        forall|i: int|
            0 <= i < ms.len() ==> (#[trigger] place_found_spec(
                plan,
                GlobOutcomeView::Matches(ms),
            )->Ok_0[i]) == placed(ms[i].path, pattern_destination(plan, ms[i].path), plan.mode),
{
    assert forall|i: int| 0 <= i < ms.len() implies (#[trigger] place_match_spec(
        plan,
        ms[i].path,
    )) is Ok by {
        assert(strip_prefix_spec(ms[i].path, literal_prefix_spec(plan.pattern)) is Some);
        assert(can_place(ms[i].path, pattern_destination(plan, ms[i].path)));
    }
    law_one_asset_per_match(plan, ms);
    let assets = place_matches_spec(plan, ms)->Ok_0;
    assert forall|i: int| 0 <= i < ms.len() implies (#[trigger] assets[i]) == placed(
        ms[i].path,
        pattern_destination(plan, ms[i].path),
        plan.mode,
    ) by {
        assert(strip_prefix_spec(ms[i].path, literal_prefix_spec(plan.pattern)) is Some);
        assert(can_place(ms[i].path, pattern_destination(plan, ms[i].path)));
        assert(Ok::<AssetView, ErrorView>(assets[i]) == place_match_spec(plan, ms[i].path));
    }
}

/// The names kept by `distinct` are those given, each once.
pub proof fn law_distinct_names(names: Seq<Seq<char>>)
    ensures
        distinct(names).no_duplicates(),
        forall|n: Seq<char>| distinct(names).contains(n) <==> names.contains(n),
    decreases names.len(),
{
    if names.len() > 0 {
        let shorter = names.drop_last();
        let last = names.last();
        law_distinct_names(shorter);
        let before = distinct(shorter);
        assert forall|n: Seq<char>| distinct(names).contains(n) <==> names.contains(n) by {
            if names.contains(n) {
                let i = choose|i: int| 0 <= i < names.len() && names[i] == n;
                if i < shorter.len() {
                    assert(shorter[i] == n);
                    assert(shorter.contains(n));
                    assert(before.contains(n));
                    let j = choose|j: int| 0 <= j < before.len() && before[j] == n;
                    if !before.contains(last) {
                        assert(before.push(last)[j] == n);
                    }
                } else {
                    if !before.contains(last) {
                        assert(before.push(last)[before.len() as int] == n);
                    }
                }
            }
            if distinct(names).contains(n) {
                let j = choose|j: int| 0 <= j < distinct(names).len() && distinct(names)[j] == n;
                if before.contains(last) || j < before.len() {
                    assert(before[j] == n);
                    assert(before.contains(n));
                    assert(shorter.contains(n));
                    let i = choose|i: int| 0 <= i < shorter.len() && shorter[i] == n;
                    assert(names[i] == n);
                } else {
                    assert(names[names.len() - 1] == n);
                }
            }
        }
    }
}

/// The dependencies of a package hold every name that the directive
/// stands for, and each of them once, however often it was listed or
/// resolved.
pub proof fn law_dependencies_named_once(depends: Seq<char>, resolved: Seq<ResolutionView>)
    ensures
        dependency_names(depends, resolved).no_duplicates(),
        forall|n: Seq<char>|
            dependency_names(depends, resolved).contains(n) <==> all_names(
                split_on(depends, ','),
                resolved,
            ).contains(n),
{
    law_distinct_names(all_names(split_on(depends, ','), resolved));
}

/// A project with no authors that does not declare both its copyright
/// and its maintainer cannot be resolved.
pub proof fn law_authorship_is_needed(
    cargo: Cargo,
    root_package: CargoMetadataPackage,
    workspace_root: Seq<char>,
    target_dir: Seq<char>,
    target: Option<Seq<char>>,
    host_arch: Seq<char>,
    files: ProjectFiles,
)
    requires
        cargo.package.authors is None,
        directives_of(cargo.package.metadata).copyright is None || directives_of(
            cargo.package.metadata,
        ).maintainer is None,
    ensures
        to_config_spec(cargo, root_package, workspace_root, target_dir, target, host_arch, files)
            is Err,
{
}

/// A project for which no asset is found cannot be resolved: the
/// copyright file and the changelog, which are added afterwards, do not
/// make a package.
pub proof fn law_assets_are_needed(
    cargo: Cargo,
    root_package: CargoMetadataPackage,
    workspace_root: Seq<char>,
    target_dir: Seq<char>,
    target: Option<Seq<char>>,
    host_arch: Seq<char>,
    files: ProjectFiles,
)
    requires
        take_assets_spec(
            output_dir_spec(target_dir, target),
            cargo.package.name@,
            directives_of(cargo.package.metadata).assets.deep_view(),
            root_package.targets@,
            cargo.package.readme.deep_view(),
        ) == Ok::<Seq<AssetView>, ErrorView>(Seq::empty()),
    ensures
        to_config_spec(cargo, root_package, workspace_root, target_dir, target, host_arch, files)
            is Err,
        base_config_spec(cargo, workspace_root, target_dir, target, host_arch, files) is Ok
            ==> to_config_spec(
            cargo,
            root_package,
            workspace_root,
            target_dir,
            target,
            host_arch,
            files,
        ) == Err::<(ConfigView, Seq<Seq<char>>), ErrorView>(ErrorView::NoAssets),
{
}

/// A resolved package always has an asset besides its copyright file and
/// its changelog.
pub proof fn law_resolved_package_has_assets(
    cargo: Cargo,
    root_package: CargoMetadataPackage,
    workspace_root: Seq<char>,
    target_dir: Seq<char>,
    target: Option<Seq<char>>,
    host_arch: Seq<char>,
    files: ProjectFiles,
)
    requires
        to_config_spec(cargo, root_package, workspace_root, target_dir, target, host_arch, files)
            is Ok,
    ensures
        to_config_spec(
            cargo,
            root_package,
            workspace_root,
            target_dir,
            target,
            host_arch,
            files,
        )->Ok_0.0.assets.len() >= 2,
{
}

/// An architecture that Debian does not rename keeps its name.
pub proof fn law_unknown_arch_is_kept(arch: Seq<char>, abi: Seq<char>)
    requires
        arch != "aarch64"@,
        arch != "mips64"@,
        arch != "mips64el"@,
        arch != "mipsisa32r6"@,
        arch != "mipsisa32r6el"@,
        arch != "mipsisa64r6"@,
        arch != "mipsisa64r6el"@,
        arch != "powerpc"@,
        arch != "powerpc64"@,
        arch != "powerpc64le"@,
        arch != "i586"@,
        arch != "i686"@,
        arch != "x86"@,
        arch != "x86_64"@,
        !"arm"@.is_prefix_of(arch),
    ensures
        debian_arch(arch, abi) == arch,
{
}

/// Where no resolution gave a name, no name was resolved.
proof fn lemma_nothing_resolved(resolved: Seq<ResolutionView>)
    requires
        forall|i: int|
            0 <= i < resolved.len() ==> resolved_names(#[trigger] resolved[i]).len()
                == 0,
    ensures
        auto_names(resolved) == Seq::<Seq<char>>::empty(),
    decreases resolved.len(),
{
    if resolved.len() > 0 {
        let shorter = resolved.drop_last();
        assert forall|i: int| 0 <= i < shorter.len() implies resolved_names(
            #[trigger] shorter[i],
        ).len() == 0 by {
            assert(shorter[i] == resolved[i]);
        }
        lemma_nothing_resolved(shorter);
        assert(resolved_names(resolved[resolved.len() - 1]).len() == 0);
        assert(auto_names(resolved) =~= Seq::<Seq<char>>::empty());
    }
}

/// The directive `$auto` alone stands for the resolved names.
proof fn lemma_auto_alone(resolved: Seq<ResolutionView>)
    ensures
        all_names(split_on("$auto"@, ','), resolved) == auto_names(resolved),
{
    reveal_strlit("$auto");
    let s = "$auto"@;
    assert(split_on(s, ',') =~= seq![s]) by {
        reveal_with_fuel(split_scan, 6);
        assert(s.subrange(0, 5) =~= s);
    }
    assert(trim_spec(s) =~= s) by {
        reveal_with_fuel(skip_whitespace, 2);
        reveal_with_fuel(drop_whitespace, 2);
    }
    let words = seq![s];
    assert(words.drop_last() =~= Seq::<Seq<char>>::empty());
    assert(all_names(words, resolved) =~= auto_names(resolved)) by {
        reveal_with_fuel(all_names, 2);
    }
}

/// The directive `$auto`, with no name resolved for any executable, gives
/// the empty line.
pub proof fn law_auto_with_nothing_resolved(resolved: Seq<ResolutionView>)
    requires
        forall|i: int|
            0 <= i < resolved.len() ==> resolved_names(#[trigger] resolved[i]).len()
                == 0,
    ensures
        get_dependencies_spec("$auto"@, resolved) == Seq::<char>::empty(),
{
    lemma_nothing_resolved(resolved);
    lemma_auto_alone(resolved);
}

/// The directive `libc6, $auto` stands for `libc6` and the resolved
/// names: its dependencies hold `libc6` and every resolved name, each
/// once, however often the resolutions repeat a name.
pub proof fn law_listed_and_resolved(resolved: Seq<ResolutionView>)
    ensures
        all_names(split_on("libc6, $auto"@, ','), resolved) == seq!["libc6"@] + auto_names(
            resolved,
        ),
        dependency_names("libc6, $auto"@, resolved).no_duplicates(),
        dependency_names("libc6, $auto"@, resolved).contains("libc6"@),
        forall|n: Seq<char>|
            auto_names(resolved).contains(n) ==> dependency_names(
                "libc6, $auto"@,
                resolved,
            ).contains(n),
{
    reveal_strlit("libc6, $auto");
    reveal_strlit("libc6");
    reveal_strlit("$auto");
    let s = "libc6, $auto"@;
    let first = s.subrange(0, 5);
    let second = s.subrange(6, 12);
    assert(split_on(s, ',') =~= seq![first, second]) by {
        reveal_with_fuel(split_scan, 13);
    }
    assert(first =~= "libc6"@);
    assert(trim_spec(first) =~= "libc6"@) by {
        reveal_with_fuel(skip_whitespace, 2);
        reveal_with_fuel(drop_whitespace, 2);
    }
    assert(trim_spec(second) =~= "$auto"@) by {
        reveal_with_fuel(skip_whitespace, 3);
        reveal_with_fuel(drop_whitespace, 2);
        assert(is_whitespace(second[0]));
        assert(second.subrange(1, 6) =~= "$auto"@);
    }
    assert("libc6"@ != "$auto"@) by {
        assert("libc6"@[0] != "$auto"@[0]);
    }
    let words = seq![first, second];
    assert(words.drop_last() =~= seq![first]);
    assert(seq![first].drop_last() =~= Seq::<Seq<char>>::empty());
    let names = all_names(words, resolved);
    assert(names =~= seq!["libc6"@] + auto_names(resolved)) by {
        reveal_with_fuel(all_names, 3);
    }
    law_distinct_names(names);
    assert(names[0] == "libc6"@);
    assert(names.contains("libc6"@));
    assert forall|n: Seq<char>| auto_names(resolved).contains(n) implies dependency_names(
        s,
        resolved,
    ).contains(n) by {
        let i = choose|i: int| 0 <= i < auto_names(resolved).len() && auto_names(resolved)[i] == n;
        assert(names[i + 1] == n);
        assert(names.contains(n));
    }
}

/// Whether every one of `assets` has a destination that is relative to
/// the package root.
pub open spec fn all_relative(assets: Seq<AssetView>) -> bool {
    forall|i: int| 0 <= i < assets.len() ==> !is_absolute_spec((#[trigger] assets[i]).target_path)
}

/// An asset that could be made has a relative destination.
proof fn lemma_placed_is_relative(source: Seq<char>, target: Seq<char>, chmod: u32)
    requires
        place_spec(source, target, chmod) is Ok,
    ensures
        !is_absolute_spec(place_spec(source, target, chmod)->Ok_0.target_path),
{
    law_destination_is_relative(source, target);
}

/// The assets made for the files of a rule have relative destinations.
proof fn lemma_matches_are_relative(plan: RulePlanView, ms: Seq<FoundPathView>)
    requires
        place_matches_spec(plan, ms) is Ok,
    ensures
        all_relative(place_matches_spec(plan, ms)->Ok_0),
    decreases ms.len(),
{
    if ms.len() > 0 {
        lemma_matches_are_relative(plan, ms.drop_last());
        if !ms.last().is_dir {
            let target = match_target(plan.pattern, plan.target, ms.last().path)->0;
            lemma_placed_is_relative(ms.last().path, target, plan.mode);
        }
    }
}

/// The assets of the declared rules have relative destinations.
proof fn lemma_explicit_assets_are_relative(target_dir: Seq<char>, rules: Seq<AssetRuleView>)
    requires
        explicit_assets_spec(target_dir, rules) is Ok,
    ensures
        all_relative(explicit_assets_spec(target_dir, rules)->Ok_0),
    decreases rules.len(),
{
    if rules.len() > 0 {
        lemma_explicit_assets_are_relative(target_dir, rules.drop_last());
        let plan = read_rule_spec(target_dir, rules.last().fields)->Ok_0;
        match rules.last().found {
            GlobOutcomeView::Matches(ms) => {
                lemma_matches_are_relative(plan, ms);
            },
            GlobOutcomeView::Failed(_) => {},
        }
    }
}

/// The assets of the executables of a project have relative destinations.
proof fn lemma_binary_assets_are_relative(
    target_dir: Seq<char>,
    targets: Seq<CargoMetadataTarget>,
)
    requires
        binary_assets_spec(target_dir, targets) is Ok,
    ensures
        all_relative(binary_assets_spec(target_dir, targets)->Ok_0),
    decreases targets.len(),
{
    if targets.len() > 0 {
        lemma_binary_assets_are_relative(target_dir, targets.drop_last());
        if is_binary_target(targets.last()) {
            let name = targets.last().name@;
            lemma_placed_is_relative(
                path_in_build_spec(target_dir, name),
                join_spec("usr/bin"@, name),
                0o755,
            );
        }
    }
}

/// Every asset of a resolved package has a destination that is relative
/// to the package root.
pub proof fn law_resolved_destinations_are_relative(
    cargo: Cargo,
    root_package: CargoMetadataPackage,
    workspace_root: Seq<char>,
    target_dir: Seq<char>,
    target: Option<Seq<char>>,
    host_arch: Seq<char>,
    files: ProjectFiles,
)
    requires
        to_config_spec(cargo, root_package, workspace_root, target_dir, target, host_arch, files)
            is Ok,
    ensures
        all_relative(
            to_config_spec(
                cargo,
                root_package,
                workspace_root,
                target_dir,
                target,
                host_arch,
                files,
            )->Ok_0.0.assets,
        ),
{
    let package = cargo.package;
    let deb = directives_of(package.metadata);
    let out_dir = output_dir_spec(target_dir, target);
    let name = package.name@;
    let readme = package.readme.deep_view();
    let found = take_assets_spec(out_dir, name, deb.assets.deep_view(), root_package.targets@, readme)->Ok_0;
    assert(all_relative(found)) by {
        match deb.assets.deep_view() {
            Some(rules) => {
                lemma_explicit_assets_are_relative(out_dir, rules);
            },
            None => {
                lemma_binary_assets_are_relative(out_dir, root_package.targets@);
                match readme {
                    Some(r) => {
                        lemma_placed_is_relative(r, doc_path_spec(name, r), 0o644);
                    },
                    None => {},
                }
            },
        }
    }
    reveal_strlit("copyright");
    reveal_strlit("changelog");
    let copyright_target = doc_path_spec(name, "copyright"@);
    lemma_file_target_can_be_placed(
        path_in_deb_spec(out_dir, "copyright"@),
        copyright_target,
    );
    law_destination_is_relative(
        path_in_deb_spec(out_dir, "copyright"@),
        copyright_target,
    );
    match deb.changelog.deep_view() {
        Some(log_file) => {
            let changelog_target = doc_path_spec(name, "changelog"@);
            lemma_file_target_can_be_placed(log_file, changelog_target);
            law_destination_is_relative(log_file, changelog_target);
        },
        None => {},
    }
}

/// The first index of a character is where it stands first: nothing
/// before that position is the character, and the position holds it
/// unless the string has none.
pub proof fn law_first_index(s: Seq<char>, c: char)
    ensures
        0 <= first_index(s, c) <= s.len(),
        forall|j: int| 0 <= j < first_index(s, c) ==> s[j] != c,
        first_index(s, c) < s.len() ==> s[first_index(s, c)] == c,
{
    lemma_first_index_from(s, c, 0);
}

proof fn lemma_first_index_from(s: Seq<char>, c: char, i: int)
    requires
        0 <= i <= s.len(),
    ensures
        i <= first_index_from(s, c, i) <= s.len(),
        forall|j: int| i <= j < first_index_from(s, c, i) ==> s[j] != c,
        first_index_from(s, c, i) < s.len() ==> s[first_index_from(s, c, i)] == c,
    decreases s.len() - i,
{
    if i < s.len() && s[i] != c {
        lemma_first_index_from(s, c, i + 1);
    }
}

/// The last index of a character is where it stands last: nothing after
/// that position is the character, and the position holds it unless the
/// string has none.
pub proof fn law_last_index(s: Seq<char>, c: char)
    ensures
        -1 <= last_index(s, c) < s.len(),
        forall|j: int| last_index(s, c) < j < s.len() ==> s[j] != c,
        last_index(s, c) >= 0 ==> s[last_index(s, c)] == c,
    decreases s.len(),
{
    if s.len() > 0 && s.last() != c {
        let shorter = s.drop_last();
        law_last_index(shorter, c);
        assert forall|j: int| last_index(s, c) < j < s.len() implies s[j] != c by {
            if j < shorter.len() {
                assert(shorter[j] == s[j]);
            }
        }
        if last_index(s, c) >= 0 {
            assert(shorter[last_index(s, c)] == s[last_index(s, c)]);
        }
    }
}

/// Trimming cuts white space and nothing else: what is cut at either end
/// is white space, and what is left neither begins nor ends with it.
pub proof fn law_trim(s: Seq<char>)
    ensures
        0 <= skip_whitespace(s, 0) <= drop_whitespace(s, skip_whitespace(s, 0), s.len() as int)
            <= s.len(),
        forall|j: int| 0 <= j < skip_whitespace(s, 0) ==> is_whitespace(s[j]),
        forall|j: int|
            drop_whitespace(s, skip_whitespace(s, 0), s.len() as int) <= j < s.len()
                ==> is_whitespace(s[j]),
        trim_spec(s).len() > 0 ==> !is_whitespace(trim_spec(s)[0]) && !is_whitespace(
            trim_spec(s).last(),
        ),
{
    lemma_skip_whitespace(s, 0);
    let from = skip_whitespace(s, 0);
    lemma_drop_whitespace(s, from, s.len() as int);
}

proof fn lemma_skip_whitespace(s: Seq<char>, i: int)
    requires
        0 <= i <= s.len(),
    ensures
        i <= skip_whitespace(s, i) <= s.len(),
        forall|j: int| i <= j < skip_whitespace(s, i) ==> is_whitespace(s[j]),
        skip_whitespace(s, i) < s.len() ==> !is_whitespace(s[skip_whitespace(s, i)]),
    decreases s.len() - i,
{
    if i < s.len() && is_whitespace(s[i]) {
        lemma_skip_whitespace(s, i + 1);
    }
}

proof fn lemma_drop_whitespace(s: Seq<char>, from: int, to: int)
    requires
        0 <= from <= to <= s.len(),
    ensures
        from <= drop_whitespace(s, from, to) <= to,
        forall|j: int| drop_whitespace(s, from, to) <= j < to ==> is_whitespace(s[j]),
        from < drop_whitespace(s, from, to) ==> !is_whitespace(s[drop_whitespace(s, from, to) - 1]),
    decreases to,
{
    if from < to && is_whitespace(s[to - 1]) {
        lemma_drop_whitespace(s, from, to - 1);
    }
}

/// The pieces of a split hold no separator, and put in a row with the
/// separator between them they give the string back.
pub proof fn law_split(s: Seq<char>, sep: char)
    ensures
        split_on(s, sep).len() >= 1,
        forall|k: int| 0 <= k < split_on(s, sep).len() ==> !(#[trigger] split_on(s, sep)[k]).contains(sep),
        crate::text::join_with(split_on(s, sep), seq![sep]) == s,
{
    lemma_split_scan(s, sep, 0, 0);
    assert(s.subrange(0, s.len() as int) =~= s);
    assert(s.subrange(0, 0) + s =~= s);
}

/// Joining puts a piece in front of the pieces that follow.
proof fn lemma_join_front(first: Seq<char>, rest: Seq<Seq<char>>, sep: Seq<char>)
    requires
        rest.len() >= 1,
    ensures
        crate::text::join_with(seq![first] + rest, sep) == first + sep + crate::text::join_with(
            rest,
            sep,
        ),
    decreases rest.len(),
{
    let all = seq![first] + rest;
    assert(all.drop_last() =~= seq![first] + rest.drop_last());
    assert(all.last() == rest.last());
    if rest.len() == 1 {
        assert(all.drop_last() =~= seq![first]);
        assert(crate::text::join_with(rest, sep) == rest[0]);
        assert(crate::text::join_with(all.drop_last(), sep) == first);
    } else {
        lemma_join_front(first, rest.drop_last(), sep);
        assert(crate::text::join_with(all, sep) =~= first + sep + crate::text::join_with(rest, sep));
    }
}

proof fn lemma_split_scan(s: Seq<char>, sep: char, i: int, start: int)
    requires
        0 <= start <= i <= s.len(),
        forall|j: int| start <= j < i ==> s[j] != sep,
    ensures
        split_scan(s, sep, i, start).len() >= 1,
        forall|k: int|
            0 <= k < split_scan(s, sep, i, start).len() ==> !(#[trigger] split_scan(
                s,
                sep,
                i,
                start,
            )[k]).contains(sep),
        crate::text::join_with(split_scan(s, sep, i, start), seq![sep]) == s.subrange(
            start,
            s.len() as int,
        ),
    decreases s.len() - i,
{
    let pieces = split_scan(s, sep, i, start);
    if i >= s.len() {
        let piece = s.subrange(start, s.len() as int);
        assert(!piece.contains(sep)) by {
            if piece.contains(sep) {
                let j = choose|j: int| 0 <= j < piece.len() && piece[j] == sep;
                assert(s[start + j] == sep);
            }
        }
    } else if s[i] == sep {
        lemma_split_scan(s, sep, i + 1, i + 1);
        let piece = s.subrange(start, i);
        let rest = split_scan(s, sep, i + 1, i + 1);
        assert(!piece.contains(sep)) by {
            if piece.contains(sep) {
                let j = choose|j: int| 0 <= j < piece.len() && piece[j] == sep;
                assert(s[start + j] == sep);
            }
        }
        assert forall|k: int| 0 <= k < pieces.len() implies !(#[trigger] pieces[k]).contains(sep) by {
            if k > 0 {
                assert(pieces[k] == rest[k - 1]);
            }
        }
        lemma_join_front(piece, rest, seq![sep]);
        assert(piece + seq![sep] + s.subrange(i + 1, s.len() as int) =~= s.subrange(
            start,
            s.len() as int,
        ));
    } else {
        lemma_split_scan(s, sep, i + 1, start);
    }
}

/// A component is a whole run between separators: it begins at the start
/// of the path or after a separator, and ends at the end of the path or
/// before a separator.
pub proof fn law_component_is_a_whole_run(s: Seq<char>, k: int)
    requires
        0 <= k < component_ranges(s).len(),
    ensures
        component_ranges(s)[k].0 == 0 || s[component_ranges(s)[k].0 - 1] == '/',
        component_ranges(s)[k].1 == s.len() || s[component_ranges(s)[k].1] == '/',
        is_component(s, component_ranges(s)[k].0, component_ranges(s)[k].1),
{
    lemma_scan_gives_whole_runs(s, 0, 0, k);
}

proof fn lemma_scan_gives_whole_runs(s: Seq<char>, i: int, start: int, k: int)
    requires
        0 <= start <= i <= s.len(),
        start == 0 || s[start - 1] == '/',
        0 <= k < ranges_scan(s, i, start).len(),
    ensures
        ranges_scan(s, i, start)[k].0 == 0 || s[ranges_scan(s, i, start)[k].0 - 1] == '/',
        ranges_scan(s, i, start)[k].1 == s.len() || s[ranges_scan(s, i, start)[k].1] == '/',
        is_component(s, ranges_scan(s, i, start)[k].0, ranges_scan(s, i, start)[k].1),
    decreases s.len() - i,
{
    if i >= s.len() {
    } else if s[i] == '/' {
        let head = closing(s, start, i);
        if k >= head.len() {
            lemma_scan_gives_whole_runs(s, i + 1, i + 1, k - head.len());
        }
    } else {
        lemma_scan_gives_whole_runs(s, i + 1, start, k);
    }
}

/// Words of which none is `$auto` stand for the same names whatever was
/// resolved, and earn no warning.
proof fn lemma_literal_words(
    words: Seq<Seq<char>>,
    first: Seq<ResolutionView>,
    second: Seq<ResolutionView>,
)
    requires
        forall|k: int| 0 <= k < words.len() ==> !is_auto(#[trigger] words[k]),
    ensures
        all_names(words, first) == all_names(words, second),
        all_warnings(words, first) == Seq::<Seq<char>>::empty(),
    decreases words.len(),
{
    if words.len() > 0 {
        let shorter = words.drop_last();
        assert forall|k: int| 0 <= k < shorter.len() implies !is_auto(#[trigger] shorter[k]) by {
            assert(shorter[k] == words[k]);
        }
        lemma_literal_words(shorter, first, second);
        assert(!is_auto(words[words.len() - 1]));
        assert(all_warnings(words, first) =~= Seq::<Seq<char>>::empty());
    }
}

/// Where the directive does not ask for resolved names, what was resolved
/// bears on nothing: the dependencies are the same whatever it holds, and
/// there is no warning.
pub proof fn law_resolutions_count_only_for_auto(
    depends: Seq<char>,
    first: Seq<ResolutionView>,
    second: Seq<ResolutionView>,
)
    requires
        !asks_for_resolved(depends),
    ensures
        get_dependencies_spec(depends, first) == get_dependencies_spec(depends, second),
        dependency_warnings(depends, first) == Seq::<Seq<char>>::empty(),
{
    lemma_literal_words(split_on(depends, ','), first, second);
}

} // verus!
