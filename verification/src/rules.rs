//! Asset rules: a source path or pattern, a destination and permission
//! bits, and the paths that the pattern was found to match. Only files are
//! installed: a match that is a directory gives no asset.

use vstd::prelude::*;
use crate::asset::{can_place, is_directory_target, placed, Asset, AssetView};
use crate::config::path_in_build_spec;
use crate::error::{CargoDebError, ErrorView};
use crate::number::{parse_octal, parse_octal_spec};
use crate::path::{
    component_ranges, components, ends_with_separator, file_name, is_absolute, is_absolute_spec,
    join, join_spec, ranges_view, scan_components, strip_prefix, strip_prefix_spec, strip_root,
};
use crate::text::chars_of;

verus! {

/// The error of `glob` for a pattern that it cannot read.
#[verifier::external_type_specification]
#[verifier::external_body]
pub struct ExPatternError(glob::PatternError);

/// Whether `glob::glob` refuses `pattern` as malformed, on a system whose
/// path separator is `/`.
pub uninterp spec fn glob_rejects(pattern: Seq<char>) -> bool;

/// Whether `c` is one of the characters that make a pattern of a path.
pub open spec fn is_meta(c: char) -> bool {
    c == '*' || c == '[' || c == ']' || c == '!'
}

/// Whether `s` holds a character that makes it a pattern.
pub open spec fn is_glob_pattern_spec(s: Seq<char>) -> bool {
    exists|i: int| 0 <= i < s.len() && is_meta(#[trigger] s[i])
}

/// Asks `glob::glob` whether it can read `pattern`; the paths that it
/// would walk are not asked for. (`glob` looks up whether the directory
/// that the pattern starts from exists; that bears on the walk alone, not
/// on whether the pattern is accepted.) The call fails exactly on the
/// patterns that `glob_rejects` names. As the source of `glob` shows, it
/// finds fault only at a `*` or a `[`, so a pattern that holds neither is
/// accepted.
#[verifier::external_body]
fn check_pattern(pattern: &str) -> (r: Result<(), glob::PatternError>)
    ensures
        r is Err <==> glob_rejects(pattern@),
        !pattern@.contains('*') && !pattern@.contains('[') ==> r is Ok,
{
    match glob::glob(pattern) {
        Ok(_) => Ok(()),
        Err(e) => Err(e),
    }
}

/// A path that a pattern matches.
#[derive(Clone, Debug)]
pub struct FoundPath {
    /// The path.
    pub path: String,
    /// Whether it is a directory.
    pub is_dir: bool,
}

/// A matched path as plain values.
pub struct FoundPathView {
    pub path: Seq<char>,
    pub is_dir: bool,
}

impl View for FoundPath {
    type V = FoundPathView;

    open spec fn view(&self) -> FoundPathView {
        FoundPathView { path: self.path@, is_dir: self.is_dir }
    }
}

impl DeepView for FoundPath {
    type V = FoundPathView;

    open spec fn deep_view(&self) -> FoundPathView {
        self@
    }
}

/// What looking for the paths of a pattern gave.
#[derive(Clone, Debug)]
pub enum GlobOutcome {
    /// The paths that match, in the order found.
    Matches(Vec<FoundPath>),
    /// A path could not be read; the reason.
    Failed(String),
}

/// An outcome as plain values.
pub enum GlobOutcomeView {
    Matches(Seq<FoundPathView>),
    Failed(Seq<char>),
}

impl View for GlobOutcome {
    type V = GlobOutcomeView;

    open spec fn view(&self) -> GlobOutcomeView {
        match self {
            GlobOutcome::Matches(ms) => GlobOutcomeView::Matches(ms.deep_view()),
            GlobOutcome::Failed(reason) => GlobOutcomeView::Failed(reason@),
        }
    }
}

/// A declared rule with what was found for it.
#[derive(Clone, Debug)]
pub struct AssetRule {
    /// The rule as declared: source, destination, permission bits in base
    /// eight.
    pub fields: Vec<String>,
    /// What looking for the source gave.
    pub found: GlobOutcome,
}

/// A rule as plain values.
pub struct AssetRuleView {
    pub fields: Seq<Seq<char>>,
    pub found: GlobOutcomeView,
}

impl View for AssetRule {
    type V = AssetRuleView;

    open spec fn view(&self) -> AssetRuleView {
        AssetRuleView { fields: self.fields.deep_view(), found: self.found@ }
    }
}

impl DeepView for AssetRule {
    type V = AssetRuleView;

    open spec fn deep_view(&self) -> AssetRuleView {
        self@
    }
}

/// A rule that was read: what to look for, where its files go and with
/// which permission bits.
#[derive(Debug)]
pub struct RulePlan {
    /// The path or pattern to look for.
    pub pattern: String,
    /// The declared destination.
    pub target: String,
    /// The permission bits.
    pub mode: u32,
}

/// A read rule as plain values.
pub struct RulePlanView {
    pub pattern: Seq<char>,
    pub target: Seq<char>,
    pub mode: u32,
}

impl View for RulePlan {
    type V = RulePlanView;

    open spec fn view(&self) -> RulePlanView {
        RulePlanView { pattern: self.pattern@, target: self.target@, mode: self.mode }
    }
}

/// The source of a rule, with a leading `target/release` replaced by the
/// directory that holds the build's output.
pub open spec fn resolved_source(target_dir: Seq<char>, source: Seq<char>) -> Seq<char> {
    match strip_prefix_spec(source, "target/release"@) {
        Some(rest) => path_in_build_spec(target_dir, rest),
        None => source,
    }
}

/// What the fields of a rule say, or which of them is missing or
/// malformed: the source, then the destination, then the permission bits.
pub open spec fn read_rule_spec(target_dir: Seq<char>, fields: Seq<Seq<char>>) -> Result<
    RulePlanView,
    ErrorView,
> {
    if fields.len() < 1 {
        Err(ErrorView::MissingAssetPath)
    } else if fields.len() < 2 {
        Err(ErrorView::MissingAssetTarget)
    } else if fields.len() < 3 {
        Err(ErrorView::MissingAssetChmod)
    } else {
        match parse_octal_spec(fields[2]) {
            None => Err(ErrorView::InvalidChmod(fields[2])),
            Some(mode) => Ok(
                RulePlanView {
                    pattern: resolved_source(target_dir, fields[0]),
                    target: fields[1],
                    mode: mode as u32,
                },
            ),
        }
    }
}

/// The number of components from the `k`-th on that stand before the
/// first one that holds a pattern character.
pub open spec fn literal_count(s: Seq<char>, k: int) -> int
    decreases components(s).len() - k,
{
    if k < 0 || k >= components(s).len() || is_glob_pattern_spec(components(s)[k]) {
        0
    } else {
        1 + literal_count(s, k + 1)
    }
}

/// The literal prefix of a pattern: the path up to the end of the last
/// component before the first one that holds a pattern character; the
/// bare root, or nothing, where the first component already holds one.
pub open spec fn literal_prefix_spec(s: Seq<char>) -> Seq<char> {
    let n = literal_count(s, 0);
    if n == 0 {
        if is_absolute_spec(s) {
            s.subrange(0, 1)
        } else {
            Seq::empty()
        }
    } else {
        s.subrange(0, component_ranges(s)[n - 1].1)
    }
}

/// Where the match `m` of `pattern` goes: for a literal source the
/// declared destination itself, for a pattern the declared destination
/// extended by what `m` has beyond the pattern's literal prefix.
pub open spec fn match_target(pattern: Seq<char>, declared: Seq<char>, m: Seq<char>) -> Option<
    Seq<char>,
> {
    if is_glob_pattern_spec(pattern) {
        match strip_prefix_spec(m, literal_prefix_spec(pattern)) {
            Some(suffix) => Some(join_spec(declared, suffix)),
            None => None,
        }
    } else {
        Some(declared)
    }
}

/// The asset made of these values, or the error where none can be made.
pub open spec fn place_spec(source: Seq<char>, target: Seq<char>, chmod: u32) -> Result<
    AssetView,
    ErrorView,
> {
    if can_place(source, target) {
        Ok(placed(source, target, chmod))
    } else {
        Err(ErrorView::SourceWithoutName(source))
    }
}

/// The asset for the match `m`, or why there is none.
pub open spec fn place_match_spec(plan: RulePlanView, m: Seq<char>) -> Result<AssetView, ErrorView> {
    match match_target(plan.pattern, plan.target, m) {
        None => Err(ErrorView::MisplacedMatch(m)),
        Some(target) => place_spec(m, target, plan.mode),
    }
}

/// The assets for the matches `ms`, in their order, or the error of the
/// first file among them that has none. A match that is a directory is
/// passed over.
pub open spec fn place_matches_spec(plan: RulePlanView, ms: Seq<FoundPathView>) -> Result<
    Seq<AssetView>,
    ErrorView,
>
    decreases ms.len(),
{
    if ms.len() == 0 {
        Ok(Seq::empty())
    } else {
        match place_matches_spec(plan, ms.drop_last()) {
            Err(e) => Err(e),
            Ok(assets) => if ms.last().is_dir {
                Ok(assets)
            } else {
                match place_match_spec(plan, ms.last().path) {
                    Err(e) => Err(e),
                    Ok(asset) => Ok(assets.push(asset)),
                }
            },
        }
    }
}

/// The assets of a read rule, given what looking for its pattern gave.
pub open spec fn place_found_spec(plan: RulePlanView, found: GlobOutcomeView) -> Result<
    Seq<AssetView>,
    ErrorView,
> {
    match found {
        GlobOutcomeView::Failed(reason) => Err(ErrorView::UnreadableMatch(reason)),
        GlobOutcomeView::Matches(ms) => place_matches_spec(plan, ms),
    }
}

/// Whether the source of a rule is a pattern that `glob` cannot read. A
/// literal path is never at fault.
pub open spec fn is_malformed_pattern(pattern: Seq<char>) -> bool {
    is_glob_pattern_spec(pattern) && glob_rejects(pattern)
}

/// The assets of a rule: its fields are read, its pattern must be one that
/// `glob` accepts, and each file found for it is placed.
pub open spec fn expand_rule_spec(target_dir: Seq<char>, rule: AssetRuleView) -> Result<
    Seq<AssetView>,
    ErrorView,
> {
    match read_rule_spec(target_dir, rule.fields) {
        Err(e) => Err(e),
        Ok(plan) => if is_malformed_pattern(plan.pattern) {
            Err(ErrorView::InvalidPattern(plan.pattern))
        } else {
            place_found_spec(plan, rule.found)
        },
    }
}

/// The path or pattern whose files a rule asks for, where its fields can
/// be read and `glob` accepts its pattern; else the error of the rule.
pub open spec fn rule_pattern_spec(target_dir: Seq<char>, fields: Seq<Seq<char>>) -> Result<
    Seq<char>,
    ErrorView,
> {
    match read_rule_spec(target_dir, fields) {
        Err(e) => Err(e),
        Ok(plan) => if is_malformed_pattern(plan.pattern) {
            Err(ErrorView::InvalidPattern(plan.pattern))
        } else {
            Ok(plan.pattern)
        },
    }
}

/// A list of assets, or an error, as plain values.
pub open spec fn assets_result_view(r: Result<Vec<Asset>, CargoDebError>) -> Result<
    Seq<AssetView>,
    ErrorView,
> {
    match r {
        Ok(assets) => Ok(assets.deep_view()),
        Err(e) => Err(e@),
    }
}

/// A read rule, or an error, as plain values.
pub open spec fn plan_result_view(r: Result<RulePlan, CargoDebError>) -> Result<
    RulePlanView,
    ErrorView,
> {
    match r {
        Ok(plan) => Ok(plan@),
        Err(e) => Err(e@),
    }
}

/// Whether the run `chars[from..to)` holds a pattern character.
fn run_is_glob(chars: &Vec<char>, from: usize, to: usize) -> (b: bool)
    requires
        from <= to <= chars.len(),
    ensures
        b == is_glob_pattern_spec(chars@.subrange(from as int, to as int)),
{
    let ghost run = chars@.subrange(from as int, to as int);
    let mut i: usize = from;
    while i < to
        invariant
            from <= i <= to <= chars.len(),
            run == chars@.subrange(from as int, to as int),
            forall|j: int| 0 <= j < i - from ==> !is_meta(#[trigger] run[j]),
        decreases to - i,
    {
        let c: char = chars[i];
        if c == '*' || c == '[' || c == ']' || c == '!' {
            assert(is_meta(run[i - from]));
            return true;
        }
        i += 1;
    }
    false
}

/// Whether `s` holds a character that makes it a pattern rather than a
/// literal path.
pub fn is_glob_pattern(s: &str) -> (b: bool)
    ensures
        b == is_glob_pattern_spec(s@),
{
    let chars = chars_of(s);
    proof {
        assert(chars@.subrange(0, chars.len() as int) =~= s@);
    }
    run_is_glob(&chars, 0, chars.len())
}

/// The literal prefix of `pattern`.
pub fn literal_prefix(pattern: &str) -> (prefix: String)
    ensures
        prefix@ == literal_prefix_spec(pattern@),
{
    let chars = chars_of(pattern);
    let ranges = scan_components(&chars);
    let ghost s = pattern@;
    proof {
        assert(ranges_view(ranges@).len() == ranges.len());
    }
    let mut k: usize = 0;
    while k < ranges.len()
        invariant
            k <= ranges.len(),
            chars@ == s,
            ranges_view(ranges@) == component_ranges(s),
            forall|j: int| 0 <= j < ranges.len() ==> (#[trigger] ranges[j]).0 < ranges[j].1 <= chars.len(),
            literal_count(s, 0) == k + literal_count(s, k as int),
        ensures
            literal_count(s, 0) == k,
        decreases ranges.len() - k,
    {
        let (a, b) = ranges[k];
        proof {
            assert(ranges_view(ranges@)[k as int] == component_ranges(s)[k as int]);
            assert(components(s)[k as int] == s.subrange(a as int, b as int));
        }
        if run_is_glob(&chars, a, b) {
            break;
        }
        k += 1;
    }
    if k == 0 {
        if chars.len() > 0 && chars[0] == '/' {
            String::from_str(pattern.substring_char(0, 1))
        } else {
            let e = String::new();
            assert(e@ =~= Seq::<char>::empty());
            e
        }
    } else {
        let end: usize = ranges[k - 1].1;
        proof {
            assert(ranges_view(ranges@)[k - 1] == component_ranges(s)[k - 1]);
        }
        String::from_str(pattern.substring_char(0, end))
    }
}

/// Reads the fields of a rule: source, destination and permission bits.
/// A source under `target/release` is looked for in the build's output
/// under `target_dir`.
pub fn read_rule(fields: &Vec<String>, target_dir: &str) -> (r: Result<RulePlan, CargoDebError>)
    ensures
        plan_result_view(r) == read_rule_spec(target_dir@, fields.deep_view()),
{
    if fields.len() < 1 {
        return Err(CargoDebError::MissingAssetPath);
    }
    let pattern = match strip_prefix(fields[0].as_str(), "target/release") {
        Some(rest) => {
            let release = join(target_dir, "release");
            join(release.as_str(), rest.as_str())
        },
        None => fields[0].clone(),
    };
    if fields.len() < 2 {
        return Err(CargoDebError::MissingAssetTarget);
    }
    if fields.len() < 3 {
        return Err(CargoDebError::MissingAssetChmod);
    }
    match parse_octal(fields[2].as_str()) {
        None => Err(CargoDebError::InvalidChmod(fields[2].clone())),
        Some(mode) => Ok(RulePlan { pattern, target: fields[1].clone(), mode }),
    }
}

/// Makes the asset for one file found for a rule, whose path is `m`.
pub fn place_match(plan: &RulePlan, m: &str) -> (r: Result<Asset, CargoDebError>)
    ensures
        match r {
            Ok(asset) => place_match_spec(plan@, m@) == Ok::<AssetView, ErrorView>(asset@),
            Err(e) => place_match_spec(plan@, m@) == Err::<AssetView, ErrorView>(e@),
        },
{
    let target = if is_glob_pattern(plan.pattern.as_str()) {
        let prefix = literal_prefix(plan.pattern.as_str());
        match strip_prefix(m, prefix.as_str()) {
            Some(suffix) => join(plan.target.as_str(), suffix.as_str()),
            None => {
                return Err(CargoDebError::MisplacedMatch(String::from_str(m)));
            },
        }
    } else {
        plan.target.clone()
    };
    assert(match_target(plan@.pattern, plan@.target, m@) == Some(target@));
    place(String::from_str(m), target, plan.mode)
}

/// Makes an asset where one can be made: a destination that names a
/// directory needs a source with a file name.
pub fn place(source: String, target: String, chmod: u32) -> (r: Result<Asset, CargoDebError>)
    ensures
        match r {
            Ok(asset) => place_spec(source@, target@, chmod) == Ok::<AssetView, ErrorView>(asset@),
            Err(e) => place_spec(source@, target@, chmod) == Err::<AssetView, ErrorView>(e@),
        },
{
    let named = file_name(source.as_str()).is_some();
    if named {
        Ok(Asset::new(source, target, chmod))
    } else {
        let directory = names_directory(target.as_str());
        if directory {
            Err(CargoDebError::SourceWithoutName(source))
        } else {
            Ok(Asset::new(source, target, chmod))
        }
    }
}

/// Whether a destination names a directory to put a file into.
pub fn names_directory(target: &str) -> (b: bool)
    ensures
        b == is_directory_target(target@),
{
    if is_absolute(target) {
        let rest = strip_root(target);
        ends_with_separator(rest.as_str())
    } else {
        ends_with_separator(target)
    }
}

/// Makes the assets for the files among the paths found for a rule, in
/// their order.
pub fn place_matches(plan: &RulePlan, matches: &Vec<FoundPath>) -> (r: Result<
    Vec<Asset>,
    CargoDebError,
>)
    ensures
        assets_result_view(r) == place_matches_spec(plan@, matches.deep_view()),
{
    let ghost ms = matches.deep_view();
    let mut assets: Vec<Asset> = Vec::new();
    let mut i: usize = 0;
    assert(ms.take(0) =~= Seq::<FoundPathView>::empty());
    assert(assets.deep_view() =~= Seq::<AssetView>::empty());
    while i < matches.len()
        invariant
            i <= matches.len(),
            ms == matches.deep_view(),
            place_matches_spec(plan@, ms.take(i as int)) == Ok::<Seq<AssetView>, ErrorView>(
                assets.deep_view(),
            ),
        decreases matches.len() - i,
    {
        proof {
            assert(ms.take(i + 1).drop_last() =~= ms.take(i as int));
            assert(ms.take(i + 1).last() == matches[i as int]@);
        }
        if !matches[i].is_dir {
            match place_match(plan, matches[i].path.as_str()) {
                Ok(asset) => {
                    let ghost before = assets.deep_view();
                    assets.push(asset);
                    assert(assets.deep_view() =~= before.push(asset@));
                },
                Err(e) => {
                    proof {
                        lemma_place_matches_fails_later(plan@, ms, i + 1);
                    }
                    return Err(e);
                },
            }
        }
        i += 1;
    }
    assert(ms.take(i as int) =~= ms);
    Ok(assets)
}

/// Once the first `i` matches fail, so do all of them, with the same error.
proof fn lemma_place_matches_fails_later(plan: RulePlanView, ms: Seq<FoundPathView>, i: int)
    requires
        0 <= i <= ms.len(),
        place_matches_spec(plan, ms.take(i)) is Err,
    ensures
        place_matches_spec(plan, ms) == place_matches_spec(plan, ms.take(i)),
    decreases ms.len() - i,
{
    if i < ms.len() {
        assert(ms.take(i + 1).drop_last() =~= ms.take(i));
        lemma_place_matches_fails_later(plan, ms, i + 1);
    } else {
        assert(ms.take(i) =~= ms);
    }
}

/// Whether `glob` cannot read the pattern of a read rule.
fn pattern_is_malformed(pattern: &str) -> (b: bool)
    ensures
        b == is_malformed_pattern(pattern@),
{
    match check_pattern(pattern) {
        Ok(_) => false,
        Err(_) => {
            proof {
                let p = pattern@;
                if p.contains('*') {
                    let i = choose|i: int| 0 <= i < p.len() && p[i] == '*';
                    assert(is_meta(p[i]));
                } else {
                    let i = choose|i: int| 0 <= i < p.len() && p[i] == '[';
                    assert(is_meta(p[i]));
                }
            }
            true
        },
    }
}

impl AssetRule {
    /// The path or pattern whose files are to be looked for, where the rule
    /// can be read and `glob` accepts its pattern.
    pub fn pattern(&self, target_dir: &str) -> (r: Result<String, CargoDebError>)
        ensures
            match r {
                Ok(pattern) => rule_pattern_spec(target_dir@, self@.fields) == Ok::<
                    Seq<char>,
                    ErrorView,
                >(pattern@),
                Err(e) => rule_pattern_spec(target_dir@, self@.fields) == Err::<
                    Seq<char>,
                    ErrorView,
                >(e@),
            },
    {
        let plan = match read_rule(&self.fields, target_dir) {
            Ok(plan) => plan,
            Err(e) => {
                return Err(e);
            },
        };
        if pattern_is_malformed(plan.pattern.as_str()) {
            Err(CargoDebError::InvalidPattern(plan.pattern))
        } else {
            Ok(plan.pattern)
        }
    }

    /// The assets of this rule.
    pub fn expand(&self, target_dir: &str) -> (r: Result<Vec<Asset>, CargoDebError>)
        ensures
            assets_result_view(r) == expand_rule_spec(target_dir@, self@),
    {
        let plan = match read_rule(&self.fields, target_dir) {
            Ok(plan) => plan,
            Err(e) => {
                return Err(e);
            },
        };
        if pattern_is_malformed(plan.pattern.as_str()) {
            Err(CargoDebError::InvalidPattern(plan.pattern))
        } else {
            place_found(&plan, &self.found)
        }
    }
}

/// Makes the assets of a read rule from what looking for its pattern gave.
pub fn place_found(plan: &RulePlan, found: &GlobOutcome) -> (r: Result<Vec<Asset>, CargoDebError>)
    ensures
        assets_result_view(r) == place_found_spec(plan@, found@),
{
    match found {
        GlobOutcome::Failed(reason) => Err(CargoDebError::UnreadableMatch(reason.clone())),
        GlobOutcome::Matches(matches) => place_matches(plan, matches),
    }
}

/// The assets of the declared rules, rule by rule, or the error of the
/// first rule that has one.
pub open spec fn explicit_assets_spec(target_dir: Seq<char>, rules: Seq<AssetRuleView>) -> Result<
    Seq<AssetView>,
    ErrorView,
>
    decreases rules.len(),
{
    if rules.len() == 0 {
        Ok(Seq::empty())
    } else {
        match explicit_assets_spec(target_dir, rules.drop_last()) {
            Err(e) => Err(e),
            Ok(assets) => match expand_rule_spec(target_dir, rules.last()) {
                Err(e) => Err(e),
                Ok(more) => Ok(assets + more),
            },
        }
    }
}

/// Once the first `i` rules fail, so do all of them, with the same error.
proof fn lemma_explicit_assets_fail_later(target_dir: Seq<char>, rules: Seq<AssetRuleView>, i: int)
    requires
        0 <= i <= rules.len(),
        explicit_assets_spec(target_dir, rules.take(i)) is Err,
    ensures
        explicit_assets_spec(target_dir, rules) == explicit_assets_spec(target_dir, rules.take(i)),
    decreases rules.len() - i,
{
    if i < rules.len() {
        assert(rules.take(i + 1).drop_last() =~= rules.take(i));
        lemma_explicit_assets_fail_later(target_dir, rules, i + 1);
    } else {
        assert(rules.take(i) =~= rules);
    }
}

/// Makes the assets of the declared rules.
pub fn explicit_assets(rules: &Vec<AssetRule>, target_dir: &str) -> (r: Result<
    Vec<Asset>,
    CargoDebError,
>)
    ensures
        assets_result_view(r) == explicit_assets_spec(target_dir@, rules.deep_view()),
{
    let ghost all = rules.deep_view();
    let mut all_assets: Vec<Asset> = Vec::new();
    let mut i: usize = 0;
    assert(all.take(0) =~= Seq::<AssetRuleView>::empty());
    assert(all_assets.deep_view() =~= Seq::<AssetView>::empty());
    while i < rules.len()
        invariant
            i <= rules.len(),
            all == rules.deep_view(),
            explicit_assets_spec(target_dir@, all.take(i as int)) == Ok::<Seq<AssetView>, ErrorView>(
                all_assets.deep_view(),
            ),
        decreases rules.len() - i,
    {
        proof {
            assert(all.take(i + 1).drop_last() =~= all.take(i as int));
            assert(all.take(i + 1).last() == rules[i as int]@);
        }
        match rules[i].expand(target_dir) {
            Ok(mut more) => {
                let ghost before = all_assets.deep_view();
                let ghost added = more.deep_view();
                all_assets.append(&mut more);
                assert(all_assets.deep_view() =~= before + added);
            },
            Err(e) => {
                proof {
                    lemma_explicit_assets_fail_later(target_dir@, all, i + 1);
                }
                return Err(e);
            },
        }
        i += 1;
    }
    assert(all.take(i as int) =~= all);
    Ok(all_assets)
}

} // verus!
