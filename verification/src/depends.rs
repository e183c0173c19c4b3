//! The runtime dependencies of the package: the names that the directive
//! lists, and, where it asks for them, the names that were resolved for
//! the package's executables.

use vstd::prelude::*;
use crate::config::{binaries_spec, release_dir_spec, Config};
use crate::path::parent_spec;
use crate::text::{any_equals, join_strings, join_with, split, split_on, str_eq, trim, trim_spec};

verus! {

/// What resolving the dependencies of one executable gave.
#[derive(Debug)]
pub struct Resolution {
    /// The executable that was looked at.
    pub binary: String,
    /// The packages that it needs, or why they could not be found.
    pub outcome: Result<Vec<String>, String>,
}

/// A resolution as plain values.
pub struct ResolutionView {
    pub binary: Seq<char>,
    pub outcome: Result<Seq<Seq<char>>, Seq<char>>,
}

impl View for Resolution {
    type V = ResolutionView;

    open spec fn view(&self) -> ResolutionView {
        ResolutionView {
            binary: self.binary@,
            outcome: match self.outcome {
                Ok(names) => Ok(names.deep_view()),
                Err(reason) => Err(reason@),
            },
        }
    }
}

impl DeepView for Resolution {
    type V = ResolutionView;

    open spec fn deep_view(&self) -> ResolutionView {
        self@
    }
}

/// The names that a resolution gives: none where it failed.
pub open spec fn resolved_names(r: ResolutionView) -> Seq<Seq<char>> {
    match r.outcome {
        Ok(names) => names,
        Err(_) => Seq::empty(),
    }
}

/// The warning for a resolution that failed.
pub open spec fn failure_warning(reason: Seq<char>, binary: Seq<char>) -> Seq<char> {
    "warning: "@ + reason + " (no auto deps for "@ + binary + ")"@
}

/// The warnings that a resolution gives: one where it failed.
pub open spec fn resolution_warnings(r: ResolutionView) -> Seq<Seq<char>> {
    match r.outcome {
        Ok(_) => Seq::empty(),
        Err(reason) => seq![failure_warning(reason, r.binary)],
    }
}

/// All names that were resolved, executable by executable.
pub open spec fn auto_names(resolved: Seq<ResolutionView>) -> Seq<Seq<char>>
    decreases resolved.len(),
{
    if resolved.len() == 0 {
        Seq::empty()
    } else {
        auto_names(resolved.drop_last()) + resolved_names(resolved.last())
    }
}

/// The warnings for the executables whose resolution failed.
pub open spec fn auto_warnings(resolved: Seq<ResolutionView>) -> Seq<Seq<char>>
    decreases resolved.len(),
{
    if resolved.len() == 0 {
        Seq::empty()
    } else {
        auto_warnings(resolved.drop_last()) + resolution_warnings(resolved.last())
    }
}

/// Whether a word of the directive asks for the resolved names.
pub open spec fn is_auto(word: Seq<char>) -> bool {
    trim_spec(word) == "$auto"@
}

/// Whether the directive asks for the resolved names: one of its words is
/// `$auto`.
pub open spec fn asks_for_resolved(depends: Seq<char>) -> bool {
    exists|k: int|
        0 <= k < split_on(depends, ',').len() && is_auto(#[trigger] split_on(depends, ',')[k])
}

/// The names that one word of the directive stands for: the resolved
/// names for `$auto`, else the word itself, trimmed.
pub open spec fn word_names(word: Seq<char>, resolved: Seq<ResolutionView>) -> Seq<Seq<char>> {
    if is_auto(word) {
        auto_names(resolved)
    } else {
        seq![trim_spec(word)]
    }
}

/// The names that the words of the directive stand for, word by word.
pub open spec fn all_names(words: Seq<Seq<char>>, resolved: Seq<ResolutionView>) -> Seq<Seq<char>>
    decreases words.len(),
{
    if words.len() == 0 {
        Seq::empty()
    } else {
        all_names(words.drop_last(), resolved) + word_names(words.last(), resolved)
    }
}

/// The warnings that the words of the directive earn: those of the failed
/// resolutions, once for each `$auto`.
pub open spec fn all_warnings(words: Seq<Seq<char>>, resolved: Seq<ResolutionView>) -> Seq<
    Seq<char>,
>
    decreases words.len(),
{
    if words.len() == 0 {
        Seq::empty()
    } else {
        all_warnings(words.drop_last(), resolved) + if is_auto(words.last()) {
            auto_warnings(resolved)
        } else {
            Seq::empty()
        }
    }
}

/// `names` with each name kept where it first occurs.
pub open spec fn distinct(names: Seq<Seq<char>>) -> Seq<Seq<char>>
    decreases names.len(),
{
    if names.len() == 0 {
        Seq::empty()
    } else {
        let before = distinct(names.drop_last());
        if before.contains(names.last()) {
            before
        } else {
            before.push(names.last())
        }
    }
}

/// The dependencies of the package, each once.
pub open spec fn dependency_names(depends: Seq<char>, resolved: Seq<ResolutionView>) -> Seq<
    Seq<char>,
> {
    distinct(all_names(split_on(depends, ','), resolved))
}

/// The dependencies of the package in one line.
pub open spec fn get_dependencies_spec(depends: Seq<char>, resolved: Seq<ResolutionView>) -> Seq<
    char,
> {
    join_with(dependency_names(depends, resolved), ", "@)
}

/// The warnings that go with the dependencies of the package.
pub open spec fn dependency_warnings(depends: Seq<char>, resolved: Seq<ResolutionView>) -> Seq<
    Seq<char>,
> {
    all_warnings(split_on(depends, ','), resolved)
}

/// Adds `name` to `deps` unless it is there.
fn add_name(deps: &mut Vec<String>, name: String, Ghost(names): Ghost<Seq<Seq<char>>>)
    requires
        old(deps).deep_view() == distinct(names),
    ensures
        final(deps).deep_view() == distinct(names.push(name@)),
{
    assert(names.push(name@).drop_last() =~= names);
    if !any_equals(deps, name.as_str()) {
        let ghost before = deps.deep_view();
        deps.push(name);
        assert(deps.deep_view() =~= before.push(name@));
    }
}

/// Adds each of `batch` to `deps` unless it is there.
fn add_names(deps: &mut Vec<String>, batch: &Vec<String>, Ghost(names): Ghost<Seq<Seq<char>>>)
    requires
        old(deps).deep_view() == distinct(names),
    ensures
        final(deps).deep_view() == distinct(names + batch.deep_view()),
{
    let ghost all = batch.deep_view();
    let mut i: usize = 0;
    assert(names + all.take(0) =~= names);
    while i < batch.len()
        invariant
            i <= batch.len(),
            all == batch.deep_view(),
            deps.deep_view() == distinct(names + all.take(i as int)),
        decreases batch.len() - i,
    {
        add_name(deps, batch[i].clone(), Ghost(names + all.take(i as int)));
        assert((names + all.take(i as int)).push(batch[i as int]@) =~= names + all.take(i + 1));
        i += 1;
    }
    assert(all.take(i as int) =~= all);
}

/// Copies the strings of `more` to the end of `list`.
fn extend_with(list: &mut Vec<String>, more: &Vec<String>)
    ensures
        final(list).deep_view() == old(list).deep_view() + more.deep_view(),
{
    let ghost start = list.deep_view();
    let ghost all = more.deep_view();
    let mut i: usize = 0;
    assert(start + all.take(0) =~= start);
    while i < more.len()
        invariant
            i <= more.len(),
            all == more.deep_view(),
            list.deep_view() == start + all.take(i as int),
        decreases more.len() - i,
    {
        let ghost before = list.deep_view();
        list.push(more[i].clone());
        assert(list.deep_view() =~= before.push(more[i as int]@));
        assert(before.push(more[i as int]@) =~= start + all.take(i + 1));
        i += 1;
    }
    assert(all.take(i as int) =~= all);
}

/// All names that were resolved, and the warnings for the executables
/// whose resolution failed.
pub fn collect_resolved(resolved: &Vec<Resolution>) -> (r: (Vec<String>, Vec<String>))
    ensures
        r.0.deep_view() == auto_names(resolved.deep_view()),
        r.1.deep_view() == auto_warnings(resolved.deep_view()),
{
    let ghost all = resolved.deep_view();
    let mut names: Vec<String> = Vec::new();
    let mut warnings: Vec<String> = Vec::new();
    let mut i: usize = 0;
    assert(all.take(0) =~= Seq::<ResolutionView>::empty());
    assert(names.deep_view() =~= Seq::<Seq<char>>::empty());
    assert(warnings.deep_view() =~= Seq::<Seq<char>>::empty());
    while i < resolved.len()
        invariant
            i <= resolved.len(),
            all == resolved.deep_view(),
            names.deep_view() == auto_names(all.take(i as int)),
            warnings.deep_view() == auto_warnings(all.take(i as int)),
        decreases resolved.len() - i,
    {
        proof {
            assert(all.take(i + 1).drop_last() =~= all.take(i as int));
            assert(all.take(i + 1).last() == resolved[i as int]@);
        }
        match &resolved[i].outcome {
            Ok(bindeps) => {
                extend_with(&mut names, bindeps);
                assert(warnings.deep_view() + Seq::<Seq<char>>::empty() =~= warnings.deep_view());
            },
            Err(err) => {
                let mut text = String::from_str("warning: ");
                text.append(err.as_str());
                text.append(" (no auto deps for ");
                text.append(resolved[i].binary.as_str());
                text.append(")");
                let ghost before = warnings.deep_view();
                warnings.push(text);
                assert(warnings.deep_view() =~= before + seq![
                    failure_warning(err@, resolved[i as int].binary@),
                ]);
                assert(names.deep_view() + Seq::<Seq<char>>::empty() =~= names.deep_view());
            },
        }
        i += 1;
    }
    assert(all.take(i as int) =~= all);
    (names, warnings)
}

impl Config {
    /// The executables whose dependencies are to be resolved, each with
    /// the architecture of the package: the executables of the package
    /// where the directive asks for resolved names, and none where it does
    /// not.
    pub fn binaries_to_resolve(&self) -> (sources: Vec<String>)
        requires
            self.target is Some ==> parent_spec(self.target_dir@) is Some,
        ensures
            sources.deep_view() == if asks_for_resolved(self.depends@) {
                binaries_spec(
                    self@.assets,
                    self.workspace_root@,
                    release_dir_spec(self@.target, self.target_dir@),
                )
            } else {
                Seq::<Seq<char>>::empty()
            },
    {
        let words = split(self.depends.as_str(), ',');
        let mut i: usize = 0;
        while i < words.len()
            invariant
                i <= words.len(),
                self.target is Some ==> parent_spec(self.target_dir@) is Some,
                words.deep_view() == split_on(self.depends@, ','),
                forall|k: int| 0 <= k < i ==> !is_auto(#[trigger] words.deep_view()[k]),
            decreases words.len() - i,
        {
            let word = trim(words[i].as_str());
            proof {
                assert(words.deep_view()[i as int] == words[i as int]@);
            }
            if str_eq(word.as_str(), "$auto") {
                assert(is_auto(split_on(self.depends@, ',')[i as int]));
                return self.binaries();
            }
            i += 1;
        }
        let none: Vec<String> = Vec::new();
        assert(none.deep_view() =~= Seq::<Seq<char>>::empty());
        none
    }

    /// The dependencies of the package in one line, each named once and
    /// parted by `, `, with the warnings for the executables of which
    /// none could be resolved. `resolved` holds what resolving gave for
    /// the executables of `binaries_to_resolve`; it is looked at only
    /// where the directive asks for resolved names.
    pub fn get_dependencies(&self, resolved: &Vec<Resolution>) -> (r: (String, Vec<String>))
        ensures
            r.0@ == get_dependencies_spec(self.depends@, resolved.deep_view()),
            r.1.deep_view() == dependency_warnings(self.depends@, resolved.deep_view()),
    {
        let (auto, auto_failures) = collect_resolved(resolved);
        let words = split(self.depends.as_str(), ',');
        let ghost table = resolved.deep_view();
        let ghost all = words.deep_view();
        let mut deps: Vec<String> = Vec::new();
        let mut warnings: Vec<String> = Vec::new();
        let mut i: usize = 0;
        assert(all.take(0) =~= Seq::<Seq<char>>::empty());
        assert(deps.deep_view() =~= Seq::<Seq<char>>::empty());
        assert(warnings.deep_view() =~= Seq::<Seq<char>>::empty());
        while i < words.len()
            invariant
                i <= words.len(),
                all == words.deep_view(),
                auto.deep_view() == auto_names(table),
                auto_failures.deep_view() == auto_warnings(table),
                deps.deep_view() == distinct(all_names(all.take(i as int), table)),
                warnings.deep_view() == all_warnings(all.take(i as int), table),
            decreases words.len() - i,
        {
            proof {
                assert(all.take(i + 1).drop_last() =~= all.take(i as int));
                assert(all.take(i + 1).last() == words[i as int]@);
            }
            let ghost so_far = all_names(all.take(i as int), table);
            let word = trim(words[i].as_str());
            if str_eq(word.as_str(), "$auto") {
                add_names(&mut deps, &auto, Ghost(so_far));
                extend_with(&mut warnings, &auto_failures);
            } else {
                add_name(&mut deps, word, Ghost(so_far));
                assert(so_far.push(word@) =~= so_far + seq![word@]);
                assert(warnings.deep_view() + Seq::<Seq<char>>::empty() =~= warnings.deep_view());
            }
            i += 1;
        }
        assert(all.take(i as int) =~= all);
        (join_strings(&deps, ", "), warnings)
    }
}

} // verus!
