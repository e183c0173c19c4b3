//! A model of Unix paths held as strings.
//!
//! A path is read as an optional root (a leading `/`) followed by
//! components. The components are the maximal runs of characters between
//! separators, leaving out empty runs and every `.` except one that opens
//! the path. All operations here are stated over the `Seq<char>` view of
//! the path and over the positions of its components.

use vstd::prelude::*;
use crate::text::chars_of;

verus! {

/// Whether the run `s[start..end)` counts as a component.
pub open spec fn is_component(s: Seq<char>, start: int, end: int) -> bool {
    start < end && !(end - start == 1 && s[start] == '.' && start > 0)
}

/// The component, if any, that the run `s[start..end)` contributes.
pub open spec fn closing(s: Seq<char>, start: int, end: int) -> Seq<(int, int)> {
    if is_component(s, start, end) {
        seq![(start, end)]
    } else {
        Seq::empty()
    }
}

/// The components found from position `i` on, where the run being read
/// began at `start`.
pub open spec fn ranges_scan(s: Seq<char>, i: int, start: int) -> Seq<(int, int)>
    decreases s.len() - i,
{
    if i < 0 || i >= s.len() {
        closing(s, start, s.len() as int)
    } else if s[i] == '/' {
        closing(s, start, i) + ranges_scan(s, i + 1, i + 1)
    } else {
        ranges_scan(s, i + 1, start)
    }
}

/// The positions `(start, end)` of the components of `s`, left to right.
pub open spec fn component_ranges(s: Seq<char>) -> Seq<(int, int)> {
    ranges_scan(s, 0, 0)
}

/// The components of `s` as strings.
pub open spec fn components(s: Seq<char>) -> Seq<Seq<char>> {
    Seq::new(
        component_ranges(s).len(),
        |k: int| s.subrange(component_ranges(s)[k].0, component_ranges(s)[k].1),
    )
}

/// A path is absolute when it begins with the separator.
pub open spec fn is_absolute_spec(s: Seq<char>) -> bool {
    s.len() > 0 && s[0] == '/'
}

/// `base` extended by `rel`: an absolute `rel` replaces `base`; otherwise
/// `rel` is appended, after a separator unless `base` is empty or already
/// ends with one.
pub open spec fn join_spec(base: Seq<char>, rel: Seq<char>) -> Seq<char> {
    if is_absolute_spec(rel) {
        rel
    } else if base.len() == 0 || base.last() == '/' {
        base + rel
    } else {
        base + seq!['/'] + rel
    }
}

/// The final component, unless the path has none or ends in `.` or `..`.
pub open spec fn file_name_spec(s: Seq<char>) -> Option<Seq<char>> {
    let c = components(s);
    if c.len() == 0 || c.last() == seq!['.'] || c.last() == seq!['.', '.'] {
        None
    } else {
        Some(c.last())
    }
}

/// The path without its final component: what precedes it, up to the end
/// of the component before, or the bare root, or nothing.
pub open spec fn parent_spec(s: Seq<char>) -> Option<Seq<char>> {
    let r = component_ranges(s);
    if r.len() == 0 {
        None
    } else if r.len() == 1 {
        Some(if is_absolute_spec(s) { s.subrange(0, 1) } else { Seq::empty() })
    } else {
        Some(s.subrange(0, r[r.len() - 2].1))
    }
}

/// Whether `s` lies at or under `prefix`: the components of `prefix` open
/// those of `s`, where the root counts as a component of its own that
/// stands before the others.
pub open spec fn starts_with_spec(s: Seq<char>, prefix: Seq<char>) -> bool {
    &&& is_absolute_spec(prefix) ==> is_absolute_spec(s)
    &&& is_absolute_spec(s) && !is_absolute_spec(prefix) ==> components(prefix).len() == 0
    &&& components(prefix).len() <= components(s).len()
    &&& forall|k: int| 0 <= k < components(prefix).len() ==> components(s)[k] == components(prefix)[k]
}

/// What is left of `s` after its root and its first `n` components: from
/// the start of the next component to the end of the last one.
pub open spec fn skip_components(s: Seq<char>, n: int) -> Seq<char> {
    let r = component_ranges(s);
    if 0 <= n < r.len() {
        s.subrange(r[n].0, r.last().1)
    } else {
        Seq::empty()
    }
}

/// `s` up to the end of its last component; the bare root, or nothing,
/// where it has no component.
pub open spec fn without_trailing_separators(s: Seq<char>) -> Seq<char> {
    let r = component_ranges(s);
    if r.len() > 0 {
        s.subrange(0, r.last().1)
    } else if is_absolute_spec(s) {
        s.subrange(0, 1)
    } else {
        Seq::empty()
    }
}

/// `s` relative to `prefix`, where `s` lies at or under it: what is left
/// of `s` after the components that `prefix` has, the root among them.
pub open spec fn strip_prefix_spec(s: Seq<char>, prefix: Seq<char>) -> Option<Seq<char>> {
    if starts_with_spec(s, prefix) {
        if is_absolute_spec(s) && !is_absolute_spec(prefix) {
            Some(without_trailing_separators(s))
        } else {
            Some(skip_components(s, components(prefix).len() as int))
        }
    } else {
        None
    }
}

/// The component positions held by `v`, as mathematical integers.
pub open spec fn ranges_view(v: Seq<(usize, usize)>) -> Seq<(int, int)> {
    Seq::new(v.len(), |k: int| (v[k].0 as int, v[k].1 as int))
}

/// Finds the components of `p`.
pub fn scan_components(p: &Vec<char>) -> (r: Vec<(usize, usize)>)
    ensures
        ranges_view(r@) == component_ranges(p@),
        forall|k: int| 0 <= k < r.len() ==> (#[trigger] r[k]).0 < r[k].1 <= p.len(),
        forall|k: int| 0 <= k < r.len() ==> p[(#[trigger] r[k]).0 as int] != '/',
        forall|k: int, l: int| 0 <= k < l < r.len() ==> (#[trigger] r[k]).1 < (#[trigger] r[l]).0,
{
    let mut r: Vec<(usize, usize)> = Vec::new();
    let mut start: usize = 0;
    let mut i: usize = 0;
    while i < p.len()
        invariant
            start <= i <= p.len(),
            ranges_view(r@) + ranges_scan(p@, i as int, start as int) == component_ranges(p@),
            forall|k: int| 0 <= k < r.len() ==> (#[trigger] r[k]).0 < r[k].1 <= p.len(),
            forall|k: int| 0 <= k < r.len() ==> (#[trigger] r[k]).1 < start,
            forall|k: int| 0 <= k < r.len() ==> p[(#[trigger] r[k]).0 as int] != '/',
            forall|k: int, l: int| 0 <= k < l < r.len() ==> (#[trigger] r[k]).1 < (#[trigger] r[l]).0,
            forall|j: int| start <= j < i ==> p[j] != '/',
        decreases p.len() - i,
    {
        if p[i] == '/' {
            if start < i && !(i - start == 1 && p[start] == '.' && start > 0) {
                let ghost before = ranges_view(r@);
                r.push((start, i));
                assert(ranges_view(r@) == before + closing(p@, start as int, i as int));
            }
            start = i + 1;
        }
        i += 1;
    }
    let n: usize = p.len();
    if start < n && !(n - start == 1 && p[start] == '.' && start > 0) {
        let ghost before = ranges_view(r@);
        r.push((start, n));
        assert(ranges_view(r@) == before + closing(p@, start as int, n as int));
    }
    r
}

/// Whether the runs `a[ar.0..ar.1)` and `b[br.0..br.1)` hold the same
/// characters.
fn same_run(a: &Vec<char>, ar: (usize, usize), b: &Vec<char>, br: (usize, usize)) -> (same: bool)
    requires
        ar.0 <= ar.1 <= a.len(),
        br.0 <= br.1 <= b.len(),
    ensures
        same == (a@.subrange(ar.0 as int, ar.1 as int) == b@.subrange(br.0 as int, br.1 as int)),
{
    let ghost x = a@.subrange(ar.0 as int, ar.1 as int);
    let ghost y = b@.subrange(br.0 as int, br.1 as int);
    if ar.1 - ar.0 != br.1 - br.0 {
        assert(x.len() != y.len());
        return false;
    }
    let n: usize = ar.1 - ar.0;
    let mut i: usize = 0;
    while i < n
        invariant
            i <= n,
            n == ar.1 - ar.0,
            n == br.1 - br.0,
            ar.1 <= a.len(),
            br.1 <= b.len(),
            x == a@.subrange(ar.0 as int, ar.1 as int),
            y == b@.subrange(br.0 as int, br.1 as int),
            forall|j: int| 0 <= j < i ==> x[j] == y[j],
        decreases n - i,
    {
        if a[ar.0 + i] != b[br.0 + i] {
            assert(x[i as int] != y[i as int]);
            return false;
        }
        i += 1;
    }
    assert(x =~= y);
    true
}

/// Whether `p` is absolute.
pub fn is_absolute(p: &str) -> (b: bool)
    ensures
        b == is_absolute_spec(p@),
{
    p.unicode_len() > 0 && p.get_char(0) == '/'
}

/// Whether `p` ends with the separator.
pub fn ends_with_separator(p: &str) -> (b: bool)
    ensures
        b == (p@.len() > 0 && p@.last() == '/'),
{
    let n: usize = p.unicode_len();
    n > 0 && p.get_char(n - 1) == '/'
}

/// `base` extended by `rel`.
pub fn join(base: &str, rel: &str) -> (r: String)
    ensures
        r@ == join_spec(base@, rel@),
{
    if is_absolute(rel) {
        return String::from_str(rel);
    }
    let mut r = String::from_str(base);
    if !(base.unicode_len() == 0 || ends_with_separator(base)) {
        proof {
            reveal_strlit("/");
            assert("/"@ =~= seq!['/']);
        }
        r.append("/");
    }
    r.append(rel);
    r
}

/// The final component of `p`, unless it has none or ends in `.` or `..`.
pub fn file_name(p: &str) -> (r: Option<String>)
    ensures
        r.deep_view() == file_name_spec(p@),
{
    let chars = chars_of(p);
    let ranges = scan_components(&chars);
    if ranges.len() == 0 {
        return None;
    }
    let (a, b) = ranges[ranges.len() - 1];
    proof {
        let rv = component_ranges(p@);
        assert(rv.last() == ranges_view(ranges@)[ranges.len() - 1]);
        assert(components(p@).last() == p@.subrange(a as int, b as int));
    }
    let ghost last = p@.subrange(a as int, b as int);
    if b - a == 1 && chars[a] == '.' {
        assert(last =~= seq!['.']);
        return None;
    }
    if b - a == 2 && chars[a] == '.' && chars[a + 1] == '.' {
        assert(last =~= seq!['.', '.']);
        return None;
    }
    assert(last != seq!['.']) by {
        if last == seq!['.'] {
            assert(last.len() == 1 && last[0] == '.');
        }
    }
    assert(last != seq!['.', '.']) by {
        if last == seq!['.', '.'] {
            assert(last.len() == 2 && last[0] == '.' && last[1] == '.');
        }
    }
    Some(String::from_str(p.substring_char(a, b)))
}

/// The path without its final component.
pub fn parent(p: &str) -> (r: Option<String>)
    ensures
        r.deep_view() == parent_spec(p@),
{
    let chars = chars_of(p);
    let ranges = scan_components(&chars);
    let n: usize = ranges.len();
    proof {
        assert(ranges_view(ranges@).len() == n);
    }
    if n == 0 {
        None
    } else if n == 1 {
        if chars[0] == '/' {
            Some(String::from_str(p.substring_char(0, 1)))
        } else {
            let e = String::new();
            assert(e@ =~= Seq::<char>::empty());
            Some(e)
        }
    } else {
        let end: usize = ranges[n - 2].1;
        proof {
            assert(ranges_view(ranges@)[n - 2] == component_ranges(p@)[n - 2]);
        }
        Some(String::from_str(p.substring_char(0, end)))
    }
}

/// Whether `p` lies at or under `prefix`.
pub fn starts_with(p: &str, prefix: &str) -> (b: bool)
    ensures
        b == starts_with_spec(p@, prefix@),
{
    let pc = chars_of(p);
    let qc = chars_of(prefix);
    let pr = scan_components(&pc);
    let qr = scan_components(&qc);
    starts_with_scanned(&pc, &pr, &qc, &qr)
}

/// `starts_with` on paths whose components are already found.
fn starts_with_scanned(
    pc: &Vec<char>,
    pr: &Vec<(usize, usize)>,
    qc: &Vec<char>,
    qr: &Vec<(usize, usize)>,
) -> (b: bool)
    requires
        ranges_view(pr@) == component_ranges(pc@),
        ranges_view(qr@) == component_ranges(qc@),
        forall|k: int| 0 <= k < pr.len() ==> (#[trigger] pr[k]).0 < pr[k].1 <= pc.len(),
        forall|k: int| 0 <= k < qr.len() ==> (#[trigger] qr[k]).0 < qr[k].1 <= qc.len(),
    ensures
        b == starts_with_spec(pc@, qc@),
{
    let p_abs = pc.len() > 0 && pc[0] == '/';
    let q_abs = qc.len() > 0 && qc[0] == '/';
    proof {
        assert(ranges_view(pr@).len() == pr.len());
        assert(ranges_view(qr@).len() == qr.len());
    }
    if q_abs && !p_abs {
        return false;
    }
    if p_abs && !q_abs && qr.len() > 0 {
        return false;
    }
    if qr.len() > pr.len() {
        return false;
    }
    let mut k: usize = 0;
    while k < qr.len()
        invariant
            k <= qr.len() <= pr.len(),
            ranges_view(pr@) == component_ranges(pc@),
            ranges_view(qr@) == component_ranges(qc@),
            forall|j: int| 0 <= j < pr.len() ==> (#[trigger] pr[j]).0 < pr[j].1 <= pc.len(),
            forall|j: int| 0 <= j < qr.len() ==> (#[trigger] qr[j]).0 < qr[j].1 <= qc.len(),
            forall|j: int| 0 <= j < k ==> components(pc@)[j] == components(qc@)[j],
        decreases qr.len() - k,
    {
        proof {
            assert(ranges_view(pr@)[k as int] == component_ranges(pc@)[k as int]);
            assert(ranges_view(qr@)[k as int] == component_ranges(qc@)[k as int]);
        }
        if !same_run(pc, pr[k], qc, qr[k]) {
            assert(components(pc@)[k as int] != components(qc@)[k as int]);
            return false;
        }
        k += 1;
    }
    true
}

/// `p` relative to `prefix`, where `p` lies at or under it.
pub fn strip_prefix(p: &str, prefix: &str) -> (r: Option<String>)
    ensures
        r.deep_view() == strip_prefix_spec(p@, prefix@),
{
    let pc = chars_of(p);
    let qc = chars_of(prefix);
    let pr = scan_components(&pc);
    let qr = scan_components(&qc);
    if !starts_with_scanned(&pc, &pr, &qc, &qr) {
        return None;
    }
    let n: usize = qr.len();
    proof {
        assert(ranges_view(pr@).len() == pr.len());
        assert(ranges_view(qr@).len() == qr.len());
    }
    let root_kept = pc.len() > 0 && pc[0] == '/' && !(qc.len() > 0 && qc[0] == '/');
    if root_kept {
        if pr.len() > 0 {
            let to: usize = pr[pr.len() - 1].1;
            proof {
                assert(ranges_view(pr@)[pr.len() - 1] == component_ranges(pc@).last());
            }
            Some(String::from_str(p.substring_char(0, to)))
        } else {
            Some(String::from_str(p.substring_char(0, 1)))
        }
    } else if n < pr.len() {
        let from: usize = pr[n].0;
        let to: usize = pr[pr.len() - 1].1;
        proof {
            assert(ranges_view(pr@)[n as int] == component_ranges(pc@)[n as int]);
            assert(ranges_view(pr@)[pr.len() - 1] == component_ranges(pc@).last());
        }
        Some(String::from_str(p.substring_char(from, to)))
    } else {
        let e = String::new();
        assert(e@ =~= Seq::<char>::empty());
        Some(e)
    }
}

/// `s` without its root: from the start of its first component to its own
/// end; nothing where it has no component.
pub open spec fn without_root(s: Seq<char>) -> Seq<char> {
    let r = component_ranges(s);
    if r.len() > 0 {
        s.subrange(r[0].0, s.len() as int)
    } else {
        Seq::empty()
    }
}

/// `p` without its root: from the start of its first component to its own
/// end, trailing separators included.
pub fn strip_root(p: &str) -> (r: String)
    ensures
        r@ == without_root(p@),
        !is_absolute_spec(r@),
{
    let chars = chars_of(p);
    let ranges = scan_components(&chars);
    proof {
        assert(ranges_view(ranges@).len() == ranges.len());
    }
    if ranges.len() == 0 {
        let e = String::new();
        assert(e@ =~= Seq::<char>::empty());
        e
    } else {
        let from: usize = ranges[0].0;
        proof {
            assert(ranges_view(ranges@)[0] == component_ranges(p@)[0]);
            let r = p@.subrange(from as int, p@.len() as int);
            assert(r[0] == p@[from as int]);
        }
        String::from_str(p.substring_char(from, chars.len()))
    }
}

/// No component holds a separator.
pub proof fn lemma_component_has_no_separator(s: Seq<char>, k: int)
    requires
        0 <= k < component_ranges(s).len(),
    ensures
        0 <= component_ranges(s)[k].0 < component_ranges(s)[k].1 <= s.len(),
        forall|j: int| component_ranges(s)[k].0 <= j < component_ranges(s)[k].1 ==> s[j] != '/',
{
    lemma_scan_has_no_separator(s, 0, 0, k);
}

proof fn lemma_scan_has_no_separator(s: Seq<char>, i: int, start: int, k: int)
    requires
        0 <= start <= i <= s.len(),
        forall|j: int| start <= j < i ==> s[j] != '/',
        0 <= k < ranges_scan(s, i, start).len(),
    ensures
        start <= ranges_scan(s, i, start)[k].0 < ranges_scan(s, i, start)[k].1 <= s.len(),
        forall|j: int|
            ranges_scan(s, i, start)[k].0 <= j < ranges_scan(s, i, start)[k].1 ==> s[j] != '/',
    decreases s.len() - i,
{
    if i >= s.len() {
    } else if s[i] == '/' {
        let head = closing(s, start, i);
        if k >= head.len() {
            lemma_scan_has_no_separator(s, i + 1, i + 1, k - head.len());
        }
    } else {
        lemma_scan_has_no_separator(s, i + 1, start, k);
    }
}

/// A file name is not empty and holds no separator.
pub proof fn lemma_file_name_is_relative(s: Seq<char>)
    requires
        file_name_spec(s) is Some,
    ensures
        file_name_spec(s)->0.len() > 0,
        forall|j: int| 0 <= j < file_name_spec(s)->0.len() ==> file_name_spec(s)->0[j] != '/',
        !is_absolute_spec(file_name_spec(s)->0),
{
    let r = component_ranges(s);
    lemma_component_has_no_separator(s, r.len() - 1);
    let name = file_name_spec(s)->0;
    assert(name == s.subrange(r.last().0, r.last().1));
    assert forall|j: int| 0 <= j < name.len() implies name[j] != '/' by {
        assert(name[j] == s[r.last().0 + j]);
    }
}

} // verus!
