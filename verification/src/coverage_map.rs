//! A map of file coverages keyed by file path, kept in insertion order.
use vstd::prelude::*;
use indexmap::IndexMap;
use crate::file_coverage::{FileCoverage, FileCoverageView};

verus! {

/// File coverages keyed by file path.
pub type FileMap = IndexMap<String, FileCoverage>;

/// The entries of a file map, in order: each path with its coverage.
pub uninterp spec fn file_entries(m: FileMap) -> Seq<(Seq<char>, FileCoverageView)>;

/// No path occurs twice.
pub open spec fn unique_paths(s: Seq<(Seq<char>, FileCoverageView)>) -> bool {
    forall|i: int, j: int| 0 <= i < s.len() && 0 <= j < s.len() && i != j ==> s[i].0 != s[j].0
}

/// Some entry has path `p`.
pub open spec fn has_path(s: Seq<(Seq<char>, FileCoverageView)>, p: Seq<char>) -> bool {
    exists|i: int| 0 <= i < s.len() && s[i].0 == p
}

/// The position of the entry with path `p` (meaningful when `has_path(s, p)`).
pub open spec fn path_index(s: Seq<(Seq<char>, FileCoverageView)>, p: Seq<char>) -> int {
    choose|i: int| 0 <= i < s.len() && s[i].0 == p
}

/// The paths of the entries, in order.
pub open spec fn paths(s: Seq<(Seq<char>, FileCoverageView)>) -> Seq<Seq<char>> {
    s.map_values(|e: (Seq<char>, FileCoverageView)| e.0)
}

/// `IndexMap::new`: the map is empty.
#[verifier::external_body]
fn file_map_new() -> (m: FileMap)
    ensures
        file_entries(m) == Seq::<(Seq<char>, FileCoverageView)>::empty(),
{
    IndexMap::new()
}

/// `IndexMap::get`: the coverage stored under the path, if any.
#[verifier::external_body]
fn file_map_get<'a>(m: &'a FileMap, k: &str) -> (r: Option<&'a FileCoverage>)
    ensures
        r is Some <==> has_path(file_entries(*m), k@),
        r matches Some(c) ==> (unique_paths(file_entries(*m)) ==> c@ == file_entries(*m)[path_index(
            file_entries(*m),
            k@,
        )].1),
{
    m.get(k)
}

/// `IndexMap::insert`: an existing entry for the path keeps its place and takes
/// the coverage, otherwise the entry is added last.
#[verifier::external_body]
fn file_map_insert(m: &mut FileMap, k: String, v: FileCoverage) -> (r: Option<FileCoverage>)
    ensures
        r is Some <==> has_path(file_entries(*old(m)), k@),
        !has_path(file_entries(*old(m)), k@) ==> file_entries(*final(m)) == file_entries(*old(m)).push(
            (k@, v@),
        ),
        has_path(file_entries(*old(m)), k@) ==> (unique_paths(file_entries(*old(m))) ==> file_entries(
            *final(m),
        ) == file_entries(*old(m)).update(path_index(file_entries(*old(m)), k@), (k@, v@))),
{
    m.insert(k, v)
}

/// `IndexMap::len`: the number of entries.
#[verifier::external_body]
fn file_map_len(m: &FileMap) -> (r: usize)
    ensures
        r == file_entries(*m).len(),
{
    m.len()
}

/// `IndexMap::get_index`: the entry at position `i`, if `i` is below the length.
#[verifier::external_body]
fn file_map_get_index(m: &FileMap, i: usize) -> (r: Option<(&String, &FileCoverage)>)
    ensures
        r is Some <==> i < file_entries(*m).len(),
        r matches Some(e) ==> (*e.0)@ == file_entries(*m)[i as int].0 && (*e.1)@ == file_entries(
            *m,
        )[i as int].1,
{
    m.get_index(i)
}

/// A map of `FileCoverage` objects keyed by file paths.
pub struct CoverageMap {
    inner: FileMap,
}

impl View for CoverageMap {
    type V = Seq<(Seq<char>, FileCoverageView)>;

    closed spec fn view(&self) -> Seq<(Seq<char>, FileCoverageView)> {
        file_entries(self.inner)
    }
}

impl CoverageMap {
    /// Paths are unique and each coverage is stored under its own path.
    #[verifier::type_invariant]
    spec fn well_formed(self) -> bool {
        coverage_map_wf(file_entries(self.inner))
    }

    /// Takes the entries out, leaving the map empty.
    fn take_inner(&mut self) -> (m: FileMap)
        ensures
            file_entries(m) == old(self)@,
            coverage_map_wf(file_entries(m)),
            final(self)@ == Seq::<(Seq<char>, FileCoverageView)>::empty(),
    {
        proof {
            use_type_invariant(&*self);
        }
        let mut m = file_map_new();
        core::mem::swap(&mut m, &mut self.inner);
        m
    }
}

/// Paths are unique and each coverage is stored under its own path.
pub open spec fn coverage_map_wf(s: Seq<(Seq<char>, FileCoverageView)>) -> bool {
    &&& unique_paths(s)
    &&& forall|i: int| 0 <= i < s.len() ==> #[trigger] s[i].0 == s[i].1.path
}

/// The entries of coverages stored under their paths, in order.
pub open spec fn entries_of(cs: Seq<FileCoverageView>) -> Seq<(Seq<char>, FileCoverageView)> {
    cs.map_values(|c: FileCoverageView| (c.path, c))
}

/// The entries after adding a coverage under its path: a path already present
/// keeps its entry, a new path goes last.
pub open spec fn with_entry(
    s: Seq<(Seq<char>, FileCoverageView)>,
    e: (Seq<char>, FileCoverageView),
) -> Seq<(Seq<char>, FileCoverageView)> {
    if has_path(s, e.0) {
        s
    } else {
        s.push(e)
    }
}

/// The entries after adding each entry of `t` in turn with [`with_entry`].
pub open spec fn with_entries(
    s: Seq<(Seq<char>, FileCoverageView)>,
    t: Seq<(Seq<char>, FileCoverageView)>,
) -> Seq<(Seq<char>, FileCoverageView)>
    decreases t.len(),
{
    if t.len() == 0 {
        s
    } else {
        with_entry(with_entries(s, t.drop_last()), t.last())
    }
}

/// The entries kept by a filter that decided `keep[i]` for entry `i`.
pub open spec fn kept(s: Seq<(Seq<char>, FileCoverageView)>, keep: Seq<bool>) -> Seq<
    (Seq<char>, FileCoverageView),
>
    decreases s.len(),
{
    if s.len() == 0 || keep.len() < s.len() {
        Seq::empty()
    } else if keep[s.len() - 1] {
        kept(s.drop_last(), keep).push(s.last())
    } else {
        kept(s.drop_last(), keep)
    }
}

/// `predicate` can return `b` for a coverage whose value is `v`.
pub open spec fn can_decide<F: Fn(&FileCoverage) -> bool>(predicate: F, v: FileCoverageView, b: bool) -> bool {
    exists|c: &FileCoverage| c@ == v && #[trigger] predicate.ensures((c,), b)
}

/// Each of the first `n` entries of `s` is matched by a decision in `keep` that
/// `predicate` can return for a coverage with that value.
pub open spec fn decided_by<F: Fn(&FileCoverage) -> bool>(
    predicate: F,
    s: Seq<(Seq<char>, FileCoverageView)>,
    keep: Seq<bool>,
    n: int,
) -> bool {
    forall|j: int| #![trigger keep[j]] 0 <= j < n ==> can_decide(predicate, s[j].1, keep[j])
}

/// One more decision, for the next entry, that `predicate` can return for it.
proof fn lemma_decided_push<F: Fn(&FileCoverage) -> bool>(
    predicate: F,
    s: Seq<(Seq<char>, FileCoverageView)>,
    keep: Seq<bool>,
    n: int,
    b: bool,
    c: &FileCoverage,
)
    requires
        decided_by(predicate, s, keep, n),
        keep.len() == n,
        0 <= n < s.len(),
        c@ == s[n].1,
        predicate.ensures((c,), b),
    ensures
        decided_by(predicate, s, keep.push(b), n + 1),
{
    assert(can_decide(predicate, s[n].1, b));
    assert forall|j: int| #![trigger keep.push(b)[j]] 0 <= j < n + 1 implies can_decide(
        predicate,
        s[j].1,
        keep.push(b)[j],
    ) by {
        if j < n {
            assert(keep.push(b)[j] == keep[j]);
        }
    }
}

/// Adding a fresh path keeps the map well formed.
proof fn lemma_push_fresh(s: Seq<(Seq<char>, FileCoverageView)>, c: FileCoverageView)
    requires
        coverage_map_wf(s),
        !has_path(s, c.path),
    ensures
        coverage_map_wf(s.push((c.path, c))),
{
    let t = s.push((c.path, c));
    assert forall|i: int, j: int| 0 <= i < t.len() && 0 <= j < t.len() && i != j implies t[i].0
        != t[j].0 by {
        if i < s.len() && j < s.len() {
            assert(t[i] == s[i] && t[j] == s[j]);
        } else if i < s.len() {
            assert(t[i] == s[i]);
        } else {
            assert(t[j] == s[j]);
        }
    }
    assert forall|i: int| 0 <= i < t.len() implies #[trigger] t[i].0 == t[i].1.path by {
        if i < s.len() {
            assert(t[i] == s[i]);
        }
    }
}

/// The entries kept from a prefix, extended by one more decision.
proof fn lemma_kept_step(s: Seq<(Seq<char>, FileCoverageView)>, keep: Seq<bool>, i: int)
    requires
        0 <= i < s.len(),
        keep.len() == i + 1,
    ensures
        kept(s.take(i + 1), keep) == if keep[i] {
            kept(s.take(i), keep.take(i)).push(s[i])
        } else {
            kept(s.take(i), keep.take(i))
        },
{
    assert(s.take(i + 1).drop_last() =~= s.take(i));
    lemma_kept_prefix(s.take(i), keep, keep.take(i));
}

/// Only the first `s.len()` decisions matter.
proof fn lemma_kept_prefix(s: Seq<(Seq<char>, FileCoverageView)>, a: Seq<bool>, b: Seq<bool>)
    requires
        a.len() >= s.len(),
        b.len() >= s.len(),
        forall|j: int| 0 <= j < s.len() ==> a[j] == b[j],
    ensures
        kept(s, a) == kept(s, b),
    decreases s.len(),
{
    if s.len() > 0 {
        lemma_kept_prefix(s.drop_last(), a, b);
    }
}

/// What is kept of a well-formed map is a well-formed map whose entries all come
/// from it.
proof fn lemma_kept_wf(s: Seq<(Seq<char>, FileCoverageView)>, keep: Seq<bool>)
    requires
        coverage_map_wf(s),
        keep.len() >= s.len(),
    ensures
        coverage_map_wf(kept(s, keep)),
        forall|p: Seq<char>| has_path(kept(s, keep), p) ==> has_path(s, p),
    decreases s.len(),
{
    if s.len() > 0 {
        let t = s.drop_last();
        assert(coverage_map_wf(t)) by {
            assert forall|i: int| 0 <= i < t.len() implies #[trigger] t[i].0 == t[i].1.path by {
                assert(t[i] == s[i]);
            }
            assert forall|i: int, j: int| 0 <= i < t.len() && 0 <= j < t.len() && i != j implies t[i].0
                != t[j].0 by {
                assert(t[i] == s[i] && t[j] == s[j]);
            }
        }
        lemma_kept_wf(t, keep);
        let k = kept(t, keep);
        assert forall|p: Seq<char>| has_path(k, p) implies has_path(s, p) by {
            assert(has_path(t, p));
            let i = choose|i: int| 0 <= i < t.len() && t[i].0 == p;
            assert(s[i] == t[i]);
        }
        if keep[s.len() - 1] {
            let e = s.last();
            assert(!has_path(k, e.0)) by {
                if has_path(k, e.0) {
                    assert(has_path(t, e.0));
                    let i = choose|i: int| 0 <= i < t.len() && t[i].0 == e.0;
                    assert(s[i] == t[i]);
                    assert(s[s.len() - 1] == e);
                }
            }
            assert(e.0 == e.1.path) by {
                assert(s[s.len() - 1] == e);
            }
            lemma_push_fresh(k, e.1);
            assert forall|p: Seq<char>| has_path(k.push(e), p) implies has_path(s, p) by {
                let i = choose|i: int| 0 <= i < k.push(e).len() && k.push(e)[i].0 == p;
                if i < k.len() {
                    assert(k.push(e)[i] == k[i]);
                    assert(has_path(k, p));
                } else {
                    assert(s[s.len() - 1].0 == p);
                }
            }
        }
    }
}

/// What a lookup gives back after an add: once the coverage of a new file is
/// added to a well-formed map, looking its path up finds exactly that coverage,
/// and the coverages of the other files are found as before.
pub proof fn lemma_added_coverage_found(s: Seq<(Seq<char>, FileCoverageView)>, c: FileCoverageView, p: Seq<char>)
    requires
        coverage_map_wf(s),
        !has_path(s, c.path),
    ensures
        has_path(s.push((c.path, c)), c.path),
        s.push((c.path, c))[path_index(s.push((c.path, c)), c.path)].1 == c,
        p != c.path ==> (has_path(s.push((c.path, c)), p) <==> has_path(s, p)),
        p != c.path && has_path(s, p) ==> s.push((c.path, c))[path_index(s.push((c.path, c)), p)].1
            == s[path_index(s, p)].1,
{
    let t = s.push((c.path, c));
    lemma_push_fresh(s, c);
    assert(t[s.len() as int].0 == c.path);
    let i = path_index(t, c.path);
    assert(t[i].0 == c.path);
    if i < s.len() {
        assert(t[i] == s[i]);
    }
    if p != c.path {
        if has_path(s, p) {
            let j = path_index(s, p);
            assert(t[j] == s[j]);
            let k = path_index(t, p);
            if k < s.len() {
                assert(t[k] == s[k]);
            }
        }
        if has_path(t, p) {
            let k = path_index(t, p);
            assert(k < s.len());
            assert(t[k] == s[k]);
        }
    }
}

impl CoverageMap {
    /// An empty map.
    pub fn new() -> (r: CoverageMap)
        ensures
            r@ == Seq::<(Seq<char>, FileCoverageView)>::empty(),
            coverage_map_wf(r@),
    {
        CoverageMap { inner: file_map_new() }
    }

    /// An empty map.
    pub fn default() -> (r: CoverageMap)
        ensures
            r@ == Seq::<(Seq<char>, FileCoverageView)>::empty(),
            coverage_map_wf(r@),
    {
        CoverageMap::new()
    }

    /// The map of the given coverages, in order; for a path given twice the first
    /// coverage stays (see [`CoverageMap::add_coverage_for_file`]).
    pub fn from_iter(value: Vec<&FileCoverage>) -> (r: CoverageMap)
        ensures
            r@ == with_entries(Seq::empty(), entries_of(value@.map_values(|c: &FileCoverage| c@))),
            coverage_map_wf(r@),
    {
        let mut ret = CoverageMap::new();
        let ghost cs = entries_of(value@.map_values(|c: &FileCoverage| c@));
        let mut i: usize = 0;
        while i < value.len()
            invariant
                i <= value.len(),
                cs == entries_of(value@.map_values(|c: &FileCoverage| c@)),
                ret@ == with_entries(Seq::empty(), cs.take(i as int)),
                coverage_map_wf(ret@),
            decreases value.len() - i,
        {
            let c = value[i];
            ret.add_coverage_for_file(c);
            i = i + 1;
            assert(cs.take(i as int).drop_last() =~= cs.take((i - 1) as int));
            assert(cs.take(i as int).last() == (c@.path, c@));
        }
        assert(cs.take(i as int) =~= cs);
        ret
    }

    /// Adds the coverages of another map after those of this one, in its order; a
    /// path already in this map keeps its place and its coverage (see
    /// [`CoverageMap::add_coverage_for_file`]).
    pub fn merge(&mut self, map: &CoverageMap)
        ensures
            final(self)@ == with_entries(old(self)@, map@),
            coverage_map_wf(final(self)@),
    {
        proof {
            use_type_invariant(&*self);
            use_type_invariant(map);
        }
        let ghost before = self@;
        let n = file_map_len(&map.inner);
        let mut i: usize = 0;
        while i < n
            invariant
                i <= n,
                n == map@.len(),
                self@ == with_entries(before, map@.take(i as int)),
                coverage_map_wf(self@),
                coverage_map_wf(map@),
            decreases n - i,
        {
            assert(i < file_entries(map.inner).len());
            if let Some((_, coverage)) = file_map_get_index(&map.inner, i) {
                assert(map@[i as int].0 == coverage@.path);
                self.add_coverage_for_file(coverage);
            }
            i = i + 1;
            assert(map@.take(i as int).drop_last() =~= map@.take((i - 1) as int));
        }
        assert(map@.take(i as int) =~= map@);
    }

    /// Keeps the coverages for which `predicate` returns true, in order.
    pub fn filter(&mut self, predicate: impl Fn(&FileCoverage) -> bool)
        requires
            forall|c: &FileCoverage| #[trigger] predicate.requires((c,)),
        ensures
            coverage_map_wf(final(self)@),
            exists|keep: Seq<bool>|
                {
                    &&& keep.len() == old(self)@.len()
                    &&& final(self)@ == kept(old(self)@, keep)
                    &&& #[trigger] decided_by(predicate, old(self)@, keep, keep.len() as int)
                },
    {
        proof {
            use_type_invariant(&*self);
        }
        let ghost before = self@;
        let mut filtered = file_map_new();
        let ghost mut keep: Seq<bool> = Seq::empty();
        let n = file_map_len(&self.inner);
        let mut i: usize = 0;
        while i < n
            invariant
                i <= n,
                n == before.len(),
                self@ == before,
                coverage_map_wf(before),
                keep.len() == i,
                file_entries(filtered) == kept(before.take(i as int), keep),
                decided_by(predicate, before, keep, i as int),
                forall|c: &FileCoverage| #[trigger] predicate.requires((c,)),
            decreases n - i,
        {
            assert(i < file_entries(self.inner).len());
            if let Some((_, coverage)) = file_map_get_index(&self.inner, i) {
                let b = predicate(coverage);
                proof {
                    let old_keep = keep;
                    keep = keep.push(b);
                    assert(coverage@ == before[i as int].1);
                    assert(keep.take(i as int) =~= old_keep);
                    lemma_kept_step(before, keep, i as int);
                    assert(before.take(i as int + 1).take(i as int) =~= before.take(i as int));
                    lemma_kept_wf(before.take(i as int), old_keep);
                    lemma_decided_push(predicate, before, old_keep, i as int, b, coverage);
                }
                if b {
                    let ghost k = file_entries(filtered);
                    proof {
                        let t = before.take(i as int);
                        assert(coverage_map_wf(t)) by {
                            assert forall|a: int| 0 <= a < t.len() implies #[trigger] t[a].0
                                == t[a].1.path by {
                                assert(t[a] == before[a]);
                            }
                            assert forall|a: int, c: int|
                                0 <= a < t.len() && 0 <= c < t.len() && a != c implies t[a].0
                                != t[c].0 by {
                                assert(t[a] == before[a] && t[c] == before[c]);
                            }
                        }
                        lemma_kept_wf(t, keep.take(i as int));
                        assert(before[i as int].0 == coverage@.path);
                        if has_path(k, coverage@.path) {
                            assert(has_path(t, coverage@.path));
                            let a = choose|a: int| 0 <= a < t.len() && t[a].0 == coverage@.path;
                            assert(t[a] == before[a]);
                        }
                    }
                    file_map_insert(&mut filtered, coverage.path.clone(), FileCoverage::from_file_coverage(coverage));
                }
            }
            i = i + 1;
        }
        assert(before.take(i as int) =~= before);
        proof {
            lemma_kept_wf(before, keep);
        }
        self.inner = filtered;
        assert(self@ == kept(before, keep));
    }

    /// The paths of the files, in order.
    pub fn get_files(&self) -> (r: Vec<&String>)
        ensures
            r@.map_values(|s: &String| s@) == paths(self@),
    {
        let mut r: Vec<&String> = Vec::new();
        let n = file_map_len(&self.inner);
        let mut i: usize = 0;
        while i < n
            invariant
                i <= n,
                n == self@.len(),
                r@.len() == i,
                forall|j: int| 0 <= j < i ==> #[trigger] r@[j]@ == self@[j].0,
            decreases n - i,
        {
            assert(i < file_entries(self.inner).len());
            if let Some((path, _)) = file_map_get_index(&self.inner, i) {
                r.push(path);
            }
            i = i + 1;
        }
        assert(r@.map_values(|s: &String| s@) =~= paths(self@));
        r
    }

    /// The coverage of the file at `file_path`, if the map holds one.
    pub fn get_coverage_for_file(&self, file_path: &str) -> (r: Option<&FileCoverage>)
        ensures
            r is Some <==> has_path(self@, file_path@),
            r matches Some(c) ==> c@ == self@[path_index(self@, file_path@)].1,
            coverage_map_wf(self@),
    {
        proof {
            use_type_invariant(self);
        }
        file_map_get(&self.inner, file_path)
    }

    /// Adds the coverage of a file after the others. A second coverage of a file
    /// would be merged into the one in the map; merging file coverages is not
    /// supported, so the coverage already in the map stays as it is, in its place.
    pub fn add_coverage_for_file(&mut self, coverage: &FileCoverage)
        ensures
            final(self)@ == with_entry(old(self)@, (coverage@.path, coverage@)),
            coverage_map_wf(final(self)@),
    {
        proof {
            use_type_invariant(&*self);
        }
        if file_map_get(&self.inner, coverage.path.as_str()).is_some() {
            return;
        }
        let mut m = self.take_inner();
        proof {
            lemma_push_fresh(file_entries(m), coverage@);
        }
        file_map_insert(&mut m, coverage.path.clone(), FileCoverage::from_file_coverage(coverage));
        self.inner = m;
    }
}

} // verus!
