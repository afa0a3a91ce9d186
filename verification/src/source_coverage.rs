use vstd::prelude::*;
use crate::file_coverage::{FileCoverage, FileCoverageView};
use crate::index_map::{
    branch_hit_map_swap_remove, branch_map_get_index, branch_map_len, branch_map_retain_with_locations,
    branches_with_paths, lemma_branches_with_paths, lemma_drop_last, lemma_swap_removed_all,
    swap_removed_all,
    branch_hit_map_get, branch_hit_map_insert, branch_hit_map_new, branch_map_get, branch_map_insert,
    function_map_insert, has_key, hit_map_insert, inserted, keys, lemma_inserted_existing,
    lemma_inserted_unique, lemma_keys_push, branch_hit_entries, lemma_push_fresh, statement_map_insert, unique_keys,
    value_of,
};
use crate::range::Range;
use crate::text::{decimal, push_decimal};
use crate::types::{Branch, BranchType, BranchView, Function, FunctionView};

verus! {

/// The next free id for statements, functions and branches.
pub struct SourceCoverageMetaHitCount {
    pub s: u32,
    pub f: u32,
    pub b: u32,
}

impl Default for SourceCoverageMetaHitCount {
    fn default() -> (r: Self)
        ensures
            r.s == 0,
            r.f == 0,
            r.b == 0,
    {
        SourceCoverageMetaHitCount { s: 0, f: 0, b: 0 }
    }
}

pub struct SourceCoverageMeta {
    pub last: SourceCoverageMetaHitCount,
}

impl Default for SourceCoverageMeta {
    fn default() -> (r: Self)
        ensures
            r.last.s == 0,
            r.last.f == 0,
            r.last.b == 0,
    {
        SourceCoverageMeta { last: SourceCoverageMetaHitCount::default() }
    }
}

/// SourceCoverage provides mutation methods to manipulate the structure of
/// a file coverage object. Used by the instrumenter to create a full coverage
/// object for a file incrementally.
pub struct SourceCoverage {
    inner: FileCoverage,
    meta: SourceCoverageMeta,
}

/// A placeholder for inputs whose shape is not settled yet.
pub struct UnknownReserved;

impl Default for UnknownReserved {
    fn default() -> (r: UnknownReserved) {
        UnknownReserved
    }
}

/// The mathematical value of a [`SourceCoverage`]: the coverage built so far and
/// the next ids to hand out.
pub struct SourceCoverageView {
    pub coverage: FileCoverageView,
    pub next_s: u32,
    pub next_f: u32,
    pub next_b: u32,
}

impl SourceCoverage {
    /// Every `SourceCoverage` is well formed (see [`SourceCoverageView::wf`]).
    #[verifier::type_invariant]
    spec fn well_formed(self) -> bool {
        self@.wf()
    }
}

impl View for SourceCoverage {
    type V = SourceCoverageView;

    closed spec fn view(&self) -> SourceCoverageView {
        view_of(self.inner, self.meta)
    }
}

/// The value of a coverage under construction with the given next ids.
spec fn view_of(inner: FileCoverage, meta: SourceCoverageMeta) -> SourceCoverageView {
    SourceCoverageView {
        coverage: inner@,
        next_s: meta.last.s,
        next_f: meta.last.f,
        next_b: meta.last.b,
    }
}

/// The name given to a function without one: `"(anonymous_{id})"`.
pub open spec fn anonymous_name(id: u32) -> Seq<char> {
    "(anonymous_"@ + decimal(id as nat) + ")"@
}

/// `b_t` after registering the truthy counters of branch `name`: only a binary
/// expression under logic reporting gets an (empty) entry, creating `b_t` if needed.
pub open spec fn with_branch_true(
    b_t: Option<Seq<(u32, Seq<u32>)>>,
    branch_type: BranchType,
    name: u32,
    is_report_logic: bool,
) -> Option<Seq<(u32, Seq<u32>)>> {
    if is_report_logic && branch_type == BranchType::BinaryExpr {
        match b_t {
            Some(t) => Some(inserted(t, name, Seq::empty())),
            None => Some(inserted(Seq::empty(), name, Seq::empty())),
        }
    } else {
        b_t
    }
}

/// `b_t` after adding a path to branch `name`: its truthy counters, if any, get a zero.
pub open spec fn with_branch_true_path(b_t: Option<Seq<(u32, Seq<u32>)>>, name: u32) -> Option<
    Seq<(u32, Seq<u32>)>,
> {
    match b_t {
        Some(t) => if has_key(t, name) {
            Some(inserted(t, name, value_of(t, name).push(0)))
        } else {
            Some(t)
        },
        None => None,
    }
}

/// The coverage after recording a statement at `loc` under the next statement id.
pub open spec fn statement_added(v: SourceCoverageView, loc: Range) -> SourceCoverageView {
    SourceCoverageView {
        coverage: FileCoverageView {
            statement_map: v.coverage.statement_map.push((v.next_s, loc)),
            s: v.coverage.s.push((v.next_s, 0u32)),
            ..v.coverage
        },
        next_s: (v.next_s + 1) as u32,
        ..v
    }
}

/// The coverage after recording a function declared at `decl` and spanning `loc`
/// under the next function id; a missing name becomes [`anonymous_name`].
pub open spec fn function_added(v: SourceCoverageView, name: Option<String>, decl: Range, loc: Range) -> SourceCoverageView {
    SourceCoverageView {
        coverage: FileCoverageView {
            fn_map: v.coverage.fn_map.push(
                (
                    v.next_f,
                    FunctionView {
                        name: match name {
                            Some(n) => n@,
                            None => anonymous_name(v.next_f),
                        },
                        decl,
                        loc,
                        line: loc.start.line,
                    },
                ),
            ),
            f: v.coverage.f.push((v.next_f, 0u32)),
            ..v.coverage
        },
        next_f: (v.next_f + 1) as u32,
        ..v
    }
}

/// The coverage after recording a branch of `branch_type` at `loc`, with no paths,
/// under the next branch id (see [`with_branch_true`] for its truthy counters).
pub open spec fn branch_added(v: SourceCoverageView, branch_type: BranchType, loc: Range, is_report_logic: bool) -> SourceCoverageView {
    SourceCoverageView {
        coverage: FileCoverageView {
            branch_map: v.coverage.branch_map.push(
                (
                    v.next_b,
                    BranchView {
                        loc: Some(loc),
                        branch_type,
                        locations: Seq::empty(),
                        line: Some(loc.start.line),
                    },
                ),
            ),
            b: v.coverage.b.push((v.next_b, Seq::empty())),
            b_t: with_branch_true(v.coverage.b_t, branch_type, v.next_b, is_report_logic),
            ..v.coverage
        },
        next_b: (v.next_b + 1) as u32,
        ..v
    }
}

/// The coverage after adding a path at `location` to branch `name`: the location
/// is appended to the branch, a zero to its hit counts and to its truthy counters,
/// if it has some.
pub open spec fn branch_path_added(v: SourceCoverageView, name: u32, location: Range) -> SourceCoverageView {
    SourceCoverageView {
        coverage: FileCoverageView {
            branch_map: inserted(
                v.coverage.branch_map,
                name,
                BranchView {
                    locations: value_of(v.coverage.branch_map, name).locations.push(location),
                    ..value_of(v.coverage.branch_map, name)
                },
            ),
            b: inserted(v.coverage.b, name, value_of(v.coverage.b, name).push(0)),
            b_t: with_branch_true_path(v.coverage.b_t, name),
            ..v.coverage
        },
        ..v
    }
}

/// The ids `0, 1, .., n - 1`, in order.
pub open spec fn ids_below(n: u32) -> Seq<u32> {
    Seq::new(n as nat, |i: int| i as u32)
}

/// Every count is zero.
pub open spec fn all_zero(v: Seq<u32>) -> bool {
    forall|i: int| 0 <= i < v.len() ==> #[trigger] v[i] == 0
}

/// Every branch has one hit count per path location, and all of them are zero.
pub open spec fn branch_counts_match(c: FileCoverageView) -> bool {
    forall|k: u32| #[trigger]
        has_key(c.branch_map, k) ==> value_of(c.b, k).len() == value_of(c.branch_map, k).locations.len()
            && all_zero(value_of(c.b, k))
}

/// The truthy counters belong to branches, have as many entries as their hit
/// counts, and are all zero.
pub open spec fn truthy_counts_match(c: FileCoverageView) -> bool {
    c.b_t matches Some(t) ==> forall|k: u32| #[trigger]
        has_key(t, k) ==> has_key(c.b, k) && value_of(t, k).len() == value_of(c.b, k).len() && all_zero(
            value_of(t, k),
        )
}

impl SourceCoverageView {
    /// Statements and functions carry the ids `0 .. next - 1` in order, in their maps
    /// and in their hit counts, with zero hits; branch ids are below the next id,
    /// branches and their hit counts have the same key set, and each branch has one
    /// zero hit count per path location.
    pub open spec fn wf(self) -> bool {
        let c = self.coverage;
        &&& c.wf()
        &&& keys(c.statement_map) == ids_below(self.next_s)
        &&& keys(c.s) == ids_below(self.next_s)
        &&& keys(c.fn_map) == ids_below(self.next_f)
        &&& keys(c.f) == ids_below(self.next_f)
        &&& forall|i: int| 0 <= i < c.s.len() ==> #[trigger] c.s[i].1 == 0
        &&& forall|i: int| 0 <= i < c.f.len() ==> #[trigger] c.f[i].1 == 0
        &&& forall|k: u32| has_key(c.statement_map, k) ==> k < self.next_s
        &&& forall|k: u32| has_key(c.fn_map, k) ==> k < self.next_f
        &&& forall|k: u32| has_key(c.branch_map, k) ==> k < self.next_b
        &&& forall|k: u32| #[trigger] has_key(c.branch_map, k) <==> has_key(c.b, k)
        &&& branch_counts_match(c)
    }
}

/// Both sequences of entries have the same keys, so the key sets agree.
proof fn lemma_same_keys_has_key<V, W>(a: Seq<(u32, V)>, b: Seq<(u32, W)>)
    requires
        keys(a) == keys(b),
    ensures
        forall|k: u32| has_key(a, k) <==> has_key(b, k),
{
    assert(keys(a).len() == a.len());
    assert(keys(b).len() == b.len());
    assert forall|k: u32| has_key(a, k) <==> has_key(b, k) by {
        if has_key(a, k) {
            let i = choose|i: int| 0 <= i < a.len() && a[i].0 == k;
            assert(keys(a)[i] == a[i].0);
            assert(keys(b)[i] == b[i].0);
        }
        if has_key(b, k) {
            let i = choose|i: int| 0 <= i < b.len() && b[i].0 == k;
            assert(keys(b)[i] == b[i].0);
            assert(keys(a)[i] == a[i].0);
        }
    }
}

/// A copy of `v` with `x` appended.
fn pushed<T: Copy>(v: &Vec<T>, x: T) -> (r: Vec<T>)
    ensures
        r@ == v@.push(x),
{
    let mut r: Vec<T> = Vec::new();
    let mut i: usize = 0;
    while i < v.len()
        invariant
            i <= v.len(),
            r@ == v@.take(i as int),
        decreases v.len() - i,
    {
        r.push(v[i]);
        i = i + 1;
        assert(r@ =~= v@.take(i as int));
    }
    assert(v@.take(v.len() as int) =~= v@);
    r.push(x);
    r
}

/// The ids of the branches that have no path location, in branch order.
pub open spec fn empty_branch_ids(bm: Seq<(u32, BranchView)>) -> Seq<u32>
    decreases bm.len(),
{
    if bm.len() == 0 {
        Seq::empty()
    } else if bm.last().1.locations.len() == 0 {
        empty_branch_ids(bm.drop_last()).push(bm.last().0)
    } else {
        empty_branch_ids(bm.drop_last())
    }
}

/// The coverage after pruning branches without paths: they leave the branch map
/// (which keeps its order), and their hit counts and truthy counters are removed
/// one after another, each by moving the last entry into its place.
pub open spec fn frozen(c: FileCoverageView) -> FileCoverageView {
    let ids = empty_branch_ids(c.branch_map);
    FileCoverageView {
        branch_map: branches_with_paths(c.branch_map),
        b: swap_removed_all(c.b, ids),
        b_t: match c.b_t {
            Some(t) => Some(swap_removed_all(t, ids)),
            None => None,
        },
        ..c
    }
}

/// An id is listed by [`empty_branch_ids`] exactly when its branch has no path location.
proof fn lemma_empty_branch_ids(bm: Seq<(u32, BranchView)>)
    requires
        unique_keys(bm),
    ensures
        forall|j: u32| #[trigger]
            empty_branch_ids(bm).contains(j) <==> (has_key(bm, j) && value_of(bm, j).locations.len()
                == 0),
    decreases bm.len(),
{
    if bm.len() > 0 {
        let t = bm.drop_last();
        let e = bm.last();
        lemma_drop_last(bm);
        lemma_empty_branch_ids(t);
        let it = empty_branch_ids(t);
        assert forall|j: u32| #[trigger]
            empty_branch_ids(bm).contains(j) <==> (has_key(bm, j) && value_of(bm, j).locations.len()
                == 0) by {
            if e.1.locations.len() == 0 {
                assert(empty_branch_ids(bm) == it.push(e.0));
                assert(it.push(e.0).contains(j) <==> (it.contains(j) || j == e.0)) by {
                    if it.push(e.0).contains(j) {
                        let q = choose|q: int| 0 <= q < it.push(e.0).len() && it.push(e.0)[q] == j;
                        if q < it.len() {
                            assert(it[q] == j);
                        }
                    }
                    if it.contains(j) {
                        let q = choose|q: int| 0 <= q < it.len() && it[q] == j;
                        assert(it.push(e.0)[q] == j);
                    }
                    if j == e.0 {
                        assert(it.push(e.0)[it.len() as int] == j);
                    }
                }
            } else {
                assert(empty_branch_ids(bm) == it);
            }
            if j != e.0 && has_key(t, j) {
                assert(value_of(bm, j) == value_of(t, j));
            }
        }
    }
}

/// Freezing twice prunes nothing more: after a freeze every branch has a path.
pub proof fn lemma_freeze_idempotent(c: FileCoverageView)
    requires
        c.wf(),
    ensures
        frozen(frozen(c)) == frozen(c),
{
    let f = frozen(c);
    lemma_branches_with_paths(c.branch_map);
    lemma_no_empty_branch_ids(f.branch_map);
    assert(empty_branch_ids(f.branch_map) =~= Seq::<u32>::empty());
    lemma_all_with_paths(f.branch_map);
    assert(swap_removed_all(f.b, Seq::<u32>::empty()) == f.b);
    if let Some(t) = f.b_t {
        assert(swap_removed_all(t, Seq::<u32>::empty()) == t);
    }
}

/// Branches that all have a path list no empty branch.
proof fn lemma_no_empty_branch_ids(bm: Seq<(u32, BranchView)>)
    requires
        forall|i: int| 0 <= i < bm.len() ==> #[trigger] bm[i].1.locations.len() > 0,
    ensures
        empty_branch_ids(bm).len() == 0,
    decreases bm.len(),
{
    if bm.len() > 0 {
        assert(bm.last() == bm[bm.len() - 1]);
        lemma_no_empty_branch_ids(bm.drop_last());
    }
}

/// Keeping the branches with paths keeps all of them when all have one.
proof fn lemma_all_with_paths(bm: Seq<(u32, BranchView)>)
    requires
        forall|i: int| 0 <= i < bm.len() ==> #[trigger] bm[i].1.locations.len() > 0,
    ensures
        branches_with_paths(bm) == bm,
    decreases bm.len(),
{
    if bm.len() > 0 {
        assert(bm.last() == bm[bm.len() - 1]);
        lemma_all_with_paths(bm.drop_last());
        reveal_with_fuel(Seq::filter, 2);
        assert(bm.drop_last().push(bm.last()) =~= bm);
    } else {
        reveal_with_fuel(Seq::filter, 1);
    }
}

impl SourceCoverage {
    pub fn new(file_path: String, report_logic: bool) -> (r: Self)
        ensures
            r@.coverage == FileCoverageView::empty(file_path@, report_logic),
            r@.next_s == 0,
            r@.next_f == 0,
            r@.next_b == 0,
            r@.wf(),
            truthy_counts_match(r@.coverage),
    {
        let inner = FileCoverage::from_file_path(file_path, report_logic);
        let meta = SourceCoverageMeta::default();
        proof {
            assert(keys(inner@.statement_map) =~= ids_below(0));
            assert(keys(inner@.s) =~= ids_below(0));
            assert(keys(inner@.fn_map) =~= ids_below(0));
            assert(keys(inner@.f) =~= ids_below(0));
        }
        SourceCoverage { inner, meta }
    }

    /// The coverage built so far: statement and function ids run from 0 in order with
    /// zero hits, and each branch has one zero hit count per path location.
    pub fn as_ref(&self) -> (r: &FileCoverage)
        ensures
            r@ == self@.coverage,
            r@.wf(),
            forall|k: u32| has_key(r@.s, k) ==> has_key(r@.statement_map, k),
            forall|k: u32| has_key(r@.branch_map, k) <==> has_key(r@.b, k),
            keys(r@.statement_map) == ids_below(self@.next_s),
            keys(r@.s) == ids_below(self@.next_s),
            forall|i: int| 0 <= i < r@.s.len() ==> #[trigger] r@.s[i].1 == 0,
            keys(r@.fn_map) == ids_below(self@.next_f),
            keys(r@.f) == ids_below(self@.next_f),
            forall|i: int| 0 <= i < r@.f.len() ==> #[trigger] r@.f[i].1 == 0,
            branch_counts_match(r@),
    {
        proof {
            use_type_invariant(self);
            lemma_same_keys_has_key(self@.coverage.statement_map, self@.coverage.s);
        }
        &self.inner
    }
    /// Records a new statement at `loc`; returns its id, the next statement id.
    pub fn new_statement(&mut self, loc: &Range) -> (r: u32)
        requires
            old(self)@.next_s < u32::MAX,
        ensures
            r == old(self)@.next_s,
            final(self)@ == statement_added(old(self)@, *loc),
            final(self)@.wf(),
            truthy_counts_match(old(self)@.coverage) ==> truthy_counts_match(final(self)@.coverage),
    {
        let (mut inner, mut meta) = self.take_parts();
        let s = meta.last.s;
        let ghost c = view_of(inner, meta).coverage;
        proof {
            lemma_same_keys_has_key(c.statement_map, c.s);
            lemma_push_fresh(c.statement_map, s, *loc);
            lemma_push_fresh(c.s, s, 0u32);
            lemma_keys_push(c.statement_map, (s, *loc));
            lemma_keys_push(c.s, (s, 0u32));
        }
        statement_map_insert(&mut inner.statement_map, s, *loc);
        hit_map_insert(&mut inner.s, s, 0);
        meta.last.s = meta.last.s + 1;
        assert forall|k: u32| has_key(view_of(inner, meta).coverage.statement_map, k) implies k < view_of(inner, meta).next_s by {
            assert(has_key(c.statement_map, k) || k == s);
        }
        assert(ids_below(s).push(s) =~= ids_below(view_of(inner, meta).next_s));
        assert forall|i: int| 0 <= i < view_of(inner, meta).coverage.s.len() implies #[trigger] view_of(inner, meta).coverage.s[i].1 == 0 by {
            if i < c.s.len() {
                assert(view_of(inner, meta).coverage.s[i] == c.s[i]);
            }
        }
        *self = SourceCoverage { inner, meta };
        s
    }

    /// Records a new function declared at `decl` and spanning `loc`; a missing name
    /// becomes `"(anonymous_{id})"`. Returns its id, the next function id.
    pub fn new_function(&mut self, name: &Option<String>, decl: &Range, loc: &Range) -> (r: u32)
        requires
            old(self)@.next_f < u32::MAX,
        ensures
            r == old(self)@.next_f,
            final(self)@ == function_added(old(self)@, *name, *decl, *loc),
            final(self)@.wf(),
            truthy_counts_match(old(self)@.coverage) ==> truthy_counts_match(final(self)@.coverage),
    {
        let (mut inner, mut meta) = self.take_parts();
        let f = meta.last.f;
        let fn_name = match name {
            Some(n) => n.clone(),
            None => {
                let mut t = String::from_str("(anonymous_");
                push_decimal(&mut t, f as u64);
                t.append(")");
                t
            },
        };
        let function = Function { name: fn_name, decl: *decl, loc: *loc, line: loc.start.line };
        let ghost c = view_of(inner, meta).coverage;
        proof {
            lemma_same_keys_has_key(c.fn_map, c.f);
            lemma_push_fresh(c.fn_map, f, function@);
            lemma_push_fresh(c.f, f, 0u32);
            lemma_keys_push(c.fn_map, (f, function@));
            lemma_keys_push(c.f, (f, 0u32));
        }
        function_map_insert(&mut inner.fn_map, f, function);
        hit_map_insert(&mut inner.f, f, 0);
        meta.last.f = meta.last.f + 1;
        assert forall|k: u32| has_key(view_of(inner, meta).coverage.fn_map, k) implies k < view_of(inner, meta).next_f by {
            assert(has_key(c.fn_map, k) || k == f);
        }
        assert(ids_below(f).push(f) =~= ids_below(view_of(inner, meta).next_f));
        assert forall|i: int| 0 <= i < view_of(inner, meta).coverage.f.len() implies #[trigger] view_of(inner, meta).coverage.f[i].1 == 0 by {
            if i < c.f.len() {
                assert(view_of(inner, meta).coverage.f[i] == c.f[i]);
            }
        }
        *self = SourceCoverage { inner, meta };
        f
    }
    /// Records a new branch of `branch_type` at `loc`, with no paths yet; under logic
    /// reporting a binary expression also gets truthy counters. Returns its id, the
    /// next branch id.
    pub fn new_branch(&mut self, branch_type: &BranchType, loc: &Range, is_report_logic: bool) -> (r:
        u32)
        requires
            old(self)@.next_b < u32::MAX,
        ensures
            r == old(self)@.next_b,
            final(self)@ == branch_added(old(self)@, *branch_type, *loc, is_report_logic),
            final(self)@.wf(),
            truthy_counts_match(old(self)@.coverage) ==> truthy_counts_match(final(self)@.coverage),
    {
        let (mut inner, mut meta) = self.take_parts();
        let b = meta.last.b;
        let branch = Branch {
            loc: Some(*loc),
            branch_type: *branch_type,
            locations: Vec::new(),
            line: Some(loc.start.line),
        };
        let ghost c = view_of(inner, meta).coverage;
        proof {
            assert(!has_key(c.branch_map, b));
            assert(has_key(c.branch_map, b) <==> has_key(c.b, b));
            lemma_push_fresh(c.b, b, Seq::empty());
            lemma_push_fresh(c.branch_map, b, branch@);
            lemma_keys_push(c.b, (b, Seq::empty()));
            lemma_keys_push(c.branch_map, (b, branch@));
        }
        branch_hit_map_insert(&mut inner.b, b, Vec::new());
        branch_map_insert(&mut inner.branch_map, b, branch);
        meta.last.b = meta.last.b + 1;
        assert forall|k: u32| has_key(view_of(inner, meta).coverage.branch_map, k) implies k < view_of(inner, meta).next_b by {
            assert(has_key(c.branch_map, k) || k == b);
        }
        assert forall|k: u32| #[trigger]
            has_key(view_of(inner, meta).coverage.branch_map, k) <==> has_key(view_of(inner, meta).coverage.b, k) by {
            assert(has_key(view_of(inner, meta).coverage.branch_map, k) <==> (has_key(c.branch_map, k) || k == b));
            assert(has_key(view_of(inner, meta).coverage.b, k) <==> (has_key(c.b, k) || k == b));
        }
        assert forall|k: u32| #[trigger] has_key(view_of(inner, meta).coverage.branch_map, k) implies value_of(
            view_of(inner, meta).coverage.b,
            k,
        ).len() == value_of(view_of(inner, meta).coverage.branch_map, k).locations.len() && all_zero(
            value_of(view_of(inner, meta).coverage.b, k),
        ) by {
            if k != b {
                assert(has_key(c.branch_map, k));
            }
        }
        *self = SourceCoverage { inner, meta };
        self.maybe_new_branch_true(branch_type, b, is_report_logic);
        b
    }

    /// Under logic reporting, gives a binary-expression branch `name` an empty list of
    /// truthy counters, creating `b_t` first if it is missing.
    pub fn maybe_new_branch_true(&mut self, branch_type: &BranchType, name: u32, is_report_logic: bool)
        ensures
            final(self)@ == (SourceCoverageView {
                coverage: FileCoverageView {
                    b_t: with_branch_true(old(self)@.coverage.b_t, *branch_type, name, is_report_logic),
                    ..old(self)@.coverage
                },
                ..old(self)@
            }),
            final(self)@.wf(),
            truthy_counts_match(old(self)@.coverage) && (!(is_report_logic && *branch_type
                == BranchType::BinaryExpr) || (has_key(old(self)@.coverage.b, name) && value_of(
                old(self)@.coverage.b,
                name,
            ).len() == 0)) ==> truthy_counts_match(final(self)@.coverage),
    {
        let (mut inner, mut meta) = self.take_parts();
        if !is_report_logic {
            *self = SourceCoverage { inner, meta };
            return ;
        }
        let ghost c = view_of(inner, meta).coverage;
        match branch_type {
            BranchType::BinaryExpr => {
                let mut t = match inner.b_t.take() {
                    Some(t) => t,
                    None => branch_hit_map_new(),
                };
                let ghost t0 = branch_hit_entries(t);
                proof {
                    lemma_inserted_unique(t0, name, Seq::<u32>::empty());
                }
                branch_hit_map_insert(&mut t, name, Vec::new());
                inner.b_t = Some(t);
                proof {
                    if truthy_counts_match(c) && has_key(c.b, name) && value_of(c.b, name).len() == 0 {
                        let t1 = branch_hit_entries(t);
                        assert forall|k: u32| #[trigger] has_key(t1, k) implies has_key(c.b, k)
                            && value_of(t1, k).len() == value_of(c.b, k).len() && all_zero(
                            value_of(t1, k),
                        ) by {
                            if k != name {
                                assert(has_key(t0, k));
                            }
                        }
                    }
                }
            },
            _ => {},
        }
        *self = SourceCoverage { inner, meta };
    }
    /// Adds a path at `location` to branch `name`: the location is appended to the
    /// branch, and a zero to its hit counts (and to its truthy counters, if it has
    /// some). Returns the index of the new path.
    pub fn add_branch_path(&mut self, name: u32, location: &Range) -> (r: u32)
        requires
            has_key(old(self)@.coverage.branch_map, name),
        ensures
            r == #[verifier::truncate] (value_of(old(self)@.coverage.b, name).len() as u32),
            final(self)@ == branch_path_added(old(self)@, name, *location),
            final(self)@.wf(),
            truthy_counts_match(old(self)@.coverage) ==> truthy_counts_match(final(self)@.coverage),
    {
        let (mut inner, mut meta) = self.take_parts();
        let ghost c = view_of(inner, meta).coverage;
        proof {
            assert(has_key(c.branch_map, name) <==> has_key(c.b, name));
        }
        let new_branch = match branch_map_get(&inner.branch_map, name) {
            Some(meta) => Branch {
                loc: meta.loc,
                branch_type: meta.branch_type,
                locations: pushed(&meta.locations, *location),
                line: meta.line,
            },
            None => {
                proof {
                    assert(false);
                }
                Branch::from_line(BranchType::If, 0, Vec::new())
            },
        };
        let new_counts = match branch_hit_map_get(&inner.b, name) {
            Some(counts) => pushed(counts, 0u32),
            None => {
                proof {
                    assert(false);
                }
                Vec::new()
            },
        };
        let idx = new_counts.len() - 1;
        proof {
            lemma_inserted_existing(c.branch_map, name, new_branch@);
            lemma_inserted_existing(c.b, name, new_counts@);
            lemma_inserted_unique(c.branch_map, name, new_branch@);
            lemma_inserted_unique(c.b, name, new_counts@);
        }
        branch_map_insert(&mut inner.branch_map, name, new_branch);
        branch_hit_map_insert(&mut inner.b, name, new_counts);
        assert forall|k: u32| has_key(view_of(inner, meta).coverage.branch_map, k) implies k < view_of(inner, meta).next_b by {
            assert(has_key(c.branch_map, k));
        }
        assert forall|k: u32| #[trigger]
            has_key(view_of(inner, meta).coverage.branch_map, k) <==> has_key(view_of(inner, meta).coverage.b, k) by {
            assert(has_key(view_of(inner, meta).coverage.branch_map, k) == has_key(c.branch_map, k));
            assert(has_key(view_of(inner, meta).coverage.b, k) == has_key(c.b, k));
        }
        assert forall|k: u32| #[trigger] has_key(view_of(inner, meta).coverage.branch_map, k) implies value_of(
            view_of(inner, meta).coverage.b,
            k,
        ).len() == value_of(view_of(inner, meta).coverage.branch_map, k).locations.len() && all_zero(
            value_of(view_of(inner, meta).coverage.b, k),
        ) by {
            assert(has_key(c.branch_map, k));
            if k == name {
                let old_counts = value_of(c.b, name);
                assert(all_zero(old_counts));
                assert forall|i: int| 0 <= i < old_counts.push(0).len() implies #[trigger] old_counts.push(0)[i] == 0 by {
                    if i < old_counts.len() {
                        assert(old_counts[i] == 0);
                    }
                }
            }
        }
        *self = SourceCoverage { inner, meta };
        let ghost mid = self@.coverage;
        self.maybe_add_branch_true(name);
        proof {
            if truthy_counts_match(c) {
                if let Some(t) = c.b_t {
                    let t1 = self@.coverage.b_t->0;
                    lemma_inserted_unique(c.b, name, value_of(c.b, name).push(0));
                    if has_key(t, name) {
                        lemma_inserted_unique(t, name, value_of(t, name).push(0));
                    }
                    assert forall|k: u32| #[trigger] has_key(t1, k) implies has_key(mid.b, k)
                        && value_of(t1, k).len() == value_of(mid.b, k).len() && all_zero(
                        value_of(t1, k),
                    ) by {
                        assert(has_key(t, k));
                        if k == name {
                            let tv = value_of(t, name);
                            assert(all_zero(tv));
                            assert forall|i: int| 0 <= i < tv.push(0).len() implies #[trigger] tv.push(
                                0,
                            )[i] == 0 by {
                                if i < tv.len() {
                                    assert(tv[i] == 0);
                                }
                            }
                        }
                    }
                }
            }
        }
        #[verifier::truncate]
        (idx as u32)
    }

    /// Appends a zero to the truthy counters of branch `name`, if `b_t` has them.
    pub fn maybe_add_branch_true(&mut self, name: u32)
        ensures
            final(self)@ == (SourceCoverageView {
                coverage: FileCoverageView {
                    b_t: with_branch_true_path(old(self)@.coverage.b_t, name),
                    ..old(self)@.coverage
                },
                ..old(self)@
            }),
            final(self)@.wf(),
            truthy_counts_match(old(self)@.coverage) && !(old(self)@.coverage.b_t matches Some(t)
                && has_key(t, name)) ==> truthy_counts_match(final(self)@.coverage),
    {
        let (mut inner, mut meta) = self.take_parts();
        match inner.b_t.take() {
            Some(mut t) => {
                let counts_true = match branch_hit_map_get(&t, name) {
                    Some(counts) => Some(pushed(counts, 0u32)),
                    None => None,
                };
                match counts_true {
                    Some(counts) => {
                        proof {
                            lemma_inserted_unique(branch_hit_entries(t), name, counts@);
                        }
                        branch_hit_map_insert(&mut t, name, counts);
                    },
                    None => {},
                }
                inner.b_t = Some(t);
            },
            None => {},
        }
        *self = SourceCoverage { inner, meta };
    }
    /// Prunes the branches that got no path: see [`frozen`].
    pub fn freeze(&mut self)
        ensures
            final(self)@ == (SourceCoverageView { coverage: frozen(old(self)@.coverage), ..old(self)@ }),
            final(self)@.wf(),
            truthy_counts_match(old(self)@.coverage) ==> truthy_counts_match(final(self)@.coverage),
            forall|i: int|
                0 <= i < final(self)@.coverage.branch_map.len()
                    ==> #[trigger] final(self)@.coverage.branch_map[i].1.locations.len() > 0,
    {
        let (mut inner, mut meta) = self.take_parts();
        let ghost v0 = view_of(inner, meta);
        let ghost c = view_of(inner, meta).coverage;
        let n = branch_map_len(&inner.branch_map);
        let mut i: usize = 0;
        while i < n
            invariant
                n == c.branch_map.len(),
                i <= n,
                c == v0.coverage,
                v0.wf(),
                view_of(inner, meta) == (SourceCoverageView {
                    coverage: FileCoverageView {
                        b: swap_removed_all(c.b, empty_branch_ids(c.branch_map.take(i as int))),
                        b_t: match c.b_t {
                            Some(t) => Some(
                                swap_removed_all(t, empty_branch_ids(c.branch_map.take(i as int))),
                            ),
                            None => None,
                        },
                        ..c
                    },
                    ..v0
                }),
            decreases n - i,
        {
            let ghost ids = empty_branch_ids(c.branch_map.take(i as int));
            let (key, no_paths) = match branch_map_get_index(&inner.branch_map, i) {
                Some((k, branch)) => (*k, !branch.has_locations()),
                None => {
                    proof {
                        assert(false);
                    }
                    (0, false)
                },
            };
            proof {
                let tk = c.branch_map.take(i as int + 1);
                assert(tk.drop_last() =~= c.branch_map.take(i as int));
                assert(tk.last() == c.branch_map[i as int]);
                lemma_swap_removed_all(c.b, ids);
                if let Some(t) = c.b_t {
                    lemma_swap_removed_all(t, ids);
                }
                if no_paths {
                    assert(empty_branch_ids(tk) == ids.push(key));
                    assert(ids.push(key).drop_last() =~= ids);
                } else {
                    assert(empty_branch_ids(tk) == ids);
                }
            }
            if no_paths {
                branch_hit_map_swap_remove(&mut inner.b, key);
                match inner.b_t.take() {
                    Some(mut t) => {
                        branch_hit_map_swap_remove(&mut t, key);
                        inner.b_t = Some(t);
                    },
                    None => {},
                }
            }
            i = i + 1;
        }
        proof {
            assert(c.branch_map.take(n as int) =~= c.branch_map);
        }
        branch_map_retain_with_locations(&mut inner.branch_map);
        proof {
            let ids = empty_branch_ids(c.branch_map);
            let f = frozen(c);
            lemma_branches_with_paths(c.branch_map);
            lemma_swap_removed_all(c.b, ids);
            if let Some(t) = c.b_t {
                lemma_swap_removed_all(t, ids);
            }
            lemma_empty_branch_ids(c.branch_map);
            assert forall|k: u32| has_key(f.branch_map, k) implies k < v0.next_b by {
                assert(has_key(c.branch_map, k));
            }
            if truthy_counts_match(c) {
                if let Some(t) = c.b_t {
                    let t1 = swap_removed_all(t, ids);
                    assert forall|k: u32| #[trigger] has_key(t1, k) implies has_key(f.b, k)
                        && value_of(t1, k).len() == value_of(f.b, k).len() && all_zero(
                        value_of(t1, k),
                    ) by {
                        lemma_swap_removed_all(t, ids);
                        lemma_swap_removed_all(c.b, ids);
                        assert(has_key(t, k) && !ids.contains(k));
                        assert(has_key(c.b, k));
                        assert(f.b == swap_removed_all(c.b, ids));
                        assert(has_key(f.b, k));
                        assert(value_of(f.b, k) == value_of(c.b, k));
                        assert(value_of(t1, k) == value_of(t, k));
                    }
                }
            }
            assert forall|k: u32| #[trigger]
                has_key(f.branch_map, k) <==> has_key(f.b, k) by {
                assert(has_key(c.branch_map, k) <==> has_key(c.b, k));
                assert(ids.contains(k) <==> (has_key(c.branch_map, k) && value_of(
                    c.branch_map,
                    k,
                ).locations.len() == 0));
            }
        }
        *self = SourceCoverage { inner, meta };
    }

    /// Takes the coverage and the next ids out, leaving an empty coverage in place.
    fn take_parts(&mut self) -> (r: (FileCoverage, SourceCoverageMeta))
        ensures
            view_of(r.0, r.1) == old(self)@,
            view_of(r.0, r.1).wf(),
    {
        proof {
            use_type_invariant(&*self);
        }
        let mut parts = SourceCoverage::new(String::new(), false);
        core::mem::swap(self, &mut parts);
        let SourceCoverage { inner, meta } = parts;
        (inner, meta)
    }
}


/// The operations that build the coverage of a file, one call at a time.
pub enum BuildStep {
    Statement,
    Function,
    Branch,
    BranchPath,
    Freeze,
}

/// `b` is what one call of the operation `step` leaves when called on `a`, as
/// that operation's contract states it (its `requires` included).
pub open spec fn build_step(a: SourceCoverageView, b: SourceCoverageView, step: BuildStep) -> bool {
    &&& b.wf()
    &&& truthy_counts_match(a.coverage) ==> truthy_counts_match(b.coverage)
    &&& match step {
        BuildStep::Statement => a.next_s < u32::MAX && exists|loc: Range| b == statement_added(a, loc),
        BuildStep::Function => a.next_f < u32::MAX && exists|name: Option<String>, decl: Range, loc: Range|
            b == function_added(a, name, decl, loc),
        BuildStep::Branch => a.next_b < u32::MAX && exists|t: BranchType, loc: Range, logic: bool|
            b == branch_added(a, t, loc, logic),
        BuildStep::BranchPath => exists|name: u32, loc: Range|
            has_key(a.coverage.branch_map, name) && b == branch_path_added(a, name, loc),
        BuildStep::Freeze => b == (SourceCoverageView { coverage: frozen(a.coverage), ..a }),
    }
}

/// How many of the steps are `kind`.
pub open spec fn step_count(steps: Seq<BuildStep>, kind: BuildStep) -> nat
    decreases steps.len(),
{
    if steps.len() == 0 {
        0
    } else {
        step_count(steps.drop_last(), kind) + if steps.last() == kind {
            1nat
        } else {
            0nat
        }
    }
}

/// A coverage built from [`SourceCoverage::new`] by calls of `new_statement`,
/// `new_function`, `new_branch`, `add_branch_path` and `freeze` (the states `vs`,
/// the calls `steps`): its statements carry the ids `0 .. n - 1`, `n` the number of
/// `new_statement` calls, in order, in the statement map and in the hit counts, all
/// zero; likewise the functions; branches and their hit counts have the same ids,
/// with one zero count per path location; and the truthy counters belong to
/// branches, with as many zero counts as their branch has.
pub proof fn lemma_built_coverage(
    path: Seq<char>,
    report_logic: bool,
    vs: Seq<SourceCoverageView>,
    steps: Seq<BuildStep>,
)
    requires
        vs.len() == steps.len() + 1,
        vs[0].coverage == FileCoverageView::empty(path, report_logic),
        vs[0].next_s == 0 && vs[0].next_f == 0 && vs[0].next_b == 0,
        forall|i: int| #![trigger steps[i]] 0 <= i < steps.len() ==> build_step(vs[i], vs[i + 1], steps[i]),
    ensures
        vs.last().next_s == step_count(steps, BuildStep::Statement),
        vs.last().next_f == step_count(steps, BuildStep::Function),
        keys(vs.last().coverage.statement_map) == ids_below(vs.last().next_s),
        keys(vs.last().coverage.s) == ids_below(vs.last().next_s),
        forall|i: int| 0 <= i < vs.last().coverage.s.len() ==> #[trigger] vs.last().coverage.s[i].1 == 0,
        keys(vs.last().coverage.fn_map) == ids_below(vs.last().next_f),
        keys(vs.last().coverage.f) == ids_below(vs.last().next_f),
        forall|i: int| 0 <= i < vs.last().coverage.f.len() ==> #[trigger] vs.last().coverage.f[i].1 == 0,
        forall|k: u32| #[trigger] has_key(vs.last().coverage.branch_map, k) <==> has_key(vs.last().coverage.b, k),
        branch_counts_match(vs.last().coverage),
        truthy_counts_match(vs.last().coverage),
    decreases steps.len(),
{
    let n = steps.len() as int;
    let v = vs.last();
    if n == 0 {
        assert(keys(v.coverage.statement_map) =~= ids_below(0));
        assert(keys(v.coverage.s) =~= ids_below(0));
        assert(keys(v.coverage.fn_map) =~= ids_below(0));
        assert(keys(v.coverage.f) =~= ids_below(0));
    } else {
        let pvs = vs.drop_last();
        let psteps = steps.drop_last();
        assert forall|i: int| #![trigger psteps[i]] 0 <= i < psteps.len() implies build_step(
            pvs[i],
            pvs[i + 1],
            psteps[i],
        ) by {
            assert(psteps[i] == steps[i]);
        }
        lemma_built_coverage(path, report_logic, pvs, psteps);
        let a = pvs.last();
        assert(a == vs[n - 1]);
        assert(steps[n - 1] == steps.last());
        assert(build_step(vs[n - 1], vs[n], steps[n - 1]));
    }
}

} // verus!
