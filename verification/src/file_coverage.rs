use vstd::prelude::*;
use crate::index_map::{
    branch_hit_map_get, branch_map_get_index, branch_map_len, function_map_len, statement_map_len,
    branch_hit_map_get_index, branch_hit_map_insert, branch_hit_map_len, lemma_key_index,
    has_key, lemma_distinct_keys_unique, hit_map_get, hit_map_get_index, hit_map_insert, hit_map_len, inserted, lemma_inserted_unique,
    lemma_drop_last, statement_map_get, value_of,
    branch_entries, branch_hit_entries, branch_hit_map_clone, branch_hit_map_new, branch_map_clone,
    branch_map_new, function_entries, function_map_clone, function_map_new, hit_entries, hit_map_clone,
    hit_map_new, statement_entries, statement_map_clone, statement_map_new, unique_keys, BranchHitMap,
    BranchMap, FunctionMap, LineHitMap, StatementMap,
};
use crate::range::Range;
use crate::source_map::{copy_source_map, SourceMap, SourceMapView};
use crate::coverage_summary::{CoveragePercentage, Totals};
use crate::percent::{percent, percent_spec};
use crate::types::{Branch, BranchView, FunctionView};
use std::collections::HashMap;

verus! {

/// Coverage of a single file: the statement, function and branch maps keyed by
/// id, and the hit counts for each of them.
///
/// `s` holds statement hits, `f` function hits, `b` per-path branch hits and
/// `b_t` (when logic reporting is on) per-path truthy hits of logical expressions.
/// `all` marks coverage of a file that was loaded without being run, and
/// `input_source_map` is the source map of the file before instrumentation.
pub struct FileCoverage {
    pub all: bool,
    pub path: String,
    pub statement_map: StatementMap,
    pub fn_map: FunctionMap,
    pub branch_map: BranchMap,
    pub s: LineHitMap,
    pub f: LineHitMap,
    pub b: BranchHitMap,
    pub b_t: Option<BranchHitMap>,
    pub input_source_map: Option<SourceMap>,
}

/// The mathematical value of a [`FileCoverage`]: each map as its entries in order.
pub struct FileCoverageView {
    pub all: bool,
    pub path: Seq<char>,
    pub statement_map: Seq<(u32, Range)>,
    pub fn_map: Seq<(u32, FunctionView)>,
    pub branch_map: Seq<(u32, BranchView)>,
    pub s: Seq<(u32, u32)>,
    pub f: Seq<(u32, u32)>,
    pub b: Seq<(u32, Seq<u32>)>,
    pub b_t: Option<Seq<(u32, Seq<u32>)>>,
    pub input_source_map: Option<SourceMapView>,
}

impl View for FileCoverage {
    type V = FileCoverageView;

    open spec fn view(&self) -> FileCoverageView {
        FileCoverageView {
            all: self.all,
            path: self.path@,
            statement_map: statement_entries(self.statement_map),
            fn_map: function_entries(self.fn_map),
            branch_map: branch_entries(self.branch_map),
            s: hit_entries(self.s),
            f: hit_entries(self.f),
            b: branch_hit_entries(self.b),
            b_t: match self.b_t {
                Some(t) => Some(branch_hit_entries(t)),
                None => None,
            },
            input_source_map: match self.input_source_map {
                Some(m) => Some(m@),
                None => None,
            },
        }
    }
}

impl FileCoverageView {
    /// Every map has unique keys.
    pub open spec fn wf(self) -> bool {
        &&& unique_keys(self.statement_map)
        &&& unique_keys(self.fn_map)
        &&& unique_keys(self.branch_map)
        &&& unique_keys(self.s)
        &&& unique_keys(self.f)
        &&& unique_keys(self.b)
        &&& (self.b_t matches Some(t) ==> unique_keys(t))
    }

    /// The coverage of `path` with nothing recorded yet.
    pub open spec fn empty(path: Seq<char>, report_logic: bool) -> FileCoverageView {
        FileCoverageView {
            all: false,
            path,
            statement_map: Seq::empty(),
            fn_map: Seq::empty(),
            branch_map: Seq::empty(),
            s: Seq::empty(),
            f: Seq::empty(),
            b: Seq::empty(),
            b_t: if report_logic {
                Some(Seq::empty())
            } else {
                None
            },
            input_source_map: None,
        }
    }
}

/// Line hits from statement hits: going through the statements in order, each
/// line gets the largest hit count of the statements that start on it. Lines are
/// listed in the order in which they first occur.
pub open spec fn line_hits(statement_map: Seq<(u32, Range)>, s: Seq<(u32, u32)>) -> Seq<(u32, u32)>
    decreases s.len(),
{
    if s.len() == 0 {
        Seq::empty()
    } else {
        let prev = line_hits(statement_map, s.drop_last());
        let line = value_of(statement_map, s.last().0).start.line;
        let count = s.last().1;
        if !has_key(prev, line) || value_of(prev, line) < count {
            inserted(prev, line, count)
        } else {
            prev
        }
    }
}

/// The keys whose hit count is zero, in order.
pub open spec fn zero_hit_keys(s: Seq<(u32, u32)>) -> Seq<u32>
    decreases s.len(),
{
    if s.len() == 0 {
        Seq::empty()
    } else if s.last().1 == 0 {
        zero_hit_keys(s.drop_last()).push(s.last().0)
    } else {
        zero_hit_keys(s.drop_last())
    }
}

/// The uncovered lines are exactly the lines whose hit count is zero, each listed
/// once.
pub proof fn lemma_zero_hit_keys(s: Seq<(u32, u32)>)
    requires
        unique_keys(s),
    ensures
        zero_hit_keys(s).no_duplicates(),
        forall|l: u32| #[trigger] zero_hit_keys(s).contains(l) <==> (has_key(s, l) && value_of(s, l) == 0),
    decreases s.len(),
{
    if s.len() > 0 {
        let t = s.drop_last();
        let e = s.last();
        lemma_drop_last(s);
        lemma_zero_hit_keys(t);
        let z = zero_hit_keys(t);
        assert(s[s.len() - 1] == e);
        assert forall|l: u32| #[trigger] zero_hit_keys(s).contains(l) <==> (has_key(s, l) && value_of(s, l) == 0) by {
            if e.1 == 0 {
                assert(zero_hit_keys(s) == z.push(e.0));
                if z.push(e.0).contains(l) && l != e.0 {
                    let q = choose|q: int| 0 <= q < z.push(e.0).len() && z.push(e.0)[q] == l;
                    assert(z[q] == l);
                }
                if z.contains(l) {
                    let q = choose|q: int| 0 <= q < z.len() && z[q] == l;
                    assert(z.push(e.0)[q] == l);
                }
                if l == e.0 {
                    assert(z.push(e.0)[z.len() as int] == l);
                    lemma_key_index(s, s.len() - 1);
                }
            } else {
                assert(zero_hit_keys(s) == z);
                if l == e.0 {
                    lemma_key_index(s, s.len() - 1);
                    assert(!has_key(t, l));
                }
            }
            if l != e.0 && has_key(t, l) {
                assert(value_of(s, l) == value_of(t, l));
            }
        }
        if e.1 == 0 {
            assert(!z.contains(e.0)) by {
                assert(!has_key(t, e.0));
            }
            assert forall|i: int, j: int| 0 <= i < j < z.push(e.0).len() implies z.push(e.0)[i]
                != z.push(e.0)[j] by {
                if j == z.len() {
                    assert(z.push(e.0)[i] == z[i]);
                    assert(z.contains(z[i]));
                } else {
                    assert(z.push(e.0)[i] == z[i] && z.push(e.0)[j] == z[j]);
                }
            }
        }
    }
}

/// The line a statement id starts on.
pub open spec fn statement_line(statement_map: Seq<(u32, Range)>, id: u32) -> u32 {
    value_of(statement_map, id).start.line
}

/// Line coverage is the per-line maximum of statement hits: every line a statement
/// starts on is present with at least that statement's hits, and every present
/// line holds the hits of some statement starting on it.
pub proof fn lemma_line_hits_max(statement_map: Seq<(u32, Range)>, s: Seq<(u32, u32)>)
    ensures
        unique_keys(line_hits(statement_map, s)),
        forall|i: int|
            0 <= i < s.len() ==> has_key(
                line_hits(statement_map, s),
                #[trigger] statement_line(statement_map, s[i].0),
            ) && value_of(line_hits(statement_map, s), statement_line(statement_map, s[i].0))
                >= s[i].1,
        forall|l: u32| #[trigger]
            has_key(line_hits(statement_map, s), l) ==> exists|i: int|
                0 <= i < s.len() && statement_line(statement_map, s[i].0) == l && value_of(
                    line_hits(statement_map, s),
                    l,
                ) == s[i].1,
    decreases s.len(),
{
    if s.len() > 0 {
        let t = s.drop_last();
        lemma_line_hits_max(statement_map, t);
        let prev = line_hits(statement_map, t);
        let line = statement_line(statement_map, s.last().0);
        let count = s.last().1;
        let cur = line_hits(statement_map, s);
        let n = s.len() - 1;
        assert(s[n] == s.last());
        lemma_inserted_unique(prev, line, count);
        assert forall|i: int| 0 <= i < s.len() implies has_key(
            cur,
            #[trigger] statement_line(statement_map, s[i].0),
        ) && value_of(cur, statement_line(statement_map, s[i].0)) >= s[i].1 by {
            if i < n {
                assert(s[i] == t[i]);
                let li = statement_line(statement_map, t[i].0);
                assert(has_key(prev, li) && value_of(prev, li) >= t[i].1);
            }
        }
        assert forall|l: u32| #[trigger] has_key(cur, l) implies exists|i: int|
            0 <= i < s.len() && statement_line(statement_map, s[i].0) == l && value_of(cur, l)
                == s[i].1 by {
            if l == line && (!has_key(prev, line) || value_of(prev, line) < count) {
                assert(statement_line(statement_map, s[n].0) == l && value_of(cur, l) == s[n].1);
            } else {
                assert(has_key(prev, l));
                let i = choose|i: int|
                    0 <= i < t.len() && statement_line(statement_map, t[i].0) == l && value_of(prev, l)
                        == t[i].1;
                assert(s[i] == t[i]);
                assert(value_of(cur, l) == value_of(prev, l));
            }
        }
    }
}

/// Every hit count set to zero, keys and order kept.
pub open spec fn zeroed_hits(s: Seq<(u32, u32)>) -> Seq<(u32, u32)> {
    s.map_values(|e: (u32, u32)| (e.0, 0u32))
}

/// Every per-path hit count set to zero, keys, order and path counts kept.
pub open spec fn zeroed_branch_hits(s: Seq<(u32, Seq<u32>)>) -> Seq<(u32, Seq<u32>)> {
    s.map_values(|e: (u32, Seq<u32>)| (e.0, Seq::new(e.1.len(), |i: int| 0u32)))
}

/// The coverage with all hit counts reset to zero.
pub open spec fn reset_view(c: FileCoverageView) -> FileCoverageView {
    FileCoverageView {
        s: zeroed_hits(c.s),
        f: zeroed_hits(c.f),
        b: zeroed_branch_hits(c.b),
        b_t: match c.b_t {
            Some(t) => Some(zeroed_branch_hits(t)),
            None => None,
        },
        ..c
    }
}

/// Resetting hits twice is the same as resetting them once.
pub proof fn lemma_reset_idempotent(c: FileCoverageView)
    ensures
        reset_view(reset_view(c)) == reset_view(c),
{
    assert(zeroed_hits(zeroed_hits(c.s)) =~= zeroed_hits(c.s));
    assert(zeroed_hits(zeroed_hits(c.f)) =~= zeroed_hits(c.f));
    assert forall|i: int| 0 <= i < c.b.len() implies zeroed_branch_hits(zeroed_branch_hits(c.b))[i]
        == zeroed_branch_hits(c.b)[i] by {
        assert(Seq::new(c.b[i].1.len(), |j: int| 0u32) =~= Seq::new(
            Seq::new(c.b[i].1.len(), |j: int| 0u32).len(),
            |j: int| 0u32,
        ));
    }
    assert(zeroed_branch_hits(zeroed_branch_hits(c.b)) =~= zeroed_branch_hits(c.b));
    if let Some(t) = c.b_t {
        assert forall|i: int| 0 <= i < t.len() implies zeroed_branch_hits(zeroed_branch_hits(t))[i]
            == zeroed_branch_hits(t)[i] by {
            assert(Seq::new(t[i].1.len(), |j: int| 0u32) =~= Seq::new(
                Seq::new(t[i].1.len(), |j: int| 0u32).len(),
                |j: int| 0u32,
            ));
        }
        assert(zeroed_branch_hits(zeroed_branch_hits(t)) =~= zeroed_branch_hits(t));
    }
}

/// After a reset, every line that holds a statement is uncovered: the lines of the
/// line coverage, and the uncovered lines, are exactly the lines the statements
/// start on.
pub proof fn lemma_reset_uncovers_all_lines(c: FileCoverageView)
    ensures
        forall|l: u32| #[trigger]
            has_key(line_hits(reset_view(c).statement_map, reset_view(c).s), l) <==> exists|i: int|
                0 <= i < c.s.len() && statement_line(c.statement_map, c.s[i].0) == l,
        forall|l: u32| #[trigger]
            zero_hit_keys(line_hits(reset_view(c).statement_map, reset_view(c).s)).contains(l)
                <==> exists|i: int| 0 <= i < c.s.len() && statement_line(c.statement_map, c.s[i].0) == l,
{
    let z = zeroed_hits(c.s);
    let lh = line_hits(c.statement_map, z);
    assert(reset_view(c).s == z);
    assert(z.len() == c.s.len());
    assert forall|i: int| 0 <= i < z.len() implies #[trigger] z[i] == (c.s[i].0, 0u32) by {}
    lemma_line_hits_max(c.statement_map, z);
    lemma_zero_hit_keys(lh);
    assert forall|l: u32| #[trigger] has_key(lh, l) <==> exists|i: int|
        0 <= i < c.s.len() && statement_line(c.statement_map, c.s[i].0) == l by {
        if has_key(lh, l) {
            let i = choose|i: int|
                0 <= i < z.len() && statement_line(c.statement_map, z[i].0) == l && value_of(lh, l)
                    == z[i].1;
            assert(z[i].0 == c.s[i].0);
        }
        if exists|i: int| 0 <= i < c.s.len() && statement_line(c.statement_map, c.s[i].0) == l {
            let i = choose|i: int| 0 <= i < c.s.len() && statement_line(c.statement_map, c.s[i].0) == l;
            assert(z[i].0 == c.s[i].0);
            assert(has_key(lh, statement_line(c.statement_map, z[i].0)));
        }
    }
    assert forall|l: u32| #[trigger] zero_hit_keys(lh).contains(l) <==> has_key(lh, l) by {
        if has_key(lh, l) {
            let i = choose|i: int|
                0 <= i < z.len() && statement_line(c.statement_map, z[i].0) == l && value_of(lh, l)
                    == z[i].1;
            assert(z[i].1 == 0);
        }
    }
}

/// The number of entries with a non-zero hit count.
pub open spec fn covered_count(s: Seq<(u32, u32)>) -> nat
    decreases s.len(),
{
    if s.len() == 0 {
        0
    } else {
        covered_count(s.drop_last()) + if s.last().1 > 0 {
            1nat
        } else {
            0nat
        }
    }
}

/// The number of non-zero counts.
pub open spec fn positive_count(v: Seq<u32>) -> nat
    decreases v.len(),
{
    if v.len() == 0 {
        0
    } else {
        positive_count(v.drop_last()) + if v.last() > 0 {
            1nat
        } else {
            0nat
        }
    }
}

/// The number of branch paths that were hit, over all branches.
pub open spec fn branch_covered_sum(s: Seq<(u32, Seq<u32>)>) -> nat
    decreases s.len(),
{
    if s.len() == 0 {
        0
    } else {
        branch_covered_sum(s.drop_last()) + positive_count(s.last().1)
    }
}

/// The number of branch paths, over all branches.
pub open spec fn branch_path_sum(s: Seq<(u32, Seq<u32>)>) -> nat
    decreases s.len(),
{
    if s.len() == 0 {
        0
    } else {
        branch_path_sum(s.drop_last()) + s.last().1.len()
    }
}

proof fn lemma_positive_count_le(v: Seq<u32>)
    ensures
        positive_count(v) <= v.len(),
    decreases v.len(),
{
    if v.len() > 0 {
        lemma_positive_count_le(v.drop_last());
    }
}

proof fn lemma_branch_sums_prefix(s: Seq<(u32, Seq<u32>)>, i: int)
    requires
        0 <= i <= s.len(),
    ensures
        branch_covered_sum(s.take(i)) <= branch_path_sum(s.take(i)),
        branch_path_sum(s.take(i)) <= branch_path_sum(s),
    decreases s.len() - i,
{
    lemma_branch_sums_le(s.take(i));
    if i < s.len() {
        lemma_branch_sums_prefix(s, i + 1);
        let t = s.take(i + 1);
        assert(t.drop_last() =~= s.take(i));
    } else {
        assert(s.take(i) =~= s);
    }
}

proof fn lemma_branch_sums_le(s: Seq<(u32, Seq<u32>)>)
    ensures
        branch_covered_sum(s) <= branch_path_sum(s),
    decreases s.len(),
{
    if s.len() > 0 {
        lemma_branch_sums_le(s.drop_last());
        lemma_positive_count_le(s.last().1);
    }
}

/// A vector of `n` zeros.
fn zeros(n: usize) -> (r: Vec<u32>)
    ensures
        r@ == Seq::new(n as nat, |i: int| 0u32),
{
    let mut r: Vec<u32> = Vec::new();
    let mut i: usize = 0;
    while i < n
        invariant
            i <= n,
            r@ == Seq::new(i as nat, |j: int| 0u32),
        decreases n - i,
    {
        r.push(0);
        i = i + 1;
        assert(r@ =~= Seq::new(i as nat, |j: int| 0u32));
    }
    r
}

/// The number of non-zero counts in `v`.
fn count_positive(v: &Vec<u32>) -> (r: usize)
    ensures
        r == positive_count(v@),
{
    let mut c: usize = 0;
    let mut i: usize = 0;
    while i < v.len()
        invariant
            i <= v.len(),
            c == positive_count(v@.take(i as int)),
            c <= i,
        decreases v.len() - i,
    {
        proof {
            let t = v@.take(i as int + 1);
            assert(t.drop_last() =~= v@.take(i as int));
        }
        if v[i] > 0 {
            c = c + 1;
        }
        i = i + 1;
    }
    assert(v@.take(v.len() as int) =~= v@);
    c
}

/// Sets every hit count of `m` to zero.
fn zero_hits(m: &mut LineHitMap)
    requires
        unique_keys(hit_entries(*old(m))),
    ensures
        hit_entries(*final(m)) == zeroed_hits(hit_entries(*old(m))),
        unique_keys(hit_entries(*final(m))),
{
    let ghost s0 = hit_entries(*m);
    let n = hit_map_len(m);
    let mut i: usize = 0;
    while i < n
        invariant
            n == s0.len(),
            i <= n,
            hit_entries(*m) == zeroed_hits(s0.take(i as int)) + s0.skip(i as int),
            unique_keys(hit_entries(*m)),
        decreases n - i,
    {
        let k = match hit_map_get_index(m, i) {
            Some((k, _)) => *k,
            None => {
                proof {
                    assert(false);
                }
                0
            },
        };
        let ghost cur = hit_entries(*m);
        proof {
            assert(cur[i as int] == s0[i as int]);
            lemma_key_index(cur, i as int);
        }
        hit_map_insert(m, k, 0);
        i = i + 1;
        assert(hit_entries(*m) =~= zeroed_hits(s0.take(i as int)) + s0.skip(i as int));
    }
    assert(hit_entries(*m) =~= zeroed_hits(s0));
}

/// Sets every per-path hit count of `m` to zero.
fn zero_branch_hits(m: &mut BranchHitMap)
    requires
        unique_keys(branch_hit_entries(*old(m))),
    ensures
        branch_hit_entries(*final(m)) == zeroed_branch_hits(branch_hit_entries(*old(m))),
        unique_keys(branch_hit_entries(*final(m))),
{
    let ghost s0 = branch_hit_entries(*m);
    let n = branch_hit_map_len(m);
    let mut i: usize = 0;
    while i < n
        invariant
            n == s0.len(),
            i <= n,
            branch_hit_entries(*m) == zeroed_branch_hits(s0.take(i as int)) + s0.skip(i as int),
            unique_keys(branch_hit_entries(*m)),
        decreases n - i,
    {
        let (k, len) = match branch_hit_map_get_index(m, i) {
            Some((k, v)) => (*k, v.len()),
            None => {
                proof {
                    assert(false);
                }
                (0, 0)
            },
        };
        let ghost cur = branch_hit_entries(*m);
        proof {
            assert(cur[i as int] == s0[i as int]);
            lemma_key_index(cur, i as int);
        }
        let z = zeros(len);
        branch_hit_map_insert(m, k, z);
        i = i + 1;
        assert(branch_hit_entries(*m) =~= zeroed_branch_hits(s0.take(i as int)) + s0.skip(i as int));
    }
    assert(branch_hit_entries(*m) =~= zeroed_branch_hits(s0));
}

/// Hit counts of the branches on one line: how many paths were hit out of how many.
#[derive(Copy, Clone, Debug, PartialEq, Eq, Structural)]
pub struct Coverage {
    pub covered: u32,
    pub total: u32,
}

impl Coverage {
    pub fn new(covered: u32, total: u32) -> (r: Coverage)
        ensures
            r == (Coverage { covered, total }),
    {
        Coverage { covered, total }
    }
}

/// The line a branch is reported on: its own line when that is set and non-zero,
/// otherwise the line its location starts on (0 without either).
pub open spec fn branch_line(v: BranchView) -> u32 {
    match v.line {
        Some(l) if l > 0 => l,
        _ => match v.loc {
            Some(r) => r.start.line,
            None => match v.line {
                Some(l) => l,
                None => 0,
            },
        },
    }
}

/// Branch hit counts gathered by line: going through the branches in order, the
/// counts of each branch are appended to those of its line.
pub open spec fn branch_hits_by_line(bm: Seq<(u32, BranchView)>, b: Seq<(u32, Seq<u32>)>) -> Map<
    u32,
    Seq<u32>,
>
    decreases bm.len(),
{
    if bm.len() == 0 {
        Map::empty()
    } else {
        let prev = branch_hits_by_line(bm.drop_last(), b);
        let line = branch_line(bm.last().1);
        let data = value_of(b, bm.last().0);
        if prev.contains_key(line) {
            prev.insert(line, prev[line] + data)
        } else {
            prev.insert(line, data)
        }
    }
}

/// An entry whose hit count is not zero.
pub open spec fn entry_hit() -> spec_fn((u32, u32)) -> bool {
    |e: (u32, u32)| e.1 > 0
}

/// A count that is not zero.
pub open spec fn count_hit() -> spec_fn(u32) -> bool {
    |x: u32| x > 0
}

/// The entries that were hit (at least once) are exactly those counted as covered.
pub proof fn lemma_covered_count_is_hit_entries(s: Seq<(u32, u32)>)
    ensures
        covered_count(s) == s.filter(entry_hit()).len(),
    decreases s.len(),
{
    reveal(Seq::filter);
    if s.len() > 0 {
        lemma_covered_count_is_hit_entries(s.drop_last());
    }
}

/// The counts that are not zero are exactly those counted as positive.
pub proof fn lemma_positive_count_is_hit_counts(v: Seq<u32>)
    ensures
        positive_count(v) == v.filter(count_hit()).len(),
    decreases v.len(),
{
    reveal(Seq::filter);
    if v.len() > 0 {
        lemma_positive_count_is_hit_counts(v.drop_last());
    }
}

/// How many path counts the branches reported on line `l` have, over all branches.
pub open spec fn line_path_total(bm: Seq<(u32, BranchView)>, b: Seq<(u32, Seq<u32>)>, l: u32) -> nat
    decreases bm.len(),
{
    if bm.len() == 0 {
        0
    } else {
        line_path_total(bm.drop_last(), b, l) + if branch_line(bm.last().1) == l {
            value_of(b, bm.last().0).len()
        } else {
            0nat
        }
    }
}

/// How many non-zero path counts the branches reported on line `l` have, over all
/// branches.
pub open spec fn line_paths_hit(bm: Seq<(u32, BranchView)>, b: Seq<(u32, Seq<u32>)>, l: u32) -> nat
    decreases bm.len(),
{
    if bm.len() == 0 {
        0
    } else {
        line_paths_hit(bm.drop_last(), b, l) + if branch_line(bm.last().1) == l {
            value_of(b, bm.last().0).filter(count_hit()).len()
        } else {
            0nat
        }
    }
}

/// Gathering branch counts by line keeps the counts of every branch: a line is
/// present exactly when some branch is reported on it, and then it holds as many
/// counts as all branches on that line have together, as many of them non-zero as
/// they have together.
pub proof fn lemma_branch_hits_by_line_sums(bm: Seq<(u32, BranchView)>, b: Seq<(u32, Seq<u32>)>, l: u32)
    ensures
        branch_hits_by_line(bm, b).contains_key(l) <==> exists|i: int|
            0 <= i < bm.len() && #[trigger] branch_line(bm[i].1) == l,
        branch_hits_by_line(bm, b).contains_key(l) ==> branch_hits_by_line(bm, b)[l].len()
            == line_path_total(bm, b, l),
        branch_hits_by_line(bm, b).contains_key(l) ==> branch_hits_by_line(bm, b)[l].filter(
            count_hit(),
        ).len() == line_paths_hit(bm, b, l),
        !branch_hits_by_line(bm, b).contains_key(l) ==> line_path_total(bm, b, l) == 0
            && line_paths_hit(bm, b, l) == 0,
    decreases bm.len(),
{
    if bm.len() > 0 {
        let t = bm.drop_last();
        lemma_branch_hits_by_line_sums(t, b, l);
        let prev = branch_hits_by_line(t, b);
        let line = branch_line(bm.last().1);
        let data = value_of(b, bm.last().0);
        if line == l && prev.contains_key(l) {
            Seq::filter_distributes_over_add(prev[l], data, count_hit());
        }
        if exists|i: int| 0 <= i < t.len() && #[trigger] branch_line(t[i].1) == l {
            let i = choose|i: int| 0 <= i < t.len() && #[trigger] branch_line(t[i].1) == l;
            assert(bm[i] == t[i]);
        }
        if exists|i: int| 0 <= i < bm.len() && #[trigger] branch_line(bm[i].1) == l {
            let i = choose|i: int| 0 <= i < bm.len() && #[trigger] branch_line(bm[i].1) == l;
            if i < t.len() {
                assert(bm[i] == t[i]);
            }
        }
        if line == l {
            assert(branch_line(bm[bm.len() - 1].1) == l);
        }
    }
}

/// The coverage of a list of path counts.
pub open spec fn coverage_of(data: Seq<u32>) -> Coverage {
    Coverage {
        covered: #[verifier::truncate] (positive_count(data) as u32),
        total: #[verifier::truncate] (data.len() as u32),
    }
}

fn line_of_branch(branch: &Branch) -> (r: u32)
    ensures
        r == branch_line(branch@),
{
    match branch.line {
        Some(l) if l > 0 => l,
        _ => match branch.loc {
            Some(r) => r.start.line,
            None => match branch.line {
                Some(l) => l,
                None => 0,
            },
        },
    }
}

/// `a` followed by `b`.
fn concat(a: &Vec<u32>, b: &Vec<u32>) -> (r: Vec<u32>)
    ensures
        r@ == a@ + b@,
{
    let mut r: Vec<u32> = Vec::new();
    let mut i: usize = 0;
    while i < a.len()
        invariant
            i <= a.len(),
            r@ == a@.take(i as int),
        decreases a.len() - i,
    {
        r.push(a[i]);
        i = i + 1;
        assert(r@ =~= a@.take(i as int));
    }
    let mut j: usize = 0;
    while j < b.len()
        invariant
            j <= b.len(),
            r@ == a@ + b@.take(j as int),
        decreases b.len() - j,
    {
        r.push(b[j]);
        j = j + 1;
        assert(r@ =~= a@ + b@.take(j as int));
    }
    assert(a@ + b@.take(b.len() as int) =~= a@ + b@);
    r
}

impl FileCoverage {
    /// An empty coverage for `file_path`; `b_t` exists exactly when `report_logic`.
    pub fn empty(file_path: String, report_logic: bool) -> (r: FileCoverage)
        ensures
            r@ == FileCoverageView::empty(file_path@, report_logic),
            r@.wf(),
    {
        FileCoverage {
            all: false,
            path: file_path,
            statement_map: statement_map_new(),
            fn_map: function_map_new(),
            branch_map: branch_map_new(),
            s: hit_map_new(),
            f: hit_map_new(),
            b: branch_hit_map_new(),
            b_t: if report_logic {
                Some(branch_hit_map_new())
            } else {
                None
            },
            input_source_map: None,
        }
    }

    pub fn from_file_path(file_path: String, report_logic: bool) -> (r: FileCoverage)
        ensures
            r@ == FileCoverageView::empty(file_path@, report_logic),
            r@.wf(),
    {
        FileCoverage::empty(file_path, report_logic)
    }

    /// A copy of `coverage`.
    pub fn from_file_coverage(coverage: &FileCoverage) -> (r: FileCoverage)
        ensures
            r@ == coverage@,
    {
        FileCoverage {
            all: coverage.all,
            path: coverage.path.clone(),
            statement_map: statement_map_clone(&coverage.statement_map),
            fn_map: function_map_clone(&coverage.fn_map),
            branch_map: branch_map_clone(&coverage.branch_map),
            s: hit_map_clone(&coverage.s),
            f: hit_map_clone(&coverage.f),
            b: branch_hit_map_clone(&coverage.b),
            b_t: match &coverage.b_t {
                Some(t) => Some(branch_hit_map_clone(t)),
                None => None,
            },
            input_source_map: match &coverage.input_source_map {
                Some(m) => Some(copy_source_map(m)),
                None => None,
            },
        }
    }

    /// Each map of the coverage holds each id once.
    fn keys_are_unique(&self)
        ensures
            self@.wf(),
    {
        statement_map_len(&self.statement_map);
        function_map_len(&self.fn_map);
        branch_map_len(&self.branch_map);
        hit_map_len(&self.s);
        hit_map_len(&self.f);
        branch_hit_map_len(&self.b);
        proof {
            lemma_distinct_keys_unique(self@.statement_map);
            lemma_distinct_keys_unique(self@.fn_map);
            lemma_distinct_keys_unique(self@.branch_map);
            lemma_distinct_keys_unique(self@.s);
            lemma_distinct_keys_unique(self@.f);
            lemma_distinct_keys_unique(self@.b);
        }
        match &self.b_t {
            Some(t) => {
                branch_hit_map_len(t);
                proof {
                    lemma_distinct_keys_unique(branch_hit_entries(*t));
                }
            },
            None => {},
        }
    }

    /// The file path this coverage belongs to.
    pub fn path(&self) -> (r: &String)
        ensures
            r@ == self@.path,
    {
        &self.path
    }
    /// Returns computed line coverage from statement coverage: see [`line_hits`].
    /// Every statement with hits must have a location.
    pub fn get_line_coverage(&self) -> (r: LineHitMap)
        requires
            forall|k: u32| has_key(self@.s, k) ==> has_key(self@.statement_map, k),
        ensures
            hit_entries(r) == line_hits(self@.statement_map, self@.s),
            unique_keys(hit_entries(r)),
    {
        self.keys_are_unique();
        let ghost sm = self@.statement_map;
        let ghost hits = self@.s;
        let n = hit_map_len(&self.s);
        let mut line_map = hit_map_new();
        let mut i: usize = 0;
        while i < n
            invariant
                n == hits.len(),
                i <= n,
                sm == self@.statement_map,
                hits == self@.s,
                self@.wf(),
                forall|k: u32| has_key(hits, k) ==> has_key(sm, k),
                hit_entries(line_map) == line_hits(sm, hits.take(i as int)),
                unique_keys(hit_entries(line_map)),
            decreases n - i,
        {
            let (st, count) = match hit_map_get_index(&self.s, i) {
                Some((k, v)) => (*k, *v),
                None => {
                    proof {
                        assert(false);
                    }
                    (0, 0)
                },
            };
            proof {
                assert(has_key(hits, st));
            }
            let line = match statement_map_get(&self.statement_map, st) {
                Some(range) => range.start.line,
                None => {
                    proof {
                        assert(false);
                    }
                    0
                },
            };
            let update = match hit_map_get(&line_map, line) {
                Some(pre_val) => *pre_val < count,
                None => true,
            };
            proof {
                let t = hits.take(i as int + 1);
                assert(t.drop_last() =~= hits.take(i as int));
                assert(t.last() == hits[i as int]);
                lemma_inserted_unique(hit_entries(line_map), line, count);
            }
            if update {
                hit_map_insert(&mut line_map, line, count);
            }
            i = i + 1;
        }
        proof {
            assert(hits.take(n as int) =~= hits);
        }
        line_map
    }

    /// Returns the lines whose line coverage is zero, in the order of
    /// [`FileCoverage::get_line_coverage`].
    pub fn get_uncovered_lines(&self) -> (r: Vec<u32>)
        requires
            forall|k: u32| has_key(self@.s, k) ==> has_key(self@.statement_map, k),
        ensures
            r@ == zero_hit_keys(line_hits(self@.statement_map, self@.s)),
    {
        let lc = self.get_line_coverage();
        let ghost lh = hit_entries(lc);
        let n = hit_map_len(&lc);
        let mut ret: Vec<u32> = Vec::new();
        let mut i: usize = 0;
        while i < n
            invariant
                n == lh.len(),
                i <= n,
                lh == hit_entries(lc),
                ret@ == zero_hit_keys(lh.take(i as int)),
            decreases n - i,
        {
            let (l, hits) = match hit_map_get_index(&lc, i) {
                Some((k, v)) => (*k, *v),
                None => {
                    proof {
                        assert(false);
                    }
                    (0, 0)
                },
            };
            proof {
                let t = lh.take(i as int + 1);
                assert(t.drop_last() =~= lh.take(i as int));
                assert(t.last() == lh[i as int]);
            }
            if hits == 0 {
                ret.push(l);
            }
            i = i + 1;
        }
        proof {
            assert(lh.take(n as int) =~= lh);
        }
        ret
    }
    /// Resets every hit count (statements, functions, branch paths and truthy
    /// paths) to zero, keeping all maps and their orders.
    pub fn reset_hits(&mut self)
        ensures
            final(self)@ == reset_view(old(self)@),
            final(self)@.wf(),
    {
        self.keys_are_unique();
        zero_hits(&mut self.s);
        zero_hits(&mut self.f);
        zero_branch_hits(&mut self.b);
        match self.b_t.take() {
            Some(mut branches_true) => {
                zero_branch_hits(&mut branches_true);
                self.b_t = Some(branches_true);
            },
            None => {},
        }
    }

    /// Totals of a hit map: its size, how many entries were hit, and the percentage.
    pub fn compute_simple_totals(line_map: &LineHitMap) -> (r: Totals)
        ensures
            r.total == #[verifier::truncate] (hit_entries(*line_map).len() as u32),
            r.covered == #[verifier::truncate] (covered_count(hit_entries(*line_map)) as u32),
            r.covered == #[verifier::truncate] (hit_entries(*line_map).filter(entry_hit()).len() as u32),
            r.skipped == 0,
            r.pct == CoveragePercentage::Value(percent_spec(r.covered, r.total)),
    {
        let ghost s = hit_entries(*line_map);
        let n = hit_map_len(line_map);
        let mut covered: usize = 0;
        let mut i: usize = 0;
        while i < n
            invariant
                n == s.len(),
                i <= n,
                s == hit_entries(*line_map),
                covered == covered_count(s.take(i as int)),
                covered <= i,
            decreases n - i,
        {
            let hits = match hit_map_get_index(line_map, i) {
                Some((_, v)) => *v,
                None => {
                    proof {
                        assert(false);
                    }
                    0
                },
            };
            proof {
                let t = s.take(i as int + 1);
                assert(t.drop_last() =~= s.take(i as int));
                assert(t.last() == s[i as int]);
            }
            if hits > 0 {
                covered = covered + 1;
            }
            i = i + 1;
        }
        assert(s.take(n as int) =~= s);
        proof {
            lemma_covered_count_is_hit_entries(s);
        }
        let total = #[verifier::truncate] (n as u32);
        let covered = #[verifier::truncate] (covered as u32);
        Totals {
            total,
            covered,
            skipped: 0,
            pct: CoveragePercentage::Value(percent(covered, total)),
        }
    }

    /// Totals of branch hit counts: all paths, the paths hit, and the percentage.
    /// The number of paths must fit in `u32`.
    fn compute_branch_totals(branch_map: &BranchHitMap) -> (r: Totals)
        requires
            branch_path_sum(branch_hit_entries(*branch_map)) <= u32::MAX,
        ensures
            r.total == branch_path_sum(branch_hit_entries(*branch_map)),
            r.covered == branch_covered_sum(branch_hit_entries(*branch_map)),
            r.skipped == 0,
            r.pct == CoveragePercentage::Value(percent_spec(r.covered, r.total)),
    {
        let ghost s = branch_hit_entries(*branch_map);
        let n = branch_hit_map_len(branch_map);
        let mut covered: u32 = 0;
        let mut total: u32 = 0;
        let mut i: usize = 0;
        while i < n
            invariant
                n == s.len(),
                i <= n,
                s == branch_hit_entries(*branch_map),
                branch_path_sum(s) <= u32::MAX,
                covered == branch_covered_sum(s.take(i as int)),
                total == branch_path_sum(s.take(i as int)),
            decreases n - i,
        {
            let (c, len) = match branch_hit_map_get_index(branch_map, i) {
                Some((_, branches)) => (count_positive(branches), branches.len()),
                None => {
                    proof {
                        assert(false);
                    }
                    (0, 0)
                },
            };
            proof {
                let t = s.take(i as int + 1);
                assert(t.drop_last() =~= s.take(i as int));
                assert(t.last() == s[i as int]);
                lemma_branch_sums_prefix(s, i as int + 1);
            }
            covered = covered + c as u32;
            total = total + len as u32;
            i = i + 1;
        }
        assert(s.take(n as int) =~= s);
        Totals { total, covered, skipped: 0, pct: CoveragePercentage::Value(percent(covered, total)) }
    }
    /// Branch coverage by line: for each line that has branches, how many of their
    /// paths were hit out of how many. Every branch must have hit counts.
    pub fn get_branch_coverage_by_line(&self) -> (r: HashMap<u32, Coverage>)
        requires
            forall|k: u32| has_key(self@.branch_map, k) ==> has_key(self@.b, k),
        ensures
            r@ == branch_hits_by_line(self@.branch_map, self@.b).map_values(
                |d: Seq<u32>| coverage_of(d),
            ),
            forall|l: u32| #[trigger]
                r@.contains_key(l) <==> exists|i: int|
                    0 <= i < self@.branch_map.len() && branch_line(self@.branch_map[i].1) == l,
            forall|l: u32| #[trigger]
                r@.contains_key(l) ==> r@[l].total == #[verifier::truncate] (line_path_total(
                    self@.branch_map,
                    self@.b,
                    l,
                ) as u32) && r@[l].covered == #[verifier::truncate] (line_paths_hit(
                    self@.branch_map,
                    self@.b,
                    l,
                ) as u32),
    {
        self.keys_are_unique();
        let ghost bm = self@.branch_map;
        let ghost b = self@.b;
        let n = branch_map_len(&self.branch_map);
        let mut prefilter: HashMap<u32, Vec<u32>> = HashMap::new();
        let mut lines: Vec<u32> = Vec::new();
        let mut i: usize = 0;
        while i < n
            invariant
                n == bm.len(),
                i <= n,
                bm == self@.branch_map,
                b == self@.b,
                self@.wf(),
                forall|k: u32| has_key(bm, k) ==> has_key(b, k),
                forall|l: u32| #[trigger]
                    prefilter@.contains_key(l) <==> branch_hits_by_line(
                        bm.take(i as int),
                        b,
                    ).contains_key(l),
                forall|l: u32| #[trigger]
                    prefilter@.contains_key(l) ==> prefilter@[l]@ == branch_hits_by_line(
                        bm.take(i as int),
                        b,
                    )[l],
                lines@.no_duplicates(),
                forall|l: u32| lines@.contains(l) <==> #[trigger] prefilter@.contains_key(l),
            decreases n - i,
        {
            let (k, line) = match branch_map_get_index(&self.branch_map, i) {
                Some((k, branch)) => (*k, line_of_branch(branch)),
                None => {
                    proof {
                        assert(false);
                    }
                    (0, 0)
                },
            };
            proof {
                let t = bm.take(i as int + 1);
                assert(t.drop_last() =~= bm.take(i as int));
                assert(t.last() == bm[i as int]);
                assert(has_key(bm, k));
            }
            let data = match branch_hit_map_get(&self.b, k) {
                Some(d) => d,
                None => {
                    proof {
                        assert(false);
                    }
                    return HashMap::new();
                },
            };
            let joined = match prefilter.get(&line) {
                Some(existing) => Some(concat(existing, data)),
                None => None,
            };
            let ghost prev = prefilter@;
            match joined {
                Some(v) => {
                    prefilter.insert(line, v);
                },
                None => {
                    let copy = concat(&Vec::new(), data);
                    assert(Seq::<u32>::empty() + data@ =~= data@);
                    prefilter.insert(line, copy);
                    proof {
                        assert(!lines@.contains(line));
                    }
                    let ghost old_lines = lines@;
                    lines.push(line);
                    proof {
                        assert forall|l: u32| lines@.contains(l) <==> #[trigger]
                            prefilter@.contains_key(l) by {
                            assert(old_lines.contains(l) <==> prev.contains_key(l));
                            if lines@.contains(l) && l != line {
                                let q = choose|q: int| 0 <= q < lines@.len() && lines@[q] == l;
                                assert(old_lines[q] == l);
                            }
                            if old_lines.contains(l) {
                                let q = choose|q: int| 0 <= q < old_lines.len() && old_lines[q] == l;
                                assert(lines@[q] == l);
                            }
                            if l == line {
                                assert(lines@[lines@.len() - 1] == l);
                            }
                        }
                    }
                },
            }
            i = i + 1;
        }
        proof {
            assert(bm.take(n as int) =~= bm);
        }
        let ghost by_line = branch_hits_by_line(bm, b);
        let mut ret: HashMap<u32, Coverage> = HashMap::new();
        let mut j: usize = 0;
        while j < lines.len()
            invariant
                j <= lines.len(),
                by_line == branch_hits_by_line(bm, b),
                lines@.no_duplicates(),
                forall|l: u32| #[trigger] prefilter@.contains_key(l) <==> by_line.contains_key(l),
                forall|l: u32| #[trigger] prefilter@.contains_key(l) ==> prefilter@[l]@ == by_line[l],
                forall|l: u32| lines@.contains(l) <==> #[trigger] prefilter@.contains_key(l),
                forall|l: u32| #[trigger]
                    ret@.contains_key(l) <==> lines@.take(j as int).contains(l),
                forall|l: u32| #[trigger]
                    ret@.contains_key(l) ==> ret@[l] == coverage_of(by_line[l]),
            decreases lines.len() - j,
        {
            let line = lines[j];
            proof {
                assert(lines@.contains(line));
            }
            let cov = match prefilter.get(&line) {
                Some(d) => Coverage {
                    covered: #[verifier::truncate] (count_positive(d) as u32),
                    total: #[verifier::truncate] (d.len() as u32),
                },
                None => {
                    proof {
                        assert(false);
                    }
                    Coverage { covered: 0, total: 0 }
                },
            };
            let ghost prev = ret@;
            ret.insert(line, cov);
            proof {
                assert forall|l: u32| #[trigger]
                    ret@.contains_key(l) <==> lines@.take(j as int + 1).contains(l) by {
                    let t = lines@.take(j as int + 1);
                    assert(t =~= lines@.take(j as int).push(line));
                    if t.contains(l) && l != line {
                        let q = choose|q: int| 0 <= q < t.len() && t[q] == l;
                        assert(lines@.take(j as int)[q] == l);
                    }
                    if lines@.take(j as int).contains(l) {
                        let q = choose|q: int| 0 <= q < j && lines@.take(j as int)[q] == l;
                        assert(t[q] == l);
                    }
                    if l == line {
                        assert(t[j as int] == l);
                    }
                }
            }
            j = j + 1;
        }
        proof {
            assert(lines@.take(lines@.len() as int) =~= lines@);
            let expected = by_line.map_values(|d: Seq<u32>| coverage_of(d));
            assert forall|l: u32| #[trigger] ret@.contains_key(l) <==> expected.contains_key(l) by {
                assert(ret@.contains_key(l) <==> lines@.contains(l));
                assert(lines@.contains(l) <==> prefilter@.contains_key(l));
            }
            assert forall|l: u32| #[trigger] ret@.contains_key(l) implies ret@[l] == expected[l] by {
                assert(prefilter@.contains_key(l));
            }
            assert(ret@ =~= expected);
            assert forall|l: u32| #[trigger] ret@.contains_key(l) <==> exists|i: int|
                0 <= i < bm.len() && branch_line(bm[i].1) == l by {
                lemma_branch_hits_by_line_sums(bm, b, l);
            }
            assert forall|l: u32| #[trigger] ret@.contains_key(l) implies ret@[l].total
                == #[verifier::truncate] (line_path_total(bm, b, l) as u32) && ret@[l].covered
                == #[verifier::truncate] (line_paths_hit(bm, b, l) as u32) by {
                lemma_branch_hits_by_line_sums(bm, b, l);
                lemma_positive_count_is_hit_counts(by_line[l]);
            }
        }
        ret
    }
}

} // verus!
