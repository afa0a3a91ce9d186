//! The insertion-ordered maps of coverage data, kept in `indexmap::IndexMap`.
//!
//! The contents of each map is modelled as the sequence of its `(key, value)`
//! entries in iteration order. Keys are `u32` ids; in every map that a call here
//! produces, no key occurs twice.
use vstd::prelude::*;
use indexmap::IndexMap;
use crate::range::Range;
use crate::types::{Branch, BranchView, Function, FunctionView};

verus! {

#[verifier::external_type_specification]
#[verifier::external_body]
#[verifier::reject_recursive_types(K)]
#[verifier::reject_recursive_types(V)]
#[verifier::reject_recursive_types(S)]
pub struct ExIndexMap<K, V, S>(IndexMap<K, V, S>);

/// Statement locations keyed by statement id.
pub type StatementMap = IndexMap<u32, Range>;

/// Function metadata keyed by function id.
pub type FunctionMap = IndexMap<u32, Function>;

/// Branch metadata keyed by branch id.
pub type BranchMap = IndexMap<u32, Branch>;

/// Hit counts keyed by id (statements, functions) or by line number.
pub type LineHitMap = IndexMap<u32, u32>;

/// Per-path hit counts of branches keyed by branch id.
pub type BranchHitMap = IndexMap<u32, Vec<u32>>;

/// The entries of a statement map, in order.
pub uninterp spec fn statement_entries(m: StatementMap) -> Seq<(u32, Range)>;

/// The entries of a function map, in order.
pub uninterp spec fn function_entries(m: FunctionMap) -> Seq<(u32, FunctionView)>;

/// The entries of a branch map, in order.
pub uninterp spec fn branch_entries(m: BranchMap) -> Seq<(u32, BranchView)>;

/// The entries of a hit map, in order.
pub uninterp spec fn hit_entries(m: LineHitMap) -> Seq<(u32, u32)>;

/// The entries of a branch hit map, in order.
pub uninterp spec fn branch_hit_entries(m: BranchHitMap) -> Seq<(u32, Seq<u32>)>;

/// No key occurs twice among the entries.
pub open spec fn unique_keys<V>(s: Seq<(u32, V)>) -> bool {
    forall|i: int, j: int| 0 <= i < s.len() && 0 <= j < s.len() && i != j ==> s[i].0 != s[j].0
}

/// Some entry has key `k`.
pub open spec fn has_key<V>(s: Seq<(u32, V)>, k: u32) -> bool {
    exists|i: int| 0 <= i < s.len() && s[i].0 == k
}

/// The position of the entry with key `k` (meaningful when `has_key(s, k)`).
pub open spec fn key_index<V>(s: Seq<(u32, V)>, k: u32) -> int {
    choose|i: int| 0 <= i < s.len() && s[i].0 == k
}

/// The value stored under key `k` (meaningful when `has_key(s, k)`).
pub open spec fn value_of<V>(s: Seq<(u32, V)>, k: u32) -> V {
    s[key_index(s, k)].1
}

/// The keys of the entries, in order.
pub open spec fn keys<V>(s: Seq<(u32, V)>) -> Seq<u32> {
    s.map_values(|e: (u32, V)| e.0)
}

/// Entries as many as their distinct keys have no key twice.
pub proof fn lemma_distinct_keys_unique<V>(s: Seq<(u32, V)>)
    requires
        keys(s).to_set().len() == s.len(),
    ensures
        unique_keys(s),
{
    keys(s).lemma_no_dup_set_cardinality();
    assert forall|i: int, j: int| 0 <= i < s.len() && 0 <= j < s.len() && i != j implies s[i].0
        != s[j].0 by {
        assert(keys(s)[i] == s[i].0 && keys(s)[j] == s[j].0);
    }
}

/// The entries after inserting `(k, v)`: an existing entry with key `k` keeps its
/// place and takes the new value, otherwise the entry goes last.
pub open spec fn inserted<V>(s: Seq<(u32, V)>, k: u32, v: V) -> Seq<(u32, V)> {
    if has_key(s, k) {
        s.update(key_index(s, k), (k, v))
    } else {
        s.push((k, v))
    }
}

/// The entries after removing key `k` by swapping the last entry into its place.
pub open spec fn swap_removed<V>(s: Seq<(u32, V)>, k: u32) -> Seq<(u32, V)> {
    if has_key(s, k) {
        s.update(key_index(s, k), s.last()).drop_last()
    } else {
        s
    }
}

/// With unique keys, the entry found for a key is the one at any position holding it.
pub proof fn lemma_key_index<V>(s: Seq<(u32, V)>, i: int)
    requires
        unique_keys(s),
        0 <= i < s.len(),
    ensures
        has_key(s, s[i].0),
        key_index(s, s[i].0) == i,
        value_of(s, s[i].0) == s[i].1,
{
    assert(has_key(s, s[i].0));
}

/// Inserting keeps the keys unique.
pub proof fn lemma_inserted_unique<V>(s: Seq<(u32, V)>, k: u32, v: V)
    requires
        unique_keys(s),
    ensures
        unique_keys(inserted(s, k, v)),
        has_key(inserted(s, k, v), k),
        value_of(inserted(s, k, v), k) == v,
        forall|j: u32| j != k ==> has_key(inserted(s, k, v), j) == has_key(s, j),
        forall|j: u32| j != k && has_key(s, j) ==> value_of(inserted(s, k, v), j) == value_of(s, j),
{
    let t = inserted(s, k, v);
    if has_key(s, k) {
        let i = key_index(s, k);
        assert(t[i].0 == k);
        lemma_key_index(t, i);
        assert forall|j: u32| j != k implies has_key(t, j) == has_key(s, j) by {
            if has_key(s, j) {
                let p = key_index(s, j);
                assert(t[p].0 == j);
            }
            if has_key(t, j) {
                let p = key_index(t, j);
                assert(s[p].0 == j);
            }
        }
        assert forall|j: u32| j != k && has_key(s, j) implies value_of(t, j) == value_of(s, j) by {
            let p = key_index(s, j);
            assert(t[p] == s[p]);
            lemma_key_index(t, p);
        }
    } else {
        let n = s.len() as int;
        assert(t[n].0 == k);
        lemma_key_index(t, n);
        assert forall|j: u32| j != k implies has_key(t, j) == has_key(s, j) by {
            if has_key(s, j) {
                let p = key_index(s, j);
                assert(t[p].0 == j);
            }
            if has_key(t, j) {
                let p = key_index(t, j);
                assert(s[p].0 == j);
            }
        }
        assert forall|j: u32| j != k && has_key(s, j) implies value_of(t, j) == value_of(s, j) by {
            let p = key_index(s, j);
            assert(t[p] == s[p]);
            lemma_key_index(t, p);
        }
    }
}

/// Keys after appending an entry.
pub proof fn lemma_keys_push<V>(s: Seq<(u32, V)>, e: (u32, V))
    ensures
        keys(s.push(e)) == keys(s).push(e.0),
        forall|j: u32| has_key(s.push(e), j) <==> (has_key(s, j) || j == e.0),
{
    assert(keys(s.push(e)) =~= keys(s).push(e.0));
    assert forall|j: u32| has_key(s.push(e), j) <==> (has_key(s, j) || j == e.0) by {
        if has_key(s, j) {
            let p = key_index(s, j);
            assert(s.push(e)[p].0 == j);
        }
        if j == e.0 {
            assert(s.push(e)[s.len() as int].0 == j);
        }
        if has_key(s.push(e), j) {
            let p = key_index(s.push(e), j);
            if p < s.len() {
                assert(s[p].0 == j);
            }
        }
    }
}

/// Appending an entry with a fresh key keeps the keys unique; the new entry is found by its key.
pub proof fn lemma_push_fresh<V>(s: Seq<(u32, V)>, k: u32, v: V)
    requires
        unique_keys(s),
        !has_key(s, k),
    ensures
        inserted(s, k, v) == s.push((k, v)),
        unique_keys(s.push((k, v))),
        value_of(s.push((k, v)), k) == v,
        forall|j: u32| j != k && has_key(s, j) ==> value_of(s.push((k, v)), j) == value_of(s, j),
{
    lemma_inserted_unique(s, k, v);
}

/// Updating the value under an existing key keeps the key set.
pub proof fn lemma_inserted_existing<V>(s: Seq<(u32, V)>, k: u32, v: V)
    requires
        unique_keys(s),
        has_key(s, k),
    ensures
        keys(inserted(s, k, v)) == keys(s),
        inserted(s, k, v).len() == s.len(),
        forall|j: u32| has_key(inserted(s, k, v), j) == has_key(s, j),
{
    lemma_inserted_unique(s, k, v);
    assert(keys(inserted(s, k, v)) =~= keys(s));
}

/// The entries after removing each key of `ks` in turn by swapping.
pub open spec fn swap_removed_all<V>(s: Seq<(u32, V)>, ks: Seq<u32>) -> Seq<(u32, V)>
    decreases ks.len(),
{
    if ks.len() == 0 {
        s
    } else {
        swap_removed(swap_removed_all(s, ks.drop_last()), ks.last())
    }
}

/// The branch entries that have at least one path location, in order.
pub open spec fn branches_with_paths(s: Seq<(u32, BranchView)>) -> Seq<(u32, BranchView)> {
    s.filter(|e: (u32, BranchView)| e.1.locations.len() > 0)
}

/// Splitting off the last entry of a map with unique keys.
pub proof fn lemma_drop_last<V>(s: Seq<(u32, V)>)
    requires
        unique_keys(s),
        s.len() > 0,
    ensures
        unique_keys(s.drop_last()),
        !has_key(s.drop_last(), s.last().0),
        s == s.drop_last().push(s.last()),
        forall|j: u32| has_key(s, j) <==> (has_key(s.drop_last(), j) || j == s.last().0),
        forall|j: u32| has_key(s.drop_last(), j) ==> value_of(s, j) == value_of(s.drop_last(), j),
        value_of(s, s.last().0) == s.last().1,
{
    let t = s.drop_last();
    assert(s =~= t.push(s.last()));
    if has_key(t, s.last().0) {
        let p = key_index(t, s.last().0);
        assert(s[p].0 == s[s.len() - 1].0);
    }
    lemma_keys_push(t, s.last());
    lemma_push_fresh(t, s.last().0, s.last().1);
}

/// Removing a key by swapping keeps the other keys, and keeps them unique.
pub proof fn lemma_swap_removed<V>(s: Seq<(u32, V)>, k: u32)
    requires
        unique_keys(s),
    ensures
        unique_keys(swap_removed(s, k)),
        forall|j: u32| #[trigger] has_key(swap_removed(s, k), j) <==> (has_key(s, j) && j != k),
        forall|j: u32| #[trigger]
            has_key(swap_removed(s, k), j) ==> value_of(swap_removed(s, k), j) == value_of(s, j),
{
    let r = swap_removed(s, k);
    if has_key(s, k) {
        let i = key_index(s, k);
        let n = s.len() as int;
        assert(r.len() == n - 1);
        assert forall|a: int| 0 <= a < r.len() implies #[trigger] r[a] == s[if a == i { n - 1 } else { a }] by {}
        assert forall|a: int, b: int| 0 <= a < r.len() && 0 <= b < r.len() && a != b implies r[a].0 != r[b].0 by {
            let pa = if a == i { n - 1 } else { a };
            let pb = if b == i { n - 1 } else { b };
            assert(r[a] == s[pa]);
            assert(r[b] == s[pb]);
        }
        assert forall|j: u32| has_key(r, j) <==> (has_key(s, j) && j != k) by {
            if has_key(s, j) && j != k {
                let p = key_index(s, j);
                if p == n - 1 {
                    assert(r[i] == s[n - 1]);
                } else {
                    assert(r[p] == s[p]);
                }
            }
            if has_key(r, j) {
                let q = key_index(r, j);
                let pq = if q == i { n - 1 } else { q };
                assert(r[q] == s[pq]);
                assert(pq != i);
            }
        }
        assert forall|j: u32| has_key(r, j) implies value_of(r, j) == value_of(s, j) by {
            let q = key_index(r, j);
            let pq = if q == i { n - 1 } else { q };
            assert(r[q] == s[pq]);
            lemma_key_index(r, q);
            lemma_key_index(s, pq);
        }
    }
}

/// Removing several keys by swapping keeps the other keys, and keeps them unique.
pub proof fn lemma_swap_removed_all<V>(s: Seq<(u32, V)>, ks: Seq<u32>)
    requires
        unique_keys(s),
    ensures
        unique_keys(swap_removed_all(s, ks)),
        forall|j: u32| #[trigger]
            has_key(swap_removed_all(s, ks), j) <==> (has_key(s, j) && !ks.contains(j)),
        forall|j: u32| #[trigger]
            has_key(swap_removed_all(s, ks), j) ==> value_of(swap_removed_all(s, ks), j) == value_of(
                s,
                j,
            ),
    decreases ks.len(),
{
    if ks.len() > 0 {
        let p = ks.drop_last();
        assert(swap_removed_all(s, ks) == swap_removed(swap_removed_all(s, p), ks.last()));
        lemma_swap_removed_all(s, p);
        lemma_swap_removed(swap_removed_all(s, p), ks.last());
        assert forall|j: u32| ks.contains(j) <==> (p.contains(j) || j == ks.last()) by {
            assert(ks =~= p.push(ks.last()));
            if ks.contains(j) {
                let q = choose|q: int| 0 <= q < ks.len() && ks[q] == j;
                if q < p.len() {
                    assert(p[q] == j);
                }
            }
            if p.contains(j) {
                let q = choose|q: int| 0 <= q < p.len() && p[q] == j;
                assert(ks[q] == j);
            }
        }
        let rp = swap_removed_all(s, p);
        assert forall|j: u32| has_key(swap_removed_all(s, ks), j) <==> (has_key(s, j) && !ks.contains(
            j,
        )) by {
            assert(has_key(swap_removed(rp, ks.last()), j) <==> (has_key(rp, j) && j != ks.last()));
            assert(has_key(rp, j) <==> (has_key(s, j) && !p.contains(j)));
        }
        assert forall|j: u32| has_key(swap_removed_all(s, ks), j) implies value_of(
            swap_removed_all(s, ks),
            j,
        ) == value_of(s, j) by {
            assert(has_key(rp, j));
        }
    }
}

/// The branches kept by [`branches_with_paths`] are exactly those with a path location.
pub proof fn lemma_branches_with_paths(s: Seq<(u32, BranchView)>)
    requires
        unique_keys(s),
    ensures
        unique_keys(branches_with_paths(s)),
        forall|j: u32| #[trigger]
            has_key(branches_with_paths(s), j) <==> (has_key(s, j) && value_of(s, j).locations.len()
                > 0),
        forall|j: u32| #[trigger]
            has_key(branches_with_paths(s), j) ==> value_of(branches_with_paths(s), j) == value_of(
                s,
                j,
            ),
        forall|i: int| 0 <= i < branches_with_paths(s).len() ==> #[trigger] branches_with_paths(
            s,
        )[i].1.locations.len() > 0,
    decreases s.len(),
{
    if s.len() > 0 {
        let t = s.drop_last();
        let e = s.last();
        lemma_drop_last(s);
        lemma_branches_with_paths(t);
        let ft = branches_with_paths(t);
        reveal_with_fuel(Seq::filter, 2);
        assert(branches_with_paths(s) == if e.1.locations.len() > 0 {
            ft.push(e)
        } else {
            ft
        });
        assert(!has_key(ft, e.0));
        if e.1.locations.len() > 0 {
            lemma_keys_push(ft, e);
            lemma_push_fresh(ft, e.0, e.1);
        }
        let fs = branches_with_paths(s);
        assert forall|j: u32| #[trigger]
            has_key(fs, j) <==> (has_key(s, j) && value_of(s, j).locations.len() > 0) by {
            if j == e.0 {
                assert(has_key(s, j));
            } else {
                assert(has_key(fs, j) == has_key(ft, j));
                assert(has_key(s, j) == has_key(t, j));
                if has_key(t, j) {
                    assert(value_of(s, j) == value_of(t, j));
                }
            }
        }
        assert forall|j: u32| #[trigger] has_key(fs, j) implies value_of(fs, j) == value_of(s, j) by {
            if j != e.0 {
                assert(has_key(ft, j));
                assert(has_key(t, j));
            }
        }
    }
}

// ------------------------------------------------------------ StatementMap

/// `IndexMap::new`: the map is empty.
#[verifier::external_body]
pub(crate) fn statement_map_new() -> (m: StatementMap)
    ensures
        statement_entries(m) == Seq::<(u32, Range)>::empty(),
{
    IndexMap::new()
}

/// `IndexMap::insert`: an existing entry for the key keeps its place and takes the
/// value, otherwise the entry is added last; the replaced value is returned.
#[verifier::external_body]
pub(crate) fn statement_map_insert(m: &mut StatementMap, k: u32, v: Range) -> (r: Option<Range>)
    ensures
        unique_keys(statement_entries(*old(m))) ==> unique_keys(statement_entries(*final(m))),
        unique_keys(statement_entries(*old(m))) ==> statement_entries(*final(m)) == inserted(statement_entries(*old(m)), k, v),
        r is Some <==> has_key(statement_entries(*old(m)), k),
        r matches Some(x) ==> (unique_keys(statement_entries(*old(m))) ==> x == value_of(statement_entries(*old(m)), k)),
{
    m.insert(k, v)
}

/// `IndexMap::get`: the value stored under the key, if any.
#[verifier::external_body]
pub(crate) fn statement_map_get(m: &StatementMap, k: u32) -> (r: Option<&Range>)
    ensures
        r is Some <==> has_key(statement_entries(*m), k),
        r matches Some(x) ==> (unique_keys(statement_entries(*m)) ==> *x == value_of(statement_entries(*m), k)),
{
    m.get(&k)
}

/// `IndexMap::len`: the number of entries, which is also the number of distinct
/// keys, since an `IndexMap` holds each key once.
#[verifier::external_body]
pub(crate) fn statement_map_len(m: &StatementMap) -> (r: usize)
    ensures
        r == statement_entries(*m).len(),
        r == keys(statement_entries(*m)).to_set().len(),
{
    m.len()
}

/// `IndexMap::get_index`: the entry at position `i`, if `i` is below the length.
#[verifier::external_body]
pub(crate) fn statement_map_get_index(m: &StatementMap, i: usize) -> (r: Option<(&u32, &Range)>)
    ensures
        r is Some <==> i < statement_entries(*m).len(),
        r matches Some(e) ==> *e.0 == statement_entries(*m)[i as int].0 && *e.1 == statement_entries(*m)[i as int].1,
{
    m.get_index(i)
}

/// `IndexMap::clone`: a map with the same entries in the same order.
#[verifier::external_body]
pub(crate) fn statement_map_clone(m: &StatementMap) -> (r: StatementMap)
    ensures
        statement_entries(r) == statement_entries(*m),
{
    m.clone()
}



// ------------------------------------------------------------ FunctionMap

/// `IndexMap::new`: the map is empty.
#[verifier::external_body]
pub(crate) fn function_map_new() -> (m: FunctionMap)
    ensures
        function_entries(m) == Seq::<(u32, FunctionView)>::empty(),
{
    IndexMap::new()
}

/// `IndexMap::insert`: an existing entry for the key keeps its place and takes the
/// value, otherwise the entry is added last; the replaced value is returned.
#[verifier::external_body]
pub(crate) fn function_map_insert(m: &mut FunctionMap, k: u32, v: Function) -> (r: Option<Function>)
    ensures
        unique_keys(function_entries(*old(m))) ==> unique_keys(function_entries(*final(m))),
        unique_keys(function_entries(*old(m))) ==> function_entries(*final(m)) == inserted(function_entries(*old(m)), k, v@),
        r is Some <==> has_key(function_entries(*old(m)), k),
        r matches Some(x) ==> (unique_keys(function_entries(*old(m))) ==> x@ == value_of(function_entries(*old(m)), k)),
{
    m.insert(k, v)
}

/// `IndexMap::len`: the number of entries, which is also the number of distinct
/// keys, since an `IndexMap` holds each key once.
#[verifier::external_body]
pub(crate) fn function_map_len(m: &FunctionMap) -> (r: usize)
    ensures
        r == function_entries(*m).len(),
        r == keys(function_entries(*m)).to_set().len(),
{
    m.len()
}

/// `IndexMap::get_index`: the entry at position `i`, if `i` is below the length.
#[verifier::external_body]
pub(crate) fn function_map_get_index(m: &FunctionMap, i: usize) -> (r: Option<(&u32, &Function)>)
    ensures
        r is Some <==> i < function_entries(*m).len(),
        r matches Some(e) ==> *e.0 == function_entries(*m)[i as int].0 && (*e.1)@ == function_entries(*m)[i as int].1,
{
    m.get_index(i)
}

/// `IndexMap::clone`: a map with the same entries in the same order.
#[verifier::external_body]
pub(crate) fn function_map_clone(m: &FunctionMap) -> (r: FunctionMap)
    ensures
        function_entries(r) == function_entries(*m),
{
    m.clone()
}



// ------------------------------------------------------------ BranchMap

/// `IndexMap::new`: the map is empty.
#[verifier::external_body]
pub(crate) fn branch_map_new() -> (m: BranchMap)
    ensures
        branch_entries(m) == Seq::<(u32, BranchView)>::empty(),
{
    IndexMap::new()
}

/// `IndexMap::insert`: an existing entry for the key keeps its place and takes the
/// value, otherwise the entry is added last; the replaced value is returned.
#[verifier::external_body]
pub(crate) fn branch_map_insert(m: &mut BranchMap, k: u32, v: Branch) -> (r: Option<Branch>)
    ensures
        unique_keys(branch_entries(*old(m))) ==> unique_keys(branch_entries(*final(m))),
        unique_keys(branch_entries(*old(m))) ==> branch_entries(*final(m)) == inserted(branch_entries(*old(m)), k, v@),
        r is Some <==> has_key(branch_entries(*old(m)), k),
        r matches Some(x) ==> (unique_keys(branch_entries(*old(m))) ==> x@ == value_of(branch_entries(*old(m)), k)),
{
    m.insert(k, v)
}

/// `IndexMap::get`: the value stored under the key, if any.
#[verifier::external_body]
pub(crate) fn branch_map_get(m: &BranchMap, k: u32) -> (r: Option<&Branch>)
    ensures
        r is Some <==> has_key(branch_entries(*m), k),
        r matches Some(x) ==> (unique_keys(branch_entries(*m)) ==> (*x)@ == value_of(branch_entries(*m), k)),
{
    m.get(&k)
}

/// `IndexMap::len`: the number of entries, which is also the number of distinct
/// keys, since an `IndexMap` holds each key once.
#[verifier::external_body]
pub(crate) fn branch_map_len(m: &BranchMap) -> (r: usize)
    ensures
        r == branch_entries(*m).len(),
        r == keys(branch_entries(*m)).to_set().len(),
{
    m.len()
}

/// `IndexMap::get_index`: the entry at position `i`, if `i` is below the length.
#[verifier::external_body]
pub(crate) fn branch_map_get_index(m: &BranchMap, i: usize) -> (r: Option<(&u32, &Branch)>)
    ensures
        r is Some <==> i < branch_entries(*m).len(),
        r matches Some(e) ==> *e.0 == branch_entries(*m)[i as int].0 && (*e.1)@ == branch_entries(*m)[i as int].1,
{
    m.get_index(i)
}

/// `IndexMap::retain` with [`Branch::has_locations`] as the predicate: keeps, in order,
/// the entries whose branch has at least one path location.
#[verifier::external_body]
pub(crate) fn branch_map_retain_with_locations(m: &mut BranchMap)
    ensures
        branch_entries(*final(m)) == branch_entries(*old(m)).filter(|e: (u32, BranchView)| e.1.locations.len() > 0),
{
    m.retain(|_, b| b.has_locations())
}

/// `IndexMap::clone`: a map with the same entries in the same order.
#[verifier::external_body]
pub(crate) fn branch_map_clone(m: &BranchMap) -> (r: BranchMap)
    ensures
        branch_entries(r) == branch_entries(*m),
{
    m.clone()
}



// ------------------------------------------------------------ LineHitMap

/// `IndexMap::new`: the map is empty.
#[verifier::external_body]
pub(crate) fn hit_map_new() -> (m: LineHitMap)
    ensures
        hit_entries(m) == Seq::<(u32, u32)>::empty(),
{
    IndexMap::new()
}

/// `IndexMap::insert`: an existing entry for the key keeps its place and takes the
/// value, otherwise the entry is added last; the replaced value is returned.
#[verifier::external_body]
pub(crate) fn hit_map_insert(m: &mut LineHitMap, k: u32, v: u32) -> (r: Option<u32>)
    ensures
        unique_keys(hit_entries(*old(m))) ==> unique_keys(hit_entries(*final(m))),
        unique_keys(hit_entries(*old(m))) ==> hit_entries(*final(m)) == inserted(hit_entries(*old(m)), k, v),
        r is Some <==> has_key(hit_entries(*old(m)), k),
        r matches Some(x) ==> (unique_keys(hit_entries(*old(m))) ==> x == value_of(hit_entries(*old(m)), k)),
{
    m.insert(k, v)
}

/// `IndexMap::get`: the value stored under the key, if any.
#[verifier::external_body]
pub(crate) fn hit_map_get(m: &LineHitMap, k: u32) -> (r: Option<&u32>)
    ensures
        r is Some <==> has_key(hit_entries(*m), k),
        r matches Some(x) ==> (unique_keys(hit_entries(*m)) ==> *x == value_of(hit_entries(*m), k)),
{
    m.get(&k)
}

/// `IndexMap::len`: the number of entries, which is also the number of distinct
/// keys, since an `IndexMap` holds each key once.
#[verifier::external_body]
pub(crate) fn hit_map_len(m: &LineHitMap) -> (r: usize)
    ensures
        r == hit_entries(*m).len(),
        r == keys(hit_entries(*m)).to_set().len(),
{
    m.len()
}

/// `IndexMap::get_index`: the entry at position `i`, if `i` is below the length.
#[verifier::external_body]
pub(crate) fn hit_map_get_index(m: &LineHitMap, i: usize) -> (r: Option<(&u32, &u32)>)
    ensures
        r is Some <==> i < hit_entries(*m).len(),
        r matches Some(e) ==> *e.0 == hit_entries(*m)[i as int].0 && *e.1 == hit_entries(*m)[i as int].1,
{
    m.get_index(i)
}

/// `IndexMap::clone`: a map with the same entries in the same order.
#[verifier::external_body]
pub(crate) fn hit_map_clone(m: &LineHitMap) -> (r: LineHitMap)
    ensures
        hit_entries(r) == hit_entries(*m),
{
    m.clone()
}



// ------------------------------------------------------------ BranchHitMap

/// `IndexMap::new`: the map is empty.
#[verifier::external_body]
pub(crate) fn branch_hit_map_new() -> (m: BranchHitMap)
    ensures
        branch_hit_entries(m) == Seq::<(u32, Seq<u32>)>::empty(),
{
    IndexMap::new()
}

/// `IndexMap::insert`: an existing entry for the key keeps its place and takes the
/// value, otherwise the entry is added last; the replaced value is returned.
#[verifier::external_body]
pub(crate) fn branch_hit_map_insert(m: &mut BranchHitMap, k: u32, v: Vec<u32>) -> (r: Option<Vec<u32>>)
    ensures
        unique_keys(branch_hit_entries(*old(m))) ==> unique_keys(branch_hit_entries(*final(m))),
        unique_keys(branch_hit_entries(*old(m))) ==> branch_hit_entries(*final(m)) == inserted(branch_hit_entries(*old(m)), k, v@),
        r is Some <==> has_key(branch_hit_entries(*old(m)), k),
        r matches Some(x) ==> (unique_keys(branch_hit_entries(*old(m))) ==> x@ == value_of(branch_hit_entries(*old(m)), k)),
{
    m.insert(k, v)
}

/// `IndexMap::get`: the value stored under the key, if any.
#[verifier::external_body]
pub(crate) fn branch_hit_map_get(m: &BranchHitMap, k: u32) -> (r: Option<&Vec<u32>>)
    ensures
        r is Some <==> has_key(branch_hit_entries(*m), k),
        r matches Some(x) ==> (unique_keys(branch_hit_entries(*m)) ==> (*x)@ == value_of(branch_hit_entries(*m), k)),
{
    m.get(&k)
}

/// `IndexMap::len`: the number of entries, which is also the number of distinct
/// keys, since an `IndexMap` holds each key once.
#[verifier::external_body]
pub(crate) fn branch_hit_map_len(m: &BranchHitMap) -> (r: usize)
    ensures
        r == branch_hit_entries(*m).len(),
        r == keys(branch_hit_entries(*m)).to_set().len(),
{
    m.len()
}

/// `IndexMap::get_index`: the entry at position `i`, if `i` is below the length.
#[verifier::external_body]
pub(crate) fn branch_hit_map_get_index(m: &BranchHitMap, i: usize) -> (r: Option<(&u32, &Vec<u32>)>)
    ensures
        r is Some <==> i < branch_hit_entries(*m).len(),
        r matches Some(e) ==> *e.0 == branch_hit_entries(*m)[i as int].0 && (*e.1)@ == branch_hit_entries(*m)[i as int].1,
{
    m.get_index(i)
}

/// `IndexMap::swap_remove`: removes the entry for the key by moving the last entry
/// into its place; the removed value is returned.
#[verifier::external_body]
pub(crate) fn branch_hit_map_swap_remove(m: &mut BranchHitMap, k: u32) -> (r: Option<Vec<u32>>)
    ensures
        unique_keys(branch_hit_entries(*old(m))) ==> unique_keys(branch_hit_entries(*final(m))),
        unique_keys(branch_hit_entries(*old(m))) ==> branch_hit_entries(*final(m)) == swap_removed(branch_hit_entries(*old(m)), k),
        r is Some <==> has_key(branch_hit_entries(*old(m)), k),
        r matches Some(x) ==> (unique_keys(branch_hit_entries(*old(m))) ==> x@ == value_of(branch_hit_entries(*old(m)), k)),
{
    m.swap_remove(&k)
}

/// `IndexMap::clone`: a map with the same entries in the same order.
#[verifier::external_body]
pub(crate) fn branch_hit_map_clone(m: &BranchHitMap) -> (r: BranchHitMap)
    ensures
        branch_hit_entries(r) == branch_hit_entries(*m),
{
    m.clone()
}


} // verus!
