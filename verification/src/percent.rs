use vstd::prelude::*;

verus! {

/// The coverage percentage of `covered` out of `total` in hundredths of a percent,
/// truncated: `100000 * covered / total` (thousandths), then divided by 10; or
/// `10000` (100%) when `total` is 0. The reported percentage is this value divided
/// by 100, so it has two decimals.
pub open spec fn percent_spec(covered: u32, total: u32) -> u64 {
    if total > 0 {
        (((100000 * covered) / (total as int)) / 10) as u64
    } else {
        10000
    }
}

/// Computes [`percent_spec`].
pub fn percent(covered: u32, total: u32) -> (r: u64)
    ensures
        r == percent_spec(covered, total),
{
    if total > 0 {
        assert(100000 * (covered as int) <= 100000 * 0xffff_ffffint) by (nonlinear_arith);
        assert((100000 * covered) / (total as int) <= 100000 * covered) by (nonlinear_arith)
            requires
                total > 0,
        ;
        let thousandths = (100000u64 * (covered as u64)) / (total as u64);
        thousandths / 10
    } else {
        10000
    }
}

/// A fully covered non-empty set reports 100%; nothing covered reports 0%; and the
/// percentage never exceeds 100% while `covered <= total`.
pub proof fn lemma_percent_bounds(covered: u32, total: u32)
    ensures
        covered == total ==> percent_spec(covered, total) == 10000,
        total > 0 && covered == 0 ==> percent_spec(covered, total) == 0,
        covered <= total ==> percent_spec(covered, total) <= 10000,
{
    if total > 0 {
        assert(covered == total ==> (100000 * covered) / (total as int) == 100000) by (
        nonlinear_arith)
            requires
                total > 0,
        ;
        assert(covered <= total ==> (100000 * covered) / (total as int) <= 100000) by (
        nonlinear_arith)
            requires
                total > 0,
        ;
    }
}

/// More covered items never lower the percentage.
pub proof fn lemma_percent_monotonic(c1: u32, c2: u32, total: u32)
    requires
        c1 <= c2,
    ensures
        percent_spec(c1, total) <= percent_spec(c2, total),
{
    if total > 0 {
        assert((100000 * c1) / (total as int) <= (100000 * c2) / (total as int)) by (nonlinear_arith)
            requires
                total > 0,
                c1 <= c2,
        ;
    }
}


/// The percentage is the largest number of hundredths of a percent not above the
/// exact ratio: `pct * total <= 10000 * covered < (pct + 1) * total`.
pub proof fn lemma_percent_is_floor(covered: u32, total: u32)
    requires
        total > 0,
    ensures
        percent_spec(covered, total) * total <= 10000 * covered,
        10000 * covered < (percent_spec(covered, total) + 1) * total,
{
    let t = total as int;
    let c = covered as int;
    let q = (100000 * c) / t;
    let p = q / 10;
    assert(q * t <= 100000 * c && 100000 * c < (q + 1) * t) by (nonlinear_arith)
        requires
            t > 0,
            q == (100000 * c) / t,
    ;
    assert(p * 10 <= q && q < p * 10 + 10) by (nonlinear_arith)
        requires
            p == q / 10,
    ;
    assert(p * t <= 10000 * c && 10000 * c < (p + 1) * t) by (nonlinear_arith)
        requires
            t > 0,
            q * t <= 100000 * c,
            100000 * c < (q + 1) * t,
            p * 10 <= q,
            q < p * 10 + 10,
    ;
    assert(q >= 0) by (nonlinear_arith)
        requires
            t > 0,
            c >= 0,
            q == (100000 * c) / t,
    ;
    assert(p <= p * t) by (nonlinear_arith)
        requires
            t >= 1,
            p >= 0,
    ;
    assert(p == percent_spec(covered, total));
}

} // verus!
