use vstd::prelude::*;
use crate::percent::{percent, percent_spec};

verus! {

/// A coverage percentage, when known, as computed by [`crate::percent::percent`]
/// (the percentage in hundredths, truncated).
#[derive(Copy, Clone, Debug, PartialEq, Eq, Structural)]
pub enum CoveragePercentage {
    Unknown,
    Value(u64),
}

impl Default for CoveragePercentage {
    fn default() -> (r: Self)
        ensures
            r == CoveragePercentage::Unknown,
    {
        CoveragePercentage::Unknown
    }
}

/// Counts of one kind of coverable item: how many there are, how many were hit,
/// how many were skipped, and the percentage hit.
#[derive(Copy, Clone, Debug, PartialEq, Eq, Structural)]
pub struct Totals {
    pub total: u32,
    pub covered: u32,
    pub skipped: u32,
    pub pct: CoveragePercentage,
}

/// All counts zero, percentage unknown.
pub open spec fn zero_totals() -> Totals {
    Totals { total: 0, covered: 0, skipped: 0, pct: CoveragePercentage::Unknown }
}

/// The totals of `a` and `b` added up, with the percentage recomputed from the sums.
pub open spec fn merged_totals(a: Totals, b: Totals) -> Totals {
    Totals {
        total: (a.total + b.total) as u32,
        covered: (a.covered + b.covered) as u32,
        skipped: (a.skipped + b.skipped) as u32,
        pct: CoveragePercentage::Value(
            percent_spec((a.covered + b.covered) as u32, (a.total + b.total) as u32),
        ),
    }
}

/// The sums of two totals fit in `u32`.
pub open spec fn totals_addable(a: Totals, b: Totals) -> bool {
    &&& a.total + b.total <= u32::MAX
    &&& a.covered + b.covered <= u32::MAX
    &&& a.skipped + b.skipped <= u32::MAX
}

impl Totals {
    pub fn new(total: u32, covered: u32, skipped: u32, pct: CoveragePercentage) -> (r: Totals)
        ensures
            r == (Totals { total, covered, skipped, pct }),
    {
        Totals { total, covered, skipped, pct }
    }

    pub fn default() -> (r: Totals)
        ensures
            r == zero_totals(),
    {
        Totals { total: 0, covered: 0, skipped: 0, pct: CoveragePercentage::Unknown }
    }

    fn merge(&mut self, other: &Totals)
        requires
            totals_addable(*old(self), *other),
        ensures
            *final(self) == merged_totals(*old(self), *other),
    {
        self.total = self.total + other.total;
        self.covered = self.covered + other.covered;
        self.skipped = self.skipped + other.skipped;
        self.pct = CoveragePercentage::Value(percent(self.covered, self.total));
    }
}

impl Default for Totals {
    fn default() -> (r: Totals)
        ensures
            r == zero_totals(),
    {
        Totals::default()
    }
}

/// Totals for lines, statements, functions, branches and (when logic is reported)
/// the truthy paths of logical expressions.
#[derive(Copy, Clone, Debug)]
pub struct CoverageSummary {
    pub lines: Totals,
    pub statements: Totals,
    pub functions: Totals,
    pub branches: Totals,
    pub branches_true: Option<Totals>,
}

/// Every count of both summaries can be added up in `u32`.
pub open spec fn summaries_addable(a: CoverageSummary, b: CoverageSummary) -> bool {
    &&& totals_addable(a.lines, b.lines)
    &&& totals_addable(a.statements, b.statements)
    &&& totals_addable(a.functions, b.functions)
    &&& totals_addable(a.branches, b.branches)
    &&& (b.branches_true matches Some(bt) ==> totals_addable(
        match a.branches_true {
            Some(at) => at,
            None => zero_totals(),
        },
        bt,
    ))
}

/// The summary `a` after merging `b` into it. Truthy-path totals are merged when
/// `b` has them (starting from zero when `a` has none) and kept otherwise.
pub open spec fn merged_summary(a: CoverageSummary, b: CoverageSummary) -> CoverageSummary {
    CoverageSummary {
        lines: merged_totals(a.lines, b.lines),
        statements: merged_totals(a.statements, b.statements),
        functions: merged_totals(a.functions, b.functions),
        branches: merged_totals(a.branches, b.branches),
        branches_true: match b.branches_true {
            Some(bt) => Some(
                merged_totals(
                    match a.branches_true {
                        Some(at) => at,
                        None => zero_totals(),
                    },
                    bt,
                ),
            ),
            None => a.branches_true,
        },
    }
}

impl CoverageSummary {
    pub fn new(
        lines: Totals,
        statements: Totals,
        functions: Totals,
        branches: Totals,
        branches_true: Option<Totals>,
    ) -> (r: CoverageSummary)
        ensures
            r == (CoverageSummary { lines, statements, functions, branches, branches_true }),
    {
        CoverageSummary { lines, statements, functions, branches, branches_true }
    }

    /// A copy of `summary`.
    pub fn from(summary: &CoverageSummary) -> (r: CoverageSummary)
        ensures
            r == *summary,
    {
        CoverageSummary {
            lines: summary.lines,
            statements: summary.statements,
            functions: summary.functions,
            branches: summary.branches,
            branches_true: summary.branches_true,
        }
    }

    /// The empty summary: every total zero, truthy-path totals present and zero.
    pub fn default() -> (r: CoverageSummary)
        ensures
            r == (CoverageSummary {
                lines: zero_totals(),
                statements: zero_totals(),
                functions: zero_totals(),
                branches: zero_totals(),
                branches_true: Some(zero_totals()),
            }),
    {
        CoverageSummary {
            lines: Totals::default(),
            statements: Totals::default(),
            functions: Totals::default(),
            branches: Totals::default(),
            branches_true: Some(Totals::default()),
        }
    }

    /// Merges a second summary into this one: see [`merged_summary`].
    pub fn merge(&mut self, summary: &CoverageSummary)
        requires
            summaries_addable(*old(self), *summary),
        ensures
            *final(self) == merged_summary(*old(self), *summary),
            totals_merged_from(final(self).lines, old(self).lines, summary.lines),
            totals_merged_from(final(self).statements, old(self).statements, summary.statements),
            totals_merged_from(final(self).functions, old(self).functions, summary.functions),
            totals_merged_from(final(self).branches, old(self).branches, summary.branches),
            match summary.branches_true {
                Some(bt) => final(self).branches_true matches Some(t) && totals_merged_from(
                    t,
                    match old(self).branches_true {
                        Some(at) => at,
                        None => zero_totals(),
                    },
                    bt,
                ),
                None => final(self).branches_true == old(self).branches_true,
            },
    {
        proof {
            lemma_merged_summary_recomputes(*self, *summary);
        }
        self.lines.merge(&summary.lines);
        self.statements.merge(&summary.statements);
        self.functions.merge(&summary.functions);
        self.branches.merge(&summary.branches);
        match summary.branches_true {
            Some(branches_true) => {
                let mut self_branches_true = match self.branches_true {
                    Some(self_value) => self_value,
                    None => Totals::default(),
                };
                self_branches_true.merge(&branches_true);
                self.branches_true = Some(self_branches_true);
            },
            None => {},
        }
    }

    /// Whether no line is counted.
    pub fn is_empty(&self) -> (r: bool)
        ensures
            r == (self.lines.total == 0),
    {
        self.lines.total == 0
    }
}

/// `m` holds the counts of `a` and `b` added up, and the percentage of its own
/// counts.
pub open spec fn totals_merged_from(m: Totals, a: Totals, b: Totals) -> bool {
    &&& m.total == a.total + b.total
    &&& m.covered == a.covered + b.covered
    &&& m.skipped == a.skipped + b.skipped
    &&& m.pct == CoveragePercentage::Value(percent_spec(m.covered, m.total))
}

/// Merging summaries adds up the counts of lines, statements, functions and
/// branches (and of truthy paths, when the merged summary has them), and every one
/// of them gets the percentage of its merged counts; truthy totals are left alone
/// when the merged summary has none.
pub proof fn lemma_merged_summary_recomputes(a: CoverageSummary, b: CoverageSummary)
    requires
        summaries_addable(a, b),
    ensures
        totals_merged_from(merged_summary(a, b).lines, a.lines, b.lines),
        totals_merged_from(merged_summary(a, b).statements, a.statements, b.statements),
        totals_merged_from(merged_summary(a, b).functions, a.functions, b.functions),
        totals_merged_from(merged_summary(a, b).branches, a.branches, b.branches),
        match b.branches_true {
            Some(bt) => merged_summary(a, b).branches_true matches Some(t) && totals_merged_from(
                t,
                match a.branches_true {
                    Some(at) => at,
                    None => zero_totals(),
                },
                bt,
            ),
            None => merged_summary(a, b).branches_true == a.branches_true,
        },
{
}

/// Merging totals does not depend on the order: the sums and the recomputed
/// percentage are the same either way.
pub proof fn lemma_merged_totals_commutative(a: Totals, b: Totals)
    ensures
        merged_totals(a, b) == merged_totals(b, a),
{
}

/// Merging totals is associative.
pub proof fn lemma_merged_totals_associative(a: Totals, b: Totals, c: Totals)
    requires
        totals_addable(a, b),
        totals_addable(b, c),
        totals_addable(merged_totals(a, b), c),
    ensures
        merged_totals(merged_totals(a, b), c) == merged_totals(a, merged_totals(b, c)),
{
}

/// Merging an empty summary keeps every count; only the percentages get computed.
pub proof fn lemma_merge_empty_keeps_counts(a: CoverageSummary, e: CoverageSummary)
    requires
        e.lines == zero_totals(),
        e.statements == zero_totals(),
        e.functions == zero_totals(),
        e.branches == zero_totals(),
        e.branches_true == Some(zero_totals()) || e.branches_true is None,
    ensures
        merged_summary(a, e).lines.total == a.lines.total,
        merged_summary(a, e).lines.covered == a.lines.covered,
        merged_summary(a, e).statements.total == a.statements.total,
        merged_summary(a, e).statements.covered == a.statements.covered,
        merged_summary(a, e).functions.total == a.functions.total,
        merged_summary(a, e).functions.covered == a.functions.covered,
        merged_summary(a, e).branches.total == a.branches.total,
        merged_summary(a, e).branches.covered == a.branches.covered,
        merged_summary(a, e).lines.pct == CoveragePercentage::Value(
            percent_spec(a.lines.covered, a.lines.total),
        ),
{
}

} // verus!
