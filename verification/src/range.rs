use vstd::prelude::*;
use crate::text::{
    decimal, lemma_decimal_digits, lemma_decimal_injective, lemma_parse_decimal, lemma_split_at_separator,
    parse_decimal, push_decimal,
};

verus! {

/// A line / column position in a source file.
#[derive(Copy, Clone, Debug, PartialEq, Eq, Structural)]
pub struct Location {
    pub line: u32,
    pub column: u32,
}

impl Location {
    /// The position at line 0, column 0.
    pub fn default() -> (r: Location)
        ensures
            r.line == 0,
            r.column == 0,
    {
        Location { line: 0, column: 0 }
    }
}

/// A source range from `start` to `end`.
#[derive(Copy, Clone, Debug, PartialEq, Eq, Structural)]
pub struct Range {
    pub start: Location,
    pub end: Location,
}

/// The key that identifies a range: `"start.line|start.column|end.line|end.column"`.
pub open spec fn range_key(r: Range) -> Seq<char> {
    decimal(r.start.line as nat) + seq!['|'] + (decimal(r.start.column as nat) + seq!['|'] + (
    decimal(r.end.line as nat) + seq!['|'] + decimal(r.end.column as nat)))
}

impl Range {
    /// The range whose both ends are line 0, column 0.
    pub fn default() -> (r: Range)
        ensures
            r.start == (Location { line: 0, column: 0 }),
            r.end == (Location { line: 0, column: 0 }),
    {
        Range { start: Location::default(), end: Location::default() }
    }

    pub fn new(start_line: u32, start_column: u32, end_line: u32, end_column: u32) -> (r: Range)
        ensures
            r.start.line == start_line,
            r.start.column == start_column,
            r.end.line == end_line,
            r.end.column == end_column,
    {
        Range {
            start: Location { line: start_line, column: start_column },
            end: Location { line: end_line, column: end_column },
        }
    }

    /// The string key of a range, `"{start.line}|{start.column}|{end.line}|{end.column}"`.
    pub fn key_from_loc(range: &Range) -> (r: String)
        ensures
            r@ == range_key(*range),
    {
        let mut s = String::new();
        push_decimal(&mut s, range.start.line as u64);
        let sep = "|";
        proof { reveal_strlit("|"); }
        s.append(sep);
        push_decimal(&mut s, range.start.column as u64);
        s.append(sep);
        push_decimal(&mut s, range.end.line as u64);
        s.append(sep);
        push_decimal(&mut s, range.end.column as u64);
        assert(s@ =~= range_key(*range));
        s
    }
}

/// The fields of a text separated by `'|'`: one more than the number of separators.
pub open spec fn fields(s: Seq<char>) -> Seq<Seq<char>>
    decreases s.len(),
{
    if s.len() == 0 {
        seq![Seq::empty()]
    } else {
        let f = fields(s.drop_last());
        if s.last() == '|' {
            f.push(Seq::empty())
        } else {
            f.update(f.len() - 1, f.last().push(s.last()))
        }
    }
}

proof fn lemma_fields_nonempty(s: Seq<char>)
    ensures
        fields(s).len() >= 1,
    decreases s.len(),
{
    if s.len() > 0 {
        lemma_fields_nonempty(s.drop_last());
    }
}

/// A text without separators is a single field.
proof fn lemma_fields_plain(y: Seq<char>)
    requires
        forall|i: int| 0 <= i < y.len() ==> y[i] != '|',
    ensures
        fields(y) == seq![y],
    decreases y.len(),
{
    if y.len() > 0 {
        lemma_fields_plain(y.drop_last());
        assert(y.last() == y[y.len() - 1]);
        assert(y.drop_last().push(y.last()) =~= y);
        assert(seq![y.drop_last()].update(0, y.drop_last().push(y.last())) =~= seq![y]);
    } else {
        assert(y =~= Seq::<char>::empty());
    }
}

/// A separator followed by a text without separators adds that text as a field.
proof fn lemma_fields_append(a: Seq<char>, y: Seq<char>)
    requires
        forall|i: int| 0 <= i < y.len() ==> y[i] != '|',
    ensures
        fields(a + seq!['|'] + y) == fields(a).push(y),
    decreases y.len(),
{
    let s = a + seq!['|'] + y;
    if y.len() == 0 {
        assert(s.drop_last() =~= a);
        assert(s.last() == '|');
        assert(y =~= Seq::<char>::empty());
    } else {
        let y0 = y.drop_last();
        lemma_fields_append(a, y0);
        assert(s.drop_last() =~= a + seq!['|'] + y0);
        assert(s.last() == y[y.len() - 1]);
        assert(y0.push(s.last()) =~= y);
        assert(fields(a).push(y0).update(fields(a).len() as int, y0.push(s.last())) =~= fields(a).push(y));
    }
}

/// A range key reads back into its four numbers: split at `'|'`, its fields are
/// the decimal start line, start column, end line and end column.
pub proof fn lemma_range_key_parses_back(r: Range)
    ensures
        fields(range_key(r)).len() == 4,
        fields(range_key(r)).map_values(|f: Seq<char>| parse_decimal(f)) == seq![
            r.start.line as nat,
            r.start.column as nat,
            r.end.line as nat,
            r.end.column as nat,
        ],
{
    let a = decimal(r.start.line as nat);
    let b = decimal(r.start.column as nat);
    let c = decimal(r.end.line as nat);
    let d = decimal(r.end.column as nat);
    lemma_decimal_digits(r.start.line as nat);
    lemma_decimal_digits(r.start.column as nat);
    lemma_decimal_digits(r.end.line as nat);
    lemma_decimal_digits(r.end.column as nat);
    let bar = seq!['|'];
    assert(range_key(r) =~= ((a + bar + b) + bar + c) + bar + d);
    lemma_fields_plain(a);
    lemma_fields_append(a, b);
    lemma_fields_append(a + bar + b, c);
    lemma_fields_append((a + bar + b) + bar + c, d);
    let f = fields(range_key(r));
    assert(f =~= seq![a, b, c, d]);
    lemma_parse_decimal(r.start.line as nat);
    lemma_parse_decimal(r.start.column as nat);
    lemma_parse_decimal(r.end.line as nat);
    lemma_parse_decimal(r.end.column as nat);
    assert(f.map_values(|x: Seq<char>| parse_decimal(x)) =~= seq![
        r.start.line as nat,
        r.start.column as nat,
        r.end.line as nat,
        r.end.column as nat,
    ]);
}

/// Range keys identify ranges: two ranges with the same key are the same range.
pub proof fn lemma_range_key_injective(r1: Range, r2: Range)
    requires
        range_key(r1) == range_key(r2),
    ensures
        r1 == r2,
{
    let a1 = decimal(r1.start.line as nat);
    let b1 = decimal(r1.start.column as nat);
    let c1 = decimal(r1.end.line as nat);
    let d1 = decimal(r1.end.column as nat);
    let a2 = decimal(r2.start.line as nat);
    let b2 = decimal(r2.start.column as nat);
    let c2 = decimal(r2.end.line as nat);
    let d2 = decimal(r2.end.column as nat);
    lemma_decimal_digits(r1.start.line as nat);
    lemma_decimal_digits(r1.start.column as nat);
    lemma_decimal_digits(r1.end.line as nat);
    lemma_decimal_digits(r2.start.line as nat);
    lemma_decimal_digits(r2.start.column as nat);
    lemma_decimal_digits(r2.end.line as nat);
    let bar = seq!['|'];
    lemma_split_at_separator(a1, b1 + bar + (c1 + bar + d1), a2, b2 + bar + (c2 + bar + d2), '|');
    lemma_split_at_separator(b1, c1 + bar + d1, b2, c2 + bar + d2, '|');
    lemma_split_at_separator(c1, d1, c2, d2, '|');
    lemma_decimal_injective(r1.start.line as nat, r2.start.line as nat);
    lemma_decimal_injective(r1.start.column as nat, r2.start.column as nat);
    lemma_decimal_injective(r1.end.line as nat, r2.end.line as nat);
    lemma_decimal_injective(r1.end.column as nat, r2.end.column as nat);
}

} // verus!
