//! The coverage data object that instrumented code embeds: a JavaScript object
//! literal holding a file's coverage maps and counters.
use vstd::prelude::*;
use crate::file_coverage::{FileCoverage, FileCoverageView};
use crate::index_map::{
    branch_hit_map_get_index, branch_hit_map_len, branch_map_get_index, branch_map_len,
    function_map_get_index, function_map_len, hit_map_get_index, hit_map_len,
    statement_map_get_index, statement_map_len, branch_entries, branch_hit_entries, function_entries,
    hit_entries, statement_entries, unique_keys, BranchHitMap, BranchMap, FunctionMap, LineHitMap,
    StatementMap,
};
use crate::range::Range;
use crate::source_map::{opt_texts, SourceMap, SourceMapView};
use crate::text::{decimal, decimal_string, lemma_decimal_injective, texts};
use crate::types::{branch_type_name, Branch, BranchView, Function, FunctionView};

verus! {

/// The key of an object literal property: a bare identifier or a string literal.
#[derive(Clone, Debug)]
pub enum PropKey {
    Ident(String),
    Str(String),
}

/// A JavaScript literal expression: the kinds of expression a coverage data
/// object is built from. `RawStr` is a string literal whose source text is the
/// value between double quotes, as is; `Str` leaves quoting to the printer.
#[derive(Debug)]
pub enum JsLiteral {
    Null,
    Bool(bool),
    Num(u32),
    Str(String),
    RawStr(String),
    Array(Vec<JsLiteral>),
    Object(Vec<JsProp>),
}

/// A `key: value` property of an object literal.
#[derive(Debug)]
pub struct JsProp {
    pub key: PropKey,
    pub value: JsLiteral,
}

/// The mathematical value of a [`PropKey`].
pub enum KeyView {
    Ident(Seq<char>),
    Str(Seq<char>),
}

/// The mathematical value of a [`JsLiteral`].
pub enum LitView {
    Null,
    Bool(bool),
    Num(u32),
    Str(Seq<char>),
    RawStr(Seq<char>),
    Array(Seq<LitView>),
    Object(Seq<PropView>),
}

/// The mathematical value of a [`JsProp`].
pub struct PropView {
    pub key: KeyView,
    pub value: LitView,
}

/// The mathematical value of a property key.
pub open spec fn key_view(k: PropKey) -> KeyView {
    match k {
        PropKey::Ident(s) => KeyView::Ident(s@),
        PropKey::Str(s) => KeyView::Str(s@),
    }
}

/// The mathematical value of a literal.
pub open spec fn lit_view(v: JsLiteral) -> LitView
    decreases v,
{
    match v {
        JsLiteral::Null => LitView::Null,
        JsLiteral::Bool(b) => LitView::Bool(b),
        JsLiteral::Num(n) => LitView::Num(n),
        JsLiteral::Str(s) => LitView::Str(s@),
        JsLiteral::RawStr(s) => LitView::RawStr(s@),
        JsLiteral::Array(items) => {
            proof {
                broadcast use vstd::std_specs::vec::axiom_vec_decreases_to_view;
                assert(decreases_to!(items => items@));
            }
            LitView::Array(lits_view(items@))
        },
        JsLiteral::Object(props) => {
            proof {
                broadcast use vstd::std_specs::vec::axiom_vec_decreases_to_view;
                assert(decreases_to!(props => props@));
            }
            LitView::Object(props_view(props@))
        },
    }
}

/// The mathematical values of a list of literals.
pub open spec fn lits_view(s: Seq<JsLiteral>) -> Seq<LitView>
    decreases s,
{
    if s.len() == 0 {
        Seq::empty()
    } else {
        proof {
            broadcast use vstd::seq::axiom_seq_index_decreases;
            broadcast use vstd::seq::axiom_seq_subrange_decreases;
            assert(decreases_to!(s => s[s.len() - 1]));
            assert(decreases_to!(s => s.subrange(0, s.len() - 1)));
        }
        lits_view(s.drop_last()).push(lit_view(s.last()))
    }
}

/// The mathematical values of a list of properties.
pub open spec fn props_view(s: Seq<JsProp>) -> Seq<PropView>
    decreases s,
{
    if s.len() == 0 {
        Seq::empty()
    } else {
        proof {
            broadcast use vstd::seq::axiom_seq_index_decreases;
            broadcast use vstd::seq::axiom_seq_subrange_decreases;
            assert(decreases_to!(s => s[s.len() - 1]));
            assert(decreases_to!(s => s.subrange(0, s.len() - 1)));
        }
        props_view(s.drop_last()).push(
            PropView { key: key_view(s.last().key), value: lit_view(s.last().value) },
        )
    }
}

impl View for JsLiteral {
    type V = LitView;

    open spec fn view(&self) -> LitView {
        lit_view(*self)
    }
}

impl View for JsProp {
    type V = PropView;

    open spec fn view(&self) -> PropView {
        PropView { key: key_view(self.key), value: lit_view(self.value) }
    }
}

/// The property names of a coverage data object and of the objects inside it.
pub const IDENT_ALL: &'static str = "all";
pub const IDENT_PATH: &'static str = "path";
pub const IDENT_STATEMENT_MAP: &'static str = "statementMap";
pub const IDENT_FN_MAP: &'static str = "fnMap";
pub const IDENT_BRANCH_MAP: &'static str = "branchMap";
pub const IDENT_S: &'static str = "s";
pub const IDENT_F: &'static str = "f";
pub const IDENT_B: &'static str = "b";
pub const IDENT_BT: &'static str = "bT";
pub const IDENT_INPUT_SOURCE_MAP: &'static str = "inputSourceMap";
pub const IDENT_COVERAGE_MAGIC_KEY: &'static str = "_coverageSchema";
pub const IDENT_HASH: &'static str = "hash";
pub const IDENT_START: &'static str = "start";
pub const IDENT_END: &'static str = "end";
pub const IDENT_LINE: &'static str = "line";
pub const IDENT_COLUMN: &'static str = "column";
pub const IDENT_NAME: &'static str = "name";
pub const IDENT_DECL: &'static str = "decl";
pub const IDENT_LOC: &'static str = "loc";
pub const IDENT_TYPE: &'static str = "type";
pub const IDENT_LOCATIONS: &'static str = "locations";
pub const IDENT_VERSION: &'static str = "version";
pub const IDENT_FILE: &'static str = "file";
pub const IDENT_SOURCE_ROOT: &'static str = "sourceRoot";
pub const IDENT_SOURCES: &'static str = "sources";
pub const IDENT_SOURCES_CONTENT: &'static str = "sourcesContent";
pub const IDENT_NAMES: &'static str = "names";
pub const IDENT_MAPPINGS: &'static str = "mappings";

/// A property keyed by a bare identifier.
pub open spec fn ident_prop(key: Seq<char>, value: LitView) -> PropView {
    PropView { key: KeyView::Ident(key), value }
}

/// A property keyed by a string literal.
pub open spec fn str_prop(key: Seq<char>, value: LitView) -> PropView {
    PropView { key: KeyView::Str(key), value }
}

/// `{ line, column }`.
pub open spec fn location_object(line: u32, column: u32) -> LitView {
    LitView::Object(
        seq![ident_prop(IDENT_LINE@, LitView::Num(line)), ident_prop(IDENT_COLUMN@, LitView::Num(column))],
    )
}

/// The properties `start: { line, column }, end: { line, column }` of a range.
pub open spec fn range_props(r: Range) -> Seq<PropView> {
    seq![
        ident_prop(IDENT_START@, location_object(r.start.line, r.start.column)),
        ident_prop(IDENT_END@, location_object(r.end.line, r.end.column)),
    ]
}

/// A range as an object literal.
pub open spec fn range_object(r: Range) -> LitView {
    LitView::Object(range_props(r))
}

/// `{ name, decl, loc, line }` of a function.
pub open spec fn function_object(f: FunctionView) -> LitView {
    LitView::Object(
        seq![
            ident_prop(IDENT_NAME@, LitView::RawStr(f.name)),
            ident_prop(IDENT_DECL@, range_object(f.decl)),
            ident_prop(IDENT_LOC@, range_object(f.loc)),
            ident_prop(IDENT_LINE@, LitView::Num(f.line)),
        ],
    )
}

/// An array of hit counts.
pub open spec fn counts_array(v: Seq<u32>) -> LitView {
    LitView::Array(v.map_values(|n: u32| LitView::Num(n)))
}

/// A branch as an object literal: `loc` when it has one, `type`, `locations` when
/// there is at least one, and `line` when it has one.
pub open spec fn branch_object(b: BranchView) -> LitView {
    let loc_part: Seq<PropView> = match b.loc {
        Some(l) => seq![ident_prop(IDENT_LOC@, range_object(l))],
        None => Seq::empty(),
    };
    let type_part = seq![ident_prop(IDENT_TYPE@, LitView::RawStr(branch_type_name(b.branch_type)))];
    let locations_part: Seq<PropView> = if b.locations.len() > 0 {
        seq![ident_prop(IDENT_LOCATIONS@, LitView::Array(b.locations.map_values(|r: Range| range_object(r))))]
    } else {
        Seq::empty()
    };
    let line_part: Seq<PropView> = match b.line {
        Some(n) => seq![ident_prop(IDENT_LINE@, LitView::Num(n))],
        None => Seq::empty(),
    };
    LitView::Object(loc_part + type_part + locations_part + line_part)
}

/// Statement locations keyed by the decimal statement id.
pub open spec fn statement_map_props(e: Seq<(u32, Range)>) -> Seq<PropView> {
    e.map_values(|x: (u32, Range)| str_prop(decimal(x.0 as nat), range_object(x.1)))
}

/// Function metadata keyed by the decimal function id.
pub open spec fn fn_map_props(e: Seq<(u32, FunctionView)>) -> Seq<PropView> {
    e.map_values(|x: (u32, FunctionView)| str_prop(decimal(x.0 as nat), function_object(x.1)))
}

/// Branch metadata keyed by the decimal branch id.
pub open spec fn branch_map_props(e: Seq<(u32, BranchView)>) -> Seq<PropView> {
    e.map_values(|x: (u32, BranchView)| str_prop(decimal(x.0 as nat), branch_object(x.1)))
}

/// Hit counts keyed by the decimal id.
pub open spec fn hit_props(e: Seq<(u32, u32)>) -> Seq<PropView> {
    e.map_values(|x: (u32, u32)| str_prop(decimal(x.0 as nat), LitView::Num(x.1)))
}

/// Per-path hit counts keyed by the decimal branch id.
pub open spec fn branch_hit_props(e: Seq<(u32, Seq<u32>)>) -> Seq<PropView> {
    e.map_values(|x: (u32, Seq<u32>)| str_prop(decimal(x.0 as nat), counts_array(x.1)))
}

/// An array of strings.
pub open spec fn str_array(v: Seq<Seq<char>>) -> LitView {
    LitView::Array(v.map_values(|t: Seq<char>| LitView::Str(t)))
}

/// A string, or `null` for none.
pub open spec fn str_or_null(t: Option<Seq<char>>) -> LitView {
    match t {
        Some(x) => LitView::Str(x),
        None => LitView::Null,
    }
}

/// A source map as an object literal: `version`, `file` and `sourceRoot` when set,
/// `sources`, `sourcesContent` when set, `names` and `mappings`.
pub open spec fn source_map_object(m: SourceMapView) -> LitView {
    let file_part: Seq<PropView> = match m.file {
        Some(t) => seq![ident_prop(IDENT_FILE@, LitView::Str(t))],
        None => Seq::empty(),
    };
    let root_part: Seq<PropView> = match m.source_root {
        Some(t) => seq![ident_prop(IDENT_SOURCE_ROOT@, LitView::Str(t))],
        None => Seq::empty(),
    };
    let content_part: Seq<PropView> = match m.sources_content {
        Some(c) => seq![
            ident_prop(
                IDENT_SOURCES_CONTENT@,
                LitView::Array(c.map_values(|t: Option<Seq<char>>| str_or_null(t))),
            ),
        ],
        None => Seq::empty(),
    };
    LitView::Object(
        seq![ident_prop(IDENT_VERSION@, LitView::Num(m.version))] + file_part + root_part + seq![
            ident_prop(IDENT_SOURCES@, str_array(m.sources)),
        ] + content_part + seq![
            ident_prop(IDENT_NAMES@, str_array(m.names)),
            ident_prop(IDENT_MAPPINGS@, LitView::Str(m.mappings)),
        ],
    )
}

/// The coverage data object of a file: `all`, `path`, the three maps, the `s`,
/// `f` and `b` counters, `bT` when logic is reported, `inputSourceMap` when there
/// is one, then the schema marker and the hash.
pub open spec fn coverage_object(c: FileCoverageView, schema: Seq<char>, hash: Seq<char>) -> LitView {
    let bt_part: Seq<PropView> = match c.b_t {
        Some(t) => seq![ident_prop(IDENT_BT@, LitView::Object(branch_hit_props(t)))],
        None => Seq::empty(),
    };
    let source_map_part: Seq<PropView> = match c.input_source_map {
        Some(m) => seq![ident_prop(IDENT_INPUT_SOURCE_MAP@, source_map_object(m))],
        None => Seq::empty(),
    };
    LitView::Object(
        seq![
            ident_prop(IDENT_ALL@, LitView::Bool(c.all)),
            ident_prop(IDENT_PATH@, LitView::Str(c.path)),
            ident_prop(IDENT_STATEMENT_MAP@, LitView::Object(statement_map_props(c.statement_map))),
            ident_prop(IDENT_FN_MAP@, LitView::Object(fn_map_props(c.fn_map))),
            ident_prop(IDENT_BRANCH_MAP@, LitView::Object(branch_map_props(c.branch_map))),
            ident_prop(IDENT_S@, LitView::Object(hit_props(c.s))),
            ident_prop(IDENT_F@, LitView::Object(hit_props(c.f))),
            ident_prop(IDENT_B@, LitView::Object(branch_hit_props(c.b))),
        ] + bt_part + source_map_part + seq![
            ident_prop(IDENT_COVERAGE_MAGIC_KEY@, LitView::RawStr(schema)),
            ident_prop(IDENT_HASH@, LitView::RawStr(hash)),
        ],
    )
}

/// The keys of a property list are pairwise distinct.
pub open spec fn distinct_keys(props: Seq<PropView>) -> bool {
    forall|i: int, j: int|
        0 <= i < props.len() && 0 <= j < props.len() && i != j ==> props[i].key != props[j].key
}

/// Properties keyed by the decimal ids of entries with unique ids have distinct keys.
proof fn lemma_decimal_keys_distinct<V>(e: Seq<(u32, V)>, props: Seq<PropView>)
    requires
        unique_keys(e),
        props.len() == e.len(),
        forall|i: int| 0 <= i < e.len() ==> #[trigger] props[i].key == KeyView::Str(decimal(e[i].0 as nat)),
    ensures
        distinct_keys(props),
{
    assert forall|i: int, j: int|
        0 <= i < props.len() && 0 <= j < props.len() && i != j implies props[i].key != props[j].key by {
        if props[i].key == props[j].key {
            lemma_decimal_injective(e[i].0 as nat, e[j].0 as nat);
        }
    }
}

/// In the coverage object of well-formed coverage, every object keyed by ids has
/// one property per entry, and no two of them share a key: no location or count is
/// shadowed by another with the same key.
pub proof fn lemma_coverage_object_keys_distinct(c: FileCoverageView)
    requires
        c.wf(),
    ensures
        statement_map_props(c.statement_map).len() == c.statement_map.len(),
        distinct_keys(statement_map_props(c.statement_map)),
        fn_map_props(c.fn_map).len() == c.fn_map.len(),
        distinct_keys(fn_map_props(c.fn_map)),
        branch_map_props(c.branch_map).len() == c.branch_map.len(),
        distinct_keys(branch_map_props(c.branch_map)),
        hit_props(c.s).len() == c.s.len(),
        distinct_keys(hit_props(c.s)),
        hit_props(c.f).len() == c.f.len(),
        distinct_keys(hit_props(c.f)),
        branch_hit_props(c.b).len() == c.b.len(),
        distinct_keys(branch_hit_props(c.b)),
        c.b_t matches Some(t) ==> branch_hit_props(t).len() == t.len() && distinct_keys(
            branch_hit_props(t),
        ),
{
    lemma_decimal_keys_distinct(c.statement_map, statement_map_props(c.statement_map));
    lemma_decimal_keys_distinct(c.fn_map, fn_map_props(c.fn_map));
    lemma_decimal_keys_distinct(c.branch_map, branch_map_props(c.branch_map));
    lemma_decimal_keys_distinct(c.s, hit_props(c.s));
    lemma_decimal_keys_distinct(c.f, hit_props(c.f));
    lemma_decimal_keys_distinct(c.b, branch_hit_props(c.b));
    if let Some(t) = c.b_t {
        lemma_decimal_keys_distinct(t, branch_hit_props(t));
    }
}

/// A string literal `"value"`, written as is.
pub fn create_str_lit_expr(value: &str) -> (r: JsLiteral)
    ensures
        r@ == LitView::RawStr(value@),
{
    JsLiteral::RawStr(value.to_string())
}

/// A number literal.
pub fn create_num_lit_expr(value: u32) -> (r: JsLiteral)
    ensures
        r@ == LitView::Num(value),
{
    JsLiteral::Num(value)
}

/// The property `key: value` with `key` as a bare identifier.
pub fn create_ident_key_value_prop(key: &str, value: JsLiteral) -> (r: JsProp)
    ensures
        r@ == ident_prop(key@, value@),
{
    JsProp { key: PropKey::Ident(key.to_string()), value }
}

/// The property `"key": value` with `key` as a string literal.
pub fn create_str_key_value_prop(key: &str, value: JsLiteral) -> (r: JsProp)
    ensures
        r@ == str_prop(key@, value@),
{
    JsProp { key: PropKey::Str(key.to_string()), value }
}

/// Adds a property at the end of a property list.
fn push_prop(props: &mut Vec<JsProp>, p: JsProp)
    ensures
        props_view(final(props)@) == props_view(old(props)@).push(p@),
{
    let ghost before = props@;
    props.push(p);
    assert(props@.drop_last() =~= before);
}

/// Adds an element at the end of an array.
fn push_lit(items: &mut Vec<JsLiteral>, v: JsLiteral)
    ensures
        lits_view(final(items)@) == lits_view(old(items)@).push(v@),
{
    let ghost before = items@;
    items.push(v);
    assert(items@.drop_last() =~= before);
}

fn location_object_lit(line: u32, column: u32) -> (r: JsLiteral)
    ensures
        r@ == location_object(line, column),
{
    let mut props: Vec<JsProp> = Vec::new();
    push_prop(&mut props, create_ident_key_value_prop(IDENT_LINE, create_num_lit_expr(line)));
    push_prop(&mut props, create_ident_key_value_prop(IDENT_COLUMN, create_num_lit_expr(column)));
    assert(props_view(props@) =~= seq![ident_prop(IDENT_LINE@, LitView::Num(line)), ident_prop(IDENT_COLUMN@, LitView::Num(column))]);
    JsLiteral::Object(props)
}

/// The properties `start: { line, column }, end: { line, column }` of a range.
pub fn create_range_object_prop(value: &Range) -> (r: Vec<JsProp>)
    ensures
        props_view(r@) == range_props(*value),
{
    let mut props: Vec<JsProp> = Vec::new();
    push_prop(&mut props, create_ident_key_value_prop(IDENT_START, location_object_lit(value.start.line, value.start.column)));
    push_prop(&mut props, create_ident_key_value_prop(IDENT_END, location_object_lit(value.end.line, value.end.column)));
    assert(props_view(props@) =~= range_props(*value));
    props
}

/// A range as an object literal.
pub fn create_range_object_lit(value: &Range) -> (r: JsLiteral)
    ensures
        r@ == range_object(*value),
{
    JsLiteral::Object(create_range_object_prop(value))
}

/// `"key": { name, decl, loc, line }` for a function.
pub fn create_fn_prop(key: &str, value: &Function) -> (r: JsProp)
    ensures
        r@ == str_prop(key@, function_object(value@)),
{
    let mut props: Vec<JsProp> = Vec::new();
    push_prop(&mut props, create_ident_key_value_prop(IDENT_NAME, create_str_lit_expr(value.name.as_str())));
    push_prop(&mut props, create_ident_key_value_prop(IDENT_DECL, create_range_object_lit(&value.decl)));
    push_prop(&mut props, create_ident_key_value_prop(IDENT_LOC, create_range_object_lit(&value.loc)));
    push_prop(&mut props, create_ident_key_value_prop(IDENT_LINE, create_num_lit_expr(value.line)));
    assert(props_view(props@) =~= seq![
        ident_prop(IDENT_NAME@, LitView::RawStr(value@.name)),
        ident_prop(IDENT_DECL@, range_object(value.decl)),
        ident_prop(IDENT_LOC@, range_object(value.loc)),
        ident_prop(IDENT_LINE@, LitView::Num(value.line)),
    ]);
    create_str_key_value_prop(key, JsLiteral::Object(props))
}

/// An array literal of hit counts.
pub fn create_branch_vec_prop(value: &Vec<u32>) -> (r: JsLiteral)
    ensures
        r@ == counts_array(value@),
{
    let mut items: Vec<JsLiteral> = Vec::new();
    let mut i: usize = 0;
    while i < value.len()
        invariant
            i <= value.len(),
            lits_view(items@) == value@.take(i as int).map_values(|n: u32| LitView::Num(n)),
        decreases value.len() - i,
    {
        push_lit(&mut items, create_num_lit_expr(value[i]));
        i = i + 1;
        assert(value@.take(i as int).map_values(|n: u32| LitView::Num(n)) =~= value@.take(
            (i - 1) as int,
        ).map_values(|n: u32| LitView::Num(n)).push(LitView::Num(value@[i - 1])));
    }
    assert(value@.take(i as int) =~= value@);
    JsLiteral::Array(items)
}

/// An array literal of range objects.
fn create_locations_lit(locations: &Vec<Range>) -> (r: JsLiteral)
    ensures
        r@ == LitView::Array(locations@.map_values(|r: Range| range_object(r))),
{
    let mut items: Vec<JsLiteral> = Vec::new();
    let mut i: usize = 0;
    while i < locations.len()
        invariant
            i <= locations.len(),
            lits_view(items@) == locations@.take(i as int).map_values(|r: Range| range_object(r)),
        decreases locations.len() - i,
    {
        push_lit(&mut items, create_range_object_lit(&locations[i]));
        i = i + 1;
        assert(locations@.take(i as int).map_values(|r: Range| range_object(r)) =~= locations@.take(
            (i - 1) as int,
        ).map_values(|r: Range| range_object(r)).push(range_object(locations@[i - 1])));
    }
    assert(locations@.take(i as int) =~= locations@);
    JsLiteral::Array(items)
}

/// `"key": { loc, type, locations, line }` for a branch, each of `loc`,
/// `locations` and `line` only when present.
pub fn create_branch_prop(key: &str, value: &Branch) -> (r: JsProp)
    ensures
        r@ == str_prop(key@, branch_object(value@)),
{
    let mut props: Vec<JsProp> = Vec::new();
    let ghost v = value@;
    if let Some(loc) = value.loc {
        push_prop(&mut props, create_ident_key_value_prop(IDENT_LOC, create_range_object_lit(&loc)));
    }
    let ghost loc_part = props_view(props@);
    let name = value.branch_type.to_string();
    push_prop(&mut props, create_ident_key_value_prop(IDENT_TYPE, create_str_lit_expr(name.as_str())));
    let ghost with_type = props_view(props@);
    if value.locations.len() > 0 {
        push_prop(&mut props, create_ident_key_value_prop(IDENT_LOCATIONS, create_locations_lit(&value.locations)));
    }
    let ghost with_locations = props_view(props@);
    if let Some(line) = value.line {
        push_prop(&mut props, create_ident_key_value_prop(IDENT_LINE, create_num_lit_expr(line)));
    }
    proof {
        let lp: Seq<PropView> = match v.loc {
            Some(l) => seq![ident_prop(IDENT_LOC@, range_object(l))],
            None => Seq::empty(),
        };
        let tp = seq![ident_prop(IDENT_TYPE@, LitView::RawStr(branch_type_name(v.branch_type)))];
        let locp: Seq<PropView> = if v.locations.len() > 0 {
            seq![ident_prop(IDENT_LOCATIONS@, LitView::Array(v.locations.map_values(|r: Range| range_object(r))))]
        } else {
            Seq::empty()
        };
        let linep: Seq<PropView> = match v.line {
            Some(n) => seq![ident_prop(IDENT_LINE@, LitView::Num(n))],
            None => Seq::empty(),
        };
        assert(loc_part =~= lp);
        assert(with_type =~= lp + tp);
        assert(with_locations =~= lp + tp + locp);
        assert(props_view(props@) =~= lp + tp + locp + linep);
    }
    create_str_key_value_prop(key, JsLiteral::Object(props))
}

/// Statement locations keyed by the decimal statement id, as an object literal.
fn statement_map_lit(m: &StatementMap) -> (r: JsLiteral)
    ensures
        r@ == LitView::Object(statement_map_props(statement_entries(*m))),
{
    let ghost e = statement_entries(*m);
    let n = statement_map_len(m);
    let mut props: Vec<JsProp> = Vec::new();
    let mut i: usize = 0;
    while i < n
        invariant
            i <= n,
            n == e.len(),
            e == statement_entries(*m),
            props_view(props@) == statement_map_props(e.take(i as int)),
        decreases n - i,
    {
        if let Some((k, v)) = statement_map_get_index(m, i) {
            let key = decimal_string(*k as u64);
            push_prop(&mut props, create_str_key_value_prop(key.as_str(), create_range_object_lit(v)));
        }
        i = i + 1;
        assert(statement_map_props(e.take(i as int)) =~= statement_map_props(e.take((i - 1) as int)).push(
            str_prop(decimal(e[i - 1].0 as nat), range_object(e[i - 1].1)),
        ));
    }
    assert(e.take(i as int) =~= e);
    JsLiteral::Object(props)
}

/// Function metadata keyed by the decimal function id, as an object literal.
fn fn_map_lit(m: &FunctionMap) -> (r: JsLiteral)
    ensures
        r@ == LitView::Object(fn_map_props(function_entries(*m))),
{
    let ghost e = function_entries(*m);
    let n = function_map_len(m);
    let mut props: Vec<JsProp> = Vec::new();
    let mut i: usize = 0;
    while i < n
        invariant
            i <= n,
            n == e.len(),
            e == function_entries(*m),
            props_view(props@) == fn_map_props(e.take(i as int)),
        decreases n - i,
    {
        if let Some((k, v)) = function_map_get_index(m, i) {
            let key = decimal_string(*k as u64);
            push_prop(&mut props, create_fn_prop(key.as_str(), v));
        }
        i = i + 1;
        assert(fn_map_props(e.take(i as int)) =~= fn_map_props(e.take((i - 1) as int)).push(
            str_prop(decimal(e[i - 1].0 as nat), function_object(e[i - 1].1)),
        ));
    }
    assert(e.take(i as int) =~= e);
    JsLiteral::Object(props)
}

/// Branch metadata keyed by the decimal branch id, as an object literal.
fn branch_map_lit(m: &BranchMap) -> (r: JsLiteral)
    ensures
        r@ == LitView::Object(branch_map_props(branch_entries(*m))),
{
    let ghost e = branch_entries(*m);
    let n = branch_map_len(m);
    let mut props: Vec<JsProp> = Vec::new();
    let mut i: usize = 0;
    while i < n
        invariant
            i <= n,
            n == e.len(),
            e == branch_entries(*m),
            props_view(props@) == branch_map_props(e.take(i as int)),
        decreases n - i,
    {
        if let Some((k, v)) = branch_map_get_index(m, i) {
            let key = decimal_string(*k as u64);
            push_prop(&mut props, create_branch_prop(key.as_str(), v));
        }
        i = i + 1;
        assert(branch_map_props(e.take(i as int)) =~= branch_map_props(e.take((i - 1) as int)).push(
            str_prop(decimal(e[i - 1].0 as nat), branch_object(e[i - 1].1)),
        ));
    }
    assert(e.take(i as int) =~= e);
    JsLiteral::Object(props)
}

/// Hit counts keyed by the decimal id, as an object literal.
fn hit_map_lit(m: &LineHitMap) -> (r: JsLiteral)
    ensures
        r@ == LitView::Object(hit_props(hit_entries(*m))),
{
    let ghost e = hit_entries(*m);
    let n = hit_map_len(m);
    let mut props: Vec<JsProp> = Vec::new();
    let mut i: usize = 0;
    while i < n
        invariant
            i <= n,
            n == e.len(),
            e == hit_entries(*m),
            props_view(props@) == hit_props(e.take(i as int)),
        decreases n - i,
    {
        if let Some((k, v)) = hit_map_get_index(m, i) {
            let key = decimal_string(*k as u64);
            push_prop(&mut props, create_str_key_value_prop(key.as_str(), create_num_lit_expr(*v)));
        }
        i = i + 1;
        assert(hit_props(e.take(i as int)) =~= hit_props(e.take((i - 1) as int)).push(
            str_prop(decimal(e[i - 1].0 as nat), LitView::Num(e[i - 1].1)),
        ));
    }
    assert(e.take(i as int) =~= e);
    JsLiteral::Object(props)
}

/// Per-path hit counts keyed by the decimal branch id, as an object literal.
fn branch_hit_map_lit(m: &BranchHitMap) -> (r: JsLiteral)
    ensures
        r@ == LitView::Object(branch_hit_props(branch_hit_entries(*m))),
{
    let ghost e = branch_hit_entries(*m);
    let n = branch_hit_map_len(m);
    let mut props: Vec<JsProp> = Vec::new();
    let mut i: usize = 0;
    while i < n
        invariant
            i <= n,
            n == e.len(),
            e == branch_hit_entries(*m),
            props_view(props@) == branch_hit_props(e.take(i as int)),
        decreases n - i,
    {
        if let Some((k, v)) = branch_hit_map_get_index(m, i) {
            let key = decimal_string(*k as u64);
            push_prop(&mut props, create_str_key_value_prop(key.as_str(), create_branch_vec_prop(v)));
        }
        i = i + 1;
        assert(branch_hit_props(e.take(i as int)) =~= branch_hit_props(e.take((i - 1) as int)).push(
            str_prop(decimal(e[i - 1].0 as nat), counts_array(e[i - 1].1)),
        ));
    }
    assert(e.take(i as int) =~= e);
    JsLiteral::Object(props)
}

/// An array literal of strings.
fn create_str_array(v: &Vec<String>) -> (r: JsLiteral)
    ensures
        r@ == str_array(texts(v@)),
{
    let ghost e = texts(v@);
    let mut items: Vec<JsLiteral> = Vec::new();
    let mut i: usize = 0;
    while i < v.len()
        invariant
            i <= v.len(),
            e == texts(v@),
            lits_view(items@) == e.take(i as int).map_values(|t: Seq<char>| LitView::Str(t)),
        decreases v.len() - i,
    {
        push_lit(&mut items, JsLiteral::Str(v[i].clone()));
        i = i + 1;
        assert(e.take(i as int).map_values(|t: Seq<char>| LitView::Str(t)) =~= e.take(
            (i - 1) as int,
        ).map_values(|t: Seq<char>| LitView::Str(t)).push(LitView::Str(e[i - 1])));
    }
    assert(e.take(i as int) =~= e);
    JsLiteral::Array(items)
}

/// An array literal of strings and `null`s.
fn create_str_or_null_array(v: &Vec<Option<String>>) -> (r: JsLiteral)
    ensures
        r@ == LitView::Array(opt_texts(v@).map_values(|t: Option<Seq<char>>| str_or_null(t))),
{
    let ghost e = opt_texts(v@);
    let mut items: Vec<JsLiteral> = Vec::new();
    let mut i: usize = 0;
    while i < v.len()
        invariant
            i <= v.len(),
            e == opt_texts(v@),
            lits_view(items@) == e.take(i as int).map_values(|t: Option<Seq<char>>| str_or_null(t)),
        decreases v.len() - i,
    {
        let item = match &v[i] {
            Some(t) => JsLiteral::Str(t.clone()),
            None => JsLiteral::Null,
        };
        push_lit(&mut items, item);
        i = i + 1;
        assert(e.take(i as int).map_values(|t: Option<Seq<char>>| str_or_null(t)) =~= e.take(
            (i - 1) as int,
        ).map_values(|t: Option<Seq<char>>| str_or_null(t)).push(str_or_null(e[i - 1])));
    }
    assert(e.take(i as int) =~= e);
    JsLiteral::Array(items)
}

/// A source map as an object literal.
pub fn create_source_map_object(m: &SourceMap) -> (r: JsLiteral)
    ensures
        r@ == source_map_object(m@),
{
    let ghost mv = m@;
    let mut props: Vec<JsProp> = Vec::new();
    push_prop(&mut props, create_ident_key_value_prop(IDENT_VERSION, create_num_lit_expr(m.version)));
    let ghost p0 = props_view(props@);
    if let Some(file) = &m.file {
        push_prop(&mut props, create_ident_key_value_prop(IDENT_FILE, JsLiteral::Str(file.clone())));
    }
    let ghost p1 = props_view(props@);
    if let Some(root) = &m.source_root {
        push_prop(&mut props, create_ident_key_value_prop(IDENT_SOURCE_ROOT, JsLiteral::Str(root.clone())));
    }
    let ghost p2 = props_view(props@);
    push_prop(&mut props, create_ident_key_value_prop(IDENT_SOURCES, create_str_array(&m.sources)));
    let ghost p3 = props_view(props@);
    if let Some(content) = &m.sources_content {
        push_prop(&mut props, create_ident_key_value_prop(IDENT_SOURCES_CONTENT, create_str_or_null_array(content)));
    }
    let ghost p4 = props_view(props@);
    push_prop(&mut props, create_ident_key_value_prop(IDENT_NAMES, create_str_array(&m.names)));
    push_prop(&mut props, create_ident_key_value_prop(IDENT_MAPPINGS, JsLiteral::Str(m.mappings.clone())));
    proof {
        let file_part: Seq<PropView> = match mv.file {
            Some(t) => seq![ident_prop(IDENT_FILE@, LitView::Str(t))],
            None => Seq::empty(),
        };
        let root_part: Seq<PropView> = match mv.source_root {
            Some(t) => seq![ident_prop(IDENT_SOURCE_ROOT@, LitView::Str(t))],
            None => Seq::empty(),
        };
        let content_part: Seq<PropView> = match mv.sources_content {
            Some(c) => seq![
                ident_prop(
                    IDENT_SOURCES_CONTENT@,
                    LitView::Array(c.map_values(|t: Option<Seq<char>>| str_or_null(t))),
                ),
            ],
            None => Seq::empty(),
        };
        let head = seq![ident_prop(IDENT_VERSION@, LitView::Num(mv.version))];
        let sources = seq![ident_prop(IDENT_SOURCES@, str_array(mv.sources))];
        let tail = seq![
            ident_prop(IDENT_NAMES@, str_array(mv.names)),
            ident_prop(IDENT_MAPPINGS@, LitView::Str(mv.mappings)),
        ];
        assert(p0 =~= head);
        assert(p1 =~= head + file_part);
        assert(p2 =~= head + file_part + root_part);
        assert(p3 =~= head + file_part + root_part + sources);
        assert(p4 =~= head + file_part + root_part + sources + content_part);
        assert(props_view(props@) =~= head + file_part + root_part + sources + content_part + tail);
    }
    JsLiteral::Object(props)
}

/// The coverage data object of a file, and its hash as a decimal string.
///
/// `coverage_schema` is the value stored under the schema marker key, and `hash`
/// the hash of the serialized coverage; the object ends with both.
pub fn create_coverage_data_object(coverage_data: &FileCoverage, coverage_schema: &str, hash: u64) -> (r: (
    String,
    JsLiteral,
))
    ensures
        r.0@ == decimal(hash as nat),
        r.1@ == coverage_object(coverage_data@, coverage_schema@, decimal(hash as nat)),
{
    let ghost c = coverage_data@;
    let mut props: Vec<JsProp> = Vec::new();
    push_prop(&mut props, create_ident_key_value_prop(IDENT_ALL, JsLiteral::Bool(coverage_data.all)));
    push_prop(&mut props, create_ident_key_value_prop(IDENT_PATH, JsLiteral::Str(coverage_data.path.clone())));
    push_prop(&mut props, create_ident_key_value_prop(IDENT_STATEMENT_MAP, statement_map_lit(&coverage_data.statement_map)));
    push_prop(&mut props, create_ident_key_value_prop(IDENT_FN_MAP, fn_map_lit(&coverage_data.fn_map)));
    push_prop(&mut props, create_ident_key_value_prop(IDENT_BRANCH_MAP, branch_map_lit(&coverage_data.branch_map)));
    push_prop(&mut props, create_ident_key_value_prop(IDENT_S, hit_map_lit(&coverage_data.s)));
    push_prop(&mut props, create_ident_key_value_prop(IDENT_F, hit_map_lit(&coverage_data.f)));
    push_prop(&mut props, create_ident_key_value_prop(IDENT_B, branch_hit_map_lit(&coverage_data.b)));
    let ghost p0 = props_view(props@);
    if let Some(b_t) = &coverage_data.b_t {
        push_prop(&mut props, create_ident_key_value_prop(IDENT_BT, branch_hit_map_lit(b_t)));
    }
    let ghost p1 = props_view(props@);
    if let Some(input_source_map) = &coverage_data.input_source_map {
        push_prop(&mut props, create_ident_key_value_prop(IDENT_INPUT_SOURCE_MAP, create_source_map_object(input_source_map)));
    }
    let ghost p2 = props_view(props@);
    push_prop(&mut props, create_ident_key_value_prop(IDENT_COVERAGE_MAGIC_KEY, create_str_lit_expr(coverage_schema)));
    let hash_text = decimal_string(hash);
    push_prop(&mut props, create_ident_key_value_prop(IDENT_HASH, create_str_lit_expr(hash_text.as_str())));
    proof {
        let head = seq![
            ident_prop(IDENT_ALL@, LitView::Bool(c.all)),
            ident_prop(IDENT_PATH@, LitView::Str(c.path)),
            ident_prop(IDENT_STATEMENT_MAP@, LitView::Object(statement_map_props(c.statement_map))),
            ident_prop(IDENT_FN_MAP@, LitView::Object(fn_map_props(c.fn_map))),
            ident_prop(IDENT_BRANCH_MAP@, LitView::Object(branch_map_props(c.branch_map))),
            ident_prop(IDENT_S@, LitView::Object(hit_props(c.s))),
            ident_prop(IDENT_F@, LitView::Object(hit_props(c.f))),
            ident_prop(IDENT_B@, LitView::Object(branch_hit_props(c.b))),
        ];
        let bt_part: Seq<PropView> = match c.b_t {
            Some(t) => seq![ident_prop(IDENT_BT@, LitView::Object(branch_hit_props(t)))],
            None => Seq::empty(),
        };
        let source_map_part: Seq<PropView> = match c.input_source_map {
            Some(m) => seq![ident_prop(IDENT_INPUT_SOURCE_MAP@, source_map_object(m))],
            None => Seq::empty(),
        };
        let tail = seq![
            ident_prop(IDENT_COVERAGE_MAGIC_KEY@, LitView::RawStr(coverage_schema@)),
            ident_prop(IDENT_HASH@, LitView::RawStr(decimal(hash as nat))),
        ];
        assert(p0 =~= head);
        assert(p1 =~= head + bt_part);
        assert(p2 =~= head + bt_part + source_map_part);
        assert(props_view(props@) =~= head + bt_part + source_map_part + tail);
    }
    (hash_text, JsLiteral::Object(props))
}

} // verus!
