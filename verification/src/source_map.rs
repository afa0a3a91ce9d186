use vstd::prelude::*;
use crate::text::texts;

verus! {

/// An input source map (version 3 format) attached to a coverage object.
#[derive(Clone, Debug)]
pub struct SourceMap {
    pub version: u32,
    pub file: Option<String>,
    pub source_root: Option<String>,
    pub sources: Vec<String>,
    pub sources_content: Option<Vec<Option<String>>>,
    pub names: Vec<String>,
    pub mappings: String,
}

/// The mathematical value of a [`SourceMap`]: its strings as character sequences.
pub struct SourceMapView {
    pub version: u32,
    pub file: Option<Seq<char>>,
    pub source_root: Option<Seq<char>>,
    pub sources: Seq<Seq<char>>,
    pub sources_content: Option<Seq<Option<Seq<char>>>>,
    pub names: Seq<Seq<char>>,
    pub mappings: Seq<char>,
}

/// The characters of an optional string.
pub open spec fn opt_text(s: Option<String>) -> Option<Seq<char>> {
    match s {
        Some(t) => Some(t@),
        None => None,
    }
}

/// The characters of each optional string of a list.
pub open spec fn opt_texts(v: Seq<Option<String>>) -> Seq<Option<Seq<char>>> {
    v.map_values(|s: Option<String>| opt_text(s))
}

impl View for SourceMap {
    type V = SourceMapView;

    open spec fn view(&self) -> SourceMapView {
        SourceMapView {
            version: self.version,
            file: opt_text(self.file),
            source_root: opt_text(self.source_root),
            sources: texts(self.sources@),
            sources_content: match self.sources_content {
                Some(c) => Some(opt_texts(c@)),
                None => None,
            },
            names: texts(self.names@),
            mappings: self.mappings@,
        }
    }
}

impl Default for SourceMap {
    /// A version 3 source map with no sources, names or mappings.
    fn default() -> (r: Self)
        ensures
            r@ == (SourceMapView {
                version: 3,
                file: None,
                source_root: None,
                sources: Seq::empty(),
                sources_content: None,
                names: Seq::empty(),
                mappings: Seq::empty(),
            }),
    {
        let r = SourceMap {
            version: 3,
            file: None,
            source_root: None,
            sources: Vec::new(),
            sources_content: None,
            names: Vec::new(),
            mappings: String::new(),
        };
        assert(texts(r.sources@) =~= Seq::<Seq<char>>::empty());
        assert(texts(r.names@) =~= Seq::<Seq<char>>::empty());
        r
    }
}

fn copy_opt_string(s: &Option<String>) -> (r: Option<String>)
    ensures
        opt_text(r) == opt_text(*s),
{
    match s {
        Some(t) => Some(t.clone()),
        None => None,
    }
}

fn copy_strings(v: &Vec<String>) -> (r: Vec<String>)
    ensures
        texts(r@) == texts(v@),
{
    let mut r: Vec<String> = Vec::new();
    let mut i: usize = 0;
    while i < v.len()
        invariant
            i <= v.len(),
            r@.len() == i,
            forall|j: int| 0 <= j < i ==> #[trigger] r@[j]@ == v@[j]@,
        decreases v.len() - i,
    {
        r.push(v[i].clone());
        i = i + 1;
    }
    assert(texts(r@) =~= texts(v@));
    r
}

fn copy_opt_strings(v: &Vec<Option<String>>) -> (r: Vec<Option<String>>)
    ensures
        opt_texts(r@) == opt_texts(v@),
{
    let mut r: Vec<Option<String>> = Vec::new();
    let mut i: usize = 0;
    while i < v.len()
        invariant
            i <= v.len(),
            r@.len() == i,
            forall|j: int| 0 <= j < i ==> opt_text(#[trigger] r@[j]) == opt_text(v@[j]),
        decreases v.len() - i,
    {
        r.push(copy_opt_string(&v[i]));
        i = i + 1;
    }
    assert(opt_texts(r@) =~= opt_texts(v@));
    r
}

/// A copy of a source map, with the same value.
pub fn copy_source_map(m: &SourceMap) -> (r: SourceMap)
    ensures
        r@ == m@,
{
    SourceMap {
        version: m.version,
        file: copy_opt_string(&m.file),
        source_root: copy_opt_string(&m.source_root),
        sources: copy_strings(&m.sources),
        sources_content: match &m.sources_content {
            Some(c) => Some(copy_opt_strings(c)),
            None => None,
        },
        names: copy_strings(&m.names),
        mappings: m.mappings.clone(),
    }
}

} // verus!
