//! File-path normalisation and the exclusion of files from instrumentation.
use vstd::prelude::*;

verus! {

/// Whether `typed_path` takes `path` for a Windows path (it starts with a
/// backslash or with a Windows prefix such as a drive letter).
pub uninterp spec fn derives_windows_path(path: Seq<char>) -> bool;

/// The path `path` re-encoded as a Unix path by `typed_path`.
pub uninterp spec fn unix_encoding(path: Seq<char>) -> Seq<char>;


/// `Utf8TypedPath::derive(path)`, told apart by variant: true for the Windows
/// variant. Claims only that the answer is a function of the path.
#[verifier::external_body]
fn typed_path_is_windows(path: &str) -> (r: bool)
    ensures
        r == derives_windows_path(path@),
{
    typed_path::Utf8TypedPath::derive(path).is_windows()
}

/// `Utf8TypedPath::with_unix_encoding` on `Utf8TypedPath::derive(path)`, as a
/// string. Claims only that the answer is a function of the path.
#[verifier::external_body]
fn typed_path_with_unix_encoding(path: &str) -> (r: String)
    ensures
        r@ == unix_encoding(path@),
{
    typed_path::Utf8TypedPath::derive(path).with_unix_encoding().to_string()
}

/// A character that `wax` reads as more than itself in a glob (or as an escape).
pub open spec fn glob_meta(c: char) -> bool {
    c == '?' || c == '*' || c == '$' || c == ':' || c == '<' || c == '>' || c == '(' || c == ')'
        || c == '[' || c == ']' || c == '{' || c == '}' || c == ',' || c == '\\'
}

/// A glob made of plain text and `/` separators only.
pub open spec fn plain_glob(p: Seq<char>) -> bool {
    forall|i: int| 0 <= i < p.len() ==> !glob_meta(#[trigger] p[i])
}

/// `wax::any(patterns)`, and when it builds, `Any::is_match(name)`; `None` when the
/// patterns do not build. How `wax` matches depends on the platform it is built
/// for (letter case, and whether a backslash separates path components), so the
/// answer is not named. What is claimed holds on every platform: `wax` compiles a
/// plain pattern (no meta-character, no backslash) to its text, escaped, with each
/// `/` matching a separator, and `any` to the anchored alternation of its patterns;
/// so when a plain pattern is the name itself, the name matches; and when there
/// are patterns, all plain, a name matches only a pattern of its own length in
/// characters (a separator matches one character, and case folding maps a
/// character to one character).
#[verifier::external_body]
fn wax_any_is_match(patterns: &Vec<String>, name: &str) -> (r: Option<bool>)
    ensures
        (exists|i: int|
            0 <= i < patterns.len() && plain_glob(#[trigger] patterns@[i]@) && patterns@[i]@ == name@)
            ==> r != Some(false),
        patterns.len() > 0 && (forall|i: int|
            0 <= i < patterns.len() ==> plain_glob(#[trigger] patterns@[i]@) && patterns@[i]@.len()
                != name@.len()) ==> r != Some(true),
{
    match wax::any(patterns.iter().map(|p| p.as_str())) {
        Ok(any) => Some(wax::Program::is_match(&any, name)),
        Err(_) => None,
    }
}

/// The path with every backslash replaced by a forward slash.
pub open spec fn forward_slashes(path: Seq<char>) -> Seq<char> {
    path.map_values(|c: char| if c == '\\' { '/' } else { c })
}

/// A path normalised for glob matching: a Windows path is re-encoded as a Unix
/// path, any other path has its backslashes turned into forward slashes.
pub open spec fn normalized_path(path: Seq<char>) -> Seq<char> {
    if derives_windows_path(path) {
        unix_encoding(path)
    } else if path.contains('\\') {
        forward_slashes(path)
    } else {
        path
    }
}

fn contains_backslash(path: &str) -> (r: bool)
    ensures
        r == path@.contains('\\'),
{
    let n = path.unicode_len();
    let mut i: usize = 0;
    while i < n
        invariant
            n == path@.len(),
            i <= n,
            forall|j: int| 0 <= j < i ==> path@[j] != '\\',
        decreases n - i,
    {
        if path.get_char(i) == '\\' {
            return true;
        }
        i = i + 1;
    }
    false
}

fn replace_backslashes(path: &str) -> (r: String)
    ensures
        r@ == forward_slashes(path@),
{
    let n = path.unicode_len();
    let mut out = String::new();
    let slash = "/";
    proof {
        reveal_strlit("/");
    }
    let mut i: usize = 0;
    while i < n
        invariant
            n == path@.len(),
            i <= n,
            slash@ == seq!['/'],
            out@ == forward_slashes(path@.take(i as int)),
        decreases n - i,
    {
        if path.get_char(i) == '\\' {
            out.append(slash);
        } else {
            out.append(path.substring_char(i, i + 1));
        }
        proof {
            assert(path@.subrange(i as int, i + 1) =~= seq![path@[i as int]]);
        }
        i = i + 1;
        assert(out@ =~= forward_slashes(path@.take(i as int)));
    }
    assert(path@.take(n as int) =~= path@);
    out
}

/// Normalises a file path for consistent glob matching: see [`normalized_path`].
pub fn normalize_path(path: &str) -> (r: String)
    ensures
        r@ == normalized_path(path@),
{
    if typed_path_is_windows(path) {
        typed_path_with_unix_encoding(path)
    } else if contains_backslash(path) {
        replace_backslashes(path)
    } else {
        String::from_str(path)
    }
}

/// The exclusion patterns and the file name as they are handed to the glob
/// matcher: each normalised (see [`normalized_path`]); `None` when there are no
/// patterns.
pub fn exclusion_inputs(exclude: &Option<Vec<String>>, filename: &str) -> (r: Option<(Vec<String>, String)>)
    ensures
        match *exclude {
            None => r is None,
            Some(v) => r matches Some(p) && p.0@.map_values(|s: String| s@) == v@.map_values(
                |s: String| normalized_path(s@),
            ) && p.1@ == normalized_path(filename@),
        },
{
    match exclude {
        None => None,
        Some(patterns) => {
            let mut normalized: Vec<String> = Vec::new();
            let mut i: usize = 0;
            while i < patterns.len()
                invariant
                    i <= patterns.len(),
                    normalized@.len() == i,
                    forall|j: int|
                        0 <= j < i ==> #[trigger] normalized@[j]@ == normalized_path(patterns@[j]@),
                decreases patterns.len() - i,
            {
                normalized.push(normalize_path(patterns[i].as_str()));
                i = i + 1;
            }
            let name = normalize_path(filename);
            assert(normalized@.map_values(|s: String| s@) =~= patterns@.map_values(
                |s: String| normalized_path(s@),
            ));
            Some((normalized, name))
        },
    }
}

/// The exclusion decision from the glob matcher's answer: excluded exactly when a
/// pattern matched; `Err(())` when the patterns did not build (they are then
/// ignored).
pub fn exclusion_from_match(matched: Option<bool>) -> (r: Result<bool, ()>)
    ensures
        match matched {
            Some(m) => r == Ok::<bool, ()>(m),
            None => r == Err::<bool, ()>(()),
        },
{
    match matched {
        Some(m) => Ok(m),
        None => Err(()),
    }
}

/// Checks the file name against the `unstable_exclude` patterns: without patterns
/// nothing is excluded; otherwise the normalised patterns and file name (see
/// [`exclusion_inputs`]) go to `wax`, whose answer decides (see
/// [`exclusion_from_match`]).
pub fn should_exclude(exclude: &Option<Vec<String>>, filename: &str) -> (r: Result<bool, ()>)
    ensures
        exclude is None ==> r == Ok::<bool, ()>(false),
        exclude matches Some(v) && (exists|i: int|
            0 <= i < v.len() && plain_glob(normalized_path(#[trigger] v@[i]@)) && normalized_path(v@[i]@)
                == normalized_path(filename@)) ==> r is Err || r == Ok::<bool, ()>(true),
        exclude matches Some(v) && v.len() > 0 && (forall|i: int|
            0 <= i < v.len() ==> plain_glob(normalized_path(#[trigger] v@[i]@)) && normalized_path(
                v@[i]@,
            ).len() != normalized_path(filename@).len()) ==> r is Err || r == Ok::<bool, ()>(false),
{
    let inputs = exclusion_inputs(exclude, filename);
    proof {
        if exclude is Some && inputs is Some {
            lemma_plain_pattern_kept(exclude->0@, (inputs->0).0@, (inputs->0).1@, filename@);
        }
    }
    match inputs {
        None => Ok(false),
        Some((patterns, name)) => exclusion_from_match(wax_any_is_match(&patterns, name.as_str())),
    }
}

/// A plain pattern that is the file name stays so after both are normalised.
proof fn lemma_plain_pattern_kept(v: Seq<String>, ps: Seq<String>, name: Seq<char>, filename: Seq<char>)
    requires
        ps.map_values(|s: String| s@) == v.map_values(|s: String| normalized_path(s@)),
        name == normalized_path(filename),
    ensures
        (exists|i: int|
            0 <= i < v.len() && plain_glob(normalized_path(#[trigger] v[i]@)) && normalized_path(v[i]@)
                == normalized_path(filename)) ==> exists|j: int|
            0 <= j < ps.len() && plain_glob(#[trigger] ps[j]@) && ps[j]@ == name,
        (forall|i: int|
            0 <= i < v.len() ==> plain_glob(normalized_path(#[trigger] v[i]@)) && normalized_path(
                v[i]@,
            ).len() != normalized_path(filename).len()) ==> ps.len() == v.len() && forall|j: int|
            0 <= j < ps.len() ==> plain_glob(#[trigger] ps[j]@) && ps[j]@.len() != name.len(),
{
    let pv = ps.map_values(|s: String| s@);
    let nv = v.map_values(|s: String| normalized_path(s@));
    assert(pv.len() == ps.len() && nv.len() == v.len());
    assert forall|j: int| 0 <= j < ps.len() implies #[trigger] ps[j]@ == normalized_path(v[j]@) by {
        assert(pv[j] == nv[j]);
        assert(pv[j] == ps[j]@);
        assert(nv[j] == normalized_path(v[j]@));
    }
    if exists|i: int|
        0 <= i < v.len() && plain_glob(normalized_path(#[trigger] v[i]@)) && normalized_path(v[i]@)
            == normalized_path(filename) {
        let i = choose|i: int|
            0 <= i < v.len() && plain_glob(normalized_path(#[trigger] v[i]@)) && normalized_path(v[i]@)
                == normalized_path(filename);
        let pv = ps.map_values(|s: String| s@);
        let nv = v.map_values(|s: String| normalized_path(s@));
        assert(pv.len() == ps.len() && nv.len() == v.len());
        assert(pv[i] == nv[i]);
        assert(pv[i] == ps[i]@);
        assert(nv[i] == normalized_path(v[i]@));
        assert(plain_glob(ps[i]@) && ps[i]@ == name);
    }
}

/// The name of the file being transformed, `"unknown.js"` when none is known.
pub fn file_name_or_unknown(filename: Option<&str>) -> (r: &str)
    ensures
        r@ == match filename {
            Some(f) => f@,
            None => "unknown.js"@,
        },
{
    match filename {
        Some(f) => f,
        None => "unknown.js",
    }
}

/// A path that is not taken for a Windows path comes out without backslashes.
pub proof fn lemma_normalized_has_no_backslash(path: Seq<char>)
    requires
        !derives_windows_path(path),
    ensures
        !normalized_path(path).contains('\\'),
{
    if path.contains('\\') {
        let f = forward_slashes(path);
        assert forall|i: int| 0 <= i < f.len() implies f[i] != '\\' by {
            assert(f[i] == (if path[i] == '\\' { '/' } else { path[i] }));
        }
    }
}

} // verus!
