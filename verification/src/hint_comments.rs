//! Istanbul hint comments: `istanbul ignore file` and `istanbul ignore if|else|next`.
use vstd::prelude::*;
use crate::text::texts;

verus! {

/// The pattern of a comment asking to leave the whole file uninstrumented.
pub const COMMENT_FILE_PATTERN: &'static str = "^\\s*istanbul\\s+ignore\\s+(file)(\\W|$)";

/// The pattern of a comment asking to leave a section uninstrumented; the first
/// group is the section.
pub const COMMENT_PATTERN: &'static str = "^\\s*istanbul\\s+ignore\\s+(if|else|next)(\\W|$)";

/// Whether the regular expression `pattern` matches somewhere in `text` (false
/// when `pattern` is not a valid regular expression).
pub uninterp spec fn regex_matches(pattern: Seq<char>, text: Seq<char>) -> bool;

/// The text of the first capture group of the leftmost match of the regular
/// expression `pattern` in `text`, if it matches and the group takes part in the
/// match (none when `pattern` is not a valid regular expression).
pub uninterp spec fn regex_first_group(pattern: Seq<char>, text: Seq<char>) -> Option<Seq<char>>;

/// `regex::Regex::new(pattern)` then `Regex::is_match(text)`; an invalid pattern
/// gives false. Claims only that the answer is a function of the pattern and text.
#[verifier::external_body]
fn regex_is_match(pattern: &str, text: &str) -> (r: bool)
    ensures
        r == regex_matches(pattern@, text@),
{
    match regex::Regex::new(pattern) {
        Ok(re) => re.is_match(text),
        Err(_) => false,
    }
}

/// `regex::Regex::new(pattern)` then `Regex::captures(text)`, group 1; an invalid
/// pattern gives none. Claims only that the answer is a function of the pattern
/// and text.
#[verifier::external_body]
fn regex_capture_first_group(pattern: &str, text: &str) -> (r: Option<String>)
    ensures
        match r {
            Some(g) => regex_first_group(pattern@, text@) == Some(g@),
            None => regex_first_group(pattern@, text@) is None,
        },
{
    match regex::Regex::new(pattern) {
        Ok(re) => re.captures(text).and_then(|c| c.get(1)).map(|m| m.as_str().to_string()),
        Err(_) => None,
    }
}

/// The section named by the first hint comment among `comments`, if any.
pub open spec fn first_hint(comments: Seq<Seq<char>>) -> Option<Seq<char>>
    decreases comments.len(),
{
    if comments.len() == 0 {
        None
    } else {
        match regex_first_group(COMMENT_PATTERN@, comments[0]) {
            Some(g) => Some(g),
            None => first_hint(comments.drop_first()),
        }
    }
}

/// The hint of the comments before a node: those attached to its end are looked
/// at first, and when none of them is a hint, those attached to its start.
pub open spec fn hint_of(leading_hi: Option<Seq<Seq<char>>>, leading_lo: Option<Seq<Seq<char>>>) -> Option<
    Seq<char>,
> {
    let from_hi = match leading_hi {
        Some(h) => first_hint(h),
        None => None,
    };
    match from_hi {
        Some(v) => Some(v),
        None => match leading_lo {
            Some(l) => first_hint(l),
            None => None,
        },
    }
}

/// The comment texts of an optional comment list.
pub open spec fn opt_texts(comments: Option<Vec<String>>) -> Option<Seq<Seq<char>>> {
    match comments {
        Some(c) => Some(texts(c@)),
        None => None,
    }
}

fn first_hint_in(comments: &Vec<String>) -> (r: Option<String>)
    ensures
        match r {
            Some(v) => first_hint(texts(comments@)) == Some(v@),
            None => first_hint(texts(comments@)) is None,
        },
{
    let ghost all = texts(comments@);
    assert(all.skip(0) =~= all);
    let mut i: usize = 0;
    while i < comments.len()
        invariant
            i <= comments.len(),
            all == texts(comments@),
            first_hint(all) == first_hint(all.skip(i as int)),
        decreases comments.len() - i,
    {
        let ghost rest = all.skip(i as int);
        proof {
            assert(rest[0] == comments@[i as int]@);
            assert(rest.drop_first() =~= all.skip(i as int + 1));
        }
        match regex_capture_first_group(COMMENT_PATTERN, comments[i].as_str()) {
            Some(g) => {
                return Some(g);
            },
            None => {},
        }
        i = i + 1;
    }
    proof {
        assert(all.skip(i as int).len() == 0);
    }
    None
}

/// The hint among the comments attached to the end (`leading_hi`) and to the start
/// (`leading_lo`) of a node: see [`hint_of`].
pub fn lookup_hint_comments(leading_hi: &Option<Vec<String>>, leading_lo: &Option<Vec<String>>) -> (r:
    Option<String>)
    ensures
        match r {
            Some(v) => hint_of(opt_texts(*leading_hi), opt_texts(*leading_lo)) == Some(v@),
            None => hint_of(opt_texts(*leading_hi), opt_texts(*leading_lo)) is None,
        },
{
    match leading_hi {
        Some(h) => {
            match first_hint_in(h) {
                Some(h_value) => {
                    return Some(h_value);
                },
                None => {},
            }
        },
        None => {},
    }
    match leading_lo {
        Some(l) => first_hint_in(l),
        None => None,
    }
}

/// What an ignore hint asks to leave out.
#[derive(Debug, Copy, Clone, PartialEq, Eq, Structural)]
pub enum IgnoreScope {
    Next,
    If,
    Else,
}

/// The scope a hint names: `"next"`, `"if"` or `"else"`.
pub open spec fn ignore_scope_of(hint: Option<Seq<char>>) -> Option<IgnoreScope> {
    match hint {
        Some(h) => if h == "next"@ {
            Some(IgnoreScope::Next)
        } else if h == "if"@ {
            Some(IgnoreScope::If)
        } else if h == "else"@ {
            Some(IgnoreScope::Else)
        } else {
            None
        },
        None => None,
    }
}

/// The word of a hint comment that names the scope.
pub open spec fn scope_name(s: IgnoreScope) -> Seq<char> {
    match s {
        IgnoreScope::Next => "next"@,
        IgnoreScope::If => "if"@,
        IgnoreScope::Else => "else"@,
    }
}

/// A hint asks for a scope exactly when it is that scope's name; without a hint no
/// scope is asked for.
pub proof fn lemma_ignore_scope_is_named(hint: Option<Seq<char>>, s: IgnoreScope)
    ensures
        ignore_scope_of(hint) == Some(s) <==> hint == Some(scope_name(s)),
        hint is None ==> ignore_scope_of(hint) is None,
{
    reveal_strlit("next");
    reveal_strlit("if");
    reveal_strlit("else");
    assert("next"@ != "if"@ && "next"@ != "else"@ && "if"@ != "else"@) by {
        assert("next"@.len() != "if"@.len());
        assert("next"@[0] != "else"@[0]);
        assert("if"@.len() != "else"@.len());
    }
}

/// The ignore scope the hint comments around a node ask for.
pub fn should_ignore(leading_hi: &Option<Vec<String>>, leading_lo: &Option<Vec<String>>) -> (r: Option<
    IgnoreScope,
>)
    ensures
        r == ignore_scope_of(hint_of(opt_texts(*leading_hi), opt_texts(*leading_lo))),
        forall|s: IgnoreScope|
            r == Some(s) <==> hint_of(opt_texts(*leading_hi), opt_texts(*leading_lo)) == Some(
                #[trigger] scope_name(s),
            ),
{
    proof {
        let h = hint_of(opt_texts(*leading_hi), opt_texts(*leading_lo));
        assert forall|s: IgnoreScope|
            ignore_scope_of(h) == Some(s) <==> h == Some(#[trigger] scope_name(s)) by {
            lemma_ignore_scope_is_named(h, s);
        }
    }
    match lookup_hint_comments(leading_hi, leading_lo) {
        Some(comments) => {
            if comments.eq(&String::from_str("next")) {
                Some(IgnoreScope::Next)
            } else if comments.eq(&String::from_str("if")) {
                Some(IgnoreScope::If)
            } else if comments.eq(&String::from_str("else")) {
                Some(IgnoreScope::Else)
            } else {
                None
            }
        },
        None => None,
    }
}

/// Some comment of the list asks to leave the whole file uninstrumented.
pub open spec fn comments_have_file_hint(cs: Seq<Seq<char>>) -> bool {
    exists|j: int| 0 <= j < cs.len() && regex_matches(COMMENT_FILE_PATTERN@, #[trigger] cs[j])
}

/// The list exists and some comment of it asks to ignore the whole file.
pub open spec fn list_has_file_hint(comments: Option<Seq<Seq<char>>>) -> bool {
    match comments {
        Some(cs) => comments_have_file_hint(cs),
        None => false,
    }
}

/// Some comment of some list asks to leave the whole file uninstrumented.
pub open spec fn has_file_hint(comment_lists: Seq<Option<Seq<Seq<char>>>>) -> bool {
    exists|i: int| 0 <= i < comment_lists.len() && #[trigger] list_has_file_hint(comment_lists[i])
}

/// Whether a comment of one of the lists (the comments around the program's start
/// and end) asks to ignore the whole file.
pub fn should_ignore_file(comment_lists: &Vec<Option<Vec<String>>>) -> (r: bool)
    ensures
        r == has_file_hint(comment_lists@.map_values(|c: Option<Vec<String>>| opt_texts(c))),
{
    let ghost lists = comment_lists@.map_values(|c: Option<Vec<String>>| opt_texts(c));
    let mut i: usize = 0;
    while i < comment_lists.len()
        invariant
            i <= comment_lists.len(),
            lists == comment_lists@.map_values(|c: Option<Vec<String>>| opt_texts(c)),
            forall|a: int| 0 <= a < i ==> !#[trigger] list_has_file_hint(lists[a]),
        decreases comment_lists.len() - i,
    {
        match &comment_lists[i] {
            Some(comments) => {
                let mut j: usize = 0;
                while j < comments.len()
                    invariant
                        j <= comments.len(),
                        i < comment_lists.len(),
                        comment_lists@[i as int] == Some(*comments),
                        lists == comment_lists@.map_values(
                            |c: Option<Vec<String>>| opt_texts(c),
                        ),
                        forall|b: int|
                            0 <= b < j ==> !regex_matches(
                                COMMENT_FILE_PATTERN@,
                                #[trigger] texts(comments@)[b],
                            ),
                    decreases comments.len() - j,
                {
                    if regex_is_match(COMMENT_FILE_PATTERN, comments[j].as_str()) {
                        proof {
                            assert(lists[i as int] == Some(texts(comments@)));
                            assert(texts(comments@)[j as int] == comments@[j as int]@);
                            assert(regex_matches(COMMENT_FILE_PATTERN@, texts(comments@)[j as int]));
                            assert(comments_have_file_hint(texts(comments@)));
                            assert(list_has_file_hint(lists[i as int]));
                        }
                        return true;
                    }
                    proof {
                        assert(texts(comments@)[j as int] == comments@[j as int]@);
                    }
                    j = j + 1;
                }
                proof {
                    assert(lists[i as int] == Some(texts(comments@)));
                    assert(!list_has_file_hint(lists[i as int]));
                }
            },
            None => {
                proof {
                    assert(lists[i as int] is None);
                }
            },
        }
        i = i + 1;
    }
    false
}

/// The ignore state when entering a node, as `(previous state, state inside)`:
/// inside a `next`-ignored node everything stays ignored, otherwise the node's own
/// hint decides.
pub fn enter_ignore_scope(current: Option<IgnoreScope>, hint: Option<IgnoreScope>) -> (r: (
    Option<IgnoreScope>,
    Option<IgnoreScope>,
))
    ensures
        r.0 == current,
        r.1 == (if current == Some(IgnoreScope::Next) {
            current
        } else {
            hint
        }),
{
    match current {
        Some(IgnoreScope::Next) => (current, current),
        _ => (current, hint),
    }
}

} // verus!
