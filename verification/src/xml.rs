//! A small XML reader, sufficient for the forecast's KML documents.
//!
//! The reader tokenizes a document into a flat sequence of events — an
//! opening tag with its attributes, a closing tag, a run of text — and a
//! navigation layer then walks that sequence by nesting depth. Namespace
//! prefixes are dropped from element and attribute names at tokenization,
//! so the decoders match local names only. Processing instructions,
//! comments and document-type declarations are skipped; a self-closing
//! tag stands for an opening and a closing event. Character references
//! are left as they stand: the decoders compare and forward text, they
//! never re-encode it.
use vstd::prelude::*;

use crate::text::is_ws;
use crate::text::ws_char;
use crate::text::spec_trim;
use crate::text::trim;

verus! {

broadcast use crate::text::lemma_vec_char_deep_view;

/// One event of a tokenized document.
pub enum SpecXmlEvent {
    /// An opening tag: local name and attributes in source order.
    Open(Seq<char>, Seq<(Seq<char>, Seq<char>)>),
    /// A closing tag.
    Close,
    /// A run of character data between tags.
    Text(Seq<char>),
}

/// One event of a tokenized document; see [`SpecXmlEvent`].
#[derive(Clone, Debug, PartialEq)]
pub enum XmlEvent {
    Open(Vec<char>, Vec<(Vec<char>, Vec<char>)>),
    Close,
    Text(Vec<char>),
}

impl DeepView for XmlEvent {
    type V = SpecXmlEvent;

    open spec fn deep_view(&self) -> SpecXmlEvent {
        match self {
            XmlEvent::Open(name, attrs) => SpecXmlEvent::Open(name.deep_view(), attrs.deep_view()),
            XmlEvent::Close => SpecXmlEvent::Close,
            XmlEvent::Text(t) => SpecXmlEvent::Text(t.deep_view()),
        }
    }
}

/// The first position at or after `i` whose character is not whitespace.
pub open spec fn skip_ws_from(s: Seq<char>, i: int) -> int
    decreases s.len() - i,
{
    if 0 <= i < s.len() && is_ws(s[i]) {
        skip_ws_from(s, i + 1)
    } else {
        i
    }
}

/// Positions skipped by [`skip_ws_from`] hold whitespace, and the scan
/// stays within the text.
pub proof fn lemma_skip_ws_from(s: Seq<char>, i: int)
    requires
        0 <= i <= s.len(),
    ensures
        i <= skip_ws_from(s, i) <= s.len(),
        forall|k: int| i <= k < skip_ws_from(s, i) ==> is_ws(s[k]),
        skip_ws_from(s, i) < s.len() ==> !is_ws(s[skip_ws_from(s, i)]),
    decreases s.len() - i,
{
    if i < s.len() && is_ws(s[i]) {
        lemma_skip_ws_from(s, i + 1);
    }
}

/// Whether `c` ends a tag name: whitespace, `/`, `>` or `=`.
pub open spec fn is_name_end(c: char) -> bool {
    is_ws(c) || c == '/' || c == '>' || c == '='
}

/// The first position at or after `i` that ends a name.
pub open spec fn name_end_from(s: Seq<char>, i: int) -> int
    decreases s.len() - i,
{
    if 0 <= i < s.len() && !is_name_end(s[i]) {
        name_end_from(s, i + 1)
    } else {
        i
    }
}

/// The scan of [`name_end_from`] stays within the text and stops at the
/// first name-ending character.
pub proof fn lemma_name_end_from(s: Seq<char>, i: int)
    requires
        0 <= i <= s.len(),
    ensures
        i <= name_end_from(s, i) <= s.len(),
        forall|k: int| i <= k < name_end_from(s, i) ==> !is_name_end(s[k]),
        name_end_from(s, i) < s.len() ==> is_name_end(s[name_end_from(s, i)]),
    decreases s.len() - i,
{
    if i < s.len() && !is_name_end(s[i]) {
        lemma_name_end_from(s, i + 1);
    }
}

/// The first position at or after `i` holding `c`, or the text's length.
pub open spec fn find_char_from(s: Seq<char>, i: int, c: char) -> int
    decreases s.len() - i,
{
    if 0 <= i < s.len() {
        if s[i] == c {
            i
        } else {
            find_char_from(s, i + 1, c)
        }
    } else if i < 0 {
        s.len() as int
    } else {
        i
    }
}

/// The scan of [`find_char_from`] stays within the text and stops at the
/// first occurrence.
pub proof fn lemma_find_char_from(s: Seq<char>, i: int, c: char)
    requires
        0 <= i <= s.len(),
    ensures
        i <= find_char_from(s, i, c) <= s.len(),
        forall|k: int| i <= k < find_char_from(s, i, c) ==> s[k] != c,
        find_char_from(s, i, c) < s.len() ==> s[find_char_from(s, i, c)] == c,
    decreases s.len() - i,
{
    if i < s.len() && s[i] != c {
        lemma_find_char_from(s, i + 1, c);
    }
}

/// Whether `pat` occurs in `s` at position `i`.
pub open spec fn matches_at(s: Seq<char>, i: int, pat: Seq<char>) -> bool {
    0 <= i && i + pat.len() <= s.len() && s.subrange(i, i + pat.len()) == pat
}

/// The first position at or after `i` where `pat` occurs, or the text's
/// length when it occurs nowhere.
pub open spec fn find_sub_from(s: Seq<char>, i: int, pat: Seq<char>) -> int
    decreases s.len() - i,
{
    if 0 <= i && 1 <= pat.len() && i + pat.len() <= s.len() {
        if matches_at(s, i, pat) {
            i
        } else {
            find_sub_from(s, i + 1, pat)
        }
    } else if i < 0 {
        s.len() as int
    } else {
        s.len() as int
    }
}

/// The scan of [`find_sub_from`] stays within the text and stops at the
/// first occurrence.
pub proof fn lemma_find_sub_from(s: Seq<char>, i: int, pat: Seq<char>)
    requires
        0 <= i <= s.len(),
        1 <= pat.len(),
    ensures
        i <= find_sub_from(s, i, pat) <= s.len(),
        forall|k: int| i <= k < find_sub_from(s, i, pat) ==> !matches_at(s, k, pat),
        find_sub_from(s, i, pat) < s.len() ==> matches_at(s, find_sub_from(s, i, pat), pat),
    decreases s.len() - i,
{
    if i + pat.len() <= s.len() && !matches_at(s, i, pat) {
        lemma_find_sub_from(s, i + 1, pat);
    } else if i + pat.len() > s.len() {
        assert forall|k: int| i <= k < find_sub_from(s, i, pat) implies !matches_at(
            s,
            k,
            pat,
        ) by {
            assert(k + pat.len() > s.len());
        };
    }
}

/// The position after the last `:` of a name, or its start.
pub open spec fn after_last_colon(n: Seq<char>, i: int) -> int
    decreases i,
{
    if i <= 0 || i > n.len() {
        0
    } else if n[i - 1] == ':' {
        i
    } else {
        after_last_colon(n, i - 1)
    }
}

/// A name without its namespace prefix: everything after the last `:`.
pub open spec fn local_name(n: Seq<char>) -> Seq<char> {
    n.subrange(after_last_colon(n, n.len() as int), n.len() as int)
}

/// The scan of [`after_last_colon`] stays within the name.
pub proof fn lemma_after_last_colon(n: Seq<char>, i: int)
    requires
        0 <= i <= n.len(),
    ensures
        0 <= after_last_colon(n, i) <= i,
    decreases i,
{
    if 0 < i <= n.len() && n[i - 1] != ':' {
        lemma_after_last_colon(n, i - 1);
    }
}

/// The attributes of an opening tag from position `j` on, with the
/// position after the tag's `>` and whether the tag closes itself. An
/// attribute is a name, `=`, and a value in single or double quotes;
/// whitespace may stand around each part. A tag of any other shape makes
/// the whole document unreadable.
pub open spec fn attrs_from(s: Seq<char>, j: int) -> Option<
    (Seq<(Seq<char>, Seq<char>)>, int, bool),
>
    decreases s.len() - j
        when 0 <= j <= s.len()
{
    let k = skip_ws_from(s, j);
    if k >= s.len() {
        None
    } else if s[k] == '>' {
        Some((seq![], k + 1, false))
    } else if s[k] == '/' {
        if k + 1 < s.len() && s[k + 1] == '>' {
            Some((seq![], k + 2, true))
        } else {
            None
        }
    } else if s[k] == '=' {
        None
    } else {
        let ne = name_end_from(s, k);
        let eq = skip_ws_from(s, ne);
        if eq >= s.len() || s[eq] != '=' {
            None
        } else {
            let vq = skip_ws_from(s, eq + 1);
            if vq >= s.len() || (s[vq] != '"' && s[vq] != '\'') {
                None
            } else {
                let vend = find_char_from(s, vq + 1, s[vq]);
                if vend >= s.len() {
                    None
                } else {
                    proof {
                        lemma_skip_ws_from(s, j);
                        lemma_name_end_from(s, k);
                        lemma_skip_ws_from(s, ne);
                        lemma_skip_ws_from(s, eq + 1);
                        lemma_find_char_from(s, vq + 1, s[vq]);
                    }
                    match attrs_from(s, vend + 1) {
                        None => None,
                        Some((attrs, after, sc)) => Some(
                            (
                                seq![
                                    (local_name(s.subrange(k, ne)), s.subrange(vq + 1, vend)),
                                ] + attrs,
                                after,
                                sc,
                            ),
                        ),
                    }
                }
            }
        }
    }
}

/// A read tag ends after its `>`: within the text, past where the scan
/// began.
pub proof fn lemma_attrs_from_after(s: Seq<char>, j: int)
    requires
        0 <= j <= s.len(),
        attrs_from(s, j) is Some,
    ensures
        j < attrs_from(s, j)->Some_0.1 <= s.len(),
    decreases s.len() - j,
{
    lemma_skip_ws_from(s, j);
    let k = skip_ws_from(s, j);
    if k < s.len() && s[k] != '>' && !(s[k] == '/') && s[k] != '=' {
        let ne = name_end_from(s, k);
        lemma_name_end_from(s, k);
        let eq = skip_ws_from(s, ne);
        lemma_skip_ws_from(s, ne);
        if !(eq >= s.len() || s[eq] != '=') {
            let vq = skip_ws_from(s, eq + 1);
            lemma_skip_ws_from(s, eq + 1);
            if !(vq >= s.len() || (s[vq] != '"' && s[vq] != '\'')) {
                let vend = find_char_from(s, vq + 1, s[vq]);
                lemma_find_char_from(s, vq + 1, s[vq]);
                if vend < s.len() {
                    lemma_attrs_from_after(s, vend + 1);
                }
            }
        }
    }
}

/// The events of a document from position `i` on, or nothing when the
/// text cannot be tokenized at all.
pub open spec fn tokenize_from(s: Seq<char>, i: int) -> Option<Seq<SpecXmlEvent>>
    decreases s.len() - i
        when 0 <= i <= s.len()
{
    if i >= s.len() {
        Some(seq![])
    } else if s[i] == '<' {
        if matches_at(s, i, "<!--"@) {
            // A comment runs to the next "-->".
            let e = find_sub_from(s, i + 4, "-->"@);
            proof {
                reveal_strlit("<!--");
                reveal_strlit("-->");
                lemma_find_sub_from(s, i + 4, "-->"@);
            }
            if e >= s.len() {
                None
            } else {
                tokenize_from(s, e + 3)
            }
        } else if i + 1 < s.len() && s[i + 1] == '?' {
            // A processing instruction runs to the next "?>".
            let e = find_sub_from(s, i + 2, "?>"@);
            proof {
                reveal_strlit("?>");
                lemma_find_sub_from(s, i + 2, "?>"@);
            }
            if e >= s.len() {
                None
            } else {
                tokenize_from(s, e + 2)
            }
        } else if i + 1 < s.len() && s[i + 1] == '!' {
            // A declaration runs to the next ">".
            let e = find_char_from(s, i + 2, '>');
            proof {
                lemma_find_char_from(s, i + 2, '>');
            }
            if e >= s.len() {
                None
            } else {
                tokenize_from(s, e + 1)
            }
        } else if i + 1 < s.len() && s[i + 1] == '/' {
            // A closing tag; its name has already done its work.
            let e = find_char_from(s, i + 2, '>');
            proof {
                lemma_find_char_from(s, i + 2, '>');
            }
            if e >= s.len() {
                None
            } else {
                match tokenize_from(s, e + 1) {
                    None => None,
                    Some(rest) => Some(seq![SpecXmlEvent::Close] + rest),
                }
            }
        } else {
            // An opening tag: a non-empty name, then attributes.
            let ne = name_end_from(s, i + 1);
            proof {
                lemma_name_end_from(s, i + 1);
            }
            if ne == i + 1 {
                None
            } else {
                let name = local_name(s.subrange(i + 1, ne));
                match attrs_from(s, ne) {
                    None => None,
                    Some((attrs, after, self_closing)) => {
                        proof {
                            lemma_attrs_from_after(s, ne);
                        }
                        match tokenize_from(s, after) {
                            None => None,
                            Some(rest) => {
                                let open = seq![SpecXmlEvent::Open(name, attrs)];
                                if self_closing {
                                    Some(open + seq![SpecXmlEvent::Close] + rest)
                                } else {
                                    Some(open + rest)
                                }
                            },
                        }
                    },
                }
            }
        }
    } else {
        // Character data runs to the next tag.
        let e = find_char_from(s, i, '<');
        proof {
            lemma_find_char_from(s, i, '<');
        }
        match tokenize_from(s, e) {
            None => None,
            Some(rest) => Some(seq![SpecXmlEvent::Text(s.subrange(i, e))] + rest),
        }
    }
}

/// What tokenizing a document yields.
pub open spec fn spec_tokenize(s: Seq<char>) -> Option<Seq<SpecXmlEvent>> {
    tokenize_from(s, 0)
}

/// Executable twin of [`skip_ws_from`].
fn skip_ws_exec(s: &[char], i: usize) -> (r: usize)
    requires
        i <= s@.len(),
    ensures
        r == skip_ws_from(s@, i as int),
        i <= r <= s@.len(),
{
    let mut j = i;
    while j < s.len() && ws_char(s[j])
        invariant
            i <= j <= s@.len(),
            skip_ws_from(s@, i as int) == skip_ws_from(s@, j as int),
        decreases s@.len() - j,
    {
        j += 1;
    }
    j
}

/// Executable twin of [`name_end_from`].
fn name_end_exec(s: &[char], i: usize) -> (r: usize)
    requires
        i <= s@.len(),
    ensures
        r == name_end_from(s@, i as int),
        i <= r <= s@.len(),
{
    let mut j = i;
    while j < s.len() && !(ws_char(s[j]) || s[j] == '/' || s[j] == '>' || s[j] == '=')
        invariant
            i <= j <= s@.len(),
            name_end_from(s@, i as int) == name_end_from(s@, j as int),
        decreases s@.len() - j,
    {
        j += 1;
    }
    j
}

/// Executable twin of [`find_char_from`].
fn find_char_exec(s: &[char], i: usize, c: char) -> (r: usize)
    requires
        i <= s@.len(),
    ensures
        r == find_char_from(s@, i as int, c),
        i <= r <= s@.len(),
{
    let mut j = i;
    while j < s.len() && s[j] != c
        invariant
            i <= j <= s@.len(),
            find_char_from(s@, i as int, c) == find_char_from(s@, j as int, c),
        decreases s@.len() - j,
    {
        j += 1;
    }
    j
}

/// Executable twin of [`matches_at`] against a literal pattern.
fn matches_at_exec(s: &[char], i: usize, pat: &str) -> (r: bool)
    requires
        i <= s@.len(),
    ensures
        r == matches_at(s@, i as int, pat@),
{
    let n = pat.unicode_len();
    if s.len() - i < n {
        return false;
    }
    let sub = vstd::slice::slice_subrange(s, i, i + n);
    crate::text::chars_eq_str(sub, pat)
}

/// Executable twin of [`find_sub_from`] for a literal pattern.
#[verifier::loop_isolation(false)]
fn find_sub_exec(s: &[char], i: usize, pat: &str) -> (r: usize)
    requires
        i <= s@.len(),
        pat@.len() >= 1,
    ensures
        r == find_sub_from(s@, i as int, pat@),
        i <= r <= s@.len(),
{
    proof {
        lemma_find_sub_from(s@, i as int, pat@);
    }
    let mut j = i;
    while j < s.len()
        invariant
            i <= j <= s@.len(),
            find_sub_from(s@, i as int, pat@) == find_sub_from(s@, j as int, pat@),
        decreases s@.len() - j,
    {
        if matches_at_exec(s, j, pat) {
            return j;
        }
        j += 1;
    }
    j
}

/// Executable twin of [`local_name`].
#[verifier::loop_isolation(false)]
fn local_name_exec(n: &[char]) -> (r: Vec<char>)
    ensures
        r@ == local_name(n@),
{
    let mut i: usize = n.len();
    while i > 0 && n[i - 1] != ':'
        invariant
            0 <= i <= n@.len(),
            after_last_colon(n@, n@.len() as int) == after_last_colon(n@, i as int),
        decreases i,
    {
        i -= 1;
    }
    proof {
        lemma_after_last_colon(n@, i as int);
    }
    vstd::slice::slice_to_vec(vstd::slice::slice_subrange(n, i, n.len()))
}

/// Read an opening tag's attributes, exactly as [`attrs_from`] states.
#[verifier::loop_isolation(false)]
fn parse_attrs(s: &[char], j0: usize) -> (r: Option<(Vec<(Vec<char>, Vec<char>)>, usize, bool)>)
    requires
        j0 <= s@.len(),
    ensures
        match r {
            Some((attrs, after, sc)) => attrs_from(s@, j0 as int) == Some(
                (attrs.deep_view(), after as int, sc),
            ) && j0 < after <= s@.len(),
            None => attrs_from(s@, j0 as int) is None,
        },
{
    let mut acc: Vec<(Vec<char>, Vec<char>)> = Vec::new();
    let mut j = j0;
    proof {
        if attrs_from(s@, j0 as int) is Some {
            lemma_attrs_from_after(s@, j0 as int);
            let (rest, after, sc) = attrs_from(s@, j0 as int)->Some_0;
            assert(acc.deep_view() + rest =~= rest);
        }
    }
    loop
        invariant
            j0 <= j <= s@.len(),
            match attrs_from(s@, j as int) {
                Some((rest, after, sc)) => attrs_from(s@, j0 as int) == Some(
                    (acc.deep_view() + rest, after, sc),
                ) && j0 < after <= s@.len(),
                None => attrs_from(s@, j0 as int) is None,
            },
        decreases s@.len() - j,
    {
        let k = skip_ws_exec(s, j);
        if k >= s.len() {
            return None;
        }
        if s[k] == '>' {
            proof {
                assert(acc.deep_view() + Seq::<(Seq<char>, Seq<char>)>::empty() =~= acc.deep_view());
            }
            return Some((acc, k + 1, false));
        }
        if s[k] == '/' {
            if k + 1 < s.len() && s[k + 1] == '>' {
                proof {
                    assert(acc.deep_view() + Seq::<(Seq<char>, Seq<char>)>::empty()
                        =~= acc.deep_view());
                }
                return Some((acc, k + 2, true));
            } else {
                return None;
            }
        }
        if s[k] == '=' {
            return None;
        }
        let ne = name_end_exec(s, k);
        let eq = skip_ws_exec(s, ne);
        if eq >= s.len() || s[eq] != '=' {
            return None;
        }
        let vq = skip_ws_exec(s, eq + 1);
        if vq >= s.len() || (s[vq] != '"' && s[vq] != '\'') {
            return None;
        }
        let vend = find_char_exec(s, vq + 1, s[vq]);
        if vend >= s.len() {
            return None;
        }
        let name = local_name_exec(vstd::slice::slice_subrange(s, k, ne));
        let value = vstd::slice::slice_to_vec(vstd::slice::slice_subrange(s, vq + 1, vend));
        let ghost old_acc = acc.deep_view();
        acc.push((name, value));
        proof {
            assert(acc.deep_view() =~~= old_acc + seq![
                (local_name(s@.subrange(k as int, ne as int)), s@.subrange(vq + 1, vend as int)),
            ]);
            if attrs_from(s@, vend + 1) is Some {
                lemma_attrs_from_after(s@, j as int);
                let (rest, after, sc) = attrs_from(s@, vend + 1)->Some_0;
                assert(acc.deep_view() + rest =~= old_acc + (seq![
                    (
                        local_name(s@.subrange(k as int, ne as int)),
                        s@.subrange(vq + 1, vend as int),
                    ),
                ] + rest));
            }
        }
        j = vend + 1;
    }
}

/// Tokenize a document, exactly as [`spec_tokenize`] states.
#[verifier::loop_isolation(false)]
pub fn tokenize(s: &[char]) -> (r: Option<Vec<XmlEvent>>)
    ensures
        match r {
            Some(evs) => spec_tokenize(s@) == Some(evs.deep_view()),
            None => spec_tokenize(s@) is None,
        },
{
    let mut evs: Vec<XmlEvent> = Vec::new();
    let mut i: usize = 0;
    while i < s.len()
        invariant
            0 <= i <= s@.len(),
            match tokenize_from(s@, i as int) {
                Some(rest) => spec_tokenize(s@) == Some(evs.deep_view() + rest),
                None => spec_tokenize(s@) is None,
            },
        decreases s@.len() - i,
    {
        if s[i] == '<' {
            if matches_at_exec(s, i, "<!--") {
                proof {
                    reveal_strlit("<!--");
                    reveal_strlit("-->");
                    lemma_find_sub_from(s@, i + 4, "-->"@);
                }
                let e = find_sub_exec(s, i + 4, "-->");
                if e >= s.len() {
                    return None;
                }
                i = e + 3;
            } else if i + 1 < s.len() && s[i + 1] == '?' {
                proof {
                    reveal_strlit("?>");
                    lemma_find_sub_from(s@, i + 2, "?>"@);
                }
                let e = find_sub_exec(s, i + 2, "?>");
                if e >= s.len() {
                    return None;
                }
                i = e + 2;
            } else if i + 1 < s.len() && s[i + 1] == '!' {
                let e = find_char_exec(s, i + 2, '>');
                if e >= s.len() {
                    return None;
                }
                i = e + 1;
            } else if i + 1 < s.len() && s[i + 1] == '/' {
                let e = find_char_exec(s, i + 2, '>');
                if e >= s.len() {
                    return None;
                }
                let ghost old_evs = evs.deep_view();
                evs.push(XmlEvent::Close);
                proof {
                    assert(evs.deep_view() =~~= old_evs + seq![SpecXmlEvent::Close]);
                    if tokenize_from(s@, e + 1) is Some {
                        assert(evs.deep_view() + tokenize_from(s@, e + 1)->Some_0 =~= old_evs + (
                        seq![SpecXmlEvent::Close] + tokenize_from(s@, e + 1)->Some_0));
                    }
                }
                i = e + 1;
            } else {
                let ne = name_end_exec(s, i + 1);
                if ne == i + 1 {
                    return None;
                }
                let name = local_name_exec(vstd::slice::slice_subrange(s, i + 1, ne));
                match parse_attrs(s, ne) {
                    None => {
                        return None;
                    },
                    Some((attrs, after, self_closing)) => {
                        let ghost old_evs = evs.deep_view();
                        let ghost nm = local_name(s@.subrange(i + 1, ne as int));
                        let ghost at = attrs.deep_view();
                        evs.push(XmlEvent::Open(name, attrs));
                        if self_closing {
                            evs.push(XmlEvent::Close);
                            proof {
                                assert(evs.deep_view() =~~= old_evs + seq![
                                    SpecXmlEvent::Open(nm, at),
                                    SpecXmlEvent::Close,
                                ]);
                                if tokenize_from(s@, after as int) is Some {
                                    let rest = tokenize_from(s@, after as int)->Some_0;
                                    assert(evs.deep_view() + rest =~= old_evs + ((seq![
                                        SpecXmlEvent::Open(nm, at),
                                    ] + seq![SpecXmlEvent::Close]) + rest));
                                }
                            }
                        } else {
                            proof {
                                assert(evs.deep_view() =~~= old_evs + seq![
                                    SpecXmlEvent::Open(nm, at),
                                ]);
                                if tokenize_from(s@, after as int) is Some {
                                    let rest = tokenize_from(s@, after as int)->Some_0;
                                    assert(evs.deep_view() + rest =~= old_evs + (seq![
                                        SpecXmlEvent::Open(nm, at),
                                    ] + rest));
                                }
                            }
                        }
                        i = after;
                    },
                }
            }
        } else {
            let e = find_char_exec(s, i, '<');
            let text = vstd::slice::slice_to_vec(vstd::slice::slice_subrange(s, i, e));
            let ghost old_evs = evs.deep_view();
            evs.push(XmlEvent::Text(text));
            proof {
                assert(evs.deep_view() =~~= old_evs + seq![
                    SpecXmlEvent::Text(s@.subrange(i as int, e as int)),
                ]);
                if tokenize_from(s@, e as int) is Some {
                    let rest = tokenize_from(s@, e as int)->Some_0;
                    assert(evs.deep_view() + rest =~= old_evs + (seq![
                        SpecXmlEvent::Text(s@.subrange(i as int, e as int)),
                    ] + rest));
                }
                lemma_find_char_from(s@, i as int, '<');
            }
            i = e;
        }
    }
    proof {
        assert(evs.deep_view() + Seq::<SpecXmlEvent>::empty() =~= evs.deep_view());
    }
    Some(evs)
}

/// The position of the closing event that ends the element whose content
/// begins at `i`, scanning within `[i, hi)` at relative depth `d`; `hi`
/// when the element never closes.
pub open spec fn close_of(ev: Seq<SpecXmlEvent>, i: int, hi: int, d: int) -> int
    decreases hi - i,
{
    if !(0 <= i && i < hi && hi <= ev.len()) {
        hi
    } else {
        match ev[i] {
            SpecXmlEvent::Close => if d == 0 {
                i
            } else {
                close_of(ev, i + 1, hi, d - 1)
            },
            SpecXmlEvent::Open(_, _) => close_of(ev, i + 1, hi, d + 1),
            SpecXmlEvent::Text(_) => close_of(ev, i + 1, hi, d),
        }
    }
}

/// The scan of [`close_of`] stays within its range.
pub proof fn lemma_close_of(ev: Seq<SpecXmlEvent>, i: int, hi: int, d: int)
    requires
        0 <= i <= hi,
    ensures
        i <= close_of(ev, i, hi, d) <= hi,
    decreases hi - i,
{
    if 0 <= i && i < hi && hi <= ev.len() {
        match ev[i] {
            SpecXmlEvent::Close => if d != 0 {
                lemma_close_of(ev, i + 1, hi, d - 1);
            },
            SpecXmlEvent::Open(_, _) => lemma_close_of(ev, i + 1, hi, d + 1),
            SpecXmlEvent::Text(_) => lemma_close_of(ev, i + 1, hi, d),
        }
    }
}

/// The first direct child named `name` in `[i, hi)` at relative depth
/// `d`: its opening event's position and its content range. A child that
/// never closes counts for nothing.
pub open spec fn child_from(ev: Seq<SpecXmlEvent>, i: int, hi: int, name: Seq<char>, d: int) -> Option<
    (int, int, int),
>
    decreases hi - i,
{
    if !(0 <= i && i < hi && hi <= ev.len()) {
        None
    } else {
        match ev[i] {
            SpecXmlEvent::Open(n, _) => if d == 0 && n == name {
                let c = close_of(ev, i + 1, hi, 0);
                if c < hi {
                    Some((i, i + 1, c))
                } else {
                    None
                }
            } else {
                child_from(ev, i + 1, hi, name, d + 1)
            },
            SpecXmlEvent::Close => if d == 0 {
                None
            } else {
                child_from(ev, i + 1, hi, name, d - 1)
            },
            SpecXmlEvent::Text(_) => child_from(ev, i + 1, hi, name, d),
        }
    }
}

/// The first direct child named `name` of the content range `[lo, hi)`.
pub open spec fn find_child(ev: Seq<SpecXmlEvent>, lo: int, hi: int, name: Seq<char>) -> Option<
    (int, int, int),
> {
    child_from(ev, lo, hi, name, 0)
}

/// A found child lies within the searched range, opening event, content
/// and all.
pub proof fn lemma_child_from(ev: Seq<SpecXmlEvent>, i: int, hi: int, name: Seq<char>, d: int)
    requires
        0 <= i <= hi,
        child_from(ev, i, hi, name, d) is Some,
    ensures
        ({
            let (o, l, h) = child_from(ev, i, hi, name, d)->Some_0;
            i <= o && l == o + 1 && l <= h && h < hi && hi <= ev.len() && o < ev.len()
                && (ev[o] matches SpecXmlEvent::Open(n, _) && n == name)
        }),
    decreases hi - i,
{
    if 0 <= i && i < hi && hi <= ev.len() {
        match ev[i] {
            SpecXmlEvent::Open(n, _) => if d == 0 && n == name {
                lemma_close_of(ev, i + 1, hi, 0);
            } else {
                lemma_child_from(ev, i + 1, hi, name, d + 1);
            },
            SpecXmlEvent::Close => if d != 0 {
                lemma_child_from(ev, i + 1, hi, name, d - 1);
            },
            SpecXmlEvent::Text(_) => lemma_child_from(ev, i + 1, hi, name, d),
        }
    }
}

/// Every direct child named `name` in `[i, hi)` at relative depth `d`,
/// in source order, each with its opening position and content range.
pub open spec fn children_from(ev: Seq<SpecXmlEvent>, i: int, hi: int, name: Seq<char>, d: int) -> Seq<
    (int, int, int),
>
    decreases hi - i,
{
    if !(0 <= i && i < hi && hi <= ev.len()) {
        seq![]
    } else {
        match ev[i] {
            SpecXmlEvent::Open(n, _) => if d == 0 && n == name {
                let c = close_of(ev, i + 1, hi, 0);
                proof {
                    lemma_close_of(ev, i + 1, hi, 0);
                }
                if c < hi {
                    seq![(i, i + 1, c)] + children_from(ev, c + 1, hi, name, 0)
                } else {
                    seq![]
                }
            } else {
                children_from(ev, i + 1, hi, name, d + 1)
            },
            SpecXmlEvent::Close => if d == 0 {
                seq![]
            } else {
                children_from(ev, i + 1, hi, name, d - 1)
            },
            SpecXmlEvent::Text(_) => children_from(ev, i + 1, hi, name, d),
        }
    }
}

/// Every range collected by [`children_from`] lies within the searched
/// range and opens with the searched name.
pub proof fn lemma_children_from(ev: Seq<SpecXmlEvent>, i: int, hi: int, name: Seq<char>, d: int)
    requires
        0 <= i <= hi,
    ensures
        forall|k: int|
            0 <= k < children_from(ev, i, hi, name, d).len() ==> ({
                let (o, l, h) = #[trigger] children_from(ev, i, hi, name, d)[k];
                i <= o && l == o + 1 && l <= h && h < hi && hi <= ev.len() && o < ev.len() && (
                ev[o] matches SpecXmlEvent::Open(n, _) && n == name)
            }),
    decreases hi - i,
{
    if 0 <= i && i < hi && hi <= ev.len() {
        match ev[i] {
            SpecXmlEvent::Open(n, _) => if d == 0 && n == name {
                let c = close_of(ev, i + 1, hi, 0);
                lemma_close_of(ev, i + 1, hi, 0);
                if c < hi {
                    lemma_children_from(ev, c + 1, hi, name, 0);
                }
            } else {
                lemma_children_from(ev, i + 1, hi, name, d + 1);
            },
            SpecXmlEvent::Close => if d != 0 {
                lemma_children_from(ev, i + 1, hi, name, d - 1);
            },
            SpecXmlEvent::Text(_) => lemma_children_from(ev, i + 1, hi, name, d),
        }
    }
}

/// The character data directly inside `[i, hi)` at relative depth `d`:
/// text of nested children does not count.
pub open spec fn texts_from(ev: Seq<SpecXmlEvent>, i: int, hi: int, d: int) -> Seq<char>
    decreases hi - i,
{
    if !(0 <= i && i < hi && hi <= ev.len()) {
        seq![]
    } else {
        match ev[i] {
            SpecXmlEvent::Text(t) => if d == 0 {
                t + texts_from(ev, i + 1, hi, d)
            } else {
                texts_from(ev, i + 1, hi, d)
            },
            SpecXmlEvent::Open(_, _) => texts_from(ev, i + 1, hi, d + 1),
            SpecXmlEvent::Close => if d == 0 {
                seq![]
            } else {
                texts_from(ev, i + 1, hi, d - 1)
            },
        }
    }
}

/// The trimmed character data of an element's content range.
pub open spec fn elem_text(ev: Seq<SpecXmlEvent>, lo: int, hi: int) -> Seq<char> {
    crate::text::spec_trim(texts_from(ev, lo, hi, 0))
}

/// The value of the first attribute named `name`.
pub open spec fn attr_of(attrs: Seq<(Seq<char>, Seq<char>)>, name: Seq<char>) -> Option<Seq<char>>
    decreases attrs.len(),
{
    if attrs.len() == 0 {
        None
    } else if attrs[0].0 == name {
        Some(attrs[0].1)
    } else {
        attr_of(attrs.drop_first(), name)
    }
}

/// Find a direct child by name, exactly as [`find_child`] states.
#[verifier::loop_isolation(false)]
pub fn find_child_exec(ev: &Vec<XmlEvent>, lo: usize, hi: usize, name: &str) -> (r: Option<
    (usize, usize, usize),
>)
    requires
        lo <= hi <= ev@.len(),
    ensures
        match r {
            Some((o, l, h)) => find_child(ev.deep_view(), lo as int, hi as int, name@) == Some(
                ((o as int, l as int, h as int)),
            ) && lo <= o < l && l <= h && h < hi,
            None => find_child(ev.deep_view(), lo as int, hi as int, name@) is None,
        },
{
    let ghost evd = ev.deep_view();
    let mut j = lo;
    let mut d: usize = 0;
    while j < hi
        invariant
            lo <= j <= hi,
            d <= j - lo,
            child_from(evd, lo as int, hi as int, name@, 0) == child_from(
                evd,
                j as int,
                hi as int,
                name@,
                d as int,
            ),
        decreases hi - j,
    {
        proof {
            assert(evd[j as int] == ev@[j as int].deep_view());
        }
        match &ev[j] {
            XmlEvent::Open(n, _) => {
                if d == 0 && crate::text::chars_eq_str(n.as_slice(), name) {
                    let c = close_scan(ev, j + 1, hi);
                    if c < hi {
                        proof {
                            lemma_child_from(evd, lo as int, hi as int, name@, 0);
                        }
                        return Some((j, j + 1, c));
                    } else {
                        return None;
                    }
                }
                d += 1;
            },
            XmlEvent::Close => {
                if d == 0 {
                    return None;
                }
                d -= 1;
            },
            XmlEvent::Text(_) => {},
        }
        j += 1;
    }
    None
}

/// Find the close of a content range, exactly as [`close_of`] at depth
/// zero states.
#[verifier::loop_isolation(false)]
pub fn close_scan(ev: &Vec<XmlEvent>, i: usize, hi: usize) -> (r: usize)
    requires
        i <= hi <= ev@.len(),
    ensures
        r == close_of(ev.deep_view(), i as int, hi as int, 0),
        i <= r <= hi,
{
    let ghost evd = ev.deep_view();
    proof {
        lemma_close_of(evd, i as int, hi as int, 0);
    }
    let mut j = i;
    let mut d: usize = 0;
    while j < hi
        invariant
            i <= j <= hi,
            d <= j - i,
            close_of(evd, i as int, hi as int, 0) == close_of(
                evd,
                j as int,
                hi as int,
                d as int,
            ),
        decreases hi - j,
    {
        proof {
            assert(evd[j as int] == ev@[j as int].deep_view());
        }
        match &ev[j] {
            XmlEvent::Close => {
                if d == 0 {
                    return j;
                }
                d -= 1;
            },
            XmlEvent::Open(_, _) => {
                d += 1;
            },
            XmlEvent::Text(_) => {},
        }
        j += 1;
    }
    hi
}

/// Collect the direct children of one name, exactly as [`children_from`]
/// states (as index triples: opening event, content start, content end).
#[verifier::loop_isolation(false)]
#[verifier::rlimit(50)]
pub fn children_exec(ev: &Vec<XmlEvent>, lo: usize, hi: usize, name: &str) -> (r: Vec<
    (usize, usize, usize),
>)
    requires
        lo <= hi <= ev@.len(),
    ensures
        ({
            let cs = children_from(ev.deep_view(), lo as int, hi as int, name@, 0);
            r@.len() == cs.len() && (forall|k: int|
                0 <= k < cs.len() ==> #[trigger] cs[k] == (
                    r@[k].0 as int,
                    r@[k].1 as int,
                    r@[k].2 as int,
                )) && (forall|k: int|
                0 <= k < cs.len() ==> lo <= #[trigger] r@[k].0 && r@[k].0 < r@[k].1 && r@[k].1
                    <= r@[k].2 && r@[k].2 < hi)
        }),
{
    let ghost evd = ev.deep_view();
    let ghost full = children_from(evd, lo as int, hi as int, name@, 0);
    let mut r: Vec<(usize, usize, usize)> = Vec::new();
    let mut j = lo;
    let mut d: usize = 0;
    while j < hi
        invariant
            lo <= j <= hi,
            d <= j - lo,
            full == children_from(evd, lo as int, hi as int, name@, 0),
            full =~= r@.map_values(|t: (usize, usize, usize)| (t.0 as int, t.1 as int, t.2 as int))
                + children_from(evd, j as int, hi as int, name@, d as int),
            forall|k: int|
                0 <= k < r@.len() ==> lo <= #[trigger] r@[k].0 && r@[k].0 < r@[k].1 && r@[k].1
                    <= r@[k].2 && r@[k].2 < hi,
        decreases hi - j,
    {
        proof {
            assert(evd[j as int] == ev@[j as int].deep_view());
        }
        match &ev[j] {
            XmlEvent::Open(n, _) => {
                if d == 0 && crate::text::chars_eq_str(n.as_slice(), name) {
                    let c = close_scan(ev, j + 1, hi);
                    if c < hi {
                        let ghost old_r = r@.map_values(
                            |t: (usize, usize, usize)| (t.0 as int, t.1 as int, t.2 as int),
                        );
                        r.push((j, j + 1, c));
                        proof {
                            assert(r@.map_values(
                                |t: (usize, usize, usize)| (t.0 as int, t.1 as int, t.2 as int),
                            ) =~= old_r + seq![(j as int, j + 1 as int, c as int)]);
                            assert(r@.map_values(
                                |t: (usize, usize, usize)| (t.0 as int, t.1 as int, t.2 as int),
                            ) + children_from(evd, c + 1, hi as int, name@, 0) =~= old_r + (seq![
                                (j as int, j + 1 as int, c as int),
                            ] + children_from(evd, c + 1, hi as int, name@, 0)));
                        }
                        d = 0;
                        j = c + 1;
                        continue;
                    } else {
                        proof {
                            assert(children_from(evd, j as int, hi as int, name@, d as int) =~= Seq::<
                                (int, int, int),
                            >::empty());
                        }
                        j = hi;
                        continue;
                    }
                }
                d += 1;
            },
            XmlEvent::Close => {
                if d == 0 {
                    proof {
                        assert(children_from(evd, j as int, hi as int, name@, 0) =~= Seq::<
                            (int, int, int),
                        >::empty());
                    }
                    j = hi;
                    continue;
                }
                d -= 1;
            },
            XmlEvent::Text(_) => {},
        }
        j += 1;
    }
    proof {
        assert(full =~= r@.map_values(
            |t: (usize, usize, usize)| (t.0 as int, t.1 as int, t.2 as int),
        ));
        assert forall|k: int| 0 <= k < full.len() implies #[trigger] full[k] == (
            r@[k].0 as int,
            r@[k].1 as int,
            r@[k].2 as int,
        ) by {
            assert(full[k] == r@.map_values(
                |t: (usize, usize, usize)| (t.0 as int, t.1 as int, t.2 as int),
            )[k]);
        };
    }
    r
}

/// The trimmed character data of a content range, exactly as
/// [`elem_text`] states.
#[verifier::loop_isolation(false)]
pub fn elem_text_exec(ev: &Vec<XmlEvent>, lo: usize, hi: usize) -> (r: Vec<char>)
    requires
        lo <= hi <= ev@.len(),
    ensures
        r@ == elem_text(ev.deep_view(), lo as int, hi as int),
{
    let ghost evd = ev.deep_view();
    let mut acc: Vec<char> = Vec::new();
    let mut j = lo;
    let mut d: usize = 0;
    while j < hi
        invariant
            lo <= j <= hi,
            d <= j - lo,
            texts_from(evd, lo as int, hi as int, 0) =~= acc@ + texts_from(
                evd,
                j as int,
                hi as int,
                d as int,
            ),
        decreases hi - j,
    {
        proof {
            assert(evd[j as int] == ev@[j as int].deep_view());
        }
        match &ev[j] {
            XmlEvent::Text(t) => {
                if d == 0 {
                    let ghost old_acc = acc@;
                    let mut piece = vstd::slice::slice_to_vec(t.as_slice());
                    acc.append(&mut piece);
                    proof {
                        assert(acc@ =~= old_acc + ev@[j as int]->Text_0@);
                        assert(acc@ + texts_from(evd, j + 1, hi as int, d as int) =~= old_acc + (
                        evd[j as int]->Text_0 + texts_from(evd, j + 1, hi as int, d as int)));
                    }
                }
            },
            XmlEvent::Open(_, _) => {
                d += 1;
            },
            XmlEvent::Close => {
                if d == 0 {
                    proof {
                        assert(texts_from(evd, j as int, hi as int, 0) =~= Seq::<char>::empty());
                    }
                    break;
                }
                d -= 1;
            },
        }
        j += 1;
    }
    let r = trim(acc.as_slice());
    r
}

/// Look an attribute up by name, exactly as [`attr_of`] states.
#[verifier::loop_isolation(false)]
pub fn attr_of_exec(attrs: &Vec<(Vec<char>, Vec<char>)>, name: &str) -> (r: Option<Vec<char>>)
    ensures
        match r {
            Some(v) => attr_of(attrs.deep_view(), name@) == Some(v@),
            None => attr_of(attrs.deep_view(), name@) is None,
        },
{
    let ghost ad = attrs.deep_view();
    proof {
        assert(ad.skip(0) =~= ad);
    }
    let mut i: usize = 0;
    while i < attrs.len()
        invariant
            0 <= i <= ad.len(),
            attr_of(ad, name@) == attr_of(ad.skip(i as int), name@),
        decreases ad.len() - i,
    {
        proof {
            assert(ad.skip(i as int)[0] == ad[i as int]);
            assert(ad.skip(i as int).drop_first() =~= ad.skip(i + 1));
        }
        if crate::text::chars_eq_str(attrs[i].0.as_slice(), name) {
            return Some(vstd::slice::slice_to_vec(attrs[i].1.as_slice()));
        }
        i += 1;
    }
    proof {
        assert(ad.skip(ad.len() as int) =~= Seq::<(Seq<char>, Seq<char>)>::empty());
    }
    None
}

} // verus!
