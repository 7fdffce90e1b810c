//! Character-level text utilities shared by the three decoders: line and
//! field splitting, whitespace tokenization, trimming, and the undefined
//! sentinel predicate that recurs in the catalog and report formats.
use vstd::prelude::*;

verus! {

/// For a vector of characters the deep view and the plain view agree;
/// the splitters' contracts use the deep view, their callers the plain
/// one.
pub broadcast proof fn lemma_vec_char_deep_view(v: Vec<char>)
    ensures
        #[trigger] v.deep_view() == v@,
{
    assert(v.deep_view() =~= v@);
}

/// ASCII whitespace, as `char::is_ascii_whitespace` defines it.
pub open spec fn is_ws(c: char) -> bool {
    c == ' ' || c == '\t' || c == '\n' || c == '\u{c}' || c == '\r'
}

/// Executable twin of [`is_ws`].
pub fn ws_char(c: char) -> (r: bool)
    ensures
        r == is_ws(c),
{
    c == ' ' || c == '\t' || c == '\n' || c == '\u{c}' || c == '\r'
}

/// The undefined sentinel: a token of one or more `-` characters and
/// nothing else, meaning "value intentionally absent".
pub open spec fn is_sentinel(s: Seq<char>) -> bool {
    s.len() >= 1 && (forall|i: int| 0 <= i < s.len() ==> s[i] == '-')
}

/// Executable twin of [`is_sentinel`].
pub fn sentinel(s: &[char]) -> (r: bool)
    ensures
        r == is_sentinel(s@),
{
    if s.len() == 0 {
        return false;
    }
    let mut i: usize = 0;
    while i < s.len()
        invariant
            0 <= i <= s@.len(),
            forall|j: int| 0 <= j < i ==> s@[j] == '-',
        decreases s@.len() - i,
    {
        if s[i] != '-' {
            return false;
        }
        i += 1;
    }
    true
}

/// A line with no visible character: only whitespace, or nothing at all.
pub open spec fn is_blank(s: Seq<char>) -> bool {
    forall|i: int| 0 <= i < s.len() ==> is_ws(s[i])
}

/// Executable twin of [`is_blank`].
pub fn blank(s: &[char]) -> (r: bool)
    ensures
        r == is_blank(s@),
{
    let mut i: usize = 0;
    while i < s.len()
        invariant
            0 <= i <= s@.len(),
            forall|j: int| 0 <= j < i ==> is_ws(s@[j]),
        decreases s@.len() - i,
    {
        if !ws_char(s[i]) {
            return false;
        }
        i += 1;
    }
    true
}

/// The suffix of `s` from the first non-whitespace character on.
pub open spec fn trim_front(s: Seq<char>) -> Seq<char>
    decreases s.len(),
{
    if s.len() > 0 && is_ws(s[0]) {
        trim_front(s.drop_first())
    } else {
        s
    }
}

/// The prefix of `s` up to the last non-whitespace character.
pub open spec fn trim_back(s: Seq<char>) -> Seq<char>
    decreases s.len(),
{
    if s.len() > 0 && is_ws(s[s.len() - 1]) {
        trim_back(s.drop_last())
    } else {
        s
    }
}

/// `s` without leading and trailing whitespace.
pub open spec fn spec_trim(s: Seq<char>) -> Seq<char> {
    trim_back(trim_front(s))
}

/// Executable trim, equal to [`spec_trim`].
pub fn trim(s: &[char]) -> (r: Vec<char>)
    ensures
        r@ == spec_trim(s@),
{
    proof {
        assert(s@.subrange(0, s@.len() as int) =~= s@);
    }
    let mut a: usize = 0;
    while a < s.len() && ws_char(s[a])
        invariant
            0 <= a <= s@.len(),
            forall|j: int| 0 <= j < a ==> is_ws(s@[j]),
            trim_front(s@) == trim_front(s@.subrange(a as int, s@.len() as int)),
        decreases s@.len() - a,
    {
        proof {
            assert(s@.subrange(a as int, s@.len() as int).drop_first() =~= s@.subrange(
                a + 1,
                s@.len() as int,
            ));
        }
        a += 1;
    }
    proof {
        assert(trim_front(s@) =~= s@.subrange(a as int, s@.len() as int));
    }
    let mut b: usize = s.len();
    while b > a && ws_char(s[b - 1])
        invariant
            a <= b <= s@.len(),
            trim_front(s@) =~= s@.subrange(a as int, s@.len() as int),
            spec_trim(s@) == trim_back(s@.subrange(a as int, b as int)),
        decreases b,
    {
        proof {
            assert(s@.subrange(a as int, b as int).drop_last() =~= s@.subrange(a as int, b - 1));
        }
        b -= 1;
    }
    proof {
        assert(trim_back(s@.subrange(a as int, b as int)) =~= s@.subrange(a as int, b as int));
    }
    let r = vstd::slice::slice_to_vec(vstd::slice::slice_subrange(s, a, b));
    r
}

/// The fields of `s` split on the separator `sep`, the split already begun:
/// fields before `start` are done, the current field began at `start`, and
/// `i` is the position under examination.
pub open spec fn split_from(s: Seq<char>, sep: char, i: int, start: int) -> Seq<Seq<char>>
    recommends
        0 <= start <= i <= s.len(),
    decreases s.len() - i,
{
    if i < 0 || start < 0 || start > i {
        seq![]
    } else if i >= s.len() {
        seq![s.subrange(start, s.len() as int)]
    } else if s[i] == sep {
        seq![s.subrange(start, i)] + split_from(s, sep, i + 1, i + 1)
    } else {
        split_from(s, sep, i + 1, start)
    }
}

/// The fields of `s` split on `sep`. An empty input is one empty field;
/// every separator begins a further field.
pub open spec fn spec_split(s: Seq<char>, sep: char) -> Seq<Seq<char>> {
    split_from(s, sep, 0, 0)
}

/// Executable split, equal to [`spec_split`].
pub fn split_char(s: &[char], sep: char) -> (r: Vec<Vec<char>>)
    ensures
        r.deep_view() == spec_split(s@, sep),
{
    let mut r: Vec<Vec<char>> = Vec::new();
    let mut start: usize = 0;
    let mut i: usize = 0;
    while i < s.len()
        invariant
            0 <= start <= i <= s@.len(),
            spec_split(s@, sep) == r.deep_view() + split_from(s@, sep, i as int, start as int),
        decreases s@.len() - i,
    {
        if s[i] == sep {
            let field = vstd::slice::slice_to_vec(vstd::slice::slice_subrange(s, start, i));
            let ghost old_r = r.deep_view();
            r.push(field);
            proof {
                assert(r.deep_view() =~~= old_r + seq![s@.subrange(start as int, i as int)]);
                assert(r.deep_view() + split_from(s@, sep, i + 1, i + 1) =~~= old_r + split_from(
                    s@,
                    sep,
                    i as int,
                    start as int,
                ));
            }
            start = i + 1;
        }
        i += 1;
    }
    let field = vstd::slice::slice_to_vec(vstd::slice::slice_subrange(s, start, s.len()));
    let ghost old_r = r.deep_view();
    r.push(field);
    proof {
        assert(r.deep_view() =~~= old_r + seq![s@.subrange(start as int, s@.len() as int)]);
    }
    r
}

/// The whitespace-separated tokens of `s`, scanning from `i`; `start` is
/// the start of the token in progress, or equal to `i` outside a token.
pub open spec fn tokens_from(s: Seq<char>, i: int, start: int, in_tok: bool) -> Seq<Seq<char>>
    recommends
        0 <= start <= i <= s.len(),
    decreases s.len() - i,
{
    if i < 0 || start < 0 || start > i {
        seq![]
    } else if i >= s.len() {
        if in_tok {
            seq![s.subrange(start, s.len() as int)]
        } else {
            seq![]
        }
    } else if is_ws(s[i]) {
        if in_tok {
            seq![s.subrange(start, i)] + tokens_from(s, i + 1, i + 1, false)
        } else {
            tokens_from(s, i + 1, i + 1, false)
        }
    } else {
        tokens_from(s, i + 1, start, true)
    }
}

/// The maximal runs of non-whitespace characters in `s`, in order.
pub open spec fn spec_tokens(s: Seq<char>) -> Seq<Seq<char>> {
    tokens_from(s, 0, 0, false)
}

/// Executable whitespace tokenization, equal to [`spec_tokens`].
pub fn split_ws(s: &[char]) -> (r: Vec<Vec<char>>)
    ensures
        r.deep_view() == spec_tokens(s@),
{
    let mut r: Vec<Vec<char>> = Vec::new();
    let mut start: usize = 0;
    let mut i: usize = 0;
    let mut in_tok: bool = false;
    while i < s.len()
        invariant
            0 <= start <= i <= s@.len(),
            spec_tokens(s@) == r.deep_view() + tokens_from(
                s@,
                i as int,
                start as int,
                in_tok,
            ),
            !in_tok ==> start == i,
        decreases s@.len() - i,
    {
        if ws_char(s[i]) {
            if in_tok {
                let tok = vstd::slice::slice_to_vec(vstd::slice::slice_subrange(s, start, i));
                let ghost old_r = r.deep_view();
                r.push(tok);
                proof {
                    assert(r.deep_view() =~~= old_r + seq![s@.subrange(start as int, i as int)]);
                    assert(r.deep_view() + tokens_from(s@, i + 1, i + 1, false) =~= old_r
                        + tokens_from(s@, i as int, start as int, true));
                }
                in_tok = false;
            }
            start = i + 1;
        } else {
            in_tok = true;
        }
        i += 1;
    }
    if in_tok {
        let tok = vstd::slice::slice_to_vec(vstd::slice::slice_subrange(s, start, s.len()));
        let ghost old_r = r.deep_view();
        r.push(tok);
        proof {
            assert(r.deep_view() =~~= old_r + seq![s@.subrange(start as int, s@.len() as int)]);
        }
    }
    r
}

/// Equality of a character slice with a string slice's characters.
pub fn chars_eq_str(v: &[char], s: &str) -> (r: bool)
    ensures
        r == (v@ == s@),
{
    let n = s.unicode_len();
    if v.len() != n {
        proof {
            assert(v@.len() != s@.len());
        }
        return false;
    }
    let mut i: usize = 0;
    while i < n
        invariant
            0 <= i <= n,
            n == v@.len(),
            n == s@.len(),
            forall|j: int| 0 <= j < i ==> v@[j] == s@[j],
        decreases n - i,
    {
        if v[i] != s.get_char(i) {
            return false;
        }
        i += 1;
    }
    proof {
        assert(v@ =~= s@);
    }
    true
}

/// Equality of two character slices.
pub fn chars_eq(a: &[char], b: &[char]) -> (r: bool)
    ensures
        r == (a@ == b@),
{
    if a.len() != b.len() {
        return false;
    }
    let mut i: usize = 0;
    while i < a.len()
        invariant
            0 <= i <= a@.len(),
            a@.len() == b@.len(),
            forall|j: int| 0 <= j < i ==> a@[j] == b@[j],
        decreases a@.len() - i,
    {
        if a[i] != b[i] {
            return false;
        }
        i += 1;
    }
    proof {
        assert(a@ =~= b@);
    }
    true
}

/// The characters of a string slice, as a vector.
pub fn to_chars(s: &str) -> (r: Vec<char>)
    ensures
        r@ == s@,
{
    let n = s.unicode_len();
    let mut r: Vec<char> = Vec::new();
    let mut i: usize = 0;
    while i < n
        invariant
            0 <= i <= n,
            n == s@.len(),
            r@ =~= s@.subrange(0, i as int),
        decreases n - i,
    {
        r.push(s.get_char(i));
        proof {
            assert(r@ =~= s@.subrange(0, i + 1));
        }
        i += 1;
    }
    proof {
        assert(r@ =~= s@);
    }
    r
}

/// Relies on `String::from_iter` over `core::str::Chars`: collecting the
/// characters of the vector yields the string of exactly those characters.
#[verifier::external_body]
pub fn chars_to_string(v: &[char]) -> (r: String)
    ensures
        r@ == v@,
{
    v.iter().collect()
}

/// The lines of a text: split on `'\n'`, with one trailing `'\r'` removed
/// from each line, so both Unix and DOS line endings are accepted.
pub open spec fn strip_cr(s: Seq<char>) -> Seq<char> {
    if s.len() > 0 && s[s.len() - 1] == '\r' {
        s.drop_last()
    } else {
        s
    }
}

/// The lines of `s`; see [`strip_cr`].
pub open spec fn spec_lines(s: Seq<char>) -> Seq<Seq<char>> {
    spec_split(s, '\n').map_values(|l: Seq<char>| strip_cr(l))
}

/// Executable line splitting, equal to [`spec_lines`].
pub fn lines(s: &[char]) -> (r: Vec<Vec<char>>)
    ensures
        r.deep_view() == spec_lines(s@),
{
    let raw = split_char(s, '\n');
    let mut r: Vec<Vec<char>> = Vec::new();
    let mut i: usize = 0;
    while i < raw.len()
        invariant
            0 <= i <= raw@.len(),
            raw.deep_view() == spec_split(s@, '\n'),
            r.deep_view() =~= raw.deep_view().subrange(0, i as int).map_values(
                |l: Seq<char>| strip_cr(l),
            ),
        decreases raw@.len() - i,
    {
        let line = &raw[i];
        let ghost old_r = r.deep_view();
        if line.len() > 0 && line[line.len() - 1] == '\r' {
            r.push(vstd::slice::slice_to_vec(vstd::slice::slice_subrange(
                line.as_slice(),
                0,
                line.len() - 1,
            )));
            proof {
                assert(raw.deep_view()[i as int].drop_last() =~= raw.deep_view()[i as int].subrange(
                    0,
                    raw.deep_view()[i as int].len() - 1,
                ));
            }
        } else {
            r.push(vstd::slice::slice_to_vec(line.as_slice()));
        }
        proof {
            assert(r.deep_view() =~~= old_r + seq![strip_cr(raw.deep_view()[i as int])]);
            assert(r.deep_view() =~= raw.deep_view().subrange(0, i + 1).map_values(
                |l: Seq<char>| strip_cr(l),
            ));
        }
        i += 1;
    }
    proof {
        assert(raw.deep_view().subrange(0, raw.deep_view().len() as int) =~= raw.deep_view());
        assert(r.deep_view() =~= spec_lines(s@));
    }
    r
}

} // verus!
