//! The station-catalog decoder.
//!
//! The catalog text holds one or more tables separated by blank lines. Two
//! table layouts exist historically and are told apart per table, without a
//! version flag: when the third line of a table is a rule line (runs of `-`
//! separated by spaces), the run lengths define ten fixed-width columns;
//! otherwise each line splits on whitespace and exactly six tokens make a
//! record. A malformed line or table is skipped, never an error: the
//! decoder always returns the records of every well-shaped line, in source
//! order across tables.
use vstd::prelude::*;

use crate::numbers::float_token;
use crate::numbers::spec_float_or_zero;
use crate::numbers::spec_parse_i64;
use crate::numbers::parse_i64;
use crate::text::is_blank;
use crate::text::is_sentinel;
use crate::text::blank;
use crate::text::sentinel;
use crate::text::lines;
use crate::text::spec_lines;
use crate::text::spec_tokens;
use crate::text::split_ws;
use crate::text::spec_trim;
use crate::text::trim;
use crate::text::to_chars;
use crate::text::chars_to_string;

verus! {

broadcast use crate::text::lemma_vec_char_deep_view;

/// One row of the station catalog, as the decoder's contracts see it.
/// Numeric coordinate cells stay textual: the decoders never compute with
/// fractional numbers, so a coordinate is the accepted token itself (or
/// the canonical zero when the cell did not parse; see
/// [`spec_float_or_zero`]).
#[verifier::ext_equal]
pub struct SpecStation {
    pub id: Seq<char>,
    pub icao: Option<Seq<char>>,
    pub name: Seq<char>,
    pub latitude: Seq<char>,
    pub longitude: Seq<char>,
    pub elevation: int,
    pub cluster_id: int,
    pub coefficient: Option<int>,
    pub model_height: Option<int>,
    pub station_type: Seq<char>,
}

/// One row of the station catalog.
///
/// The first six fields exist in both catalog layouts; the last four come
/// from the later, fixed-width revision and hold their defaults for rows
/// of the whitespace layout. Latitude and longitude are kept as the raw
/// numeric token (`"0"` when the cell had no floating-point shape); the
/// serialization layer around the library turns them into numbers.
#[derive(Clone, Debug, PartialEq)]
pub struct MosmixStation {
    pub id: String,
    pub icao: Option<String>,
    pub name: String,
    pub latitude: String,
    pub longitude: String,
    pub elevation: i32,
    pub cluster_id: i64,
    pub coefficient: Option<u64>,
    pub model_height: Option<i64>,
    pub station_type: String,
}

impl DeepView for MosmixStation {
    type V = SpecStation;

    open spec fn deep_view(&self) -> SpecStation {
        SpecStation {
            id: self.id@,
            icao: match self.icao {
                Some(s) => Some(s@),
                None => None,
            },
            name: self.name@,
            latitude: self.latitude@,
            longitude: self.longitude@,
            elevation: self.elevation as int,
            cluster_id: self.cluster_id as int,
            coefficient: match self.coefficient {
                Some(c) => Some(c as int),
                None => None,
            },
            model_height: match self.model_height {
                Some(h) => Some(h as int),
                None => None,
            },
            station_type: self.station_type@,
        }
    }
}

/// A 32-bit integer cell: the token's value when it parses, zero
/// otherwise (a bad number defaults, it never rejects the row).
pub open spec fn spec_i32_or_zero(s: Seq<char>) -> int {
    match spec_parse_i64(s) {
        Some(v) => if i32::MIN <= v <= i32::MAX {
            v as int
        } else {
            0
        },
        None => 0,
    }
}

/// A 64-bit integer cell with the same default-to-zero policy.
pub open spec fn spec_i64_or_zero(s: Seq<char>) -> int {
    match spec_parse_i64(s) {
        Some(v) => v as int,
        None => 0,
    }
}

/// An optional unsigned cell: absent when the token is not a
/// non-negative integer.
pub open spec fn spec_opt_unsigned(s: Seq<char>) -> Option<int> {
    match spec_parse_i64(s) {
        Some(v) => if v >= 0 {
            Some(v as int)
        } else {
            None
        },
        None => None,
    }
}

/// An optional integer cell: absent when the token is not an integer.
pub open spec fn spec_opt_int(s: Seq<char>) -> Option<int> {
    match spec_parse_i64(s) {
        Some(v) => Some(v as int),
        None => None,
    }
}

/// The tables of the catalog: maximal runs of non-blank lines. The scan
/// state mirrors the tokenizer's: lines before `start` are done, the table
/// in progress began at `start` when `in_tbl` holds.
pub open spec fn tables_from(ls: Seq<Seq<char>>, i: int, start: int, in_tbl: bool) -> Seq<
    Seq<Seq<char>>,
>
    recommends
        0 <= start <= i <= ls.len(),
    decreases ls.len() - i,
{
    if i < 0 || start < 0 || start > i {
        seq![]
    } else if i >= ls.len() {
        if in_tbl {
            seq![ls.subrange(start, ls.len() as int)]
        } else {
            seq![]
        }
    } else if is_blank(ls[i]) {
        if in_tbl {
            seq![ls.subrange(start, i)] + tables_from(ls, i + 1, i + 1, false)
        } else {
            tables_from(ls, i + 1, i + 1, false)
        }
    } else {
        tables_from(ls, i + 1, start, true)
    }
}

/// The tables of a catalog text.
pub open spec fn spec_tables(s: Seq<char>) -> Seq<Seq<Seq<char>>> {
    tables_from(spec_lines(s), 0, 0, false)
}

/// A rule line: at least one `-`, and nothing but `-` and spaces.
pub open spec fn is_rule_line(l: Seq<char>) -> bool {
    (exists|i: int| 0 <= i < l.len() && l[i] == '-') && (forall|i: int|
        0 <= i < l.len() ==> l[i] == '-' || l[i] == ' ')
}

/// Executable twin of [`is_rule_line`].
pub fn rule_line(l: &[char]) -> (r: bool)
    ensures
        r == is_rule_line(l@),
{
    let mut i: usize = 0;
    let mut seen_dash = false;
    while i < l.len()
        invariant
            0 <= i <= l@.len(),
            forall|j: int| 0 <= j < i ==> l@[j] == '-' || l@[j] == ' ',
            seen_dash == (exists|j: int| 0 <= j < i && l@[j] == '-'),
        decreases l@.len() - i,
    {
        if l[i] == '-' {
            seen_dash = true;
        } else if l[i] != ' ' {
            assert(!(forall|j: int| 0 <= j < l@.len() ==> l@[j] == '-' || l@[j] == ' ')) by {
                assert(!(l@[i as int] == '-' || l@[i as int] == ' '));
            };
            return false;
        }
        i += 1;
    }
    seen_dash
}

/// The record of one whitespace-layout line: exactly six tokens make a
/// station, any other token count makes nothing.
pub open spec fn ws_record(l: Seq<char>) -> Option<SpecStation> {
    let t = spec_tokens(l);
    if t.len() == 6 {
        Some(
            SpecStation {
                id: t[0],
                icao: if is_sentinel(t[1]) {
                    None
                } else {
                    Some(t[1])
                },
                name: t[2],
                latitude: spec_float_or_zero(t[3]),
                longitude: spec_float_or_zero(t[4]),
                elevation: spec_i32_or_zero(t[5]),
                cluster_id: 0,
                coefficient: None,
                model_height: None,
                station_type: Seq::empty(),
            },
        )
    } else {
        None
    }
}

/// The records of a whitespace-layout table from line `i` on; decoding
/// skips the two heading lines, so it starts at 2.
pub open spec fn ws_records_from(table: Seq<Seq<char>>, i: int) -> Seq<SpecStation>
    decreases table.len() - i,
{
    if i < 0 || i >= table.len() {
        seq![]
    } else {
        match ws_record(table[i]) {
            Some(r) => seq![r] + ws_records_from(table, i + 1),
            None => ws_records_from(table, i + 1),
        }
    }
}

/// The start of fixed-width column `k`: every earlier column's width plus
/// one separating column.
pub open spec fn col_offset(widths: Seq<Seq<char>>, k: int) -> int
    decreases k,
{
    if k <= 0 {
        0
    } else {
        col_offset(widths, k - 1) + widths[k - 1].len() + 1
    }
}

/// A fixed-width line is sliced whole only when its last column still
/// lies within it.
pub open spec fn fixed_fits(l: Seq<char>, widths: Seq<Seq<char>>) -> bool {
    col_offset(widths, 9) + widths[9].len() <= l.len()
}

/// Fixed-width column `k` of a line, trimmed.
pub open spec fn fixed_field(l: Seq<char>, widths: Seq<Seq<char>>, k: int) -> Seq<char> {
    spec_trim(l.subrange(col_offset(widths, k), col_offset(widths, k) + widths[k].len()))
}

/// The record of one fixed-width line: ten sliced fields, or nothing when
/// the line would run past its own length.
pub open spec fn fixed_record(l: Seq<char>, widths: Seq<Seq<char>>) -> Option<SpecStation> {
    if fixed_fits(l, widths) {
        Some(
            SpecStation {
                id: fixed_field(l, widths, 2),
                icao: if is_sentinel(fixed_field(l, widths, 3)) {
                    None
                } else {
                    Some(fixed_field(l, widths, 3))
                },
                name: fixed_field(l, widths, 4),
                latitude: spec_float_or_zero(fixed_field(l, widths, 5)),
                longitude: spec_float_or_zero(fixed_field(l, widths, 6)),
                elevation: spec_i32_or_zero(fixed_field(l, widths, 7)),
                cluster_id: spec_i64_or_zero(fixed_field(l, widths, 0)),
                coefficient: spec_opt_unsigned(fixed_field(l, widths, 1)),
                model_height: spec_opt_int(fixed_field(l, widths, 8)),
                station_type: fixed_field(l, widths, 9),
            },
        )
    } else {
        None
    }
}

/// The records of a fixed-width table from line `i` on; decoding skips
/// the two heading lines and the rule line, so it starts at 3.
pub open spec fn fixed_records_from(table: Seq<Seq<char>>, widths: Seq<Seq<char>>, i: int) -> Seq<
    SpecStation,
>
    decreases table.len() - i,
{
    if i < 0 || i >= table.len() {
        seq![]
    } else {
        match fixed_record(table[i], widths) {
            Some(r) => seq![r] + fixed_records_from(table, widths, i + 1),
            None => fixed_records_from(table, widths, i + 1),
        }
    }
}

/// The records of one table. The layout is probed structurally: a rule
/// line as the third line selects the fixed-width layout, whose rule line
/// must yield exactly ten segments, or the table is skipped wholesale;
/// any other table decodes whitespace-tokenized.
pub open spec fn table_records(table: Seq<Seq<char>>) -> Seq<SpecStation> {
    if table.len() > 2 && is_rule_line(table[2]) {
        let widths = spec_tokens(table[2]);
        if widths.len() == 10 {
            fixed_records_from(table, widths, 3)
        } else {
            seq![]
        }
    } else {
        ws_records_from(table, 2)
    }
}

/// The records of the tables from `i` on, in source order.
pub open spec fn catalog_from(tables: Seq<Seq<Seq<char>>>, i: int) -> Seq<SpecStation>
    decreases tables.len() - i,
{
    if i < 0 || i >= tables.len() {
        seq![]
    } else {
        table_records(tables[i]) + catalog_from(tables, i + 1)
    }
}

/// What decoding a station catalog yields.
pub open spec fn spec_catalog(s: Seq<char>) -> Seq<SpecStation> {
    catalog_from(spec_tables(s), 0)
}

/// A 32-bit integer cell with default zero; see [`spec_i32_or_zero`].
fn i32_or_zero(t: &[char]) -> (r: i32)
    ensures
        r as int == spec_i32_or_zero(t@),
{
    match parse_i64(t) {
        Some(v) => if i32::MIN as i64 <= v && v <= i32::MAX as i64 {
            v as i32
        } else {
            0
        },
        None => 0,
    }
}

/// A 64-bit integer cell with default zero; see [`spec_i64_or_zero`].
fn i64_or_zero(t: &[char]) -> (r: i64)
    ensures
        r as int == spec_i64_or_zero(t@),
{
    match parse_i64(t) {
        Some(v) => v,
        None => 0,
    }
}

/// An optional unsigned cell; see [`spec_opt_unsigned`].
fn opt_unsigned(t: &[char]) -> (r: Option<u64>)
    ensures
        match r {
            Some(v) => spec_opt_unsigned(t@) == Some(v as int),
            None => spec_opt_unsigned(t@) is None,
        },
{
    match parse_i64(t) {
        Some(v) => if v >= 0 {
            Some(v as u64)
        } else {
            None
        },
        None => None,
    }
}

/// An optional integer cell; see [`spec_opt_int`].
fn opt_int(t: &[char]) -> (r: Option<i64>)
    ensures
        match r {
            Some(v) => spec_opt_int(t@) == Some(v as int),
            None => spec_opt_int(t@) is None,
        },
{
    parse_i64(t)
}

/// A numeric coordinate cell; see [`spec_float_or_zero`].
fn float_or_zero(t: &[char]) -> (r: String)
    ensures
        r@ == spec_float_or_zero(t@),
{
    if float_token(t) {
        chars_to_string(t)
    } else {
        String::from_str("0")
    }
}

/// Decode one whitespace-layout line, exactly as [`ws_record`] states.
fn decode_ws_line(l: &[char]) -> (r: Option<MosmixStation>)
    ensures
        match r {
            Some(st) => ws_record(l@) == Some(st.deep_view()),
            None => ws_record(l@) is None,
        },
{
    let toks = split_ws(l);
    if toks.len() != 6 {
        return None;
    }
    let icao = if sentinel(toks[1].as_slice()) {
        None
    } else {
        Some(chars_to_string(toks[1].as_slice()))
    };
    let st = MosmixStation {
        id: chars_to_string(toks[0].as_slice()),
        icao,
        name: chars_to_string(toks[2].as_slice()),
        latitude: float_or_zero(toks[3].as_slice()),
        longitude: float_or_zero(toks[4].as_slice()),
        elevation: i32_or_zero(toks[5].as_slice()),
        cluster_id: 0,
        coefficient: None,
        model_height: None,
        station_type: String::new(),
    };
    proof {
        assert(toks.deep_view()[0] == spec_tokens(l@)[0]);
        assert(toks.deep_view()[1] == spec_tokens(l@)[1]);
        assert(toks.deep_view()[2] == spec_tokens(l@)[2]);
        assert(toks.deep_view()[3] == spec_tokens(l@)[3]);
        assert(toks.deep_view()[4] == spec_tokens(l@)[4]);
        assert(toks.deep_view()[5] == spec_tokens(l@)[5]);
        assert(st.deep_view() =~= ws_record(l@)->Some_0);
    }
    Some(st)
}

/// Offsets grow along the columns: a later column begins and ends
/// strictly after an earlier one ends.
proof fn lemma_col_offset_monotone(widths: Seq<Seq<char>>, j: int, k: int)
    requires
        0 <= j <= k,
    ensures
        col_offset(widths, j) + widths[j].len() <= col_offset(widths, k) + widths[k].len(),
        col_offset(widths, j) <= col_offset(widths, k),
    decreases k - j,
{
    if j < k {
        lemma_col_offset_monotone(widths, j + 1, k);
    }
}

/// Decode one fixed-width line, exactly as [`fixed_record`] states.
#[verifier::loop_isolation(false)]
fn decode_fixed_line(l: &[char], widths: &Vec<Vec<char>>) -> (r: Option<MosmixStation>)
    requires
        widths@.len() == 10,
    ensures
        match r {
            Some(st) => fixed_record(l@, widths.deep_view()) == Some(st.deep_view()),
            None => fixed_record(l@, widths.deep_view()) is None,
        },
{
    let ghost w = widths.deep_view();
    // Slice the ten columns, dropping the line as soon as one would run
    // past its end.
    let mut fields: Vec<Vec<char>> = Vec::new();
    let mut off: usize = 0;
    let mut k: usize = 0;
    while k < 10
        invariant
            0 <= k <= 10,
            fields@.len() == k,
            k < 10 ==> off == col_offset(w, k as int),
            off <= l@.len(),
            forall|j: int| 0 <= j < k ==> (#[trigger] fields@[j])@ == fixed_field(l@, w, j),
            k > 0 ==> col_offset(w, k - 1) + w[k - 1].len() <= l@.len(),
        decreases 10 - k,
    {
        let wk = widths[k].len();
        if wk > l.len() - off {
            // This column runs past the line: the line is dropped.
            proof {
                lemma_col_offset_monotone(w, k as int, 9);
                assert(!fixed_fits(l@, w));
            }
            return None;
        }
        let f = trim(vstd::slice::slice_subrange(l, off, off + wk));
        fields.push(f);
        proof {
            assert(fields@[k as int]@ == fixed_field(l@, w, k as int));
        }
        if k < 9 {
            if l.len() - off - wk == 0 {
                // The separating column after this one already passes the
                // end, so the next column cannot fit.
                proof {
                    assert(col_offset(w, k + 1) > l@.len());
                    lemma_col_offset_monotone(w, k + 1, 9);
                    assert(!fixed_fits(l@, w));
                }
                return None;
            }
            off = off + wk + 1;
        }
        k += 1;
    }
    proof {
        assert(fixed_fits(l@, w));
    }
    let icao_f = &fields[3];
    let icao = if sentinel(icao_f.as_slice()) {
        None
    } else {
        Some(chars_to_string(icao_f.as_slice()))
    };
    let st = MosmixStation {
        id: chars_to_string(fields[2].as_slice()),
        icao,
        name: chars_to_string(fields[4].as_slice()),
        latitude: float_or_zero(fields[5].as_slice()),
        longitude: float_or_zero(fields[6].as_slice()),
        elevation: i32_or_zero(fields[7].as_slice()),
        cluster_id: i64_or_zero(fields[0].as_slice()),
        coefficient: opt_unsigned(fields[1].as_slice()),
        model_height: opt_int(fields[8].as_slice()),
        station_type: chars_to_string(fields[9].as_slice()),
    };
    proof {
        assert(st.deep_view() =~= fixed_record(l@, w)->Some_0);
    }
    Some(st)
}

/// Decode one table, exactly as [`table_records`] states.
#[verifier::loop_isolation(false)]
fn decode_table(table: &Vec<Vec<char>>) -> (r: Vec<MosmixStation>)
    ensures
        r.deep_view() == table_records(table.deep_view()),
{
    let ghost t = table.deep_view();
    let mut r: Vec<MosmixStation> = Vec::new();
    if table.len() > 2 && rule_line(table[2].as_slice()) {
        let widths = split_ws(table[2].as_slice());
        if widths.len() != 10 {
            proof {
                assert(r.deep_view() =~= table_records(t));
            }
            return r;
        }
        let mut i: usize = 3;
        while i < table.len()
            invariant
                3 <= i <= t.len(),
                fixed_records_from(t, widths.deep_view(), 3) =~= r.deep_view()
                    + fixed_records_from(t, widths.deep_view(), i as int),
            decreases t.len() - i,
        {
            let ghost old_r = r.deep_view();
            match decode_fixed_line(table[i].as_slice(), &widths) {
                Some(st) => {
                    r.push(st);
                    proof {
                        assert(r.deep_view() =~= old_r + seq![st.deep_view()]);
                    }
                },
                None => {},
            }
            i += 1;
        }
        proof {
            assert(r.deep_view() =~= table_records(t));
        }
        r
    } else {
        let mut i: usize = 2;
        if table.len() < 2 {
            proof {
                assert(ws_records_from(t, 2) =~= Seq::<SpecStation>::empty());
                assert(r.deep_view() =~= table_records(t));
            }
            return r;
        }
        while i < table.len()
            invariant
                2 <= i <= t.len(),
                ws_records_from(t, 2) =~= r.deep_view() + ws_records_from(t, i as int),
            decreases t.len() - i,
        {
            let ghost old_r = r.deep_view();
            match decode_ws_line(table[i].as_slice()) {
                Some(st) => {
                    r.push(st);
                    proof {
                        assert(r.deep_view() =~= old_r + seq![st.deep_view()]);
                    }
                },
                None => {},
            }
            i += 1;
        }
        proof {
            assert(r.deep_view() =~= table_records(t));
        }
        r
    }
}

/// Group the catalog's lines into tables, exactly as [`tables_from`]
/// states.
#[verifier::loop_isolation(false)]
fn group_tables(ls: &Vec<Vec<char>>) -> (r: Vec<Vec<Vec<char>>>)
    ensures
        r.deep_view() == tables_from(ls.deep_view(), 0, 0, false),
{
    let ghost lv = ls.deep_view();
    let mut r: Vec<Vec<Vec<char>>> = Vec::new();
    let mut cur: Vec<Vec<char>> = Vec::new();
    let mut start: usize = 0;
    let mut i: usize = 0;
    let mut in_tbl: bool = false;
    while i < ls.len()
        invariant
            0 <= start <= i <= lv.len(),
            lv == ls.deep_view(),
            cur.deep_view() =~= lv.subrange(start as int, i as int),
            !in_tbl ==> start == i,
            tables_from(lv, 0, 0, false) == r.deep_view() + tables_from(
                lv,
                i as int,
                start as int,
                in_tbl,
            ),
        decreases lv.len() - i,
    {
        if blank(ls[i].as_slice()) {
            if in_tbl {
                let ghost old_r = r.deep_view();
                let done = cur;
                cur = Vec::new();
                r.push(done);
                proof {
                    assert(r.deep_view() =~~= old_r + seq![lv.subrange(start as int, i as int)]);
                    assert(r.deep_view() + tables_from(lv, i + 1, i + 1, false) =~~= old_r
                        + tables_from(lv, i as int, start as int, true));
                }
                in_tbl = false;
            }
            start = i + 1;
        } else {
            cur.push(vstd::slice::slice_to_vec(ls[i].as_slice()));
            proof {
                assert(cur.deep_view() =~~= lv.subrange(start as int, i + 1));
            }
            in_tbl = true;
        }
        i += 1;
    }
    if in_tbl {
        let ghost old_r = r.deep_view();
        r.push(cur);
        proof {
            assert(r.deep_view() =~~= old_r + seq![lv.subrange(start as int, lv.len() as int)]);
        }
    }
    r
}

/// Decode a station catalog: the records of every well-shaped line of
/// every table, in source order. This never fails; unparseable input
/// yields an empty sequence.
#[verifier::loop_isolation(false)]
pub fn parse_mosmix_cfg(data: &str) -> (r: Vec<MosmixStation>)
    ensures
        r.deep_view() == spec_catalog(data@),
{
    let chars = to_chars(data);
    let ls = lines(chars.as_slice());
    let tables = group_tables(&ls);
    let ghost tv = tables.deep_view();
    let mut r: Vec<MosmixStation> = Vec::new();
    let mut i: usize = 0;
    while i < tables.len()
        invariant
            0 <= i <= tv.len(),
            tv == tables.deep_view(),
            catalog_from(tv, 0) =~= r.deep_view() + catalog_from(tv, i as int),
        decreases tv.len() - i,
    {
        let ghost old_r = r.deep_view();
        let mut recs = decode_table(&tables[i]);
        let ghost recs_v = recs.deep_view();
        r.append(&mut recs);
        proof {
            assert(r.deep_view() =~= old_r + recs_v);
            assert(r.deep_view() + catalog_from(tv, i + 1) =~= old_r + catalog_from(tv, i as int));
        }
        i += 1;
    }
    proof {
        assert(r.deep_view() =~= spec_catalog(data@));
    }
    r
}

/// A whitespace-layout line yields exactly one record when it has exactly
/// six tokens, and no record for any other token count.
pub proof fn lemma_ws_line_record(l: Seq<char>)
    ensures
        (ws_record(l) is Some) <==> spec_tokens(l).len() == 6,
{
}

/// A fixed-width line yields exactly one record when its ten columns lie
/// within it, and no record otherwise.
pub proof fn lemma_fixed_line_record(l: Seq<char>, widths: Seq<Seq<char>>)
    ensures
        (fixed_record(l, widths) is Some) <==> fixed_fits(l, widths),
{
}

/// A table whose rule line does not yield exactly ten segments is skipped
/// wholesale.
pub proof fn lemma_bad_rule_line_skips_table(table: Seq<Seq<char>>)
    requires
        table.len() > 2,
        is_rule_line(table[2]),
        spec_tokens(table[2]).len() != 10,
    ensures
        table_records(table) == Seq::<SpecStation>::empty(),
{
    assert(table_records(table) =~= Seq::<SpecStation>::empty());
}

/// The number of lines of a whitespace-layout table, from `i` on, with
/// exactly six tokens.
pub open spec fn ws_valid_lines(table: Seq<Seq<char>>, i: int) -> int
    decreases table.len() - i,
{
    if i < 0 || i >= table.len() {
        0
    } else {
        (if spec_tokens(table[i]).len() == 6 {
            1int
        } else {
            0int
        }) + ws_valid_lines(table, i + 1)
    }
}

/// A whitespace-layout table yields one record per six-token line beyond
/// the two heading lines, and nothing else.
pub proof fn lemma_ws_one_record_per_valid_line(table: Seq<Seq<char>>, i: int)
    ensures
        ws_records_from(table, i).len() == ws_valid_lines(table, i),
    decreases table.len() - i,
{
    if 0 <= i && i < table.len() {
        lemma_ws_one_record_per_valid_line(table, i + 1);
    }
}

/// The number of lines of a fixed-width table, from `i` on, whose ten
/// columns lie within them.
pub open spec fn fixed_valid_lines(table: Seq<Seq<char>>, widths: Seq<Seq<char>>, i: int) -> int
    decreases table.len() - i,
{
    if i < 0 || i >= table.len() {
        0
    } else {
        (if fixed_fits(table[i], widths) {
            1int
        } else {
            0int
        }) + fixed_valid_lines(table, widths, i + 1)
    }
}

/// A fixed-width table yields one record per line that its ten columns
/// fit into, beyond the two heading lines and the rule line, and
/// nothing else.
pub proof fn lemma_fixed_one_record_per_valid_line(
    table: Seq<Seq<char>>,
    widths: Seq<Seq<char>>,
    i: int,
)
    ensures
        fixed_records_from(table, widths, i).len() == fixed_valid_lines(table, widths, i),
    decreases table.len() - i,
{
    if 0 <= i && i < table.len() {
        lemma_fixed_one_record_per_valid_line(table, widths, i + 1);
    }
}

/// Decoding a catalog is idempotent: the same text always yields the
/// same records — the decoder holds no hidden state.
pub proof fn lemma_catalog_deterministic(s: Seq<char>, a: Seq<SpecStation>, b: Seq<SpecStation>)
    requires
        a == spec_catalog(s),
        b == spec_catalog(s),
    ensures
        a == b,
{
}

} // verus!
