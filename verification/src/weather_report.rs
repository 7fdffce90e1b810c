//! The observation-report decoder.
//!
//! A report is semicolon-delimited text, read positionally: the first row
//! names the properties, the second gives one unit per property, the third
//! is free-text commentary and is discarded, and every further row holds
//! one timestamped set of values. The first two columns of every row are
//! the reserved date and time columns. A missing header or unit row, or a
//! unit row that does not pair exactly one unit with each property, is a
//! structural error; a malformed data row is dropped and decoding goes on.
use vstd::prelude::*;

use crate::errors::DwdError;
use crate::numbers::is_float_token;
use crate::numbers::float_token;
use crate::numbers::spec_decomma;
use crate::numbers::decomma;
use crate::text::is_sentinel;
use crate::text::sentinel;
use crate::text::lines;
use crate::text::spec_lines;
use crate::text::spec_split;
use crate::text::split_char;
use crate::text::to_chars;
use crate::text::chars_eq;
use crate::text::chars_to_string;
use crate::timestamp::report_ms;
use crate::timestamp::parse_report_ms;

verus! {

broadcast use crate::text::lemma_vec_char_deep_view;

/// One value cell of a report row: numeric text (with the decimal comma
/// already replaced by a point), or the raw text as it stood.
pub enum SpecReportValue {
    Num(Seq<char>),
    Text(Seq<char>),
}

/// One data row, as the decoder's contracts see it.
#[verifier::ext_equal]
pub struct SpecReportRow {
    pub timestamp: int,
    pub values: Seq<(Seq<char>, SpecReportValue)>,
}

/// A decoded report, as the decoder's contracts see it.
#[verifier::ext_equal]
pub struct SpecReport {
    pub units: Seq<(Seq<char>, Seq<char>)>,
    pub data: Seq<SpecReportRow>,
}

/// One value cell of a report row. A cell that parses as a number once
/// its decimal comma is replaced by a point is kept as that numeric
/// token; any other cell is kept as raw text. The serialization layer
/// around the library turns numeric tokens into numbers.
#[derive(Clone, Debug, PartialEq)]
pub enum ReportValue {
    Num(String),
    Text(String),
}

impl DeepView for ReportValue {
    type V = SpecReportValue;

    open spec fn deep_view(&self) -> SpecReportValue {
        match self {
            ReportValue::Num(s) => SpecReportValue::Num(s@),
            ReportValue::Text(s) => SpecReportValue::Text(s@),
        }
    }
}

/// One data row: its epoch-millisecond timestamp and, in column order,
/// one `(property, value)` pair for every reported cell. A cell holding
/// the undefined sentinel is absent from the pairs altogether.
#[derive(Clone, Debug, PartialEq)]
pub struct ReportRow {
    pub timestamp: i64,
    pub values: Vec<(String, ReportValue)>,
}

impl DeepView for ReportRow {
    type V = SpecReportRow;

    open spec fn deep_view(&self) -> SpecReportRow {
        SpecReportRow { timestamp: self.timestamp as int, values: self.values.deep_view() }
    }
}

/// A decoded observation report: the unit of every property, and the
/// data rows in source order.
#[derive(Clone, Debug, PartialEq)]
pub struct WeatherReport {
    pub units: Vec<(String, String)>,
    pub data: Vec<ReportRow>,
}

impl DeepView for WeatherReport {
    type V = SpecReport;

    open spec fn deep_view(&self) -> SpecReport {
        SpecReport { units: self.units.deep_view(), data: self.data.deep_view() }
    }
}

/// The rows of the report text: one per line, split on `;`, with one
/// trailing empty line (from a final newline) not counted as a row.
pub open spec fn spec_rows(s: Seq<char>) -> Seq<Seq<Seq<char>>> {
    let ls = spec_lines(s);
    let ls2 = if ls.len() > 0 && ls.last().len() == 0 {
        ls.drop_last()
    } else {
        ls
    };
    ls2.map_values(|l: Seq<char>| spec_split(l, ';'))
}

/// A row's cells beyond the two reserved columns.
pub open spec fn skip_reserved(cells: Seq<Seq<char>>) -> Seq<Seq<char>> {
    if cells.len() >= 2 {
        cells.skip(2)
    } else {
        seq![]
    }
}

/// No property name repeats.
pub open spec fn distinct_props(props: Seq<Seq<char>>) -> bool {
    forall|i: int, j: int| 0 <= i < j < props.len() ==> props[i] != props[j]
}

/// What one value cell decodes to; see [`ReportValue`].
pub open spec fn spec_cell_value(cell: Seq<char>) -> SpecReportValue {
    if is_float_token(spec_decomma(cell)) {
        SpecReportValue::Num(spec_decomma(cell))
    } else {
        SpecReportValue::Text(cell)
    }
}

/// The pairs of one data row from column `j` on: sentinel cells are
/// omitted, every other cell pairs with its property.
pub open spec fn row_values_from(props: Seq<Seq<char>>, cells: Seq<Seq<char>>, j: int) -> Seq<
    (Seq<char>, SpecReportValue),
>
    decreases cells.len() - j,
{
    if j < 2 || j >= cells.len() {
        seq![]
    } else {
        let rest = row_values_from(props, cells, j + 1);
        if is_sentinel(cells[j]) {
            rest
        } else {
            seq![(props[j - 2], spec_cell_value(cells[j]))] + rest
        }
    }
}

/// What one data row decodes to: nothing when the row has no parseable
/// date and time, or more value cells than there are properties; the
/// timestamped pairs otherwise. A row with fewer value cells than
/// properties simply leaves the trailing properties unreported.
pub open spec fn spec_data_row(props: Seq<Seq<char>>, cells: Seq<Seq<char>>) -> Option<
    SpecReportRow,
> {
    if cells.len() < 2 || cells.len() > props.len() + 2 {
        None
    } else {
        match report_ms(cells[0], cells[1]) {
            Some(ts) => Some(SpecReportRow { timestamp: ts, values: row_values_from(props, cells, 2) }),
            None => None,
        }
    }
}

/// The decoded data rows from row `i` on; decoding starts at 3, past the
/// header, unit and commentary rows.
pub open spec fn spec_data_from(props: Seq<Seq<char>>, rows: Seq<Seq<Seq<char>>>, i: int) -> Seq<
    SpecReportRow,
>
    decreases rows.len() - i,
{
    if i < 0 || i >= rows.len() {
        seq![]
    } else {
        match spec_data_row(props, rows[i]) {
            Some(r) => seq![r] + spec_data_from(props, rows, i + 1),
            None => spec_data_from(props, rows, i + 1),
        }
    }
}

/// What decoding an observation report yields: the unit table and data
/// rows, or the one structural error the text earns. No header row at
/// all, no unit row, and a unit row that does not pair exactly one unit
/// with each distinct property are each their own error; nothing else
/// fails.
pub open spec fn spec_report(s: Seq<char>) -> Result<SpecReport, DwdError> {
    let rows = spec_rows(s);
    if rows.len() == 0 {
        Err(DwdError::NoHeaderRow)
    } else if rows.len() == 1 {
        Err(DwdError::NoUnitRow)
    } else {
        let props = skip_reserved(rows[0]);
        let units = skip_reserved(rows[1]);
        if units.len() != props.len() || !distinct_props(props) {
            Err(DwdError::UnitMismatch)
        } else {
            Ok(
                SpecReport {
                    units: Seq::new(props.len(), |i: int| (props[i], units[i])),
                    data: spec_data_from(props, rows, 3),
                },
            )
        }
    }
}

/// A station identifier as the upstream report locator expects it:
/// right-padded with underscores to at least five characters.
pub open spec fn spec_pad_station(s: Seq<char>) -> Seq<char> {
    if s.len() >= 5 {
        s
    } else {
        s + Seq::new((5 - s.len()) as nat, |i: int| '_')
    }
}

/// Pad a station identifier, exactly as [`spec_pad_station`] states.
#[verifier::loop_isolation(false)]
pub fn pad_station_id(id: &str) -> (r: String)
    ensures
        r@ == spec_pad_station(id@),
{
    let mut v = to_chars(id);
    if v.len() >= 5 {
        return chars_to_string(v.as_slice());
    }
    proof {
        assert(v@ =~= id@ + Seq::new(0, |i: int| '_'));
    }
    while v.len() < 5
        invariant
            v@.len() >= id@.len(),
            id@.len() < 5 ==> v@.len() <= 5,
            v@ =~= id@ + Seq::new((v@.len() - id@.len()) as nat, |i: int| '_'),
        decreases 5 - v@.len(),
    {
        v.push('_');
        proof {
            assert(v@ =~= id@ + Seq::new((v@.len() - id@.len()) as nat, |i: int| '_'));
        }
    }
    proof {
        assert(v@ =~= spec_pad_station(id@));
    }
    chars_to_string(v.as_slice())
}

/// Decide [`distinct_props`].
fn all_distinct(props: &Vec<Vec<char>>) -> (r: bool)
    ensures
        r == distinct_props(props.deep_view()),
{
    let mut i: usize = 0;
    while i < props.len()
        invariant
            0 <= i <= props@.len(),
            forall|a: int, b: int| 0 <= a < b < i ==> props.deep_view()[a] != props.deep_view()[b],
        decreases props@.len() - i,
    {
        let mut j: usize = 0;
        while j < i
            invariant
                0 <= j <= i < props@.len(),
                forall|a: int, b: int|
                    0 <= a < b < i ==> props.deep_view()[a] != props.deep_view()[b],
                forall|a: int| 0 <= a < j ==> props.deep_view()[a] != props.deep_view()[i as int],
            decreases i - j,
        {
            if chars_eq(props[j].as_slice(), props[i].as_slice()) {
                assert(props.deep_view()[j as int] == props.deep_view()[i as int]);
                return false;
            }
            j += 1;
        }
        i += 1;
    }
    true
}

/// The cells beyond the two reserved columns, as owned vectors.
fn skip_reserved_exec(cells: &Vec<Vec<char>>) -> (r: Vec<Vec<char>>)
    ensures
        r.deep_view() == skip_reserved(cells.deep_view()),
{
    let mut r: Vec<Vec<char>> = Vec::new();
    if cells.len() < 2 {
        proof {
            assert(r.deep_view() =~~= skip_reserved(cells.deep_view()));
        }
        return r;
    }
    let mut j: usize = 2;
    while j < cells.len()
        invariant
            2 <= j <= cells@.len(),
            r.deep_view() =~= cells.deep_view().subrange(2, j as int),
        decreases cells@.len() - j,
    {
        let ghost old_r = r.deep_view();
        r.push(vstd::slice::slice_to_vec(cells[j].as_slice()));
        proof {
            assert(r.deep_view() =~~= old_r + seq![cells.deep_view()[j as int]]);
            assert(r.deep_view() =~= cells.deep_view().subrange(2, j + 1));
        }
        j += 1;
    }
    proof {
        assert(r.deep_view() =~= skip_reserved(cells.deep_view()));
    }
    r
}

/// Decode one data row, exactly as [`spec_data_row`] states.
#[verifier::loop_isolation(false)]
fn decode_data_row(props: &Vec<Vec<char>>, cells: &Vec<Vec<char>>) -> (r: Option<ReportRow>)
    ensures
        match r {
            Some(row) => spec_data_row(props.deep_view(), cells.deep_view()) == Some(
                row.deep_view(),
            ),
            None => spec_data_row(props.deep_view(), cells.deep_view()) is None,
        },
{
    let ghost pv = props.deep_view();
    let ghost cv = cells.deep_view();
    if cells.len() < 2 || cells.len() - 2 > props.len() {
        return None;
    }
    let ts = match parse_report_ms(cells[0].as_slice(), cells[1].as_slice()) {
        Some(ts) => ts,
        None => {
            return None;
        },
    };
    let mut values: Vec<(String, ReportValue)> = Vec::new();
    let mut j: usize = cells.len();
    // Build the pairs from the last column backwards, so each step
    // prepends and matches the spec's recursion head-on.
    while j > 2
        invariant
            2 <= j <= cv.len(),
            values.deep_view() =~= row_values_from(pv, cv, j as int),
        decreases j,
    {
        j -= 1;
        let cell = &cells[j];
        if !sentinel(cell.as_slice()) {
            let dc = decomma(cell.as_slice());
            let value = if float_token(dc.as_slice()) {
                ReportValue::Num(chars_to_string(dc.as_slice()))
            } else {
                ReportValue::Text(chars_to_string(cell.as_slice()))
            };
            let prop = chars_to_string(props[j - 2].as_slice());
            let ghost old_values = values.deep_view();
            values.insert(0, (prop, value));
            proof {
                assert(values.deep_view() =~~= seq![
                    (pv[j - 2], spec_cell_value(cv[j as int])),
                ] + old_values);
            }
        }
    }
    let row = ReportRow { timestamp: ts, values };
    proof {
        assert(row.deep_view() =~= spec_data_row(pv, cv)->Some_0);
    }
    Some(row)
}

/// Decode an observation report, exactly as [`spec_report`] states: the
/// unit of every property and the well-formed data rows on success, and
/// the one structural error the text earns otherwise — never a partial
/// report.
#[verifier::loop_isolation(false)]
pub fn parse_weather_report(report: &str) -> (r: Result<WeatherReport, DwdError>)
    ensures
        match r {
            Ok(rep) => spec_report(report@) == Ok::<SpecReport, DwdError>(rep.deep_view()),
            Err(e) => spec_report(report@) == Err::<SpecReport, DwdError>(e),
        },
{
    let chars = to_chars(report);
    let mut ls = lines(chars.as_slice());
    if ls.len() > 0 && ls[ls.len() - 1].len() == 0 {
        ls.pop();
        proof {
            assert(ls.deep_view() =~= spec_lines(report@).drop_last());
        }
    }
    let ghost lv = ls.deep_view();
    let ghost rows = spec_rows(report@);
    proof {
        assert(rows =~= lv.map_values(|l: Seq<char>| spec_split(l, ';')));
    }
    if ls.len() == 0 {
        return Err(DwdError::NoHeaderRow);
    }
    if ls.len() == 1 {
        return Err(DwdError::NoUnitRow);
    }
    let header = split_char(ls[0].as_slice(), ';');
    let unit_row = split_char(ls[1].as_slice(), ';');
    proof {
        assert(rows[0] == spec_split(lv[0], ';'));
        assert(rows[1] == spec_split(lv[1], ';'));
    }
    let props = skip_reserved_exec(&header);
    let units = skip_reserved_exec(&unit_row);
    if units.len() != props.len() || !all_distinct(&props) {
        return Err(DwdError::UnitMismatch);
    }
    let ghost pv = props.deep_view();
    // The unit table pairs each property with its unit, in header order.
    let mut unit_pairs: Vec<(String, String)> = Vec::new();
    let mut i: usize = 0;
    while i < props.len()
        invariant
            0 <= i <= pv.len(),
            units@.len() == pv.len(),
            unit_pairs.deep_view() =~= Seq::new(i as nat, |k: int| (pv[k], units.deep_view()[k])),
        decreases pv.len() - i,
    {
        let ghost old_pairs = unit_pairs.deep_view();
        unit_pairs.push(
            (chars_to_string(props[i].as_slice()), chars_to_string(units[i].as_slice())),
        );
        proof {
            assert(unit_pairs.deep_view() =~~= old_pairs + seq![
                (pv[i as int], units.deep_view()[i as int]),
            ]);
            assert(unit_pairs.deep_view() =~= Seq::new(
                (i + 1) as nat,
                |k: int| (pv[k], units.deep_view()[k]),
            ));
        }
        i += 1;
    }
    // The data rows, from the fourth row on.
    let mut data: Vec<ReportRow> = Vec::new();
    let mut i: usize = 3;
    if ls.len() < 3 {
        proof {
            assert(spec_data_from(pv, rows, 3) =~= Seq::<SpecReportRow>::empty());
        }
    }
    while i < ls.len()
        invariant
            3 <= i <= lv.len() || (i == 3 && lv.len() < 3),
            spec_data_from(pv, rows, 3) =~= data.deep_view() + spec_data_from(pv, rows, i as int),
        decreases lv.len() - i,
    {
        let cells = split_char(ls[i].as_slice(), ';');
        proof {
            assert(rows[i as int] == spec_split(lv[i as int], ';'));
        }
        let ghost old_data = data.deep_view();
        match decode_data_row(&props, &cells) {
            Some(row) => {
                data.push(row);
                proof {
                    assert(data.deep_view() =~= old_data + seq![row.deep_view()]);
                }
            },
            None => {},
        }
        i += 1;
    }
    let rep = WeatherReport { units: unit_pairs, data };
    proof {
        assert(rep.deep_view() =~= spec_report(report@)->Ok_0);
    }
    Ok(rep)
}

/// Every pair of a row's tail names the property of some later,
/// non-sentinel cell.
proof fn lemma_row_values_sources(props: Seq<Seq<char>>, cells: Seq<Seq<char>>, j: int)
    ensures
        forall|k: int|
            0 <= k < row_values_from(props, cells, j).len() ==> exists|c: int|
                j <= c < cells.len() && 2 <= c && !is_sentinel(cells[c])
                    && (#[trigger] row_values_from(props, cells, j)[k]).0 == props[c - 2],
    decreases cells.len() - j,
{
    if 2 <= j < cells.len() {
        lemma_row_values_sources(props, cells, j + 1);
        let r = row_values_from(props, cells, j);
        let rest = row_values_from(props, cells, j + 1);
        assert forall|k: int| 0 <= k < r.len() implies exists|c: int|
            j <= c < cells.len() && 2 <= c && !is_sentinel(cells[c]) && (#[trigger] r[k]).0
                == props[c - 2] by {
            if is_sentinel(cells[j]) {
                assert(r[k] == rest[k]);
                let c = choose|c: int|
                    j + 1 <= c < cells.len() && 2 <= c && !is_sentinel(cells[c]) && rest[k].0
                        == props[c - 2];
                assert(j <= c < cells.len() && !is_sentinel(cells[c]) && r[k].0 == props[c - 2]);
            } else {
                if k == 0 {
                    assert(r[0].0 == props[j - 2]);
                } else {
                    assert(r[k] == rest[k - 1]);
                    let c = choose|c: int|
                        j + 1 <= c < cells.len() && 2 <= c && !is_sentinel(cells[c]) && rest[k
                            - 1].0 == props[c - 2];
                    assert(j <= c < cells.len() && !is_sentinel(cells[c]) && r[k].0 == props[c
                        - 2]);
                }
            }
        };
    }
}

/// A cell holding the undefined sentinel is omitted from its row's
/// mapping entirely: no pair of the decoded row names that cell's
/// property. Absence signals "not reported", never "reported as zero".
pub proof fn lemma_sentinel_cell_omitted(props: Seq<Seq<char>>, cells: Seq<Seq<char>>, j0: int)
    requires
        distinct_props(props),
        cells.len() <= props.len() + 2,
        2 <= j0 < cells.len(),
        is_sentinel(cells[j0]),
        spec_data_row(props, cells) is Some,
    ensures
        forall|k: int|
            0 <= k < spec_data_row(props, cells)->Some_0.values.len() ==> (
            #[trigger] spec_data_row(props, cells)->Some_0.values[k]).0 != props[j0 - 2],
{
    lemma_row_values_sources(props, cells, 2);
    let vs = spec_data_row(props, cells)->Some_0.values;
    assert(vs == row_values_from(props, cells, 2));
    assert forall|k: int| 0 <= k < vs.len() implies (#[trigger] vs[k]).0 != props[j0 - 2] by {
        let c = choose|c: int|
            2 <= c < cells.len() && 2 <= c && !is_sentinel(cells[c])
                && row_values_from(props, cells, 2)[k].0 == props[c - 2];
        assert(c != j0);
    };
}

/// A report with a header row but nothing after it fails with the
/// missing-unit-row error — not a coarser one — and yields no partial
/// report.
pub proof fn lemma_missing_unit_row(s: Seq<char>)
    requires
        spec_rows(s).len() == 1,
    ensures
        spec_report(s) == Err::<SpecReport, DwdError>(DwdError::NoUnitRow),
{
}

/// Decoding a report is idempotent: the same text always yields the
/// same result — the decoder holds no hidden state.
pub proof fn lemma_report_deterministic(
    s: Seq<char>,
    a: Result<SpecReport, DwdError>,
    b: Result<SpecReport, DwdError>,
)
    requires
        a == spec_report(s),
        b == spec_report(s),
    ensures
        a == b,
{
}

} // verus!
