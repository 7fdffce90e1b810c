//! The forecast decoder.
//!
//! A forecast arrives as one KML document. Its product metadata (issuer,
//! generating process, issue time, referenced models, time steps) and its
//! one placemark (station name, description, coordinates, and one series
//! per element code) are read from the tokenized document; the series are
//! aligned to the time steps and published under canonical keys. The
//! document's shape and its issue time are load-bearing: either failing
//! is a structural error. Everything else degrades: a reference time
//! defaults to zero, a series with the wrong value count is dropped, a
//! code without a table entry is dropped.
use vstd::prelude::*;

use crate::elements::spec_element_key;
use crate::elements::element_key;
use crate::errors::DwdError;
use crate::numbers::is_float_token;
use crate::numbers::float_token;
use crate::text::chars_to_string;
use crate::text::spec_tokens;
use crate::text::split_ws;
use crate::text::to_chars;
use crate::timestamp::rfc3339_ms;
use crate::timestamp::parse_rfc3339_ms;
use crate::weather_forecast::Forecast;
use crate::weather_forecast::ForecastReferenceModel;
use crate::weather_forecast::SeriesEntry;
use crate::weather_forecast::SeriesValue;
use crate::weather_forecast::SpecForecast;
use crate::weather_forecast::SpecRefModel;
use crate::weather_forecast::SpecSeriesEntry;
use crate::weather_forecast::SpecSeriesValue;
use crate::weather_forecast::series_cols_ok;
use crate::weather_forecast::series_keys_canonical;
use crate::weather_forecast::series_keys_unique;
use crate::xml::attr_of;
use crate::xml::attr_of_exec;
use crate::xml::children_exec;
use crate::xml::children_from;
use crate::xml::elem_text;
use crate::xml::elem_text_exec;
use crate::xml::find_child;
use crate::xml::find_child_exec;
use crate::xml::spec_tokenize;
use crate::xml::tokenize;
use crate::xml::SpecXmlEvent;
use crate::xml::XmlEvent;

verus! {

broadcast use crate::text::lemma_vec_char_deep_view;

/// An epoch-millisecond reading of secondary timestamp text: zero when
/// the text does not parse.
pub open spec fn rfc_or_zero(t: Seq<char>) -> int {
    match rfc3339_ms(t) {
        Some(v) => v,
        None => 0,
    }
}

/// The slots of one series: the whitespace-separated tokens of its raw
/// value text, each a number or the null marker.
pub open spec fn spec_series_values(v: Seq<char>) -> Seq<SpecSeriesValue> {
    spec_tokens(v).map_values(
        |t: Seq<char>|
            if is_float_token(t) {
                SpecSeriesValue::Num(t)
            } else {
                SpecSeriesValue::Null
            },
    )
}

/// The slots of the `time_steps` series: each step's text as epoch
/// milliseconds, zero for unreadable text.
pub open spec fn spec_time_values(texts: Seq<Seq<char>>) -> Seq<SpecSeriesValue> {
    texts.map_values(|t: Seq<char>| SpecSeriesValue::Int(rfc_or_zero(t)))
}

/// `entries` with the series under `key` replaced in place, or appended
/// when no series holds the key yet: a repeated element code overwrites,
/// last write wins.
pub open spec fn upsert(
    entries: Seq<SpecSeriesEntry>,
    key: Seq<char>,
    values: Seq<SpecSeriesValue>,
) -> Seq<SpecSeriesEntry>
    decreases entries.len(),
{
    if entries.len() == 0 {
        seq![SpecSeriesEntry { key, values }]
    } else if entries[0].key == key {
        seq![SpecSeriesEntry { key, values }] + entries.drop_first()
    } else {
        seq![entries[0]] + upsert(entries.drop_first(), key, values)
    }
}

/// Fold the placemark's elements into the series table from element `i`
/// on: an element whose value count does not equal the time-step count
/// is dropped whole, a code without a table entry is dropped, and every
/// other element's series lands under its canonical key.
pub open spec fn series_fold(
    els: Seq<(Seq<char>, Seq<char>)>,
    n: int,
    i: int,
    acc: Seq<SpecSeriesEntry>,
) -> Seq<SpecSeriesEntry>
    decreases els.len() - i,
{
    if i < 0 || i >= els.len() {
        acc
    } else {
        let vals = spec_series_values(els[i].1);
        if vals.len() != n {
            series_fold(els, n, i + 1, acc)
        } else {
            match spec_element_key(els[i].0) {
                None => series_fold(els, n, i + 1, acc),
                Some(key) => series_fold(els, n, i + 1, upsert(acc, key, vals)),
            }
        }
    }
}

/// The series table of a forecast: the `time_steps` series first, then
/// every accepted element's series.
pub open spec fn spec_kml_data(
    els: Seq<(Seq<char>, Seq<char>)>,
    steps: Seq<Seq<char>>,
) -> Seq<SpecSeriesEntry> {
    series_fold(
        els,
        steps.len() as int,
        0,
        seq![SpecSeriesEntry { key: "time_steps"@, values: spec_time_values(steps) }],
    )
}

/// A named datum of an element: the value of its attribute `name`, or
/// the trimmed text of its direct child `name`, in that order.
pub open spec fn field_of(
    ev: Seq<SpecXmlEvent>,
    o: int,
    lo: int,
    hi: int,
    name: Seq<char>,
) -> Option<Seq<char>> {
    match attr_of(ev[o]->Open_1, name) {
        Some(v) => Some(v),
        None => match find_child(ev, lo, hi, name) {
            Some((co, cl, ch)) => Some(elem_text(ev, cl, ch)),
            None => None,
        },
    }
}

/// The referenced models named by the ranges from `k` on: each needs a
/// name and a reference time, else the document is unreadable; the
/// reference time itself degrades to zero.
pub open spec fn models_from(
    ev: Seq<SpecXmlEvent>,
    ranges: Seq<(int, int, int)>,
    k: int,
) -> Option<Seq<SpecRefModel>>
    decreases ranges.len() - k,
{
    if k < 0 || k >= ranges.len() {
        Some(seq![])
    } else {
        let (o, l, h) = ranges[k];
        match field_of(ev, o, l, h, "name"@) {
            None => None,
            Some(nm) => match field_of(ev, o, l, h, "referenceTime"@) {
                None => None,
                Some(rt) => match models_from(ev, ranges, k + 1) {
                    None => None,
                    Some(rest) => Some(
                        seq![SpecRefModel { name: nm, reference_time: rfc_or_zero(rt) }] + rest,
                    ),
                },
            },
        }
    }
}

/// The trimmed texts of the ranges from `k` on.
pub open spec fn texts_of_ranges(ev: Seq<SpecXmlEvent>, ranges: Seq<(int, int, int)>, k: int) -> Seq<
    Seq<char>,
>
    decreases ranges.len() - k,
{
    if k < 0 || k >= ranges.len() {
        seq![]
    } else {
        let (o, l, h) = ranges[k];
        seq![elem_text(ev, l, h)] + texts_of_ranges(ev, ranges, k + 1)
    }
}

/// The `(element code, raw value text)` pairs of the placemark's
/// elements from `k` on: each needs its element name, else the document
/// is unreadable; a missing value stands for empty text.
pub open spec fn elements_from(
    ev: Seq<SpecXmlEvent>,
    ranges: Seq<(int, int, int)>,
    k: int,
) -> Option<Seq<(Seq<char>, Seq<char>)>>
    decreases ranges.len() - k,
{
    if k < 0 || k >= ranges.len() {
        Some(seq![])
    } else {
        let (o, l, h) = ranges[k];
        match field_of(ev, o, l, h, "elementName"@) {
            None => None,
            Some(nm) => {
                let value = match field_of(ev, o, l, h, "value"@) {
                    Some(v) => v,
                    None => Seq::empty(),
                };
                match elements_from(ev, ranges, k + 1) {
                    None => None,
                    Some(rest) => Some(seq![(nm, value)] + rest),
                }
            },
        }
    }
}

/// What decoding a forecast document yields: the forecast, or the
/// structural error the text earns — an unreadable or ill-shaped
/// document, or an unreadable issue time.
pub open spec fn spec_deserialize(s: Seq<char>) -> Result<SpecForecast, DwdError> {
    match spec_tokenize(s) {
        None => Err(DwdError::InvalidKml),
        Some(ev) => match find_child(ev, 0, ev.len() as int, "kml"@) {
            None => Err(DwdError::InvalidKml),
            Some((_, klo, khi)) => match find_child(ev, klo, khi, "Document"@) {
                None => Err(DwdError::InvalidKml),
                Some((_, dlo, dhi)) => spec_decode_document(ev, dlo, dhi),
            },
        },
    }
}

/// Decode the forecast's `Document` section; see [`spec_deserialize`].
pub open spec fn spec_decode_document(ev: Seq<SpecXmlEvent>, dlo: int, dhi: int) -> Result<
    SpecForecast,
    DwdError,
> {
    match find_child(ev, dlo, dhi, "ExtendedData"@) {
        None => Err(DwdError::InvalidKml),
        Some((_, xlo, xhi)) => match find_child(ev, xlo, xhi, "ProductDefinition"@) {
            None => Err(DwdError::InvalidKml),
            Some((_, plo, phi)) => match (
                find_child(ev, plo, phi, "Issuer"@),
                find_child(ev, plo, phi, "GeneratingProcess"@),
                find_child(ev, plo, phi, "IssueTime"@),
                find_child(ev, plo, phi, "ReferencedModel"@),
                find_child(ev, plo, phi, "ForecastTimeSteps"@),
            ) {
                (Some(iss), Some(gp), Some(it), Some(rm), Some(ts)) => {
                    match models_from(ev, children_from(ev, rm.1, rm.2, "Model"@, 0), 0) {
                        None => Err(DwdError::InvalidKml),
                        Some(models) => {
                            let steps = texts_of_ranges(
                                ev,
                                children_from(ev, ts.1, ts.2, "TimeStep"@, 0),
                                0,
                            );
                            match rfc3339_ms(elem_text(ev, it.1, it.2)) {
                                None => Err(DwdError::InvalidIssueTime),
                                Some(issue_ms) => spec_decode_placemark(
                                    ev,
                                    dlo,
                                    dhi,
                                    elem_text(ev, iss.1, iss.2),
                                    elem_text(ev, gp.1, gp.2),
                                    issue_ms,
                                    models,
                                    steps,
                                ),
                            }
                        },
                    }
                },
                _ => Err(DwdError::InvalidKml),
            },
        },
    }
}

/// Decode the forecast's `Placemark` section; see [`spec_deserialize`].
pub open spec fn spec_decode_placemark(
    ev: Seq<SpecXmlEvent>,
    dlo: int,
    dhi: int,
    issuer: Seq<char>,
    generating_process: Seq<char>,
    issue_ms: int,
    models: Seq<SpecRefModel>,
    steps: Seq<Seq<char>>,
) -> Result<SpecForecast, DwdError> {
    match find_child(ev, dlo, dhi, "Placemark"@) {
        None => Err(DwdError::InvalidKml),
        Some((_, mlo, mhi)) => match (
            find_child(ev, mlo, mhi, "name"@),
            find_child(ev, mlo, mhi, "description"@),
            find_child(ev, mlo, mhi, "Point"@),
            find_child(ev, mlo, mhi, "ExtendedData"@),
        ) {
            (Some(nm), Some(de), Some(pt), Some(xd)) => {
                let coordinates = match find_child(ev, pt.1, pt.2, "coordinates"@) {
                    Some(co) => elem_text(ev, co.1, co.2),
                    None => Seq::empty(),
                };
                match elements_from(ev, children_from(ev, xd.1, xd.2, "Forecast"@, 0), 0) {
                    None => Err(DwdError::InvalidKml),
                    Some(els) => Ok(
                        SpecForecast {
                            name: elem_text(ev, nm.1, nm.2),
                            description: elem_text(ev, de.1, de.2),
                            issuer,
                            generating_process,
                            issue_time: issue_ms,
                            reference_models: models,
                            coordinates,
                            data: spec_kml_data(els, steps),
                            n_data_points: steps.len() as int,
                        },
                    ),
                }
            },
            _ => Err(DwdError::InvalidKml),
        },
    }
}


/// The ranges [`crate::xml::children_exec`] returns satisfy every bound
/// the range decoders ask for.
proof fn lemma_ranges_ok(
    evd: Seq<SpecXmlEvent>,
    lo: int,
    hi: int,
    name: Seq<char>,
    ranges: Seq<(usize, usize, usize)>,
)
    requires
        0 <= lo <= hi,
        ranges_view(ranges) == children_from(evd, lo, hi, name, 0),
    ensures
        ranges_ok(evd, ranges),
{
    crate::xml::lemma_children_from(evd, lo, hi, name, 0);
    let cs = children_from(evd, lo, hi, name, 0);
    assert forall|k: int|
        0 <= k < ranges.len() implies (#[trigger] ranges[k]).0 < evd.len() && ranges[k].0
        < ranges[k].1 && ranges[k].1 <= ranges[k].2 && ranges[k].2 <= evd.len() && evd[ranges[k].0 as int]
        is Open by {
        assert(cs[k] == ranges_view(ranges)[k]);
        assert(ranges_view(ranges)[k] == (
            ranges[k].0 as int,
            ranges[k].1 as int,
            ranges[k].2 as int,
        ));
    };
}

/// Inserting a series keeps the table columnar: every series stays `n`
/// long, keys stay pairwise distinct, and no key appears that was not
/// there before or inserted now.
proof fn lemma_upsert_wf(
    entries: Seq<SpecSeriesEntry>,
    key: Seq<char>,
    values: Seq<SpecSeriesValue>,
    n: int,
)
    requires
        series_cols_ok(entries, n),
        series_keys_unique(entries),
        values.len() == n,
    ensures
        series_cols_ok(upsert(entries, key, values), n),
        series_keys_unique(upsert(entries, key, values)),
        forall|i: int|
            0 <= i < upsert(entries, key, values).len() ==> (#[trigger] upsert(
                entries,
                key,
                values,
            )[i]).key == key || exists|j: int|
                0 <= j < entries.len() && entries[j].key == upsert(entries, key, values)[i].key,
    decreases entries.len(),
{
    let r = upsert(entries, key, values);
    if entries.len() == 0 {
        assert(series_cols_ok(r, n)) by {
            assert(r[0].values.len() == n);
        };
    } else if entries[0].key == key {
        assert(forall|j: int|
            0 <= j < entries.drop_first().len() ==> #[trigger] entries.drop_first()[j] == entries[
                j + 1
            ]);
        assert(series_cols_ok(r, n)) by {
            assert(forall|i: int|
                0 < i < r.len() ==> (#[trigger] r[i]).values.len() == entries[i].values.len());
        };
    } else {
        assert(forall|j: int|
            0 <= j < entries.drop_first().len() ==> #[trigger] entries.drop_first()[j] == entries[
                j + 1
            ]);
        assert(series_cols_ok(entries.drop_first(), n)) by {
            assert(forall|j: int|
                0 <= j < entries.drop_first().len() ==> (#[trigger] entries.drop_first()[j]).values
                    == entries[j + 1].values);
        };
        lemma_upsert_wf(entries.drop_first(), key, values, n);
        let tail = upsert(entries.drop_first(), key, values);
        assert(series_cols_ok(r, n)) by {
            assert(forall|i: int| 0 < i < r.len() ==> #[trigger] r[i] == tail[i - 1]);
            assert(forall|i: int|
                0 < i < r.len() ==> (#[trigger] r[i]).values.len() == tail[i - 1].values.len());
        };
        assert(series_keys_unique(r)) by {
            assert forall|i: int, j: int| 0 <= i < j < r.len() implies r[i].key != r[j].key by {
                if i == 0 {
                    assert(r[j] == tail[j - 1]);
                    if tail[j - 1].key == key {
                    } else {
                        let w = choose|w: int|
                            0 <= w < entries.drop_first().len() && entries.drop_first()[w].key
                                == tail[j - 1].key;
                        assert(entries[w + 1].key == tail[j - 1].key);
                    }
                } else {
                    assert(r[i] == tail[i - 1] && r[j] == tail[j - 1]);
                }
            };
        };
        assert forall|i: int|
            0 <= i < r.len() implies (#[trigger] r[i]).key == key || exists|j: int|
            0 <= j < entries.len() && entries[j].key == r[i].key by {
            if i == 0 {
                assert(entries[0].key == r[0].key);
            } else {
                assert(r[i] == tail[i - 1]);
                if tail[i - 1].key != key {
                    let w = choose|w: int|
                        0 <= w < entries.drop_first().len() && entries.drop_first()[w].key
                            == tail[i - 1].key;
                    assert(entries[w + 1].key == r[i].key);
                }
            }
        };
    }
}

/// Folding the elements in keeps the table columnar, provided every
/// series already in it is well formed.
proof fn lemma_series_fold_wf(
    els: Seq<(Seq<char>, Seq<char>)>,
    n: int,
    i: int,
    acc: Seq<SpecSeriesEntry>,
)
    requires
        series_cols_ok(acc, n),
        series_keys_unique(acc),
        series_keys_canonical(acc),
    ensures
        series_cols_ok(series_fold(els, n, i, acc), n),
        series_keys_unique(series_fold(els, n, i, acc)),
        series_keys_canonical(series_fold(els, n, i, acc)),
    decreases els.len() - i,
{
    if 0 <= i && i < els.len() {
        let vals = spec_series_values(els[i].1);
        if vals.len() != n {
            lemma_series_fold_wf(els, n, i + 1, acc);
        } else {
            match spec_element_key(els[i].0) {
                None => {
                    lemma_series_fold_wf(els, n, i + 1, acc);
                },
                Some(key) => {
                    lemma_upsert_wf(acc, key, vals, n);
                    let acc2 = upsert(acc, key, vals);
                    assert(series_keys_canonical(acc2)) by {
                        assert forall|k: int|
                            0 <= k < acc2.len() implies (#[trigger] acc2[k]).key == "time_steps"@
                            || (exists|code: Seq<char>|
                            spec_element_key(code) == Some(acc2[k].key)) by {
                            if acc2[k].key == key {
                                assert(spec_element_key(els[i].0) == Some(acc2[k].key));
                            } else {
                                let w = choose|j: int|
                                    0 <= j < acc.len() && acc[j].key == acc2[k].key;
                                assert(acc[w].key == "time_steps"@ || (exists|code: Seq<char>|
                                    spec_element_key(code) == Some(acc[w].key)));
                            }
                        };
                    };
                    lemma_series_fold_wf(els, n, i + 1, acc2);
                },
            }
        }
    }
}

/// Every forecast the decoder accepts is columnar: each series in
/// `data` — the `time_steps` series included — holds exactly
/// `n_data_points` values, no key repeats, and every key other than
/// `time_steps` is the canonical key of some element code of the table.
/// An element whose value count differs from the time-step count, and a
/// code without a table entry, never contribute a series.
pub proof fn lemma_forecast_wf(s: Seq<char>)
    requires
        spec_deserialize(s) is Ok,
    ensures
        crate::weather_forecast::forecast_wf(spec_deserialize(s)->Ok_0),
{
    let ev = spec_tokenize(s)->Some_0;
    let kml = find_child(ev, 0, ev.len() as int, "kml"@)->Some_0;
    let doc = find_child(ev, kml.1, kml.2, "Document"@)->Some_0;
    let xd = find_child(ev, doc.1, doc.2, "ExtendedData"@)->Some_0;
    let pd = find_child(ev, xd.1, xd.2, "ProductDefinition"@)->Some_0;
    let ts = find_child(ev, pd.1, pd.2, "ForecastTimeSteps"@)->Some_0;
    let steps = texts_of_ranges(ev, children_from(ev, ts.1, ts.2, "TimeStep"@, 0), 0);
    let pm = find_child(ev, doc.1, doc.2, "Placemark"@)->Some_0;
    let pxd = find_child(ev, pm.1, pm.2, "ExtendedData"@)->Some_0;
    let els = elements_from(ev, children_from(ev, pxd.1, pxd.2, "Forecast"@, 0), 0)->Some_0;
    let init = seq![SpecSeriesEntry { key: "time_steps"@, values: spec_time_values(steps) }];
    assert(series_cols_ok(init, steps.len() as int)) by {
        assert(init[0].values.len() == spec_time_values(steps).len());
    };
    lemma_series_fold_wf(els, steps.len() as int, 0, init);
    assert(spec_deserialize(s)->Ok_0.data == spec_kml_data(els, steps));
    assert(spec_deserialize(s)->Ok_0.n_data_points == steps.len() as int);
}

/// Decoding a forecast is idempotent: the same document always yields
/// the same result — the decoder holds no hidden state.
pub proof fn lemma_forecast_deterministic(
    s: Seq<char>,
    a: Result<SpecForecast, DwdError>,
    b: Result<SpecForecast, DwdError>,
)
    requires
        a == spec_deserialize(s),
        b == spec_deserialize(s),
    ensures
        a == b,
{
}

/// Read a named datum of an element, exactly as [`field_of`] states.
fn field_of_exec(ev: &Vec<XmlEvent>, o: usize, lo: usize, hi: usize, name: &str) -> (r: Option<
    Vec<char>,
>)
    requires
        o < ev@.len(),
        lo <= hi <= ev@.len(),
        ev.deep_view()[o as int] is Open,
    ensures
        match r {
            Some(v) => field_of(ev.deep_view(), o as int, lo as int, hi as int, name@) == Some(v@),
            None => field_of(ev.deep_view(), o as int, lo as int, hi as int, name@) is None,
        },
{
    let ghost evd = ev.deep_view();
    proof {
        assert(evd[o as int] == ev@[o as int].deep_view());
    }
    match &ev[o] {
        XmlEvent::Open(_, attrs) => {
            match attr_of_exec(attrs, name) {
                Some(v) => Some(v),
                None => {
                    match find_child_exec(ev, lo, hi, name) {
                        Some((_, cl, ch)) => Some(elem_text_exec(ev, cl, ch)),
                        None => None,
                    }
                },
            }
        },
        XmlEvent::Close => {
            proof {
                assert(false);
            }
            None
        },
        XmlEvent::Text(_) => {
            proof {
                assert(false);
            }
            None
        },
    }
}

/// The bounds every content range handed to the range decoders obeys.
pub open spec fn ranges_ok(ev: Seq<SpecXmlEvent>, ranges: Seq<(usize, usize, usize)>) -> bool {
    forall|k: int|
        0 <= k < ranges.len() ==> (#[trigger] ranges[k]).0 < ev.len() && ranges[k].0 < ranges[k].1
            && ranges[k].1 <= ranges[k].2 && ranges[k].2 <= ev.len() && ev[ranges[k].0 as int]
            is Open
}

/// The integer view of a sequence of range triples.
pub open spec fn ranges_view(ranges: Seq<(usize, usize, usize)>) -> Seq<(int, int, int)> {
    ranges.map_values(|t: (usize, usize, usize)| (t.0 as int, t.1 as int, t.2 as int))
}

/// Decode the referenced models, exactly as [`models_from`] states.
#[verifier::loop_isolation(false)]
fn decode_models(ev: &Vec<XmlEvent>, ranges: &Vec<(usize, usize, usize)>) -> (r: Option<
    Vec<ForecastReferenceModel>,
>)
    requires
        ranges_ok(ev.deep_view(), ranges@),
    ensures
        match r {
            Some(ms) => models_from(ev.deep_view(), ranges_view(ranges@), 0) == Some(
                ms.deep_view(),
            ),
            None => models_from(ev.deep_view(), ranges_view(ranges@), 0) is None,
        },
{
    let ghost evd = ev.deep_view();
    let ghost rv = ranges_view(ranges@);
    let mut acc: Vec<ForecastReferenceModel> = Vec::new();
    let mut k: usize = 0;
    while k < ranges.len()
        invariant
            0 <= k <= rv.len(),
            match models_from(evd, rv, k as int) {
                Some(rest) => models_from(evd, rv, 0) == Some(acc.deep_view() + rest),
                None => models_from(evd, rv, 0) is None,
            },
        decreases rv.len() - k,
    {
        let (o, l, h) = ranges[k];
        proof {
            assert(rv[k as int] == (o as int, l as int, h as int));
        }
        let nm = match field_of_exec(ev, o, l, h, "name") {
            Some(nm) => nm,
            None => {
                return None;
            },
        };
        let rt = match field_of_exec(ev, o, l, h, "referenceTime") {
            Some(rt) => rt,
            None => {
                return None;
            },
        };
        let ms = match parse_rfc3339_ms(rt.as_slice()) {
            Some(v) => v,
            None => 0,
        };
        let model = ForecastReferenceModel { name: chars_to_string(nm.as_slice()), reference_time: ms };
        let ghost old_acc = acc.deep_view();
        acc.push(model);
        proof {
            assert(acc.deep_view() =~~= old_acc + seq![model.deep_view()]);
            if models_from(evd, rv, k + 1) is Some {
                let rest = models_from(evd, rv, k + 1)->Some_0;
                assert(acc.deep_view() + rest =~= old_acc + (seq![model.deep_view()] + rest));
            }
        }
        k += 1;
    }
    proof {
        assert(acc.deep_view() + Seq::<SpecRefModel>::empty() =~= acc.deep_view());
    }
    Some(acc)
}

/// Collect the trimmed texts of a list of ranges, exactly as
/// [`texts_of_ranges`] states.
#[verifier::loop_isolation(false)]
fn decode_texts(ev: &Vec<XmlEvent>, ranges: &Vec<(usize, usize, usize)>) -> (r: Vec<Vec<char>>)
    requires
        ranges_ok(ev.deep_view(), ranges@),
    ensures
        r.deep_view() == texts_of_ranges(ev.deep_view(), ranges_view(ranges@), 0),
{
    let ghost evd = ev.deep_view();
    let ghost rv = ranges_view(ranges@);
    let mut acc: Vec<Vec<char>> = Vec::new();
    let mut k: usize = 0;
    while k < ranges.len()
        invariant
            0 <= k <= rv.len(),
            texts_of_ranges(evd, rv, 0) =~= acc.deep_view() + texts_of_ranges(evd, rv, k as int),
        decreases rv.len() - k,
    {
        let (o, l, h) = ranges[k];
        proof {
            assert(rv[k as int] == (o as int, l as int, h as int));
        }
        let t = elem_text_exec(ev, l, h);
        let ghost old_acc = acc.deep_view();
        acc.push(t);
        proof {
            assert(acc.deep_view() =~~= old_acc + seq![elem_text(evd, l as int, h as int)]);
            assert(acc.deep_view() + texts_of_ranges(evd, rv, k + 1) =~= old_acc + (seq![
                elem_text(evd, l as int, h as int),
            ] + texts_of_ranges(evd, rv, k + 1)));
        }
        k += 1;
    }
    proof {
        assert(acc.deep_view() =~= texts_of_ranges(evd, rv, 0));
    }
    acc
}

/// Decode the placemark's element list, exactly as [`elements_from`]
/// states.
#[verifier::loop_isolation(false)]
fn decode_elements(ev: &Vec<XmlEvent>, ranges: &Vec<(usize, usize, usize)>) -> (r: Option<
    Vec<(Vec<char>, Vec<char>)>,
>)
    requires
        ranges_ok(ev.deep_view(), ranges@),
    ensures
        match r {
            Some(els) => elements_from(ev.deep_view(), ranges_view(ranges@), 0) == Some(
                els.deep_view(),
            ),
            None => elements_from(ev.deep_view(), ranges_view(ranges@), 0) is None,
        },
{
    let ghost evd = ev.deep_view();
    let ghost rv = ranges_view(ranges@);
    let mut acc: Vec<(Vec<char>, Vec<char>)> = Vec::new();
    let mut k: usize = 0;
    while k < ranges.len()
        invariant
            0 <= k <= rv.len(),
            match elements_from(evd, rv, k as int) {
                Some(rest) => elements_from(evd, rv, 0) == Some(acc.deep_view() + rest),
                None => elements_from(evd, rv, 0) is None,
            },
        decreases rv.len() - k,
    {
        let (o, l, h) = ranges[k];
        proof {
            assert(rv[k as int] == (o as int, l as int, h as int));
        }
        let nm = match field_of_exec(ev, o, l, h, "elementName") {
            Some(nm) => nm,
            None => {
                return None;
            },
        };
        let value = match field_of_exec(ev, o, l, h, "value") {
            Some(v) => v,
            None => Vec::new(),
        };
        let ghost pair = (nm@, value@);
        let ghost old_acc = acc.deep_view();
        acc.push((nm, value));
        proof {
            assert(acc.deep_view() =~~= old_acc + seq![pair]);
            if elements_from(evd, rv, k + 1) is Some {
                let rest = elements_from(evd, rv, k + 1)->Some_0;
                assert(acc.deep_view() + rest =~= old_acc + (seq![pair] + rest));
            }
        }
        k += 1;
    }
    proof {
        assert(acc.deep_view() + Seq::<(Seq<char>, Seq<char>)>::empty() =~= acc.deep_view());
    }
    Some(acc)
}

/// The slots of one series, exactly as [`spec_series_values`] states.
#[verifier::loop_isolation(false)]
fn series_values_exec(v: &[char]) -> (r: Vec<SeriesValue>)
    ensures
        r.deep_view() == spec_series_values(v@),
{
    let toks = split_ws(v);
    let mut r: Vec<SeriesValue> = Vec::new();
    let mut i: usize = 0;
    while i < toks.len()
        invariant
            0 <= i <= toks@.len(),
            toks.deep_view() == spec_tokens(v@),
            r.deep_view() =~= spec_tokens(v@).subrange(0, i as int).map_values(
                |t: Seq<char>|
                    if is_float_token(t) {
                        SpecSeriesValue::Num(t)
                    } else {
                        SpecSeriesValue::Null
                    },
            ),
        decreases toks@.len() - i,
    {
        let tok = &toks[i];
        let value = if float_token(tok.as_slice()) {
            SeriesValue::Num(chars_to_string(tok.as_slice()))
        } else {
            SeriesValue::Null
        };
        let ghost old_r = r.deep_view();
        r.push(value);
        proof {
            assert(r.deep_view() =~~= old_r + seq![value.deep_view()]);
            assert(r.deep_view() =~= spec_tokens(v@).subrange(0, i + 1).map_values(
                |t: Seq<char>|
                    if is_float_token(t) {
                        SpecSeriesValue::Num(t)
                    } else {
                        SpecSeriesValue::Null
                    },
            ));
        }
        i += 1;
    }
    proof {
        assert(spec_tokens(v@).subrange(0, spec_tokens(v@).len() as int) =~= spec_tokens(v@));
        assert(r.deep_view() =~= spec_series_values(v@));
    }
    r
}

/// The slots of the `time_steps` series, exactly as [`spec_time_values`]
/// states.
#[verifier::loop_isolation(false)]
fn time_values_exec(texts: &Vec<Vec<char>>) -> (r: Vec<SeriesValue>)
    ensures
        r.deep_view() == spec_time_values(texts.deep_view()),
{
    let ghost tv = texts.deep_view();
    let mut r: Vec<SeriesValue> = Vec::new();
    let mut i: usize = 0;
    while i < texts.len()
        invariant
            0 <= i <= tv.len(),
            tv == texts.deep_view(),
            r.deep_view() =~= tv.subrange(0, i as int).map_values(
                |t: Seq<char>| SpecSeriesValue::Int(rfc_or_zero(t)),
            ),
        decreases tv.len() - i,
    {
        let ms = match parse_rfc3339_ms(texts[i].as_slice()) {
            Some(v) => v,
            None => 0,
        };
        let ghost old_r = r.deep_view();
        r.push(SeriesValue::Int(ms));
        proof {
            assert(r.deep_view() =~~= old_r + seq![SpecSeriesValue::Int(rfc_or_zero(tv[i as int]))]);
            assert(r.deep_view() =~= tv.subrange(0, i + 1).map_values(
                |t: Seq<char>| SpecSeriesValue::Int(rfc_or_zero(t)),
            ));
        }
        i += 1;
    }
    proof {
        assert(tv.subrange(0, tv.len() as int) =~= tv);
        assert(r.deep_view() =~= spec_time_values(tv));
    }
    r
}

/// Insert one series, exactly as [`upsert`] states: in place of the
/// first entry holding its key, or at the end.
fn upsert_exec(entries: Vec<SeriesEntry>, key: String, values: Vec<SeriesValue>) -> (r: Vec<
    SeriesEntry,
>)
    ensures
        r.deep_view() == upsert(entries.deep_view(), key@, values.deep_view()),
    decreases entries@.len(),
{
    let ghost ed = entries.deep_view();
    let ghost new_entry = SpecSeriesEntry { key: key@, values: values.deep_view() };
    if entries.len() == 0 {
        let mut r: Vec<SeriesEntry> = Vec::new();
        r.push(SeriesEntry { key, values });
        proof {
            assert(r.deep_view() =~~= seq![new_entry]);
        }
        r
    } else {
        let mut rest = entries;
        let head = rest.remove(0);
        proof {
            assert(rest.deep_view() =~~= ed.drop_first());
            assert(head.deep_view() == ed[0]);
        }
        if head.key == key {
            let mut r: Vec<SeriesEntry> = Vec::new();
            r.push(SeriesEntry { key, values });
            let ghost r1 = r.deep_view();
            r.append(&mut rest);
            proof {
                assert(r.deep_view() =~~= r1 + ed.drop_first());
                assert(r1 =~~= seq![new_entry]);
                assert(r.deep_view() =~= seq![new_entry] + ed.drop_first());
            }
            r
        } else {
            let mut tail = upsert_exec(rest, key, values);
            let mut r: Vec<SeriesEntry> = Vec::new();
            r.push(head);
            let ghost r1 = r.deep_view();
            r.append(&mut tail);
            proof {
                assert(r1 =~~= seq![ed[0]]);
                assert(r.deep_view() =~~= r1 + upsert(ed.drop_first(), key@, values.deep_view()));
                assert(r.deep_view() =~= seq![ed[0]] + upsert(
                    ed.drop_first(),
                    key@,
                    values.deep_view(),
                ));
            }
            r
        }
    }
}

/// Build the columnar series table of one forecast from its element
/// list and time steps, exactly as [`spec_kml_data`] states; the second
/// component is the number of time steps, one slot per series.
#[verifier::loop_isolation(false)]
pub fn kml_to_forecast_data(
    forecasts: &Vec<(Vec<char>, Vec<char>)>,
    time_steps: &Vec<Vec<char>>,
) -> (r: (Vec<SeriesEntry>, usize))
    ensures
        r.0.deep_view() == spec_kml_data(forecasts.deep_view(), time_steps.deep_view()),
        r.1 == time_steps@.len(),
{
    let ghost els = forecasts.deep_view();
    let ghost steps = time_steps.deep_view();
    let n = time_steps.len();
    let tv = time_values_exec(time_steps);
    let mut acc: Vec<SeriesEntry> = Vec::new();
    acc.push(SeriesEntry { key: String::from_str("time_steps"), values: tv });
    proof {
        assert(acc.deep_view() =~~= seq![
            SpecSeriesEntry { key: "time_steps"@, values: spec_time_values(steps) },
        ]);
    }
    let mut i: usize = 0;
    while i < forecasts.len()
        invariant
            0 <= i <= els.len(),
            els == forecasts.deep_view(),
            n == steps.len(),
            spec_kml_data(els, steps) == series_fold(els, n as int, i as int, acc.deep_view()),
        decreases els.len() - i,
    {
        let (code, raw) = &forecasts[i];
        proof {
            assert(els[i as int] == (code@, raw@));
        }
        let values = series_values_exec(raw.as_slice());
        if values.len() == n {
            match element_key(code.as_slice()) {
                Some(k) => {
                    acc = upsert_exec(acc, k, values);
                },
                None => {},
            }
        }
        i += 1;
    }
    (acc, n)
}

/// Decode one forecast document, exactly as [`spec_deserialize`]
/// states: the forecast on success, and the structural error the text
/// earns otherwise.
pub fn deserialize_to_forecast(raw: &str) -> (r: Result<Forecast, DwdError>)
    ensures
        match r {
            Ok(f) => spec_deserialize(raw@) == Ok::<SpecForecast, DwdError>(f.deep_view())
                && crate::weather_forecast::forecast_wf(f.deep_view()),
            Err(e) => spec_deserialize(raw@) == Err::<SpecForecast, DwdError>(e),
        },
{
    let chars = to_chars(raw);
    let ev = match tokenize(chars.as_slice()) {
        Some(ev) => ev,
        None => {
            return Err(DwdError::InvalidKml);
        },
    };
    let ghost evd = ev.deep_view();
    let n = ev.len();
    let (_, klo, khi) = match find_child_exec(&ev, 0, n, "kml") {
        Some(t) => t,
        None => {
            return Err(DwdError::InvalidKml);
        },
    };
    let (_, dlo, dhi) = match find_child_exec(&ev, klo, khi, "Document") {
        Some(t) => t,
        None => {
            return Err(DwdError::InvalidKml);
        },
    };
    let (_, xlo, xhi) = match find_child_exec(&ev, dlo, dhi, "ExtendedData") {
        Some(t) => t,
        None => {
            return Err(DwdError::InvalidKml);
        },
    };
    let (_, plo, phi) = match find_child_exec(&ev, xlo, xhi, "ProductDefinition") {
        Some(t) => t,
        None => {
            return Err(DwdError::InvalidKml);
        },
    };
    let iss = match find_child_exec(&ev, plo, phi, "Issuer") {
        Some(t) => t,
        None => {
            return Err(DwdError::InvalidKml);
        },
    };
    let gp = match find_child_exec(&ev, plo, phi, "GeneratingProcess") {
        Some(t) => t,
        None => {
            return Err(DwdError::InvalidKml);
        },
    };
    let it = match find_child_exec(&ev, plo, phi, "IssueTime") {
        Some(t) => t,
        None => {
            return Err(DwdError::InvalidKml);
        },
    };
    let rm = match find_child_exec(&ev, plo, phi, "ReferencedModel") {
        Some(t) => t,
        None => {
            return Err(DwdError::InvalidKml);
        },
    };
    let ts = match find_child_exec(&ev, plo, phi, "ForecastTimeSteps") {
        Some(t) => t,
        None => {
            return Err(DwdError::InvalidKml);
        },
    };
    let model_ranges = children_exec(&ev, rm.1, rm.2, "Model");
    proof {
        crate::xml::lemma_children_from(evd, rm.1 as int, rm.2 as int, "Model"@, 0);
        assert(ranges_view(model_ranges@) =~= children_from(
            evd,
            rm.1 as int,
            rm.2 as int,
            "Model"@,
            0,
        ));
        lemma_ranges_ok(evd, rm.1 as int, rm.2 as int, "Model"@, model_ranges@);
    }
    let models = match decode_models(&ev, &model_ranges) {
        Some(ms) => ms,
        None => {
            return Err(DwdError::InvalidKml);
        },
    };
    let step_ranges = children_exec(&ev, ts.1, ts.2, "TimeStep");
    proof {
        crate::xml::lemma_children_from(evd, ts.1 as int, ts.2 as int, "TimeStep"@, 0);
        assert(ranges_view(step_ranges@) =~= children_from(
            evd,
            ts.1 as int,
            ts.2 as int,
            "TimeStep"@,
            0,
        ));
        lemma_ranges_ok(evd, ts.1 as int, ts.2 as int, "TimeStep"@, step_ranges@);
    }
    let step_texts = decode_texts(&ev, &step_ranges);
    let issue_text = elem_text_exec(&ev, it.1, it.2);
    let issue_ms = match parse_rfc3339_ms(issue_text.as_slice()) {
        Some(v) => v,
        None => {
            return Err(DwdError::InvalidIssueTime);
        },
    };
    // The placemark.
    let (_, mlo, mhi) = match find_child_exec(&ev, dlo, dhi, "Placemark") {
        Some(t) => t,
        None => {
            return Err(DwdError::InvalidKml);
        },
    };
    let nm = match find_child_exec(&ev, mlo, mhi, "name") {
        Some(t) => t,
        None => {
            return Err(DwdError::InvalidKml);
        },
    };
    let de = match find_child_exec(&ev, mlo, mhi, "description") {
        Some(t) => t,
        None => {
            return Err(DwdError::InvalidKml);
        },
    };
    let pt = match find_child_exec(&ev, mlo, mhi, "Point") {
        Some(t) => t,
        None => {
            return Err(DwdError::InvalidKml);
        },
    };
    let xd = match find_child_exec(&ev, mlo, mhi, "ExtendedData") {
        Some(t) => t,
        None => {
            return Err(DwdError::InvalidKml);
        },
    };
    let coordinates = match find_child_exec(&ev, pt.1, pt.2, "coordinates") {
        Some(co) => elem_text_exec(&ev, co.1, co.2),
        None => Vec::new(),
    };
    let forecast_ranges = children_exec(&ev, xd.1, xd.2, "Forecast");
    proof {
        crate::xml::lemma_children_from(evd, xd.1 as int, xd.2 as int, "Forecast"@, 0);
        assert(ranges_view(forecast_ranges@) =~= children_from(
            evd,
            xd.1 as int,
            xd.2 as int,
            "Forecast"@,
            0,
        ));
        lemma_ranges_ok(evd, xd.1 as int, xd.2 as int, "Forecast"@, forecast_ranges@);
    }
    let els = match decode_elements(&ev, &forecast_ranges) {
        Some(els) => els,
        None => {
            return Err(DwdError::InvalidKml);
        },
    };
    let (data, n_data_points) = kml_to_forecast_data(&els, &step_texts);
    let f = Forecast {
        name: chars_to_string(elem_text_exec(&ev, nm.1, nm.2).as_slice()),
        description: chars_to_string(elem_text_exec(&ev, de.1, de.2).as_slice()),
        issuer: chars_to_string(elem_text_exec(&ev, iss.1, iss.2).as_slice()),
        generating_process: chars_to_string(elem_text_exec(&ev, gp.1, gp.2).as_slice()),
        issue_time: issue_ms,
        reference_models: models,
        coordinates: chars_to_string(coordinates.as_slice()),
        data,
        n_data_points,
    };
    proof {
        assert(f.deep_view() =~= spec_deserialize(raw@)->Ok_0);
        lemma_forecast_wf(raw@);
    }
    Ok(f)
}

} // verus!
