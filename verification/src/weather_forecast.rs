//! The decoded forecast and its well-formedness.
//!
//! A forecast is columnar: under each canonical parameter key stands one
//! ordered series with exactly one slot per forecast time step. The
//! timestamps themselves are a member of the same mapping, under the key
//! `time_steps`. The well-formedness predicate here states the columnar
//! invariant; the decoder in [`crate::kml`] establishes it for every
//! document it accepts.
use vstd::prelude::*;

use crate::elements::spec_element_key;

verus! {

/// One slot of a decoded series: a numeric token, an epoch-millisecond
/// timestamp, or the null marker standing for an inline non-numeric
/// sentinel of the upstream feed.
pub enum SpecSeriesValue {
    Null,
    Num(Seq<char>),
    Int(int),
}

/// One series of a decoded forecast, as the contracts see it.
#[verifier::ext_equal]
pub struct SpecSeriesEntry {
    pub key: Seq<char>,
    pub values: Seq<SpecSeriesValue>,
}

/// One referenced weather model, as the contracts see it.
#[verifier::ext_equal]
pub struct SpecRefModel {
    pub name: Seq<char>,
    pub reference_time: int,
}

/// A decoded forecast, as the contracts see it.
#[verifier::ext_equal]
pub struct SpecForecast {
    pub name: Seq<char>,
    pub description: Seq<char>,
    pub issuer: Seq<char>,
    pub generating_process: Seq<char>,
    pub issue_time: int,
    pub reference_models: Seq<SpecRefModel>,
    pub coordinates: Seq<char>,
    pub data: Seq<SpecSeriesEntry>,
    pub n_data_points: int,
}

/// One slot of a decoded series; see [`SpecSeriesValue`]. A numeric slot
/// keeps its token textual; the serialization layer around the library
/// turns it into a number.
#[derive(Clone, Debug, PartialEq)]
pub enum SeriesValue {
    Null,
    Num(String),
    Int(i64),
}

impl DeepView for SeriesValue {
    type V = SpecSeriesValue;

    open spec fn deep_view(&self) -> SpecSeriesValue {
        match self {
            SeriesValue::Null => SpecSeriesValue::Null,
            SeriesValue::Num(s) => SpecSeriesValue::Num(s@),
            SeriesValue::Int(v) => SpecSeriesValue::Int(*v as int),
        }
    }
}

/// One series of a decoded forecast: its canonical key and one value per
/// time step.
#[derive(Clone, Debug, PartialEq)]
pub struct SeriesEntry {
    pub key: String,
    pub values: Vec<SeriesValue>,
}

impl DeepView for SeriesEntry {
    type V = SpecSeriesEntry;

    open spec fn deep_view(&self) -> SpecSeriesEntry {
        SpecSeriesEntry { key: self.key@, values: self.values.deep_view() }
    }
}

/// One weather model a forecast document references, with its reference
/// time in epoch milliseconds (zero when the document's text for it does
/// not parse: reference models are secondary metadata and never fail a
/// document).
#[derive(Clone, Debug, PartialEq)]
pub struct ForecastReferenceModel {
    pub name: String,
    pub reference_time: i64,
}

impl DeepView for ForecastReferenceModel {
    type V = SpecRefModel;

    open spec fn deep_view(&self) -> SpecRefModel {
        SpecRefModel { name: self.name@, reference_time: self.reference_time as int }
    }
}

/// A decoded forecast: station metadata, issue time in epoch
/// milliseconds, referenced models, and the columnar series under their
/// canonical keys, each exactly `n_data_points` long.
#[derive(Clone, Debug, PartialEq)]
pub struct Forecast {
    pub name: String,
    pub description: String,
    pub issuer: String,
    pub generating_process: String,
    pub issue_time: i64,
    pub reference_models: Vec<ForecastReferenceModel>,
    pub coordinates: String,
    pub data: Vec<SeriesEntry>,
    pub n_data_points: usize,
}

impl DeepView for Forecast {
    type V = SpecForecast;

    open spec fn deep_view(&self) -> SpecForecast {
        SpecForecast {
            name: self.name@,
            description: self.description@,
            issuer: self.issuer@,
            generating_process: self.generating_process@,
            issue_time: self.issue_time as int,
            reference_models: self.reference_models.deep_view(),
            coordinates: self.coordinates@,
            data: self.data.deep_view(),
            n_data_points: self.n_data_points as int,
        }
    }
}

/// Every series of the table holds exactly `n` values.
pub open spec fn series_cols_ok(data: Seq<SpecSeriesEntry>, n: int) -> bool {
    forall|i: int| 0 <= i < data.len() ==> (#[trigger] data[i]).values.len() == n
}

/// No two series of the table share a key.
pub open spec fn series_keys_unique(data: Seq<SpecSeriesEntry>) -> bool {
    forall|i: int, j: int| 0 <= i < j < data.len() ==> data[i].key != data[j].key
}

/// Every key of the table is `time_steps` or the canonical key of some
/// element code.
pub open spec fn series_keys_canonical(data: Seq<SpecSeriesEntry>) -> bool {
    forall|i: int|
        0 <= i < data.len() ==> (#[trigger] data[i]).key == "time_steps"@ || (exists|
        code: Seq<char>|
            spec_element_key(code) == Some(data[i].key))
}

/// The columnar invariant of a decoded forecast: every series is exactly
/// one value long per time step; no two series share a key; and every
/// key is either `time_steps` or the canonical key of some element code
/// of the table — a code without a table entry never appears.
pub open spec fn forecast_wf(f: SpecForecast) -> bool {
    &&& series_cols_ok(f.data, f.n_data_points)
    &&& series_keys_unique(f.data)
    &&& series_keys_canonical(f.data)
}

} // verus!
