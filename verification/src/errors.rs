//! The error taxonomy of the decoders and of the layer around them.
//!
//! Two classes run through the whole crate: structural errors, meaning the
//! input does not have the shape a decoder needs to proceed at all, and
//! row- or value-level faults, which the decoders recover from locally and
//! which therefore never surface here. The variants for a missing upstream
//! resource and for transport faults belong to the fetching layer around
//! the library; they are carried in the same enum so one taxonomy serves
//! the whole service.
use vstd::prelude::*;

verus! {

#[derive(Clone, Copy, Debug, PartialEq, Eq, Structural)]
pub enum DwdError {
    /// No observation report was found for the station.
    NoReport,
    /// The report has no header row at all.
    NoHeaderRow,
    /// The report has a header row but no unit row.
    NoUnitRow,
    /// The unit row does not pair exactly one unit with each property.
    UnitMismatch,
    /// A row of the report could not be read as text.
    BadCsvLine,
    /// No forecast was found for the station.
    NoForecast,
    /// The forecast's zip container could not be read.
    BadZipFile,
    /// The forecast's zip container holds no entry.
    NoZipEntry,
    /// The forecast document does not have the expected KML shape.
    InvalidKml,
    /// The forecast's issue time is not valid timestamp text.
    InvalidIssueTime,
    /// No station listing was found.
    NoStationListing,
    /// A fault outside the decoders themselves.
    InternalError,
}

impl DwdError {
    /// A short description of the error, for the layer that reports it.
    pub fn message(&self) -> &'static str {
        match self {
            DwdError::NoReport => "No report was found for this station",
            DwdError::NoHeaderRow => "The report's CSV file didn't have a header row",
            DwdError::NoUnitRow => "The report's CSV file didn't have a unit row",
            DwdError::UnitMismatch => "The report's CSV didn't declare the exact units for each property or too many",
            DwdError::BadCsvLine => "The report's CSV file contained an invalid row",
            DwdError::NoForecast => "No forecast was found for this station",
            DwdError::BadZipFile => "The forecast's zip file was invalid",
            DwdError::NoZipEntry => "The forecast's zip file didn't contain a forecast",
            DwdError::InvalidKml => "Couldn't read KML file",
            DwdError::InvalidIssueTime => "Couldn't parse issue-time",
            DwdError::NoStationListing => "No station listing was found",
            DwdError::InternalError => "Internal error",
        }
    }
}

} // verus!
