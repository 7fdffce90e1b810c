//! Decoders for the open weather data published by the DWD, the German
//! national meteorological service.
//!
//! Three independent, pure decoders turn loosely structured upstream text
//! into strongly typed records:
//!
//! * the station catalog (whitespace-tokenized or fixed-width text tables),
//! * a per-station forecast (a KML document, one XML file),
//! * a per-station observation report (semicolon-delimited text).
//!
//! Each decoder tokenizes its input, checks the structural shape, and then
//! degrades leniently per row or per value: a malformed line, cell or series
//! is dropped or defaulted, while a missing header, a bad issue time or an
//! unreadable document is a hard, classified error. Every decoder is a
//! deterministic function of the input text, stated by its contract.
pub mod elements;
pub mod errors;
pub mod kml;
pub mod mosmix_cfg;
pub mod numbers;
pub mod text;
pub mod timestamp;
pub mod weather_forecast;
pub mod weather_report;
pub mod xml;
