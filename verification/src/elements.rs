//! The element-code table of the forecast decoder.
//!
//! Upstream names each forecast series by a terse element code; the
//! decoder publishes it under a stable canonical key. The mapping is
//! fixed configuration data, one entry per line; a code with no entry
//! here is dropped from the decoded forecast. The table is split into a
//! few numbered sections only to keep each function small.
use vstd::prelude::*;

use crate::text::chars_eq_str;

verus! {

/// The canonical key of an upstream element code, or nothing for a code
/// outside the table.
pub open spec fn spec_element_key(code: Seq<char>) -> Option<Seq<char>> {
    spec_element_key_1(code)
}

/// Section 1 of the element-code table.
pub open spec fn spec_element_key_1(code: Seq<char>) -> Option<Seq<char>> {
    if code == "TTT"@ {
        Some("temp"@)
    } else if code == "Td"@ {
        Some("dew_point"@)
    } else if code == "TX"@ {
        Some("max_temp"@)
    } else if code == "TN"@ {
        Some("min_temp"@)
    } else if code == "DD"@ {
        Some("wind_direction"@)
    } else if code == "FF"@ {
        Some("wind_speed"@)
    } else if code == "FX1"@ {
        Some("max_wind_gust_1h"@)
    } else if code == "FX3"@ {
        Some("max_wind_gust_3h"@)
    } else if code == "FXh"@ {
        Some("max_wind_gust_12h"@)
    } else if code == "RR1c"@ {
        Some("precipitation_1h_significant_weather"@)
    } else if code == "RR1"@ {
        Some("precipitation_1h"@)
    } else if code == "RR3c"@ {
        Some("precipitation_3h_significant_weather"@)
    } else if code == "RR3"@ {
        Some("precipitation_3h"@)
    } else if code == "RRS1c"@ {
        Some("snow_rain_eq_1h"@)
    } else if code == "RRS3c"@ {
        Some("snow_rain_eq_3h"@)
    } else if code == "ww"@ {
        Some("significant_weather"@)
    } else if code == "W1W2"@ {
        Some("past_weather_6h"@)
    } else if code == "N"@ {
        Some("total_cloud_cover"@)
    } else if code == "Neff"@ {
        Some("effective_cloud_cover"@)
    } else if code == "N05"@ {
        Some("cloud_cover_500ft"@)
    } else if code == "Nl"@ {
        Some("low_cloud_cover"@)
    } else if code == "Nm"@ {
        Some("midlevel_cloud_cover"@)
    } else if code == "Nh"@ {
        Some("high_cloud_cover"@)
    } else if code == "PPPP"@ {
        Some("surface_pressure"@)
    } else if code == "T5cm"@ {
        Some("temp_5cm"@)
    } else if code == "RadS3"@ {
        Some("shortwave_radiation_3h"@)
    } else if code == "Rad1h"@ {
        Some("global_irradiance"@)
    } else if code == "RadL3"@ {
        Some("longwave_radiation_3h"@)
    } else if code == "VV"@ {
        Some("visibility"@)
    } else if code == "SunD1"@ {
        Some("sunshine_last_hour"@)
    } else if code == "FXh25"@ {
        Some("p_wind_gust_25kn_12h"@)
    } else if code == "FXh40"@ {
        Some("p_wind_gust_40kn_12h"@)
    } else if code == "FXh55"@ {
        Some("p_wind_gust_55kn_12h"@)
    } else if code == "wwM"@ {
        Some("p_fog_1h"@)
    } else if code == "wwM6"@ {
        Some("p_fog_6h"@)
    } else if code == "wwMh"@ {
        Some("p_fog_12h"@)
    } else if code == "Rh00"@ {
        Some("p_precipitation_0mm_12h"@)
    } else if code == "R602"@ {
        Some("p_precipitation_p2mm_6h"@)
    } else if code == "Rh02"@ {
        Some("p_precipitation_p2mm_12h"@)
    } else if code == "Rd02"@ {
        Some("p_precipitation_p2mm_24h"@)
    } else if code == "Rh10"@ {
        Some("p_precipitation_1mm_12h"@)
    } else if code == "R650"@ {
        Some("p_precipitation_5mm_6h"@)
    } else if code == "Rh50"@ {
        Some("p_precipitation_5mm_12h"@)
    } else if code == "Rd50"@ {
        Some("p_precipitation_5mm_24h"@)
    } else if code == "TG"@ {
        Some("min_temp_5cm_12h"@)
    } else {
        spec_element_key_2(code)
    }
}

/// Section 2 of the element-code table.
pub open spec fn spec_element_key_2(code: Seq<char>) -> Option<Seq<char>> {
    if code == "TM"@ {
        Some("mean_temp_24h"@)
    } else if code == "DRR1"@ {
        Some("precipitation_duration_1h"@)
    } else if code == "wwZ"@ {
        Some("p_drizzle_1h"@)
    } else if code == "wwD"@ {
        Some("p_straitform_precipitation_1h"@)
    } else if code == "wwC"@ {
        Some("p_convective_precipitation_1h"@)
    } else if code == "wwT"@ {
        Some("p_thunderstorms_1h"@)
    } else if code == "wwL"@ {
        Some("p_liquid_precipitation_1h"@)
    } else if code == "wwS"@ {
        Some("p_solid_precipitation_1h"@)
    } else if code == "wwF"@ {
        Some("p_freezing_rain_1h"@)
    } else if code == "wwP"@ {
        Some("p_precipitation_1h"@)
    } else if code == "VV10"@ {
        Some("p_visibility_below_1km"@)
    } else if code == "E_TTT"@ {
        Some("e_temp"@)
    } else if code == "E_FF"@ {
        Some("e_wind_speed"@)
    } else if code == "E_DD"@ {
        Some("e_wind_direction"@)
    } else if code == "E_Td"@ {
        Some("e_dew_point"@)
    } else if code == "RR6"@ {
        Some("precipitation_6h"@)
    } else if code == "RR6c"@ {
        Some("precipitation_6h_significant_weather"@)
    } else if code == "R600"@ {
        Some("p_precipitation_0mm_6h"@)
    } else if code == "R101"@ {
        Some("p_precipitation_p1mm_1h"@)
    } else if code == "R102"@ {
        Some("p_precipitation_p2mm_1h"@)
    } else if code == "R103"@ {
        Some("p_precipitation_p3mm_1h"@)
    } else if code == "R105"@ {
        Some("p_precipitation_p5mm_1h"@)
    } else if code == "R107"@ {
        Some("p_precipitation_p7mm_1h"@)
    } else if code == "R110"@ {
        Some("p_precipitation_1mm_1h"@)
    } else if code == "R120"@ {
        Some("p_precipitation_2mm_1h"@)
    } else if code == "SunD"@ {
        Some("sunshine_duration_yesterday"@)
    } else if code == "RSunD"@ {
        Some("rel_sunshine_duration_24h"@)
    } else if code == "PSd00"@ {
        Some("p_rel_sunshine_duration_24h"@)
    } else if code == "PSd30"@ {
        Some("p_rel_sunshine_duration_30p_24h"@)
    } else if code == "PSd60"@ {
        Some("p_rel_sunshine_duration_60p_24h"@)
    } else if code == "RRad1"@ {
        Some("global_irradiance_1h"@)
    } else if code == "PEvap"@ {
        Some("potential_evapotranspiration_24h"@)
    } else if code == "R130"@ {
        Some("p_precipitation_3mm_1h"@)
    } else if code == "R150"@ {
        Some("p_precipitation_5mm_1h"@)
    } else if code == "RR1o1"@ {
        Some("p_precipitation_10mm_1h"@)
    } else if code == "RR1w1"@ {
        Some("p_precipitation_15mm_1h"@)
    } else if code == "RR1u1"@ {
        Some("p_precipitation_25mm_1h"@)
    } else if code == "wwD6"@ {
        Some("p_straightform_precipitation_6h"@)
    } else if code == "wwC6"@ {
        Some("p_convective_precipitation_6h"@)
    } else if code == "wwT6"@ {
        Some("p_thunderstorms_6h"@)
    } else if code == "wwP6"@ {
        Some("p_precipitation_6h"@)
    } else if code == "wwL6"@ {
        Some("p_liquid_precipitation_6h"@)
    } else if code == "wwF6"@ {
        Some("p_freezing_rain_6h"@)
    } else if code == "wwS6"@ {
        Some("p_solid_precipitation_6h"@)
    } else if code == "wwZ6"@ {
        Some("p_drizzle_6h"@)
    } else {
        spec_element_key_3(code)
    }
}

/// Section 3 of the element-code table.
pub open spec fn spec_element_key_3(code: Seq<char>) -> Option<Seq<char>> {
    if code == "wwMd"@ {
        Some("p_fog_24h"@)
    } else if code == "FX625"@ {
        Some("p_gusts_25kn_6h"@)
    } else if code == "FX640"@ {
        Some("p_gusts_40kn_6h"@)
    } else if code == "FX655"@ {
        Some("p_gusts_55kn_6h"@)
    } else if code == "wwDh"@ {
        Some("p_straightform_precipitation_12h"@)
    } else if code == "wwCh"@ {
        Some("p_convective_precipitation_12h"@)
    } else if code == "wwTh"@ {
        Some("p_thunderstorms_12h"@)
    } else if code == "wwPh"@ {
        Some("p_precipitation_12h"@)
    } else if code == "wwLh"@ {
        Some("p_liquid_precipitation_12h"@)
    } else if code == "wwFh"@ {
        Some("p_freezing_rain_12h"@)
    } else if code == "wwSh"@ {
        Some("p_solid_precipitation_12h"@)
    } else if code == "wwZh"@ {
        Some("p_drizzle_12h"@)
    } else if code == "R610"@ {
        Some("p_precipitation_1mm_6h"@)
    } else if code == "RRh"@ {
        Some("precipitation_12h"@)
    } else if code == "RRhc"@ {
        Some("precipitation_12h_significant_weather"@)
    } else if code == "ww3"@ {
        Some("significant_weather_3h"@)
    } else if code == "RRL1c"@ {
        Some("liquid_precipitation_1h_significant_weather"@)
    } else if code == "Rd00"@ {
        Some("p_precipitation_00_24h"@)
    } else if code == "Rd10"@ {
        Some("p_precipitation_1mm_24h"@)
    } else if code == "RRd"@ {
        Some("precipitation_24h"@)
    } else if code == "RRdc"@ {
        Some("precipitation_24h_significant_weather"@)
    } else if code == "Nlm"@ {
        Some("cloud_cover_low_mid_7km"@)
    } else if code == "wwPd"@ {
        Some("p_precipitation_24h"@)
    } else if code == "H_BsC"@ {
        Some("cloud_base_convective_clouds"@)
    } else if code == "wwTd"@ {
        Some("p_thunderstorms_24h"@)
    } else if code == "E_PPP"@ {
        Some("e_surface_pressure"@)
    } else if code == "SunD3"@ {
        Some("sunshine_duration_3h"@)
    } else if code == "WPc11"@ {
        Some("opt_significant_weather_1h"@)
    } else if code == "WPc31"@ {
        Some("opt_significant_weather_3h"@)
    } else if code == "WPc61"@ {
        Some("opt_significant_weather_6h"@)
    } else if code == "WPch1"@ {
        Some("opt_significant_weather_12h"@)
    } else if code == "WPcd1"@ {
        Some("opt_significant_weather_24h"@)
    } else if code == "Sa3"@ {
        Some("accumulated_snow_3h"@)
    } else if code == "Sa6"@ {
        Some("accumulated_snow_6h"@)
    } else if code == "Sah"@ {
        Some("accumulated_snow_12h"@)
    } else if code == "Sad"@ {
        Some("accumulated_snow_24h"@)
    } else if code == "Sa605"@ {
        Some("p_snow_5cm_6h"@)
    } else if code == "Sa610"@ {
        Some("p_snow_10cm_6h"@)
    } else if code == "Sa620"@ {
        Some("p_snow_20cm_6h"@)
    } else if code == "Sah05"@ {
        Some("p_snow_5cm_12h"@)
    } else if code == "Sah10"@ {
        Some("p_snow_10cm_12h"@)
    } else if code == "Sah30"@ {
        Some("p_snow_30cm_12h"@)
    } else if code == "Sad10"@ {
        Some("p_snow_10cm_24h"@)
    } else if code == "Sad30"@ {
        Some("p_snow_30cm_24h"@)
    } else if code == "Sad50"@ {
        Some("p_snow_50cm_24h"@)
    } else {
        spec_element_key_4(code)
    }
}

/// Section 4 of the element-code table.
pub open spec fn spec_element_key_4(code: Seq<char>) -> Option<Seq<char>> {
    if code == "SnCv"@ {
        Some("snow_depth"@)
    } else {
        None::<Seq<char>>
    }
}

/// Look an element code up in section 1 of the table and onward.
pub fn element_key(code: &[char]) -> (r: Option<String>)
    ensures
        match r {
            Some(k) => spec_element_key(code@) == Some(k@),
            None => spec_element_key(code@) is None,
        },
{
    if chars_eq_str(code, "TTT") {
        Some(String::from_str("temp"))
    } else if chars_eq_str(code, "Td") {
        Some(String::from_str("dew_point"))
    } else if chars_eq_str(code, "TX") {
        Some(String::from_str("max_temp"))
    } else if chars_eq_str(code, "TN") {
        Some(String::from_str("min_temp"))
    } else if chars_eq_str(code, "DD") {
        Some(String::from_str("wind_direction"))
    } else if chars_eq_str(code, "FF") {
        Some(String::from_str("wind_speed"))
    } else if chars_eq_str(code, "FX1") {
        Some(String::from_str("max_wind_gust_1h"))
    } else if chars_eq_str(code, "FX3") {
        Some(String::from_str("max_wind_gust_3h"))
    } else if chars_eq_str(code, "FXh") {
        Some(String::from_str("max_wind_gust_12h"))
    } else if chars_eq_str(code, "RR1c") {
        Some(String::from_str("precipitation_1h_significant_weather"))
    } else if chars_eq_str(code, "RR1") {
        Some(String::from_str("precipitation_1h"))
    } else if chars_eq_str(code, "RR3c") {
        Some(String::from_str("precipitation_3h_significant_weather"))
    } else if chars_eq_str(code, "RR3") {
        Some(String::from_str("precipitation_3h"))
    } else if chars_eq_str(code, "RRS1c") {
        Some(String::from_str("snow_rain_eq_1h"))
    } else if chars_eq_str(code, "RRS3c") {
        Some(String::from_str("snow_rain_eq_3h"))
    } else if chars_eq_str(code, "ww") {
        Some(String::from_str("significant_weather"))
    } else if chars_eq_str(code, "W1W2") {
        Some(String::from_str("past_weather_6h"))
    } else if chars_eq_str(code, "N") {
        Some(String::from_str("total_cloud_cover"))
    } else if chars_eq_str(code, "Neff") {
        Some(String::from_str("effective_cloud_cover"))
    } else if chars_eq_str(code, "N05") {
        Some(String::from_str("cloud_cover_500ft"))
    } else if chars_eq_str(code, "Nl") {
        Some(String::from_str("low_cloud_cover"))
    } else if chars_eq_str(code, "Nm") {
        Some(String::from_str("midlevel_cloud_cover"))
    } else if chars_eq_str(code, "Nh") {
        Some(String::from_str("high_cloud_cover"))
    } else if chars_eq_str(code, "PPPP") {
        Some(String::from_str("surface_pressure"))
    } else if chars_eq_str(code, "T5cm") {
        Some(String::from_str("temp_5cm"))
    } else if chars_eq_str(code, "RadS3") {
        Some(String::from_str("shortwave_radiation_3h"))
    } else if chars_eq_str(code, "Rad1h") {
        Some(String::from_str("global_irradiance"))
    } else if chars_eq_str(code, "RadL3") {
        Some(String::from_str("longwave_radiation_3h"))
    } else if chars_eq_str(code, "VV") {
        Some(String::from_str("visibility"))
    } else if chars_eq_str(code, "SunD1") {
        Some(String::from_str("sunshine_last_hour"))
    } else if chars_eq_str(code, "FXh25") {
        Some(String::from_str("p_wind_gust_25kn_12h"))
    } else if chars_eq_str(code, "FXh40") {
        Some(String::from_str("p_wind_gust_40kn_12h"))
    } else if chars_eq_str(code, "FXh55") {
        Some(String::from_str("p_wind_gust_55kn_12h"))
    } else if chars_eq_str(code, "wwM") {
        Some(String::from_str("p_fog_1h"))
    } else if chars_eq_str(code, "wwM6") {
        Some(String::from_str("p_fog_6h"))
    } else if chars_eq_str(code, "wwMh") {
        Some(String::from_str("p_fog_12h"))
    } else if chars_eq_str(code, "Rh00") {
        Some(String::from_str("p_precipitation_0mm_12h"))
    } else if chars_eq_str(code, "R602") {
        Some(String::from_str("p_precipitation_p2mm_6h"))
    } else if chars_eq_str(code, "Rh02") {
        Some(String::from_str("p_precipitation_p2mm_12h"))
    } else if chars_eq_str(code, "Rd02") {
        Some(String::from_str("p_precipitation_p2mm_24h"))
    } else if chars_eq_str(code, "Rh10") {
        Some(String::from_str("p_precipitation_1mm_12h"))
    } else if chars_eq_str(code, "R650") {
        Some(String::from_str("p_precipitation_5mm_6h"))
    } else if chars_eq_str(code, "Rh50") {
        Some(String::from_str("p_precipitation_5mm_12h"))
    } else if chars_eq_str(code, "Rd50") {
        Some(String::from_str("p_precipitation_5mm_24h"))
    } else if chars_eq_str(code, "TG") {
        Some(String::from_str("min_temp_5cm_12h"))
    } else {
        element_key_2(code)
    }
}

/// Look an element code up in section 2 of the table and onward.
fn element_key_2(code: &[char]) -> (r: Option<String>)
    ensures
        match r {
            Some(k) => spec_element_key_2(code@) == Some(k@),
            None => spec_element_key_2(code@) is None,
        },
{
    if chars_eq_str(code, "TM") {
        Some(String::from_str("mean_temp_24h"))
    } else if chars_eq_str(code, "DRR1") {
        Some(String::from_str("precipitation_duration_1h"))
    } else if chars_eq_str(code, "wwZ") {
        Some(String::from_str("p_drizzle_1h"))
    } else if chars_eq_str(code, "wwD") {
        Some(String::from_str("p_straitform_precipitation_1h"))
    } else if chars_eq_str(code, "wwC") {
        Some(String::from_str("p_convective_precipitation_1h"))
    } else if chars_eq_str(code, "wwT") {
        Some(String::from_str("p_thunderstorms_1h"))
    } else if chars_eq_str(code, "wwL") {
        Some(String::from_str("p_liquid_precipitation_1h"))
    } else if chars_eq_str(code, "wwS") {
        Some(String::from_str("p_solid_precipitation_1h"))
    } else if chars_eq_str(code, "wwF") {
        Some(String::from_str("p_freezing_rain_1h"))
    } else if chars_eq_str(code, "wwP") {
        Some(String::from_str("p_precipitation_1h"))
    } else if chars_eq_str(code, "VV10") {
        Some(String::from_str("p_visibility_below_1km"))
    } else if chars_eq_str(code, "E_TTT") {
        Some(String::from_str("e_temp"))
    } else if chars_eq_str(code, "E_FF") {
        Some(String::from_str("e_wind_speed"))
    } else if chars_eq_str(code, "E_DD") {
        Some(String::from_str("e_wind_direction"))
    } else if chars_eq_str(code, "E_Td") {
        Some(String::from_str("e_dew_point"))
    } else if chars_eq_str(code, "RR6") {
        Some(String::from_str("precipitation_6h"))
    } else if chars_eq_str(code, "RR6c") {
        Some(String::from_str("precipitation_6h_significant_weather"))
    } else if chars_eq_str(code, "R600") {
        Some(String::from_str("p_precipitation_0mm_6h"))
    } else if chars_eq_str(code, "R101") {
        Some(String::from_str("p_precipitation_p1mm_1h"))
    } else if chars_eq_str(code, "R102") {
        Some(String::from_str("p_precipitation_p2mm_1h"))
    } else if chars_eq_str(code, "R103") {
        Some(String::from_str("p_precipitation_p3mm_1h"))
    } else if chars_eq_str(code, "R105") {
        Some(String::from_str("p_precipitation_p5mm_1h"))
    } else if chars_eq_str(code, "R107") {
        Some(String::from_str("p_precipitation_p7mm_1h"))
    } else if chars_eq_str(code, "R110") {
        Some(String::from_str("p_precipitation_1mm_1h"))
    } else if chars_eq_str(code, "R120") {
        Some(String::from_str("p_precipitation_2mm_1h"))
    } else if chars_eq_str(code, "SunD") {
        Some(String::from_str("sunshine_duration_yesterday"))
    } else if chars_eq_str(code, "RSunD") {
        Some(String::from_str("rel_sunshine_duration_24h"))
    } else if chars_eq_str(code, "PSd00") {
        Some(String::from_str("p_rel_sunshine_duration_24h"))
    } else if chars_eq_str(code, "PSd30") {
        Some(String::from_str("p_rel_sunshine_duration_30p_24h"))
    } else if chars_eq_str(code, "PSd60") {
        Some(String::from_str("p_rel_sunshine_duration_60p_24h"))
    } else if chars_eq_str(code, "RRad1") {
        Some(String::from_str("global_irradiance_1h"))
    } else if chars_eq_str(code, "PEvap") {
        Some(String::from_str("potential_evapotranspiration_24h"))
    } else if chars_eq_str(code, "R130") {
        Some(String::from_str("p_precipitation_3mm_1h"))
    } else if chars_eq_str(code, "R150") {
        Some(String::from_str("p_precipitation_5mm_1h"))
    } else if chars_eq_str(code, "RR1o1") {
        Some(String::from_str("p_precipitation_10mm_1h"))
    } else if chars_eq_str(code, "RR1w1") {
        Some(String::from_str("p_precipitation_15mm_1h"))
    } else if chars_eq_str(code, "RR1u1") {
        Some(String::from_str("p_precipitation_25mm_1h"))
    } else if chars_eq_str(code, "wwD6") {
        Some(String::from_str("p_straightform_precipitation_6h"))
    } else if chars_eq_str(code, "wwC6") {
        Some(String::from_str("p_convective_precipitation_6h"))
    } else if chars_eq_str(code, "wwT6") {
        Some(String::from_str("p_thunderstorms_6h"))
    } else if chars_eq_str(code, "wwP6") {
        Some(String::from_str("p_precipitation_6h"))
    } else if chars_eq_str(code, "wwL6") {
        Some(String::from_str("p_liquid_precipitation_6h"))
    } else if chars_eq_str(code, "wwF6") {
        Some(String::from_str("p_freezing_rain_6h"))
    } else if chars_eq_str(code, "wwS6") {
        Some(String::from_str("p_solid_precipitation_6h"))
    } else if chars_eq_str(code, "wwZ6") {
        Some(String::from_str("p_drizzle_6h"))
    } else {
        element_key_3(code)
    }
}

/// Look an element code up in section 3 of the table and onward.
fn element_key_3(code: &[char]) -> (r: Option<String>)
    ensures
        match r {
            Some(k) => spec_element_key_3(code@) == Some(k@),
            None => spec_element_key_3(code@) is None,
        },
{
    if chars_eq_str(code, "wwMd") {
        Some(String::from_str("p_fog_24h"))
    } else if chars_eq_str(code, "FX625") {
        Some(String::from_str("p_gusts_25kn_6h"))
    } else if chars_eq_str(code, "FX640") {
        Some(String::from_str("p_gusts_40kn_6h"))
    } else if chars_eq_str(code, "FX655") {
        Some(String::from_str("p_gusts_55kn_6h"))
    } else if chars_eq_str(code, "wwDh") {
        Some(String::from_str("p_straightform_precipitation_12h"))
    } else if chars_eq_str(code, "wwCh") {
        Some(String::from_str("p_convective_precipitation_12h"))
    } else if chars_eq_str(code, "wwTh") {
        Some(String::from_str("p_thunderstorms_12h"))
    } else if chars_eq_str(code, "wwPh") {
        Some(String::from_str("p_precipitation_12h"))
    } else if chars_eq_str(code, "wwLh") {
        Some(String::from_str("p_liquid_precipitation_12h"))
    } else if chars_eq_str(code, "wwFh") {
        Some(String::from_str("p_freezing_rain_12h"))
    } else if chars_eq_str(code, "wwSh") {
        Some(String::from_str("p_solid_precipitation_12h"))
    } else if chars_eq_str(code, "wwZh") {
        Some(String::from_str("p_drizzle_12h"))
    } else if chars_eq_str(code, "R610") {
        Some(String::from_str("p_precipitation_1mm_6h"))
    } else if chars_eq_str(code, "RRh") {
        Some(String::from_str("precipitation_12h"))
    } else if chars_eq_str(code, "RRhc") {
        Some(String::from_str("precipitation_12h_significant_weather"))
    } else if chars_eq_str(code, "ww3") {
        Some(String::from_str("significant_weather_3h"))
    } else if chars_eq_str(code, "RRL1c") {
        Some(String::from_str("liquid_precipitation_1h_significant_weather"))
    } else if chars_eq_str(code, "Rd00") {
        Some(String::from_str("p_precipitation_00_24h"))
    } else if chars_eq_str(code, "Rd10") {
        Some(String::from_str("p_precipitation_1mm_24h"))
    } else if chars_eq_str(code, "RRd") {
        Some(String::from_str("precipitation_24h"))
    } else if chars_eq_str(code, "RRdc") {
        Some(String::from_str("precipitation_24h_significant_weather"))
    } else if chars_eq_str(code, "Nlm") {
        Some(String::from_str("cloud_cover_low_mid_7km"))
    } else if chars_eq_str(code, "wwPd") {
        Some(String::from_str("p_precipitation_24h"))
    } else if chars_eq_str(code, "H_BsC") {
        Some(String::from_str("cloud_base_convective_clouds"))
    } else if chars_eq_str(code, "wwTd") {
        Some(String::from_str("p_thunderstorms_24h"))
    } else if chars_eq_str(code, "E_PPP") {
        Some(String::from_str("e_surface_pressure"))
    } else if chars_eq_str(code, "SunD3") {
        Some(String::from_str("sunshine_duration_3h"))
    } else if chars_eq_str(code, "WPc11") {
        Some(String::from_str("opt_significant_weather_1h"))
    } else if chars_eq_str(code, "WPc31") {
        Some(String::from_str("opt_significant_weather_3h"))
    } else if chars_eq_str(code, "WPc61") {
        Some(String::from_str("opt_significant_weather_6h"))
    } else if chars_eq_str(code, "WPch1") {
        Some(String::from_str("opt_significant_weather_12h"))
    } else if chars_eq_str(code, "WPcd1") {
        Some(String::from_str("opt_significant_weather_24h"))
    } else if chars_eq_str(code, "Sa3") {
        Some(String::from_str("accumulated_snow_3h"))
    } else if chars_eq_str(code, "Sa6") {
        Some(String::from_str("accumulated_snow_6h"))
    } else if chars_eq_str(code, "Sah") {
        Some(String::from_str("accumulated_snow_12h"))
    } else if chars_eq_str(code, "Sad") {
        Some(String::from_str("accumulated_snow_24h"))
    } else if chars_eq_str(code, "Sa605") {
        Some(String::from_str("p_snow_5cm_6h"))
    } else if chars_eq_str(code, "Sa610") {
        Some(String::from_str("p_snow_10cm_6h"))
    } else if chars_eq_str(code, "Sa620") {
        Some(String::from_str("p_snow_20cm_6h"))
    } else if chars_eq_str(code, "Sah05") {
        Some(String::from_str("p_snow_5cm_12h"))
    } else if chars_eq_str(code, "Sah10") {
        Some(String::from_str("p_snow_10cm_12h"))
    } else if chars_eq_str(code, "Sah30") {
        Some(String::from_str("p_snow_30cm_12h"))
    } else if chars_eq_str(code, "Sad10") {
        Some(String::from_str("p_snow_10cm_24h"))
    } else if chars_eq_str(code, "Sad30") {
        Some(String::from_str("p_snow_30cm_24h"))
    } else if chars_eq_str(code, "Sad50") {
        Some(String::from_str("p_snow_50cm_24h"))
    } else {
        element_key_4(code)
    }
}

/// Look an element code up in section 4 of the table and onward.
fn element_key_4(code: &[char]) -> (r: Option<String>)
    ensures
        match r {
            Some(k) => spec_element_key_4(code@) == Some(k@),
            None => spec_element_key_4(code@) is None,
        },
{
    if chars_eq_str(code, "SnCv") {
        Some(String::from_str("snow_depth"))
    } else {
        None
    }
}

} // verus!
