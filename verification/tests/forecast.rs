use dwd_decode::errors::DwdError;
use dwd_decode::kml::deserialize_to_forecast;
use dwd_decode::kml::kml_to_forecast_data;
use dwd_decode::weather_forecast::SeriesValue;

fn kml_doc(issue_time: &str, elements: &str) -> String {
    format!(
        "<?xml version=\"1.0\" encoding=\"UTF-8\"?>\n\
         <kml:kml xmlns:dwd=\"x\" xmlns:kml=\"y\">\n\
         <kml:Document>\n\
         <kml:ExtendedData>\n\
         <dwd:ProductDefinition>\n\
         <dwd:Issuer>DWD</dwd:Issuer>\n\
         <dwd:GeneratingProcess>mosmix</dwd:GeneratingProcess>\n\
         <dwd:IssueTime>{}</dwd:IssueTime>\n\
         <dwd:ReferencedModel>\n\
         <dwd:Model dwd:name=\"ICON\" dwd:referenceTime=\"2023-01-01T00:00:00.000Z\"/>\n\
         </dwd:ReferencedModel>\n\
         <dwd:ForecastTimeSteps>\n\
         <dwd:TimeStep>2023-01-01T06:00Z</dwd:TimeStep>\n\
         <dwd:TimeStep>2023-01-01T12:00Z</dwd:TimeStep>\n\
         </dwd:ForecastTimeSteps>\n\
         </dwd:ProductDefinition>\n\
         </kml:ExtendedData>\n\
         <kml:Placemark>\n\
         <kml:name>Berlin</kml:name>\n\
         <kml:description>Berlin-Tempelhof</kml:description>\n\
         <kml:Point><kml:coordinates>13.4,52.5,35.0</kml:coordinates></kml:Point>\n\
         <kml:ExtendedData>\n\
         {}\
         </kml:ExtendedData>\n\
         </kml:Placemark>\n\
         </kml:Document>\n\
         </kml:kml>\n",
        issue_time, elements
    )
}

fn series<'a>(
    f: &'a dwd_decode::weather_forecast::Forecast,
    key: &str,
) -> Option<&'a Vec<SeriesValue>> {
    f.data.iter().find(|e| e.key == key).map(|e| &e.values)
}

#[test]
fn forecast_with_one_element_decodes() {
    let doc = kml_doc(
        "2023-01-01T00:00Z",
        "<dwd:Forecast dwd:elementName=\"TTT\"><dwd:value>280.1 281.3</dwd:value></dwd:Forecast>\n",
    );
    let f = deserialize_to_forecast(&doc).unwrap();
    assert_eq!(f.name, "Berlin");
    assert_eq!(f.description, "Berlin-Tempelhof");
    assert_eq!(f.issuer, "DWD");
    assert_eq!(f.generating_process, "mosmix");
    assert_eq!(f.coordinates, "13.4,52.5,35.0");
    assert_eq!(f.issue_time, 1672531200000);
    assert_eq!(f.n_data_points, 2);
    assert_eq!(f.reference_models.len(), 1);
    assert_eq!(f.reference_models[0].name, "ICON");
    assert_eq!(f.reference_models[0].reference_time, 1672531200000);
    let temp = series(&f, "temp").expect("temp series");
    assert_eq!(
        temp,
        &vec![
            SeriesValue::Num("280.1".to_string()),
            SeriesValue::Num("281.3".to_string()),
        ]
    );
    let steps = series(&f, "time_steps").expect("time_steps series");
    assert_eq!(
        steps,
        &vec![SeriesValue::Int(1672552800000), SeriesValue::Int(1672574400000)]
    );
}

#[test]
fn every_series_is_aligned_to_the_time_steps() {
    let doc = kml_doc(
        "2023-01-01T00:00:00Z",
        "<dwd:Forecast dwd:elementName=\"TTT\"><dwd:value>280.1</dwd:value></dwd:Forecast>\n\
         <dwd:Forecast dwd:elementName=\"FF\"><dwd:value>3.0 4.0</dwd:value></dwd:Forecast>\n\
         <dwd:Forecast dwd:elementName=\"XYZQ\"><dwd:value>1.0 2.0</dwd:value></dwd:Forecast>\n",
    );
    let f = deserialize_to_forecast(&doc).unwrap();
    // The one-value TTT series is dropped whole; the unknown code XYZQ
    // never appears; what stays is exactly two values long.
    assert!(series(&f, "temp").is_none());
    assert!(series(&f, "wind_speed").is_some());
    assert!(f.data.iter().all(|e| e.values.len() == 2));
    assert_eq!(f.data.len(), 2);
}

#[test]
fn inline_sentinel_becomes_null() {
    let doc = kml_doc(
        "2023-01-01T00:00:00Z",
        "<dwd:Forecast dwd:elementName=\"TTT\"><dwd:value>280.1 --</dwd:value></dwd:Forecast>\n",
    );
    let f = deserialize_to_forecast(&doc).unwrap();
    let temp = series(&f, "temp").unwrap();
    assert_eq!(temp[0], SeriesValue::Num("280.1".to_string()));
    assert_eq!(temp[1], SeriesValue::Null);
}

#[test]
fn repeated_element_code_overwrites() {
    let doc = kml_doc(
        "2023-01-01T00:00:00Z",
        "<dwd:Forecast dwd:elementName=\"TTT\"><dwd:value>1.0 2.0</dwd:value></dwd:Forecast>\n\
         <dwd:Forecast dwd:elementName=\"TTT\"><dwd:value>3.0 4.0</dwd:value></dwd:Forecast>\n",
    );
    let f = deserialize_to_forecast(&doc).unwrap();
    let temp = series(&f, "temp").unwrap();
    assert_eq!(temp[0], SeriesValue::Num("3.0".to_string()));
    assert_eq!(f.data.iter().filter(|e| e.key == "temp").count(), 1);
}

#[test]
fn bad_issue_time_is_its_own_error() {
    let doc = kml_doc("yesterday", "");
    assert_eq!(deserialize_to_forecast(&doc), Err(DwdError::InvalidIssueTime));
}

#[test]
fn missing_required_field_is_invalid_document() {
    let doc = kml_doc("2023-01-01T00:00Z", "").replace("<dwd:Issuer>DWD</dwd:Issuer>\n", "");
    assert_eq!(deserialize_to_forecast(&doc), Err(DwdError::InvalidKml));
}

#[test]
fn unparseable_text_is_invalid_document() {
    assert_eq!(deserialize_to_forecast("<kml:kml><unclosed"), Err(DwdError::InvalidKml));
    assert_eq!(deserialize_to_forecast("no markup at all"), Err(DwdError::InvalidKml));
}

#[test]
fn bad_reference_time_degrades_to_zero() {
    let doc = kml_doc("2023-01-01T00:00Z", "").replace("2023-01-01T00:00:00.000Z", "soon");
    let f = deserialize_to_forecast(&doc).unwrap();
    assert_eq!(f.reference_models[0].reference_time, 0);
}

#[test]
fn forecast_decoding_is_idempotent() {
    let doc = kml_doc(
        "2023-01-01T00:00Z",
        "<dwd:Forecast dwd:elementName=\"TTT\"><dwd:value>280.1 281.3</dwd:value></dwd:Forecast>\n",
    );
    let a = deserialize_to_forecast(&doc);
    let b = deserialize_to_forecast(&doc);
    assert_eq!(a, b);
}

fn chars(s: &str) -> Vec<char> {
    s.chars().collect()
}

#[test]
fn forecast_data_builds_columnar_table() {
    let elements = vec![
        (chars("TTT"), chars("280.1 281.3")),
        (chars("Rad1h"), chars("0 100")),
    ];
    let steps = vec![chars("2023-01-01T06:00Z"), chars("2023-01-01T12:00Z")];
    let (data, n) = kml_to_forecast_data(&elements, &steps);
    assert_eq!(n, 2);
    assert_eq!(data.len(), 3);
    assert_eq!(data[0].key, "time_steps");
    assert_eq!(data[0].values, vec![
        SeriesValue::Int(1672552800000),
        SeriesValue::Int(1672574400000),
    ]);
    assert_eq!(data[1].key, "temp");
    assert_eq!(data[2].key, "global_irradiance");
}
