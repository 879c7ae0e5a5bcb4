use jsonsift::assemble::Observation;
use jsonsift::groups::{
    CloudCover, CloudForm, Descriptor, DistanceUnit, Intensity, Phenomenon, PressureUnit,
    RvrTrend, SpeedUnit, TrendKind, WeatherGroup, WindDir,
};
use jsonsift::parse_raw_ob;
use jsonsift::scan::{normalize_whitespace, scan};
use jsonsift::SiftParser;

fn texts(raw: &str) -> Vec<String> {
    scan(raw).into_iter().map(|t| t.text).collect()
}

#[test]
fn full_example_report_decodes() {
    let obs: Observation = parse_raw_ob("KJFK 211851Z 18015G25KT 10SM FEW035 24/18 A3000");
    assert_eq!(obs.station, Some("KJFK".to_string()));
    assert_eq!(obs.timestamp, Some("211851Z".to_string()));
    assert_eq!(obs.remarks, None);
    assert_eq!(
        obs.groups,
        vec![
            WeatherGroup::Wind {
                direction: WindDir::Degrees(180),
                speed: 15,
                gust: Some(25),
                unit: SpeedUnit::Knots,
            },
            WeatherGroup::Visibility { distance: 10, unit: DistanceUnit::StatuteMiles },
            WeatherGroup::CloudLayer {
                coverage: CloudCover::Few,
                base_height: Some(3500),
                form: None,
            },
            WeatherGroup::Temperature { air: 24, dewpoint: 18 },
            WeatherGroup::Pressure { value_centi: 3000, unit: PressureUnit::InchesHg },
        ]
    );
}

#[test]
fn unknown_group_is_kept_as_unrecognized() {
    let obs = parse_raw_ob("KJFK 211851Z XYZ99");
    assert_eq!(obs.groups, vec![WeatherGroup::Unrecognized { raw_text: "XYZ99".to_string() }]);
}

#[test]
fn empty_report_gives_empty_record() {
    let obs = parse_raw_ob("");
    assert_eq!(obs.station, None);
    assert_eq!(obs.timestamp, None);
    assert_eq!(obs.groups, Vec::<WeatherGroup>::new());
    assert_eq!(obs.remarks, None);
}

#[test]
fn scanner_splits_and_numbers_tokens() {
    let toks = scan("  KJFK \t 211851Z \n A3000  ");
    assert_eq!(toks.len(), 3);
    assert_eq!(toks[0].text, "KJFK");
    assert_eq!(toks[0].position, 0);
    assert_eq!(toks[1].text, "211851Z");
    assert_eq!(toks[1].position, 1);
    assert_eq!(toks[2].text, "A3000");
    assert_eq!(toks[2].position, 2);
}

#[test]
fn scanning_is_idempotent_on_normalized_input() {
    let raw = "  KJFK \t\t 18015KT \r\n 10SM  ";
    let normal = normalize_whitespace(raw);
    assert_eq!(normal, "KJFK 18015KT 10SM");
    assert_eq!(texts(raw), texts(&normal));
    assert_eq!(normalize_whitespace(&normal), normal);
}

#[test]
fn remarks_are_joined_after_marker() {
    let obs = parse_raw_ob("KJFK 211851Z 10SM RMK AO2 SLP210");
    assert_eq!(obs.remarks, Some("AO2 SLP210".to_string()));
    assert_eq!(obs.groups.len(), 1);
}

#[test]
fn remarks_marker_alone_leaves_empty_remarks() {
    let obs = parse_raw_ob("KJFK RMK");
    assert_eq!(obs.remarks, Some(String::new()));
    assert_eq!(obs.groups.len(), 0);
}

#[test]
fn token_count_is_conserved() {
    let obs = parse_raw_ob("KJFK 211851Z 18015KT XYZ99 QQQ RMK A B");
    // tokens before RMK: station + timestamp + 3 groups
    let consumed = obs.station.iter().count() + obs.timestamp.iter().count();
    assert_eq!(obs.groups.len() + consumed, 5);
}

#[test]
fn variable_wind_and_mps_unit() {
    let obs = parse_raw_ob("VRB03MPS");
    assert_eq!(
        obs.groups,
        vec![WeatherGroup::Wind {
            direction: WindDir::Variable,
            speed: 3,
            gust: None,
            unit: SpeedUnit::MetersPerSecond,
        }]
    );
}

#[test]
fn hectopascal_pressure_is_scaled_to_hundredths() {
    let obs = parse_raw_ob("Q1013");
    assert_eq!(
        obs.groups,
        vec![WeatherGroup::Pressure { value_centi: 101300, unit: PressureUnit::Hectopascal }]
    );
}

#[test]
fn negative_temperatures_decode() {
    let obs = parse_raw_ob("M05/M10");
    assert_eq!(obs.groups, vec![WeatherGroup::Temperature { air: -5, dewpoint: -10 }]);
}

#[test]
fn runway_visual_range_decodes_before_visibility() {
    let obs = parse_raw_ob("R06L/2000FT/D");
    assert_eq!(
        obs.groups,
        vec![WeatherGroup::RunwayVisualRange {
            runway: "06L".to_string(),
            value: 2000,
            unit: DistanceUnit::Feet,
            trend: Some(RvrTrend::Down),
        }]
    );
}

#[test]
fn meter_visibility_and_sky_clear() {
    let obs = parse_raw_ob("9999 SKC");
    assert_eq!(
        obs.groups,
        vec![
            WeatherGroup::Visibility { distance: 9999, unit: DistanceUnit::Meters },
            WeatherGroup::CloudLayer {
                coverage: CloudCover::SkyClear,
                base_height: None,
                form: None,
            },
        ]
    );
}

#[test]
fn weather_phenomena_with_intensity_and_descriptor() {
    let obs = parse_raw_ob("-SHRA TS BKN040CB");
    assert_eq!(
        obs.groups,
        vec![
            WeatherGroup::WeatherPhenomenon {
                intensity: Some(Intensity::Light),
                descriptor: Some(Descriptor::Showers),
                precipitation: vec![Phenomenon::Rain],
            },
            WeatherGroup::WeatherPhenomenon {
                intensity: None,
                descriptor: Some(Descriptor::Thunderstorm),
                precipitation: vec![],
            },
            WeatherGroup::CloudLayer {
                coverage: CloudCover::Broken,
                base_height: Some(4000),
                form: Some(CloudForm::Cumulonimbus),
            },
        ]
    );
}

#[test]
fn trend_words_decode() {
    let obs = parse_raw_ob("NOSIG");
    assert_eq!(
        obs.groups,
        vec![WeatherGroup::Trend { kind: TrendKind::NoSignificantChange, detail: String::new() }]
    );
}

#[test]
fn partial_wind_pattern_is_rejected_whole() {
    // a wind-like token with a bad speed field must not half-match
    let obs = parse_raw_ob("180KT");
    assert_eq!(obs.groups, vec![WeatherGroup::Unrecognized { raw_text: "180KT".to_string() }]);
}

#[test]
fn sift_parser_report_front_end_matches() {
    let a = SiftParser::parse_report("KJFK 211851Z");
    let b = parse_raw_ob("KJFK 211851Z");
    assert_eq!(a, b);
}

#[test]
fn timestamp_without_station_decodes() {
    let obs = parse_raw_ob("211851Z 24/18");
    assert_eq!(obs.station, None);
    assert_eq!(obs.timestamp, Some("211851Z".to_string()));
    assert_eq!(obs.groups.len(), 1);
}
