use jsonsift::convert_to_csv;
use jsonsift::csv::{compute_header, write_csv};
use jsonsift::flatten::{flatten_json, FlatRow};
use jsonsift::parse_json;
use jsonsift::tree::{render_tree, JsonValue};
use jsonsift::ParseError;

fn row(pairs: &[(&str, &str)]) -> FlatRow {
    FlatRow {
        entries: pairs.iter().map(|(p, v)| (p.to_string(), v.to_string())).collect(),
    }
}

fn flat(v: &JsonValue) -> Vec<(String, String)> {
    let mut out = FlatRow { entries: Vec::new() };
    flatten_json(v, String::new(), &mut out);
    out.entries
}

#[test]
fn nested_example_flattens_with_indexed_paths() {
    let v = parse_json("{\"a\": [1, {\"b\": 2}]}").unwrap();
    assert_eq!(
        flat(&v),
        vec![("a.0".to_string(), "1".to_string()), ("a.1.b".to_string(), "2".to_string())]
    );
}

#[test]
fn header_union_keeps_first_seen_order() {
    let rows = vec![row(&[("x", "1")]), row(&[("y", "2")])];
    assert_eq!(write_csv(&rows), "x,y\n1,\n,2\n");
}

#[test]
fn header_set_survives_row_permutation() {
    let a = vec![row(&[("x", "1")]), row(&[("y", "2"), ("z", "3")])];
    let b = vec![row(&[("y", "2"), ("z", "3")]), row(&[("x", "1")])];
    let mut ha = compute_header(&a);
    let mut hb = compute_header(&b);
    ha.sort();
    hb.sort();
    assert_eq!(ha, hb);
}

#[test]
fn csv_fields_are_quoted_per_rfc4180() {
    let rows = vec![row(&[("a", "x,y"), ("b", "say \"hi\""), ("c", "plain")])];
    assert_eq!(write_csv(&rows), "a,b,c\n\"x,y\",\"say \"\"hi\"\"\",plain\n");
}

#[test]
fn empty_row_sequence_writes_empty_output() {
    assert_eq!(write_csv(&Vec::new()), "");
}

#[test]
fn scalars_flatten_to_single_entries() {
    assert_eq!(flat(&JsonValue::Null), vec![(String::new(), String::new())]);
    assert_eq!(flat(&JsonValue::Bool(true)), vec![(String::new(), "true".to_string())]);
    assert_eq!(
        flat(&JsonValue::Num("1.50".to_string())),
        vec![(String::new(), "1.50".to_string())]
    );
}

#[test]
fn empty_containers_keep_distinguishable_sentinels() {
    let v = parse_json("{\"a\": [], \"b\": {}, \"c\": \"\"}").unwrap();
    assert_eq!(
        flat(&v),
        vec![
            ("a".to_string(), "[]".to_string()),
            ("b".to_string(), "{}".to_string()),
            ("c".to_string(), String::new()),
        ]
    );
}

#[test]
fn convert_to_csv_writes_one_row() {
    let v = parse_json("{\"x\": 1, \"y\": \"two\"}").unwrap();
    assert_eq!(convert_to_csv(&v), "x,y\n1,two\n");
}

#[test]
fn parser_accepts_values_and_keeps_number_text() {
    assert_eq!(parse_json("null").unwrap(), JsonValue::Null);
    assert_eq!(parse_json(" true ").unwrap(), JsonValue::Bool(true));
    assert_eq!(parse_json("-12.50e2").unwrap(), JsonValue::Num("-12.50e2".to_string()));
    assert_eq!(
        parse_json("\"a\\nb\\\"c\"").unwrap(),
        JsonValue::Str("a\nb\"c".to_string())
    );
    assert_eq!(
        parse_json("[1, []]").unwrap(),
        JsonValue::Arr(vec![
            JsonValue::Num("1".to_string()),
            JsonValue::Arr(vec![]),
        ])
    );
}

#[test]
fn parser_rejects_malformed_input() {
    for bad in ["", "  ", "xyz", "01", "{", "[1,]", "1 2", "{\"a\":1,\"a\":2}", "\"\\u0041\""] {
        match parse_json(bad) {
            Err(ParseError::JsonError(_)) => {},
            other => panic!("expected JsonError for {:?}, got {:?}", bad, other),
        }
    }
}

#[test]
fn parse_error_message_is_readable() {
    let e = parse_json("xyz").unwrap_err();
    assert!(!e.message().is_empty());
}

#[test]
fn render_tree_is_compact() {
    let v = parse_json("{\"a\": [1, null, \"s\"]}").unwrap();
    assert_eq!(render_tree(&v), "{\"a\":[1,null,\"s\"]}");
}

#[test]
fn deep_nesting_stops_at_depth_limit() {
    let mut v = JsonValue::Null;
    for _ in 0..70 {
        v = JsonValue::Arr(vec![v]);
    }
    let entries = flat(&v);
    assert_eq!(entries.len(), 1);
    // 64 walked levels leave a path of 64 zero segments and an opaque tail
    let path: Vec<&str> = entries[0].0.split('.').collect();
    assert_eq!(path.len(), 64);
    assert!(path.iter().all(|s| *s == "0"));
    let mut tail = String::new();
    for _ in 0..6 {
        tail.push('[');
    }
    tail.push_str("null");
    for _ in 0..6 {
        tail.push(']');
    }
    assert_eq!(entries[0].1, tail);
}

#[test]
fn duplicate_paths_take_first_value() {
    let rows = vec![FlatRow {
        entries: vec![
            ("p".to_string(), "first".to_string()),
            ("p".to_string(), "second".to_string()),
        ],
    }];
    assert_eq!(write_csv(&rows), "p\nfirst\n");
}

#[test]
fn decoded_record_flattens_with_group_paths() {
    let obs = jsonsift::parse_raw_ob("KJFK 211851Z 18015G25KT A3000 RMK AO2");
    let tree = jsonsift::record::observation_to_tree(&obs);
    let entries = flat(&tree);
    let get = |p: &str| -> &str {
        &entries.iter().find(|e| e.0 == p).unwrap().1
    };
    assert_eq!(get("station"), "KJFK");
    assert_eq!(get("timestamp"), "211851Z");
    assert_eq!(get("groups.0.wind.direction"), "180");
    assert_eq!(get("groups.0.wind.speed"), "15");
    assert_eq!(get("groups.0.wind.gust"), "25");
    assert_eq!(get("groups.0.wind.unit"), "KT");
    assert_eq!(get("groups.1.pressure.value_centi"), "3000");
    assert_eq!(get("groups.1.pressure.unit"), "inHg");
    assert_eq!(get("remarks"), "AO2");
}

#[test]
fn flat_string_object_round_trips() {
    let v = parse_json("{\"a\": \"x\", \"b\": \"\", \"c\": \"z,w\"}").unwrap();
    let mut row = FlatRow { entries: Vec::new() };
    flatten_json(&v, String::new(), &mut row);
    let back = jsonsift::flatten::unflatten_flat(&row);
    assert_eq!(back, v);
}
