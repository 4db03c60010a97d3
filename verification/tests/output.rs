use sumo::json::{value_to_string, Json, JsonNumber};
use sumo::output::{
    csv_output, fields_table, filter_fields, json_output, parse_fields, raw_lines, render_results, text_output,
    text_table, Printout,
};

fn obj(members: Vec<(&str, Json)>) -> Json {
    Json::Object(members.into_iter().map(|(k, v)| (k.to_string(), v)).collect())
}

fn s(text: &str) -> Json {
    Json::Str(text.to_string())
}

fn strings(v: &[&str]) -> Vec<String> {
    v.iter().map(|x| x.to_string()).collect()
}

fn message(time: &str, source: &str, raw: &str) -> Json {
    obj(vec![(
        "map",
        obj(vec![("_messagetime", s(time)), ("_raw", s(raw)), ("_sourcecategory", s(source))]),
    )])
}

#[test]
fn cell_texts() {
    assert_eq!(value_to_string(&s("x")), "x");
    assert_eq!(value_to_string(&Json::Null), "");
    assert_eq!(value_to_string(&Json::Bool(true)), "true");
    assert_eq!(value_to_string(&Json::Number(JsonNumber::PosInt(42))), "42");
    assert_eq!(value_to_string(&Json::Number(JsonNumber::NegInt(-7))), "-7");
    assert_eq!(value_to_string(&Json::Array(vec![s("a"), Json::Null])), "[\"a\",null]");
}

#[test]
fn field_lists() {
    assert_eq!(parse_fields("_messagetime, _sourcecategory ,_raw"), strings(&["_messagetime", "_sourcecategory", "_raw"]));
    assert_eq!(parse_fields("a,,b"), strings(&["a", "", "b"]));
    assert_eq!(parse_fields(""), strings(&[""]));
}

#[test]
fn filtering_keeps_requested_members_only() {
    let results = vec![message("1", "prod/web", "hello"), s("not an object")];
    let filtered = filter_fields(results, &strings(&["_raw", "missing", "_raw"]));
    assert_eq!(filtered.len(), 2);
    match &filtered[0] {
        Json::Object(e) => {
            assert_eq!(e.len(), 1);
            assert_eq!(e[0].0, "_raw");
            assert_eq!(value_to_string(&e[0].1), "hello");
        }
        _ => panic!("expected an object"),
    }
    match &filtered[1] {
        Json::Object(e) => assert!(e.is_empty()),
        _ => panic!("expected an object"),
    }
}

#[test]
fn raw_and_json_outputs() {
    let results = vec![message("1", "prod/web", "hello"), obj(vec![("x", s("y"))])];
    assert_eq!(raw_lines(&results), strings(&["hello", ""]));
    let text = json_output(vec![obj(vec![("map", obj(vec![("a", s("b"))]))])], false);
    assert_eq!(text, "[\n  {\n    \"a\": \"b\"\n  }\n]");
    let text = json_output(vec![], false);
    assert_eq!(text, "[]");
}

#[test]
fn text_table_cells() {
    let long = "x".repeat(130);
    let results = vec![message("1773756000000", "prod/web", &long), obj(vec![("_sourceCategory", s("prod/api"))])];
    let (header, rows) = text_table(&results, false);
    assert_eq!(header, Some(strings(&["TIME", "SOURCE", "MESSAGE"])));
    assert_eq!(rows[0][0], "2026-03-17 14:00:00 UTC");
    assert_eq!(rows[0][1], "prod/web");
    assert_eq!(rows[0][2], format!("{}...", "x".repeat(120)));
    let straddling = format!("{}é and more", "x".repeat(119));
    let (_, cut) = text_table(&vec![message("1", "s", &straddling)], false);
    assert_eq!(cut[0][2], format!("{}...", "x".repeat(119)));
    let exactly = "y".repeat(120);
    let (_, whole) = text_table(&vec![message("1", "s", &exactly)], false);
    assert_eq!(whole[0][2], exactly);
    assert_eq!(rows[1], strings(&["", "prod/api", ""]));

    let records = vec![
        obj(vec![("map", obj(vec![("_count", s("392")), ("_sourcecategory", s("prod/app/worker"))]))]),
        s("skipped"),
        obj(vec![("map", obj(vec![("_count", s("47"))]))]),
    ];
    let (header, rows) = text_table(&records, true);
    assert_eq!(header, Some(strings(&["_COUNT", "_SOURCECATEGORY"])));
    assert_eq!(rows, vec![strings(&["392", "prod/app/worker"]), strings(&["47", ""])]);
    assert!(text_output(&vec![], true, None).is_none());
    let rendered = text_output(&records, true, None).unwrap();
    assert!(rendered.contains("_SOURCECATEGORY"));
    assert!(rendered.contains("prod/app/worker"));
}

#[test]
fn fields_tables() {
    let results = vec![message("1", "prod/web", "hello")];
    let (header, rows) = fields_table(&results, &strings(&["_raw", "nope"]));
    assert_eq!(header, strings(&["_RAW", "NOPE"]));
    assert_eq!(rows, vec![strings(&["hello", ""])]);
}

#[test]
fn csv_bytes() {
    let results = vec![obj(vec![("a", s("1")), ("b", s("x,y"))]), obj(vec![("c", s("3")), ("a", s("2"))])];
    let out = csv_output(&results, None).unwrap();
    assert_eq!(String::from_utf8(out).unwrap(), "a,b,c\n1,\"x,y\",\n2,,3\n");
    let out = csv_output(&results, Some(&strings(&["c"]))).unwrap();
    assert_eq!(String::from_utf8(out).unwrap(), "c\n\"\"\n3\n");
    assert!(csv_output(&vec![], None).unwrap().is_empty());
}

#[test]
fn output_modes() {
    let results = vec![message("1", "prod/web", "hello")];
    match render_results(results, true, "text", None, false, None) {
        Ok(Printout::Lines(lines)) => assert_eq!(lines, strings(&["hello"])),
        _ => panic!("raw output is lines"),
    }
    let results = vec![message("1", "prod/web", "hello")];
    match render_results(results, false, "json", Some("_raw"), false, None) {
        Ok(Printout::Line(t)) => assert_eq!(t, "[\n  {\n    \"_raw\": \"hello\"\n  }\n]"),
        _ => panic!("json output is one text"),
    }
    let results = vec![message("1", "prod/web", "hello")];
    match render_results(results, false, "csv", Some("_raw"), false, None) {
        Ok(Printout::Bytes(b)) => assert_eq!(String::from_utf8(b).unwrap(), "_raw\nhello\n"),
        _ => panic!("csv output is bytes"),
    }
    assert!(matches!(render_results(vec![], false, "text", None, false, None), Ok(Printout::NoResults)));
    assert!(matches!(render_results(vec![], false, "text", Some("a"), false, None), Ok(Printout::NoResults)));
}

#[test]
fn tables_fit_the_width_given() {
    let long = "word ".repeat(30);
    let records = vec![obj(vec![("_count", s("1")), ("text", s(&long))])];
    let wide = text_output(&records, true, None).unwrap();
    let narrow = text_output(&records, true, Some(30)).unwrap();
    assert_eq!(wide.lines().count(), 2);
    assert!(narrow.lines().count() > 2);
    assert!(narrow.lines().all(|l| l.chars().count() <= 30));
}

#[test]
fn csv_of_records_with_different_keys() {
    let results = vec![
        obj(vec![("map", obj(vec![("a", s("1")), ("b", s("x"))]))]),
        obj(vec![("map", obj(vec![("c", Json::Number(sumo::json::JsonNumber::PosInt(2)))]))]),
    ];
    let out = csv_output(&results, None).unwrap();
    assert_eq!(String::from_utf8(out).unwrap(), "a,b,c\n1,x,\n,,2\n");
}

#[test]
fn white_space_matches_std() {
    for u in 0u32..0x11000 {
        if let Some(c) = char::from_u32(u).filter(|c| *c != ',') {
            let fields = parse_fields(&format!("{c}a{c}"));
            let trimmed_like_std = format!("{c}a{c}").trim().to_string();
            assert_eq!(fields, vec![trimmed_like_std], "U+{u:04X}");
        }
    }
}
