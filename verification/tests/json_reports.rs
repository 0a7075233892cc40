use jsscli::json::{get_field, to_json_text, JsonValue};
use jsscli::output::{cell_string, empty_table_note, raw_string, table_layout, TableLayout};
use jsscli::parsing::{
    check_upload_size, default_download_name, is_confirmation, parse_filter, parse_first_author,
    parse_method_args, parse_selection, statement_filename, url_last_segment, Selection,
};
use jsscli::reports::{
    collect_files, customer_record, file_list_filters, file_list_params, tabulate_report,
};
use jsscli::error::CliError;
use jsscli::session::{active_account_label, session_authenticated, SessionInfo, SessionRecord, Timestamp};

fn s(t: &str) -> JsonValue {
    JsonValue::String(t.to_string())
}

fn num(t: &str) -> JsonValue {
    JsonValue::Number(t.to_string())
}

fn obj(members: Vec<(&str, JsonValue)>) -> JsonValue {
    JsonValue::Object(members.into_iter().map(|(k, v)| (k.to_string(), v)).collect())
}

fn arr(items: Vec<JsonValue>) -> JsonValue {
    JsonValue::Array(items)
}

fn text_of(v: &JsonValue) -> String {
    to_json_text(v)
}

#[test]
fn compact_json_text() {
    let v = obj(vec![
        ("a", arr(vec![num("1"), JsonValue::Bool(true), JsonValue::Null])),
        ("b", s("x\"y\\z\n\u{1}\u{7f}é")),
        ("c", obj(vec![])),
        ("d", arr(vec![])),
    ]);
    assert_eq!(text_of(&v), "{\"a\":[1,true,null],\"b\":\"x\\\"y\\\\z\\n\\u0001\u{7f}é\",\"c\":{},\"d\":[]}");
    assert_eq!(text_of(&s("\t\r\u{8}\u{c}\u{1f}")), "\"\\t\\r\\b\\f\\u001f\"");
}

#[test]
fn json_field_lookup() {
    let v = obj(vec![("x", num("1")), ("y", s("two"))]);
    assert!(matches!(get_field(&v, "y"), Some(JsonValue::String(t)) if t == "two"));
    assert!(get_field(&v, "z").is_none());
    assert!(get_field(&arr(vec![]), "x").is_none());
}

#[test]
fn cells_and_raw_text() {
    assert_eq!(cell_string(&s("plain")), "plain");
    assert_eq!(cell_string(&JsonValue::Null), "");
    assert_eq!(cell_string(&num("3.5")), "3.5");
    assert_eq!(cell_string(&arr(vec![s("a")])), "[\"a\"]");
    assert_eq!(raw_string(&s("plain")), "plain");
    assert_eq!(raw_string(&JsonValue::Null), "null");
    assert_eq!(empty_table_note(), "(tidak ada data)");
}

#[test]
fn table_of_data_list_uses_first_item_keys() {
    let v = obj(vec![(
        "data",
        arr(vec![
            obj(vec![("name", s("A")), ("qty", num("2"))]),
            obj(vec![("qty", num("5"))]),
            s("loose"),
        ]),
    )]);
    match table_layout(&v) {
        TableLayout::Columns { headers, rows } => {
            assert_eq!(headers, vec!["name".to_string(), "qty".to_string()]);
            assert_eq!(rows[0], vec!["A".to_string(), "2".to_string()]);
            assert_eq!(rows[1], vec!["".to_string(), "5".to_string()]);
            assert_eq!(rows[2], vec!["loose".to_string()]);
        }
        _ => panic!("expected columns"),
    }
}

#[test]
fn table_of_other_values() {
    match table_layout(&obj(vec![("k", num("1")), ("n", JsonValue::Null)])) {
        TableLayout::KeyValue { rows } => assert_eq!(
            rows,
            vec![("k".to_string(), "1".to_string()), ("n".to_string(), "".to_string())]
        ),
        _ => panic!("expected key/value"),
    }
    assert!(matches!(table_layout(&arr(vec![])), TableLayout::Empty));
    assert!(matches!(table_layout(&obj(vec![("data", arr(vec![]))])), TableLayout::Empty));
    match table_layout(&arr(vec![s("x"), num("2")])) {
        TableLayout::Values { rows } => assert_eq!(rows, vec!["x".to_string(), "2".to_string()]),
        _ => panic!("expected values"),
    }
    match table_layout(&s("hi")) {
        TableLayout::Text(t) => assert_eq!(t, "hi"),
        _ => panic!("expected text"),
    }
}

#[test]
fn attached_files_prefer_data_object() {
    let doc = obj(vec![
        ("data", obj(vec![
            ("attachment", s("/private/files/a.pdf")),
            ("note", s("files/x")),
            ("photo", s("/files/b.png")),
        ])),
        ("top", s("/files/c.txt")),
    ]);
    let files = collect_files(&doc);
    assert_eq!(
        files,
        vec![
            ("attachment".to_string(), "/private/files/a.pdf".to_string()),
            ("photo".to_string(), "/files/b.png".to_string())
        ]
    );
    let flat = obj(vec![("data", obj(vec![("x", num("1"))])), ("top", s("/files/c.txt"))]);
    assert_eq!(collect_files(&flat), vec![("top".to_string(), "/files/c.txt".to_string())]);
    assert!(collect_files(&arr(vec![])).is_empty());
}

#[test]
fn download_selection() {
    assert!(matches!(parse_selection(" No \n", 3), Selection::Cancel));
    assert!(matches!(parse_selection("n", 3), Selection::Cancel));
    match parse_selection("", 3) {
        Selection::Files(v) => assert_eq!(v, vec![0, 1, 2]),
        _ => panic!("expected all files"),
    }
    match parse_selection("YES", 2) {
        Selection::Files(v) => assert_eq!(v, vec![0, 1]),
        _ => panic!("expected all files"),
    }
    match parse_selection("3, 1,x,0,9,,+2", 3) {
        Selection::Files(v) => assert_eq!(v, vec![2, 0, 1]),
        _ => panic!("expected chosen files"),
    }
}

#[test]
fn confirmations() {
    assert!(is_confirmation(" y\n"));
    assert!(is_confirmation("Yes"));
    assert!(!is_confirmation(""));
    assert!(!is_confirmation("yep"));
}

#[test]
fn names_from_urls() {
    assert_eq!(url_last_segment("/private/files/report.pdf"), "report.pdf");
    assert_eq!(url_last_segment("plain"), "plain");
    assert_eq!(url_last_segment("/dir/"), "");
    assert_eq!(default_download_name("https://x/files/a.txt"), "a.txt");
    assert_eq!(default_download_name("https://x/files/"), "downloaded_file");
    assert_eq!(statement_filename("PK-01"), "Rincian_Sisa_Piutang_PK-01.pdf");
}

#[test]
fn upload_size_limit() {
    assert!(check_upload_size(52428800).is_ok());
    match check_upload_size(52428801) {
        Err(CliError::Usage(m)) => assert_eq!(m, "File too large (52428801 bytes; max 52428800)"),
        _ => panic!("expected usage error"),
    }
}

#[test]
fn method_arguments() {
    let args = Some(vec!["a=1".to_string(), "b=x=y".to_string(), "a=2".to_string(), "c=".to_string()]);
    let m = parse_method_args(&args).ok().unwrap();
    let pairs: Vec<(String, String)> =
        m.pairs().into_iter().map(|(k, v)| (k.clone(), v.clone())).collect();
    assert_eq!(
        pairs,
        vec![
            ("a".to_string(), "2".to_string()),
            ("b".to_string(), "x=y".to_string()),
            ("c".to_string(), "".to_string())
        ]
    );
    match parse_method_args(&Some(vec!["a=1".to_string(), "oops".to_string()])) {
        Err(CliError::Usage(m)) => assert_eq!(m, "Invalid argument `oops`. Use key=value format."),
        _ => panic!("expected usage error"),
    }
    assert_eq!(parse_method_args(&None).ok().unwrap().len(), 0);
}

#[test]
fn list_filters() {
    let f = parse_filter("status,=,Open,Closed").ok().unwrap();
    assert_eq!((f.field.as_str(), f.op.as_str(), f.value.as_str()), ("status", "=", "Open,Closed"));
    let f = parse_filter(",,").ok().unwrap();
    assert_eq!((f.field.as_str(), f.op.as_str(), f.value.as_str()), ("", "", ""));
    match parse_filter("status,=") {
        Err(CliError::Usage(m)) => assert_eq!(m, "Invalid --filter `status,=`. Expected FIELD,OP,VALUE"),
        _ => panic!("expected usage error"),
    }
}

#[test]
fn first_author() {
    assert_eq!(
        parse_first_author(" Ana Lee <ana@x.io> : Bo <bo@x.io>"),
        ("Ana Lee".to_string(), "ana@x.io".to_string())
    );
    assert_eq!(parse_first_author("Solo"), ("Solo".to_string(), "".to_string()));
    assert_eq!(parse_first_author("Half <open"), ("Half <open".to_string(), "".to_string()));
    assert_eq!(parse_first_author(""), ("".to_string(), "".to_string()));
}

#[test]
fn customer_record_fields() {
    let data = obj(vec![("data", arr(vec![obj(vec![("name", s("MDN-1")), ("no_rekening_kredit", s("0042"))])]))]);
    assert_eq!(customer_record(&data, "PK").ok(), Some(("MDN-1".to_string(), "0042".to_string())));
    match customer_record(&obj(vec![("data", arr(vec![]))]), "PK-9") {
        Err(CliError::Other(m)) => assert_eq!(m, "No nasabah found with no_perjanjian: PK-9"),
        _ => panic!("expected Other"),
    }
    let no_acct = obj(vec![("data", arr(vec![obj(vec![("name", s("MDN-1"))])]))]);
    match customer_record(&no_acct, "PK") {
        Err(CliError::Other(m)) => assert_eq!(m, "Missing no_rekening_kredit"),
        _ => panic!("expected Other"),
    }
    let no_name = obj(vec![("data", arr(vec![obj(vec![("name", num("1"))])]))]);
    match customer_record(&no_name, "PK") {
        Err(CliError::Other(m)) => assert_eq!(m, "Missing docname"),
        _ => panic!("expected Other"),
    }
}

#[test]
fn file_listing_parameters() {
    assert_eq!(
        file_list_filters("Home", Some("inv"), None, Some("Sales Invoice"), None),
        "[[\"File\",\"folder\",\"=\",\"Home\"],[\"File\",\"file_name\",\"like\",\"%inv%\"],[\"File\",\"attached_to_doctype\",\"=\",\"Sales Invoice\"]]"
    );
    let p = file_list_params("Home", 25, None, Some("pdf"), None, Some("A\"1"));
    assert_eq!(p.get("doctype"), Some(&"File".to_string()));
    assert_eq!(p.get("page_length"), Some(&"25".to_string()));
    assert_eq!(p.get("start"), Some(&"0".to_string()));
    assert_eq!(p.get("view"), Some(&"List".to_string()));
    assert_eq!(p.get("order_by"), Some(&"`tabFile`.`creation` desc".to_string()));
    assert_eq!(
        p.get("filters"),
        Some(&"[[\"File\",\"folder\",\"=\",\"Home\"],[\"File\",\"file_type\",\"like\",\"%pdf%\"],[\"File\",\"attached_to_name\",\"=\",\"A\\\"1\"]]".to_string())
    );
    assert!(p.get("fields").unwrap().starts_with("[\"`tabFile`.`file_name`\","));
    assert_eq!(p.len(), 7);
}

#[test]
fn report_rows_become_objects() {
    let v = obj(vec![
        ("exc", s("none")),
        ("message", obj(vec![
            ("keys", arr(vec![s("b"), s("a"), num("9"), s("b")])),
            ("values", arr(vec![
                arr(vec![num("1"), num("2"), num("3"), num("4")]),
                s("skipped"),
                arr(vec![s("x")]),
            ])),
        ])),
    ]);
    let t = tabulate_report(v);
    let want = "{\"exc\":\"none\",\"message\":[{\"a\":2,\"b\":4},{\"a\":null,\"b\":null}]}";
    assert_eq!(text_of(&t), want);
    let other = obj(vec![("message", obj(vec![("keys", arr(vec![]))]))]);
    let before = text_of(&other);
    assert_eq!(text_of(&tabulate_report(other)), before);
}

#[test]
fn session_records() {
    let info = SessionInfo { full_name: Some("Ana".to_string()), sitename: "erp".to_string(), roles: vec!["Admin".to_string()] };
    let now = Timestamp { secs: 1_700_000_000, nanos: 5 };
    let rec = SessionRecord::from_info_at("prod", &info, now);
    assert_eq!(rec.account, "prod");
    assert_eq!(rec.full_name, Some("Ana".to_string()));
    assert_eq!(rec.roles, vec!["Admin".to_string()]);
    assert_eq!(rec.created_at, now);
    assert_eq!(rec.last_used_at, now);
    assert!(rec.matches_account("prod"));
    assert!(!rec.matches_account("dev"));
    assert!(session_authenticated(&Some("prod".to_string()), Some(&rec)));
    assert!(!session_authenticated(&Some("dev".to_string()), Some(&rec)));
    assert!(!session_authenticated(&None, Some(&rec)));
    assert!(!session_authenticated(&Some("prod".to_string()), None));
    assert_eq!(active_account_label(&None), "(none)");
    let live = SessionRecord::from_info("dev", &info);
    assert_eq!(live.created_at, live.last_used_at);
    assert!(live.created_at.secs > 1_600_000_000);
}
