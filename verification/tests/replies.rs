use jsscli::accounts::check_base_url;
use jsscli::error::CliError;
use jsscli::json::{to_json_text, JsonValue};
use jsscli::replies::{
    arrears_reply, attachment_files, changelog_report, json_input, json_reply, kp_customer,
    list_files_reply, upload_reply,
};
use jsscli::settings::effective_active;

const EMPTY_ERROR: &str = "EOF while parsing a value at line 1 column 0";

fn text_of(v: &JsonValue) -> String {
    to_json_text(v)
}

#[test]
fn replies_parse_as_json() {
    let v = json_reply(" {\"b\": [1, 2.5, \"x\"], \"a\": null} ").ok().unwrap();
    assert_eq!(text_of(&v), "{\"a\":null,\"b\":[1,2.5,\"x\"]}");
    match json_reply("") {
        Err(CliError::Json(c)) => {
            assert_eq!(c.message, EMPTY_ERROR);
            assert!(c.sources.is_empty());
        }
        _ => panic!("expected a JSON error"),
    }
    assert!(json_reply("[1] 2").is_err());
}

#[test]
fn upload_reply_falls_back_to_text() {
    assert_eq!(text_of(&upload_reply("{\"ok\":true}".to_string())), "{\"ok\":true}");
    match upload_reply("stored.".to_string()) {
        JsonValue::String(t) => assert_eq!(t, "stored."),
        _ => panic!("expected the text itself"),
    }
}

#[test]
fn input_and_arrears_errors() {
    assert_eq!(text_of(&json_input("-", "{\"x\":1}").ok().unwrap()), "{\"x\":1}");
    match json_input("doc.json", "") {
        Err(CliError::Usage(m)) => assert_eq!(m, format!("Invalid JSON in `doc.json`: {EMPTY_ERROR}")),
        _ => panic!("expected a usage error"),
    }
    assert_eq!(text_of(&arrears_reply("[]").ok().unwrap()), "[]");
    match arrears_reply("") {
        Err(CliError::Parse(m)) => assert_eq!(m, format!("Invalid JSON response: {EMPTY_ERROR}")),
        _ => panic!("expected a parsing error"),
    }
}

#[test]
fn changelog_takes_the_first_commits() {
    assert_eq!(
        text_of(&changelog_report("[{\"id\":1},{\"id\":2},{\"id\":3}]", 2)),
        "{\"commits\":[{\"id\":1},{\"id\":2}],\"total_commits\":2}"
    );
    assert_eq!(text_of(&changelog_report("[1]", 50)), "{\"commits\":[1],\"total_commits\":1}");
    assert_eq!(text_of(&changelog_report("{\"a\":1}", 5)), "{\"commits\":[],\"total_commits\":0}");
    assert_eq!(text_of(&changelog_report("not json", 5)), "{\"commits\":[],\"total_commits\":0}");
}

#[test]
fn listing_customer_and_attachment_replies() {
    let listing = "{\"message\":{\"keys\":[\"file_name\",\"file_size\"],\"values\":[[\"a.pdf\",12]]}}";
    assert_eq!(
        text_of(&list_files_reply(listing).ok().unwrap()),
        "{\"message\":[{\"file_name\":\"a.pdf\",\"file_size\":12}]}"
    );
    assert!(matches!(list_files_reply("<html>"), Err(CliError::Json(_))));
    let lookup = "{\"data\":[{\"name\":\"MDN-7\",\"no_rekening_kredit\":\"0099\"}]}";
    assert_eq!(kp_customer(lookup, "PK").ok(), Some(("MDN-7".to_string(), "0099".to_string())));
    match kp_customer("{\"data\":[]}", "PK-1") {
        Err(CliError::Other(m)) => assert_eq!(m, "No nasabah found with no_perjanjian: PK-1"),
        _ => panic!("expected Other"),
    }
    let doc = "{\"data\":{\"name\":\"X\",\"attachment\":\"/files/a.pdf\",\"note\":\"text\"}}";
    assert_eq!(
        attachment_files(doc).ok(),
        Some(vec![("attachment".to_string(), "/files/a.pdf".to_string())])
    );
    assert!(matches!(attachment_files(""), Err(CliError::Json(_))));
}

#[test]
fn base_urls_must_parse() {
    assert!(check_base_url("https://erp.example.com").is_ok());
    match check_base_url("erp.example.com") {
        Err(CliError::Config(m)) => assert_eq!(m, "Invalid base_url for account: relative URL without a base"),
        _ => panic!("expected a configuration error"),
    }
}

#[test]
fn environment_names_the_active_account() {
    assert_eq!(effective_active(Some("env".to_string()), Some("file".to_string())), Some("env".to_string()));
    assert_eq!(effective_active(None, Some("file".to_string())), Some("file".to_string()));
    assert_eq!(effective_active(None, None), None);
}
