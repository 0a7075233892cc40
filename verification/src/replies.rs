//! Reading the JSON texts the site answers with, the documents given as input and the
//! embedded change log.
use vstd::prelude::*;
use crate::error::{Cause, CliError, CliResult};
use crate::json::{JsonValue, json_parse, json_parse_error, parse_json_text};
use crate::reports::{
    attached_files, collect_files, customer_fields, customer_record, is_tabulation,
    link_views, tabulate_report,
};
use crate::text::{decimal, decimal_text, owned, push_text};

verus! {

/// The error for a reply that is not JSON: a JSON error whose message is the parser's
/// and which has no further cause (a text is parsed from memory, never read).
pub open spec fn is_json_error(e: CliError, text: Seq<char>) -> bool {
    &&& e is Json
    &&& e->Json_0.message@ == json_parse_error(text)
    &&& e->Json_0.sources@.len() == 0
}

/// Parses a reply of the site as JSON; a text that is not JSON is a JSON error.
pub fn json_reply(text: &str) -> (res: CliResult<JsonValue>)
    ensures
        match json_parse(text@) {
            Some(v) => res is Ok && res->Ok_0 == v,
            None => res is Err && is_json_error(res->Err_0, text@),
        },
{
    match parse_json_text(text) {
        Ok(v) => Ok(v),
        Err(m) => Err(CliError::Json(Cause { message: m, sources: Vec::new() })),
    }
}

/// The reply to the file listing, its report rows turned into objects.
pub fn list_files_reply(response: &str) -> (res: CliResult<JsonValue>)
    ensures
        match json_parse(response@) {
            Some(v) => res is Ok && is_tabulation(res->Ok_0, v),
            None => res is Err && is_json_error(res->Err_0, response@),
        },
{
    let v = json_reply(response)?;
    Ok(tabulate_report(v))
}

/// The document name and credit account number of the customer whose agreement is
/// `no_perjanjian`, read from the reply to the customer lookup.
pub fn kp_customer(response: &str, no_perjanjian: &str) -> (res: CliResult<(String, String)>)
    ensures
        match json_parse(response@) {
            Some(v) => match customer_fields(v, no_perjanjian@) {
                Ok(p) => res is Ok && res->Ok_0.0@ == p.0 && res->Ok_0.1@ == p.1,
                Err(m) => res is Err && res->Err_0 is Other && res->Err_0->Other_0@ == m,
            },
            None => res is Err && is_json_error(res->Err_0, response@),
        },
{
    let v = json_reply(response)?;
    customer_record(&v, no_perjanjian)
}

/// The files attached to the document in a document reply, as (label, URL) pairs.
pub fn attachment_files(body: &str) -> (res: CliResult<Vec<(String, String)>>)
    ensures
        match json_parse(body@) {
            Some(v) => res is Ok && link_views(res->Ok_0@) == attached_files(v),
            None => res is Err && is_json_error(res->Err_0, body@),
        },
{
    let v = json_reply(body)?;
    Ok(collect_files(&v))
}

/// The reply to an upload: its JSON value, or the text itself when it is not JSON.
pub fn upload_reply(response: String) -> (res: JsonValue)
    ensures
        match json_parse(response@) {
            Some(v) => res == v,
            None => res == JsonValue::String(response),
        },
{
    match parse_json_text(response.as_str()) {
        Ok(v) => v,
        Err(_) => JsonValue::String(response),
    }
}

/// The message when the arrears reply is not JSON.
pub open spec fn arrears_error_message(text: Seq<char>) -> Seq<char> {
    "Invalid JSON response: "@ + json_parse_error(text)
}

/// The reply to the arrears lookup; a text that is not JSON is a data parsing error.
pub fn arrears_reply(response: &str) -> (res: CliResult<JsonValue>)
    ensures
        match json_parse(response@) {
            Some(v) => res is Ok && res->Ok_0 == v,
            None => res is Err && res->Err_0 is Parse
                && res->Err_0->Parse_0@ == arrears_error_message(response@),
        },
{
    match parse_json_text(response) {
        Ok(v) => Ok(v),
        Err(m) => {
            let mut msg = owned("Invalid JSON response: ");
            push_text(&mut msg, m.as_str());
            Err(CliError::Parse(msg))
        },
    }
}

/// The message when a document given as input is not JSON.
pub open spec fn input_error_message(file: Seq<char>, text: Seq<char>) -> Seq<char> {
    "Invalid JSON in `"@ + file + "`: "@ + json_parse_error(text)
}

/// A document given as input (`file` names where it was read from, "-" for standard
/// input); a text that is not JSON is a usage error naming the file.
pub fn json_input(file: &str, text: &str) -> (res: CliResult<JsonValue>)
    ensures
        match json_parse(text@) {
            Some(v) => res is Ok && res->Ok_0 == v,
            None => res is Err && res->Err_0 is Usage
                && res->Err_0->Usage_0@ == input_error_message(file@, text@),
        },
{
    match parse_json_text(text) {
        Ok(v) => Ok(v),
        Err(m) => {
            let mut msg = owned("Invalid JSON in `");
            push_text(&mut msg, file);
            push_text(&mut msg, "`: ");
            push_text(&mut msg, m.as_str());
            proof {
                assert(msg@ =~= input_error_message(file@, text@));
            }
            Err(CliError::Usage(msg))
        },
    }
}

/// The commits of the embedded change log: the items of the list it holds, or none
/// when it is not a JSON list.
pub open spec fn changelog_commits(raw: Seq<char>) -> Seq<JsonValue> {
    match json_parse(raw) {
        Some(JsonValue::Array(items)) => items@,
        _ => Seq::empty(),
    }
}

/// How many of the commits are shown: at most `count`.
pub open spec fn shown_count(raw: Seq<char>, count: nat) -> nat {
    if count < changelog_commits(raw).len() {
        count
    } else {
        changelog_commits(raw).len()
    }
}

/// The change log report for `count`: an object whose "commits" are the first
/// commits shown, followed by "total_commits", how many that is.
pub open spec fn is_changelog_report(res: JsonValue, raw: Seq<char>, count: nat) -> bool {
    match res {
        JsonValue::Object(ms) => {
            &&& ms@.len() == 2
            &&& ms@[0].0@ == "commits"@
            &&& ms@[1].0@ == "total_commits"@
            &&& match (ms@[0].1, ms@[1].1) {
                (JsonValue::Array(cs), JsonValue::Number(n)) => {
                    &&& cs@ == changelog_commits(raw).take(shown_count(raw, count) as int)
                    &&& n@ == decimal(shown_count(raw, count))
                },
                _ => false,
            }
        },
        _ => false,
    }
}

/// The change log report: the first `count` commits (all when there are fewer) under
/// "commits", and under "total_commits" how many that is.
pub fn changelog_report(raw: &str, count: usize) -> (res: JsonValue)
    ensures
        is_changelog_report(res, raw@, count as nat),
{
    let mut commits: Vec<JsonValue> = match parse_json_text(raw) {
        Ok(JsonValue::Array(items)) => items,
        _ => Vec::new(),
    };
    let ghost all = commits@;
    assert(all == changelog_commits(raw@));
    commits.truncate(count);
    assert(commits@ == all.take(shown_count(raw@, count as nat) as int));
    let total = decimal_text(commits.len() as u64);
    let mut members: Vec<(String, JsonValue)> = Vec::new();
    members.push((owned("commits"), JsonValue::Array(commits)));
    members.push((owned("total_commits"), JsonValue::Number(total)));
    JsonValue::Object(members)
}

} // verus!
