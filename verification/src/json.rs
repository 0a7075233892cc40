//! JSON values as the client reads and writes them, and their compact text.
use vstd::prelude::*;
use crate::text::{push_char, push_text};

verus! {

/// A JSON value. Numbers keep the text they were written with; object members keep
/// their order.
pub enum JsonValue {
    Null,
    Bool(bool),
    Number(String),
    String(String),
    Array(Vec<JsonValue>),
    Object(Vec<(String, JsonValue)>),
}

/// The first member of an object with the given key.
pub open spec fn member(members: Seq<(String, JsonValue)>, key: Seq<char>) -> Option<JsonValue>
    decreases members.len(),
{
    if members.len() == 0 {
        None
    } else if members[0].0@ == key {
        Some(members[0].1)
    } else {
        member(members.drop_first(), key)
    }
}

/// The value under `key` when `v` is an object.
pub open spec fn field(v: JsonValue, key: Seq<char>) -> Option<JsonValue> {
    match v {
        JsonValue::Object(m) => member(m@, key),
        _ => None,
    }
}

/// The lowercase hex digit of a value below sixteen.
pub open spec fn hex_lower(v: nat) -> char {
    if v < 10 {
        (v + 48) as char
    } else {
        (v + 87) as char
    }
}

/// How one character is written inside a JSON string.
pub open spec fn escaped_char(c: char) -> Seq<char> {
    if c == '"' {
        seq!['\\', '"']
    } else if c == '\\' {
        seq!['\\', '\\']
    } else if c == '\n' {
        seq!['\\', 'n']
    } else if c == '\r' {
        seq!['\\', 'r']
    } else if c == '\t' {
        seq!['\\', 't']
    } else if c == '\u{08}' {
        seq!['\\', 'b']
    } else if c == '\u{0C}' {
        seq!['\\', 'f']
    } else if (c as u32) < 0x20 {
        seq!['\\', 'u', '0', '0', hex_lower(((c as u32) / 16) as nat), hex_lower(((c as u32) % 16) as nat)]
    } else {
        seq![c]
    }
}

/// The body of a JSON string literal for `s`.
pub open spec fn escaped(s: Seq<char>) -> Seq<char>
    decreases s.len(),
{
    if s.len() == 0 {
        Seq::empty()
    } else {
        escaped(s.drop_last()) + escaped_char(s.last())
    }
}

/// A JSON string literal for `s`.
pub open spec fn quoted(s: Seq<char>) -> Seq<char> {
    seq!['"'] + escaped(s) + seq!['"']
}

/// The compact JSON text of a value, as `serde_json` writes it.
pub open spec fn json_text(v: JsonValue) -> Seq<char>
    decreases v, 1int,
{
    match v {
        JsonValue::Null => "null"@,
        JsonValue::Bool(b) => if b {
            "true"@
        } else {
            "false"@
        },
        JsonValue::Number(n) => n@,
        JsonValue::String(s) => quoted(s@),
        JsonValue::Array(items) => seq!['['] + items_text(items@) + seq![']'],
        JsonValue::Object(members) => seq!['{'] + members_text(members@) + seq!['}'],
    }
}

/// The values of an array, separated by commas.
pub open spec fn items_text(items: Seq<JsonValue>) -> Seq<char>
    decreases items, 0int,
{
    if items.len() == 0 {
        Seq::empty()
    } else {
        let init = items.subrange(0, items.len() - 1);
        items_text(init) + (if init.len() == 0 {
            Seq::empty()
        } else {
            seq![',']
        }) + json_text(items[items.len() - 1])
    }
}

/// The members of an object, `"key":value`, separated by commas.
pub open spec fn members_text(members: Seq<(String, JsonValue)>) -> Seq<char>
    decreases members, 0int,
{
    if members.len() == 0 {
        Seq::empty()
    } else {
        let init = members.subrange(0, members.len() - 1);
        let last = members[members.len() - 1];
        members_text(init) + (if init.len() == 0 {
            Seq::empty()
        } else {
            seq![',']
        }) + quoted(last.0@) + seq![':'] + json_text(last.1)
    }
}

fn hex_lower_exec(v: u32) -> (res: char)
    requires
        v < 16,
    ensures
        res == hex_lower(v as nat),
{
    if v < 10 {
        ((v as u8) + 48) as char
    } else {
        ((v as u8) + 87) as char
    }
}

fn push_escaped_char(out: &mut String, c: char)
    ensures
        final(out)@ == old(out)@ + escaped_char(c),
{
    let ghost start = out@;
    if c == '"' {
        push_text(out, "\\\"");
    } else if c == '\\' {
        push_text(out, "\\\\");
    } else if c == '\n' {
        push_text(out, "\\n");
    } else if c == '\r' {
        push_text(out, "\\r");
    } else if c == '\t' {
        push_text(out, "\\t");
    } else if c == '\u{08}' {
        push_text(out, "\\b");
    } else if c == '\u{0C}' {
        push_text(out, "\\f");
    } else if (c as u32) < 0x20 {
        push_char(out, '\\');
        push_char(out, 'u');
        push_char(out, '0');
        push_char(out, '0');
        push_char(out, hex_lower_exec((c as u32) / 16));
        push_char(out, hex_lower_exec((c as u32) % 16));
    } else {
        push_char(out, c);
    }
    proof {
        reveal_strlit("\\\"");
        reveal_strlit("\\\\");
        reveal_strlit("\\n");
        reveal_strlit("\\r");
        reveal_strlit("\\t");
        reveal_strlit("\\b");
        reveal_strlit("\\f");
        assert(out@ =~= start + escaped_char(c));
    }
}

/// Appends the JSON string literal for `s`.
pub fn push_quoted(out: &mut String, s: &str)
    ensures
        final(out)@ == old(out)@ + quoted(s@),
{
    let ghost start = out@;
    let cs = crate::text::chars_of(s);
    push_char(out, '"');
    let mut i: usize = 0;
    while i < cs.len()
        invariant
            i <= cs@.len(),
            cs@ == s@,
            out@ == start + seq!['"'] + escaped(cs@.take(i as int)),
        decreases cs@.len() - i,
    {
        push_escaped_char(out, cs[i]);
        proof {
            let t = cs@.take(i + 1);
            assert(t.drop_last() =~= cs@.take(i as int));
            assert(out@ =~= start + seq!['"'] + escaped(t));
        }
        i = i + 1;
    }
    push_char(out, '"');
    proof {
        assert(cs@.take(i as int) =~= s@);
        assert(out@ =~= start + quoted(s@));
    }
}

/// Appends the compact JSON text of `v`.
pub fn push_json(out: &mut String, v: &JsonValue)
    ensures
        final(out)@ == old(out)@ + json_text(*v),
    decreases v,
{
    let ghost start = out@;
    match v {
        JsonValue::Null => push_text(out, "null"),
        JsonValue::Bool(b) => if *b {
            push_text(out, "true")
        } else {
            push_text(out, "false")
        },
        JsonValue::Number(n) => push_text(out, n.as_str()),
        JsonValue::String(s) => push_quoted(out, s.as_str()),
        JsonValue::Array(items) => {
            push_char(out, '[');
            let mut i: usize = 0;
            while i < items.len()
                invariant
                    i <= items@.len(),
                    *v == JsonValue::Array(*items),
                    out@ == start + seq!['['] + items_text(items@.subrange(0, i as int)),
                decreases items@.len() - i,
            {
                proof {
                    assert(decreases_to!(*v => v->Array_0));
                    assert(decreases_to!(*items => items@));
                    assert(decreases_to!(items@ => items@[i as int]));
                }
                if i > 0 {
                    push_char(out, ',');
                }
                push_json(out, &items[i]);
                proof {
                    let t = items@.subrange(0, i + 1);
                    assert(t.subrange(0, t.len() - 1) =~= items@.subrange(0, i as int));
                    assert(out@ =~= start + seq!['['] + items_text(t));
                }
                i = i + 1;
            }
            push_char(out, ']');
            proof {
                assert(items@.subrange(0, i as int) =~= items@);
            }
        },
        JsonValue::Object(members) => {
            push_char(out, '{');
            let mut i: usize = 0;
            while i < members.len()
                invariant
                    i <= members@.len(),
                    *v == JsonValue::Object(*members),
                    out@ == start + seq!['{'] + members_text(members@.subrange(0, i as int)),
                decreases members@.len() - i,
            {
                proof {
                    assert(decreases_to!(*v => v->Object_0));
                    assert(decreases_to!(*members => members@));
                    assert(decreases_to!(members@ => members@[i as int]));
                    assert(decreases_to!(members@[i as int] => members@[i as int].1));
                }
                if i > 0 {
                    push_char(out, ',');
                }
                push_quoted(out, members[i].0.as_str());
                push_char(out, ':');
                push_json(out, &members[i].1);
                proof {
                    let t = members@.subrange(0, i + 1);
                    assert(t.subrange(0, t.len() - 1) =~= members@.subrange(0, i as int));
                    assert(out@ =~= start + seq!['{'] + members_text(t));
                }
                i = i + 1;
            }
            push_char(out, '}');
            proof {
                assert(members@.subrange(0, i as int) =~= members@);
            }
        },
    }
    proof {
        assert(out@ =~= start + json_text(*v));
    }
}

/// The compact JSON text of `v` (`Value::to_string`).
pub fn to_json_text(v: &JsonValue) -> (res: String)
    ensures
        res@ == json_text(*v),
{
    let mut out = String::new();
    push_json(&mut out, v);
    proof {
        assert(out@ =~= json_text(*v));
    }
    out
}

/// The value stored under `key` in an object, if `v` is one and has it.
pub fn get_field<'a>(v: &'a JsonValue, key: &str) -> (res: Option<&'a JsonValue>)
    ensures
        match res {
            Some(r) => field(*v, key@) == Some(*r),
            None => field(*v, key@) is None,
        },
{
    match v {
        JsonValue::Object(members) => {
            let mut i: usize = 0;
            proof {
                assert(members@.skip(0) =~= members@);
            }
            while i < members.len()
                invariant
                    i <= members@.len(),
                    *v == JsonValue::Object(*members),
                    member(members@, key@) == member(members@.skip(i as int), key@),
                decreases members@.len() - i,
            {
                if crate::text::str_equal(members[i].0.as_str(), key) {
                    proof {
                        assert(members@.skip(i as int)[0] == members@[i as int]);
                    }
                    return Some(&members[i].1);
                }
                proof {
                    assert(members@.skip(i as int).drop_first() =~= members@.skip(i + 1));
                }
                i = i + 1;
            }
            None
        },
        _ => None,
    }
}

/// Values of the `serde_json` parser.
#[verifier::external_type_specification]
#[verifier::external_body]
pub struct ExSerdeValue(serde_json::Value);

/// The value that `serde_json` parses from a text, or `None` when the text is not
/// JSON (one value, with nothing but white space around it).
pub uninterp spec fn json_parse(text: Seq<char>) -> Option<JsonValue>;

/// The message of the error that `serde_json` reports for a text that is not JSON.
pub uninterp spec fn json_parse_error(text: Seq<char>) -> Seq<char>;

/// The library's value for a parsed `serde_json` value: variant for variant, numbers
/// by their text, object members in the order `serde_json` keeps them.
#[verifier::external_body]
fn from_serde(v: serde_json::Value) -> JsonValue {
    match v {
        serde_json::Value::Null => JsonValue::Null,
        serde_json::Value::Bool(b) => JsonValue::Bool(b),
        serde_json::Value::Number(n) => JsonValue::Number(n.to_string()),
        serde_json::Value::String(s) => JsonValue::String(s),
        serde_json::Value::Array(a) => JsonValue::Array(a.into_iter().map(from_serde).collect()),
        serde_json::Value::Object(m) => JsonValue::Object(
            m.into_iter().map(|(k, x)| (k, from_serde(x))).collect(),
        ),
    }
}

/// Parses JSON text.
///
/// Trusted: `serde_json::from_str::<serde_json::Value>`, whose result depends on the
/// text alone; it is named `json_parse`, and its error's message `json_parse_error`.
#[verifier::external_body]
pub(crate) fn parse_json_text(text: &str) -> (res: Result<JsonValue, String>)
    ensures
        res matches Ok(v) ==> json_parse(text@) == Some(v),
        res matches Err(m) ==> json_parse(text@) is None && m@ == json_parse_error(text@),
{
    match serde_json::from_str::<serde_json::Value>(text) {
        Ok(v) => Ok(from_serde(v)),
        Err(e) => Err(e.to_string()),
    }
}

} // verus!
