//! What results look like when printed as a table or as raw text.
use vstd::prelude::*;
use crate::json::{JsonValue, field, get_field, json_text, member, to_json_text};
use crate::text::owned;

verus! {

/// The text of a value in a table cell: a string as it is, null as nothing, anything
/// else as compact JSON.
pub open spec fn cell_text(v: JsonValue) -> Seq<char> {
    match v {
        JsonValue::String(s) => s@,
        JsonValue::Null => Seq::empty(),
        _ => json_text(v),
    }
}

/// The text printed for a value in raw output: a string as it is, anything else as
/// compact JSON.
pub open spec fn raw_text(v: JsonValue) -> Seq<char> {
    match v {
        JsonValue::String(s) => s@,
        _ => json_text(v),
    }
}

/// The layout of a value printed as a table.
pub enum TableLayout {
    /// An empty list: a note that there is no data.
    Empty,
    /// An object: one row per member, under the headers "Key" and "Value".
    KeyValue { rows: Vec<(String, String)> },
    /// A list whose first item is an object: a column per key of that item.
    Columns { headers: Vec<String>, rows: Vec<Vec<String>> },
    /// A list of other values: one column, "Value".
    Values { rows: Vec<String> },
    /// Anything else: a line of text.
    Text(String),
}

/// The abstract content of a table layout.
pub enum TableView {
    Empty,
    KeyValue(Seq<(Seq<char>, Seq<char>)>),
    Columns(Seq<Seq<char>>, Seq<Seq<Seq<char>>>),
    Values(Seq<Seq<char>>),
    Text(Seq<char>),
}

/// Views of a list of strings.
pub open spec fn texts(v: Seq<String>) -> Seq<Seq<char>> {
    v.map_values(|s: String| s@)
}

impl View for TableLayout {
    type V = TableView;

    open spec fn view(&self) -> TableView {
        match self {
            TableLayout::Empty => TableView::Empty,
            TableLayout::KeyValue { rows } => TableView::KeyValue(
                rows@.map_values(|r: (String, String)| (r.0@, r.1@)),
            ),
            TableLayout::Columns { headers, rows } => TableView::Columns(
                texts(headers@),
                rows@.map_values(|r: Vec<String>| texts(r@)),
            ),
            TableLayout::Values { rows } => TableView::Values(texts(rows@)),
            TableLayout::Text(t) => TableView::Text(t@),
        }
    }
}

/// The keys of an object's members, in order.
pub open spec fn member_keys(m: Seq<(String, JsonValue)>) -> Seq<Seq<char>> {
    m.map_values(|e: (String, JsonValue)| e.0@)
}

/// The cell of a row for a column: the member's cell text, or empty when absent.
pub open spec fn column_cell(m: Seq<(String, JsonValue)>, h: Seq<char>) -> Seq<char> {
    match member(m, h) {
        Some(x) => cell_text(x),
        None => Seq::empty(),
    }
}

/// The cells of one list item: one per column for an object, else the item alone.
pub open spec fn item_cells(item: JsonValue, headers: Seq<Seq<char>>) -> Seq<Seq<char>> {
    match item {
        JsonValue::Object(m) => headers.map_values(|h: Seq<char>| column_cell(m@, h)),
        _ => seq![cell_text(item)],
    }
}

/// The table for a list of values.
pub open spec fn list_table(items: Seq<JsonValue>) -> TableView {
    if items.len() == 0 {
        TableView::Empty
    } else {
        match items[0] {
            JsonValue::Object(first) => {
                let headers = member_keys(first@);
                TableView::Columns(headers, items.map_values(|it: JsonValue| item_cells(it, headers)))
            },
            _ => TableView::Values(items.map_values(|it: JsonValue| cell_text(it))),
        }
    }
}

/// The table for a value: the list under "data" of an object when there is one, else
/// the object's members; a list as a list; anything else as text.
pub open spec fn table_view(v: JsonValue) -> TableView {
    match v {
        JsonValue::Object(m) => match field(v, "data"@) {
            Some(JsonValue::Array(items)) => list_table(items@),
            _ => TableView::KeyValue(
                m@.map_values(|e: (String, JsonValue)| (e.0@, cell_text(e.1))),
            ),
        },
        JsonValue::Array(items) => list_table(items@),
        _ => TableView::Text(cell_text(v)),
    }
}

/// The text of a value in a table cell.
pub fn cell_string(v: &JsonValue) -> (res: String)
    ensures
        res@ == cell_text(*v),
{
    match v {
        JsonValue::String(s) => s.clone(),
        JsonValue::Null => String::new(),
        _ => to_json_text(v),
    }
}

/// The text printed for a value in raw output.
pub fn raw_string(v: &JsonValue) -> (res: String)
    ensures
        res@ == raw_text(*v),
{
    match v {
        JsonValue::String(s) => s.clone(),
        _ => to_json_text(v),
    }
}

fn row_for(item: &JsonValue, headers: &Vec<String>) -> (res: Vec<String>)
    ensures
        texts(res@) == item_cells(*item, texts(headers@)),
{
    match item {
        JsonValue::Object(_) => {
            let mut cells: Vec<String> = Vec::new();
            let mut i: usize = 0;
            while i < headers.len()
                invariant
                    i <= headers@.len(),
                    item is Object,
                    cells@.len() == i,
                    forall|k: int| 0 <= k < i ==> (#[trigger] cells@[k])@ == column_cell(item->Object_0@, headers@[k]@),
                decreases headers@.len() - i,
            {
                let c = match get_field(item, headers[i].as_str()) {
                    Some(x) => cell_string(x),
                    None => String::new(),
                };
                cells.push(c);
                i = i + 1;
            }
            proof {
                assert(texts(cells@) =~= texts(headers@).map_values(|h: Seq<char>| column_cell(item->Object_0@, h)));
            }
            cells
        },
        _ => {
            let mut cells: Vec<String> = Vec::new();
            cells.push(cell_string(item));
            proof {
                assert(texts(cells@) =~= seq![cell_text(*item)]);
            }
            cells
        },
    }
}

/// Lays out a list of values.
fn list_layout(items: &Vec<JsonValue>) -> (res: TableLayout)
    ensures
        res@ == list_table(items@),
{
    if items.len() == 0 {
        return TableLayout::Empty;
    }
    match &items[0] {
        JsonValue::Object(first) => {
            let mut headers: Vec<String> = Vec::new();
            let mut i: usize = 0;
            while i < first.len()
                invariant
                    i <= first@.len(),
                    headers@.len() == i,
                    forall|k: int| 0 <= k < i ==> (#[trigger] headers@[k])@ == first@[k].0@,
                decreases first@.len() - i,
            {
                headers.push(first[i].0.clone());
                i = i + 1;
            }
            proof {
                assert(texts(headers@) =~= member_keys(first@));
            }
            let ghost hs = member_keys(first@);
            let mut rows: Vec<Vec<String>> = Vec::new();
            let mut j: usize = 0;
            while j < items.len()
                invariant
                    j <= items@.len(),
                    texts(headers@) == hs,
                    rows@.len() == j,
                    forall|k: int| 0 <= k < j ==> texts((#[trigger] rows@[k])@) == item_cells(items@[k], hs),
                decreases items@.len() - j,
            {
                let r = row_for(&items[j], &headers);
                rows.push(r);
                j = j + 1;
            }
            proof {
                assert(rows@.map_values(|r: Vec<String>| texts(r@)) =~= items@.map_values(|it: JsonValue| item_cells(it, hs)));
            }
            TableLayout::Columns { headers, rows }
        },
        _ => {
            let mut rows: Vec<String> = Vec::new();
            let mut j: usize = 0;
            while j < items.len()
                invariant
                    j <= items@.len(),
                    rows@.len() == j,
                    forall|k: int| 0 <= k < j ==> (#[trigger] rows@[k])@ == cell_text(items@[k]),
                decreases items@.len() - j,
            {
                rows.push(cell_string(&items[j]));
                j = j + 1;
            }
            proof {
                assert(texts(rows@) =~= items@.map_values(|it: JsonValue| cell_text(it)));
            }
            TableLayout::Values { rows }
        },
    }
}

/// How a value is printed as a table: an object holding a list under "data" shows
/// that list; another object shows a Key/Value row per member; a list shows a column
/// per key of its first item when that is an object (cells empty where an item lacks
/// the key, and a single cell for an item that is not an object), else a single
/// "Value" column; an empty list shows a note instead; anything else is a line of text.
pub fn table_layout(value: &JsonValue) -> (res: TableLayout)
    ensures
        res@ == table_view(*value),
{
    match value {
        JsonValue::Object(m) => {
            match get_field(value, "data") {
                Some(JsonValue::Array(items)) => {
                    return list_layout(items);
                },
                _ => {},
            }
            let mut rows: Vec<(String, String)> = Vec::new();
            let mut i: usize = 0;
            while i < m.len()
                invariant
                    i <= m@.len(),
                    rows@.len() == i,
                    forall|k: int| 0 <= k < i ==> (#[trigger] rows@[k]).0@ == m@[k].0@ && rows@[k].1@ == cell_text(m@[k].1),
                decreases m@.len() - i,
            {
                let k = m[i].0.clone();
                let c = cell_string(&m[i].1);
                rows.push((k, c));
                i = i + 1;
            }
            proof {
                assert(rows@.map_values(|r: (String, String)| (r.0@, r.1@)) =~= m@.map_values(|e: (String, JsonValue)| (e.0@, cell_text(e.1))));
            }
            TableLayout::KeyValue { rows }
        },
        JsonValue::Array(items) => list_layout(items),
        _ => TableLayout::Text(cell_string(value)),
    }
}

/// The note printed for an empty list.
pub fn empty_table_note() -> (res: String)
    ensures
        res@ == "(tidak ada data)"@,
{
    owned("(tidak ada data)")
}

/// What a table cell shows: a string as it is and null as nothing; a boolean as
/// "true" or "false"; a number as its text; a list or an object as its compact JSON,
/// which is never empty. So of the values that are not strings only null shows as an
/// empty cell.
pub proof fn law_cell_text_shows_every_value(v: JsonValue)
    ensures
        v matches JsonValue::String(s) ==> cell_text(v) == s@,
        v is Null ==> cell_text(v).len() == 0,
        v matches JsonValue::Bool(b) ==> cell_text(v) == (if b { "true"@ } else { "false"@ }),
        v matches JsonValue::Bool(b) ==> cell_text(v).len() > 0,
        v matches JsonValue::Number(n) ==> cell_text(v) == n@,
        v is Array ==> cell_text(v).len() >= 2 && cell_text(v)[0] == '[',
        v is Object ==> cell_text(v).len() >= 2 && cell_text(v)[0] == '{',
        !(v is String) && !(v is Null) ==> cell_text(v) == json_text(v),
{
    reveal_strlit("true");
    reveal_strlit("false");
}

} // verus!
