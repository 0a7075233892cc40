//! Reading documents and reports that the site returns: attached files, customer
//! records, and the file listing report.
use vstd::prelude::*;
use crate::error::{CliError, CliResult};
use crate::json::{JsonValue, field, get_field, member, push_quoted, quoted};
use crate::strmap::{StrMap, sorted_keys};
use crate::text::{decimal, decimal_text, has_prefix, owned, push_char, push_text, starts_with};

verus! {

/// A path under the site's public or private file store.
pub open spec fn is_file_path(s: Seq<char>) -> bool {
    has_prefix(s, "/private/files/"@) || has_prefix(s, "/files/"@)
}

/// The members of an object whose value is a file path, as (key, path), in order.
pub open spec fn file_links(ms: Seq<(String, JsonValue)>) -> Seq<(Seq<char>, Seq<char>)>
    decreases ms.len(),
{
    if ms.len() == 0 {
        Seq::empty()
    } else {
        let rest = file_links(ms.drop_last());
        match ms.last().1 {
            JsonValue::String(s) => if is_file_path(s@) {
                rest.push((ms.last().0@, s@))
            } else {
                rest
            },
            _ => rest,
        }
    }
}

/// The files attached to a document: the file paths among the members of its "data"
/// object, or when there are none, among its own members.
pub open spec fn attached_files(v: JsonValue) -> Seq<(Seq<char>, Seq<char>)> {
    let from_data = match field(v, "data"@) {
        Some(JsonValue::Object(d)) => file_links(d@),
        _ => Seq::empty(),
    };
    if from_data.len() > 0 {
        from_data
    } else {
        match v {
            JsonValue::Object(m) => file_links(m@),
            _ => Seq::empty(),
        }
    }
}

/// Views of (label, path) pairs.
pub open spec fn link_views(v: Seq<(String, String)>) -> Seq<(Seq<char>, Seq<char>)> {
    v.map_values(|p: (String, String)| (p.0@, p.1@))
}

fn links_of(ms: &Vec<(String, JsonValue)>) -> (res: Vec<(String, String)>)
    ensures
        link_views(res@) == file_links(ms@),
{
    let mut out: Vec<(String, String)> = Vec::new();
    let mut i: usize = 0;
    while i < ms.len()
        invariant
            i <= ms@.len(),
            link_views(out@) == file_links(ms@.take(i as int)),
        decreases ms@.len() - i,
    {
        let ghost t = ms@.take(i + 1);
        proof {
            assert(t.drop_last() =~= ms@.take(i as int));
            assert(t.last() == ms@[i as int]);
        }
        match &ms[i].1 {
            JsonValue::String(s) => {
                let cs = crate::text::chars_of(s.as_str());
                if starts_with(cs.as_slice(), "/private/files/") || starts_with(cs.as_slice(), "/files/") {
                    out.push((ms[i].0.clone(), s.clone()));
                    proof {
                        assert(link_views(out@) =~= file_links(t));
                    }
                }
            },
            _ => {},
        }
        i = i + 1;
    }
    proof {
        assert(ms@.take(i as int) =~= ms@);
    }
    out
}

/// The files attached to a document, as (field, path) pairs.
pub fn collect_files(value: &JsonValue) -> (res: Vec<(String, String)>)
    ensures
        link_views(res@) == attached_files(*value),
{
    let from_data = match get_field(value, "data") {
        Some(JsonValue::Object(d)) => links_of(d),
        _ => Vec::new(),
    };
    if from_data.len() > 0 {
        return from_data;
    }
    match value {
        JsonValue::Object(m) => links_of(m),
        _ => Vec::new(),
    }
}

/// The message when no customer has the agreement number.
pub open spec fn no_record_message(no: Seq<char>) -> Seq<char> {
    "No nasabah found with no_perjanjian: "@ + no
}

/// The customer record and what `kp` reads of it: the first entry of the "data"
/// list, its "name" and its "no_rekening_kredit", each of which must be a string.
pub open spec fn customer_fields(data: JsonValue, no: Seq<char>) -> Result<(Seq<char>, Seq<char>), Seq<char>> {
    match field(data, "data"@) {
        Some(JsonValue::Array(a)) if a@.len() > 0 => {
            let rec = a@[0];
            match field(rec, "name"@) {
                Some(JsonValue::String(name)) => match field(rec, "no_rekening_kredit"@) {
                    Some(JsonValue::String(acct)) => Ok((name@, acct@)),
                    _ => Err("Missing no_rekening_kredit"@),
                },
                _ => Err("Missing docname"@),
            }
        },
        _ => Err(no_record_message(no)),
    }
}

/// The document name and credit account number of the customer record in a list
/// response; `Other` errors when there is no record or a field is missing.
pub fn customer_record(data: &JsonValue, no_perjanjian: &str) -> (res: CliResult<(String, String)>)
    ensures
        match customer_fields(*data, no_perjanjian@) {
            Ok(p) => res is Ok && res->Ok_0.0@ == p.0 && res->Ok_0.1@ == p.1,
            Err(m) => res is Err && res->Err_0 is Other && res->Err_0->Other_0@ == m,
        },
{
    let rec = match get_field(data, "data") {
        Some(JsonValue::Array(a)) => {
            if a.len() == 0 {
                let mut m = owned("No nasabah found with no_perjanjian: ");
                push_text(&mut m, no_perjanjian);
                return Err(CliError::Other(m));
            }
            &a[0]
        },
        _ => {
            let mut m = owned("No nasabah found with no_perjanjian: ");
            push_text(&mut m, no_perjanjian);
            return Err(CliError::Other(m));
        },
    };
    let name = match get_field(rec, "name") {
        Some(JsonValue::String(n)) => n.clone(),
        _ => return Err(CliError::Other(owned("Missing docname"))),
    };
    let acct = match get_field(rec, "no_rekening_kredit") {
        Some(JsonValue::String(n)) => n.clone(),
        _ => return Err(CliError::Other(owned("Missing no_rekening_kredit"))),
    };
    Ok((name, acct))
}

/// The columns the file listing asks for, as the JSON list it sends.
pub open spec fn file_fields_text() -> Seq<char> {
    "[\"`tabFile`.`file_name`\",\"`tabFile`.`file_url`\",\"`tabFile`.`file_size`\",\"`tabFile`.`file_type`\",\"`tabFile`.`is_private`\",\"`tabFile`.`attached_to_doctype`\",\"`tabFile`.`attached_to_name`\",\"`tabFile`.`attached_to_field`\",\"`tabFile`.`creation`\",\"`tabFile`.`modified`\"]"@
}

/// A condition of the file listing: field, operator, value.
pub type Condition = (Seq<char>, Seq<char>, Seq<char>);

/// The view of an optional text.
pub open spec fn opt_str(o: Option<&str>) -> Option<Seq<char>> {
    match o {
        Some(s) => Some(s@),
        None => None,
    }
}

/// `%text%`, the pattern for a substring match.
pub open spec fn like_pattern(s: Seq<char>) -> Seq<char> {
    "%"@ + s + "%"@
}

/// The conditions of the file listing: the folder, then each of the name pattern,
/// type pattern, attached doctype and attached document that is given.
pub open spec fn file_conditions(
    folder: Seq<char>,
    search: Option<Seq<char>>,
    file_type: Option<Seq<char>>,
    doctype: Option<Seq<char>>,
    docname: Option<Seq<char>>,
) -> Seq<Condition> {
    seq![("folder"@, "="@, folder)]
        + (match search { Some(s) => seq![("file_name"@, "like"@, like_pattern(s))], None => Seq::empty() })
        + (match file_type { Some(s) => seq![("file_type"@, "like"@, like_pattern(s))], None => Seq::empty() })
        + (match doctype { Some(s) => seq![("attached_to_doctype"@, "="@, s)], None => Seq::empty() })
        + (match docname { Some(s) => seq![("attached_to_name"@, "="@, s)], None => Seq::empty() })
}

/// One condition as compact JSON: `["File",field,op,value]`.
pub open spec fn condition_text(c: Condition) -> Seq<char> {
    "[\"File\","@ + quoted(c.0) + ","@ + quoted(c.1) + ","@ + quoted(c.2) + "]"@
}

/// Conditions joined by commas.
pub open spec fn conditions_body(cs: Seq<Condition>) -> Seq<char>
    decreases cs.len(),
{
    if cs.len() == 0 {
        Seq::empty()
    } else if cs.len() == 1 {
        condition_text(cs[0])
    } else {
        conditions_body(cs.drop_last()) + ","@ + condition_text(cs.last())
    }
}

/// The conditions as the compact JSON list the listing sends.
pub open spec fn conditions_text(cs: Seq<Condition>) -> Seq<char> {
    "["@ + conditions_body(cs) + "]"@
}

/// The parameters of the `frappe.desk.reportview.get` call that lists files.
pub open spec fn file_list_params_spec(conditions: Seq<Condition>, limit: nat) -> Map<Seq<char>, Seq<char>> {
    map![
        "doctype"@ => "File"@,
        "fields"@ => file_fields_text(),
        "filters"@ => conditions_text(conditions),
        "order_by"@ => "`tabFile`.`creation` desc"@,
        "start"@ => "0"@,
        "page_length"@ => decimal(limit),
        "view"@ => "List"@
    ]
}

fn push_condition(out: &mut String, field_name: &str, op: &str, value: &str)
    ensures
        final(out)@ == old(out)@ + condition_text((field_name@, op@, value@)),
{
    let ghost start = out@;
    push_text(out, "[\"File\",");
    push_quoted(out, field_name);
    push_char(out, ',');
    push_quoted(out, op);
    push_char(out, ',');
    push_quoted(out, value);
    push_char(out, ']');
    proof {
        reveal_strlit(",");
        reveal_strlit("]");
        assert(out@ =~= start + condition_text((field_name@, op@, value@)));
    }
}

fn like_of(s: &str) -> (res: String)
    ensures
        res@ == like_pattern(s@),
{
    let mut p = owned("%");
    push_text(&mut p, s);
    push_text(&mut p, "%");
    p
}

/// The filter list of the file listing, as compact JSON.
pub fn file_list_filters(
    folder: &str,
    search: Option<&str>,
    file_type: Option<&str>,
    attached_to_doctype: Option<&str>,
    attached_to_name: Option<&str>,
) -> (res: String)
    ensures
        res@ == conditions_text(
            file_conditions(folder@, opt_str(search), opt_str(file_type), opt_str(attached_to_doctype), opt_str(attached_to_name)),
        ),
{
    let mut conds: Vec<(String, String, String)> = Vec::new();
    conds.push((owned("folder"), owned("="), owned(folder)));
    match search {
        Some(s) => conds.push((owned("file_name"), owned("like"), like_of(s))),
        None => {},
    }
    match file_type {
        Some(s) => conds.push((owned("file_type"), owned("like"), like_of(s))),
        None => {},
    }
    match attached_to_doctype {
        Some(s) => conds.push((owned("attached_to_doctype"), owned("="), owned(s))),
        None => {},
    }
    match attached_to_name {
        Some(s) => conds.push((owned("attached_to_name"), owned("="), owned(s))),
        None => {},
    }
    let ghost want = file_conditions(folder@, opt_str(search), opt_str(file_type), opt_str(attached_to_doctype), opt_str(attached_to_name));
    proof {
        assert(conds@.map_values(|c: (String, String, String)| (c.0@, c.1@, c.2@)) =~= want);
    }
    let mut out = owned("[");
    let mut i: usize = 0;
    while i < conds.len()
        invariant
            i <= conds@.len(),
            conds@.map_values(|c: (String, String, String)| (c.0@, c.1@, c.2@)) == want,
            out@ == "["@ + conditions_body(want.take(i as int)),
        decreases conds@.len() - i,
    {
        let ghost before = out@;
        if i > 0 {
            push_char(&mut out, ',');
        }
        push_condition(&mut out, conds[i].0.as_str(), conds[i].1.as_str(), conds[i].2.as_str());
        proof {
            let t = want.take(i + 1);
            assert(t.drop_last() =~= want.take(i as int));
            assert(t.last() == want[i as int]);
            assert(want[i as int] == (conds@[i as int].0@, conds@[i as int].1@, conds@[i as int].2@));
            reveal_strlit(",");
            if i == 0 {
                assert(want.take(0) =~= Seq::<Condition>::empty());
                assert(t =~= seq![want[0]]);
            }
            assert(out@ =~= "["@ + conditions_body(t));
        }
        i = i + 1;
    }
    push_text(&mut out, "]");
    proof {
        assert(want.take(i as int) =~= want);
        assert(out@ =~= conditions_text(want));
    }
    out
}

/// The parameters of the file listing call, for the given conditions and limit.
pub fn file_list_params(
    folder: &str,
    limit: u32,
    search: Option<&str>,
    file_type: Option<&str>,
    attached_to_doctype: Option<&str>,
    attached_to_name: Option<&str>,
) -> (res: StrMap<String>)
    ensures
        res@.map_values(|v: String| v@) == file_list_params_spec(
            file_conditions(folder@, opt_str(search), opt_str(file_type), opt_str(attached_to_doctype), opt_str(attached_to_name)),
            limit as nat,
        ),
{
    let filters = file_list_filters(folder, search, file_type, attached_to_doctype, attached_to_name);
    let mut p: StrMap<String> = StrMap::new();
    p.insert(owned("doctype"), owned("File"));
    p.insert(
        owned("fields"),
        owned(
            "[\"`tabFile`.`file_name`\",\"`tabFile`.`file_url`\",\"`tabFile`.`file_size`\",\"`tabFile`.`file_type`\",\"`tabFile`.`is_private`\",\"`tabFile`.`attached_to_doctype`\",\"`tabFile`.`attached_to_name`\",\"`tabFile`.`attached_to_field`\",\"`tabFile`.`creation`\",\"`tabFile`.`modified`\"]",
        ),
    );
    p.insert(owned("filters"), filters);
    p.insert(owned("order_by"), owned("`tabFile`.`creation` desc"));
    p.insert(owned("start"), owned("0"));
    p.insert(owned("page_length"), decimal_text(limit as u64));
    p.insert(owned("view"), owned("List"));
    proof {
        assert(p@.map_values(|v: String| v@) =~= file_list_params_spec(
            file_conditions(folder@, opt_str(search), opt_str(file_type), opt_str(attached_to_doctype), opt_str(attached_to_name)),
            limit as nat,
        ));
    }
    p
}


/// Position of the first member with `key`.
pub open spec fn member_pos(ms: Seq<(String, JsonValue)>, key: Seq<char>) -> Option<int>
    decreases ms.len(),
{
    if ms.len() == 0 {
        None
    } else if ms[0].0@ == key {
        Some(0)
    } else {
        match member_pos(ms.drop_first(), key) {
            Some(i) => Some(i + 1),
            None => None,
        }
    }
}

proof fn lemma_member_pos(ms: Seq<(String, JsonValue)>, key: Seq<char>, i: int)
    requires
        0 <= i <= ms.len(),
        forall|j: int| 0 <= j < i ==> (#[trigger] ms[j]).0@ != key,
    ensures
        i < ms.len() && ms[i].0@ == key ==> member_pos(ms, key) == Some(i) && member(ms, key) == Some(ms[i].1),
        i == ms.len() ==> member_pos(ms, key) is None && member(ms, key) is None,
    decreases i,
{
    if i > 0 {
        lemma_member_pos(ms.drop_first(), key, i - 1);
    }
}

/// Finds the first member with `key`.
fn find_member(ms: &Vec<(String, JsonValue)>, key: &str) -> (res: Option<usize>)
    ensures
        match res {
            Some(i) => member_pos(ms@, key@) == Some(i as int) && i < ms@.len() && ms@[i as int].0@ == key@
                && member(ms@, key@) == Some(ms@[i as int].1),
            None => member_pos(ms@, key@) is None && member(ms@, key@) is None,
        },
{
    let mut i: usize = 0;
    while i < ms.len()
        invariant
            i <= ms@.len(),
            forall|j: int| 0 <= j < i ==> (#[trigger] ms@[j]).0@ != key@,
        decreases ms@.len() - i,
    {
        if crate::text::str_equal(ms[i].0.as_str(), key) {
            proof {
                lemma_member_pos(ms@, key@, i as int);
            }
            return Some(i);
        }
        i = i + 1;
    }
    proof {
        lemma_member_pos(ms@, key@, i as int);
    }
    None
}

/// The cell of a row at a column, or null past its end.
pub open spec fn cell_at(cells: Seq<JsonValue>, i: int) -> JsonValue {
    if 0 <= i < cells.len() {
        cells[i]
    } else {
        JsonValue::Null
    }
}

/// The members of the object made of one report row: for each column name (in
/// order, a later equal name winning) the row's cell at that position, null past
/// the row's end; columns whose name is not a string are skipped.
pub open spec fn row_map(keys: Seq<JsonValue>, cells: Seq<JsonValue>) -> Map<Seq<char>, JsonValue>
    decreases keys.len(),
{
    if keys.len() == 0 {
        Map::empty()
    } else {
        let m = row_map(keys.drop_last(), cells);
        match keys.last() {
            JsonValue::String(k) => m.insert(k@, cell_at(cells, keys.len() - 1)),
            _ => m,
        }
    }
}

/// The rows of a report that are lists, as their cells.
pub open spec fn array_rows(rows: Seq<JsonValue>) -> Seq<Seq<JsonValue>>
    decreases rows.len(),
{
    if rows.len() == 0 {
        Seq::empty()
    } else {
        let p = array_rows(rows.drop_last());
        match rows.last() {
            JsonValue::Array(c) => p.push(c@),
            _ => p,
        }
    }
}

/// The keys of members, in order.
pub open spec fn keys_of(ms: Seq<(String, JsonValue)>) -> Seq<Seq<char>> {
    ms.map_values(|e: (String, JsonValue)| e.0@)
}

/// `v` is the object, keys in ascending order, whose members are those of `m`.
pub open spec fn is_object_of(v: JsonValue, m: Map<Seq<char>, JsonValue>) -> bool {
    &&& v is Object
    &&& sorted_keys(keys_of(v->Object_0@))
    &&& keys_of(v->Object_0@).to_set() == m.dom()
    &&& forall|i: int|
        0 <= i < v->Object_0@.len() ==> (#[trigger] v->Object_0@[i]).1 == m[v->Object_0@[i].0@]
}

/// The parts of a report response: the position of its "message" member, and the
/// "keys" and "values" lists of that message.
pub open spec fn report_parts(v: JsonValue) -> Option<(int, Seq<JsonValue>, Seq<JsonValue>)> {
    match v {
        JsonValue::Object(ms) => match member_pos(ms@, "message"@) {
            Some(i) => {
                let msg = ms@[i].1;
                match (field(msg, "keys"@), field(msg, "values"@)) {
                    (Some(JsonValue::Array(k)), Some(JsonValue::Array(r))) => Some((i, k@, r@)),
                    _ => None,
                }
            },
            None => None,
        },
        _ => None,
    }
}

/// A report response with its "message" turned into a list of objects, one per row.
pub open spec fn is_tabulation(res: JsonValue, v: JsonValue) -> bool {
    match report_parts(v) {
        None => res == v,
        Some(parts) => {
            let (idx, ks, rs) = parts;
            let ms = v->Object_0@;
            let out = res->Object_0@;
            let rows = array_rows(rs);
            &&& res is Object
            &&& out.len() == ms.len()
            &&& forall|j: int| 0 <= j < ms.len() && j != idx ==> #[trigger] out[j] == ms[j]
            &&& out[idx].0@ == "message"@
            &&& out[idx].1 is Array
            &&& out[idx].1->Array_0@.len() == rows.len()
            &&& forall|r: int|
                0 <= r < rows.len() ==> is_object_of(#[trigger] out[idx].1->Array_0@[r], row_map(ks, rows[r]))
        },
    }
}

/// The names of report columns: `Some` for those that are strings.
fn column_names(keys: &Vec<JsonValue>) -> (res: Vec<Option<String>>)
    ensures
        res@.len() == keys@.len(),
        forall|i: int|
            0 <= i < keys@.len() ==> match keys@[i] {
                JsonValue::String(k) => (#[trigger] res@[i]) is Some && res@[i]->Some_0@ == k@,
                _ => res@[i] is None,
            },
{
    let mut out: Vec<Option<String>> = Vec::new();
    let mut i: usize = 0;
    while i < keys.len()
        invariant
            i <= keys@.len(),
            out@.len() == i,
            forall|j: int|
                0 <= j < i ==> match keys@[j] {
                    JsonValue::String(k) => (#[trigger] out@[j]) is Some && out@[j]->Some_0@ == k@,
                    _ => out@[j] is None,
                },
        decreases keys@.len() - i,
    {
        match &keys[i] {
            JsonValue::String(k) => out.push(Some(k.clone())),
            _ => out.push(None),
        }
        i = i + 1;
    }
    out
}

/// The object made of one report row.
fn row_object(names: &Vec<Option<String>>, cells: Vec<JsonValue>, Ghost(keys): Ghost<Seq<JsonValue>>) -> (res: JsonValue)
    requires
        names@.len() == keys.len(),
        forall|i: int|
            0 <= i < keys.len() ==> match keys[i] {
                JsonValue::String(k) => (#[trigger] names@[i]) is Some && names@[i]->Some_0@ == k@,
                _ => names@[i] is None,
            },
    ensures
        is_object_of(res, row_map(keys, cells@)),
{
    let ghost orig = cells@;
    let mut cells = cells;
    let mut m: StrMap<JsonValue> = StrMap::new();
    let mut i: usize = 0;
    proof {
        assert(keys.take(0) =~= Seq::<JsonValue>::empty());
        assert(m@ =~= row_map(keys.take(0), orig));
    }
    while i < names.len()
        invariant
            i <= names@.len() == keys.len(),
            forall|j: int|
                0 <= j < keys.len() ==> match keys[j] {
                    JsonValue::String(k) => (#[trigger] names@[j]) is Some && names@[j]->Some_0@ == k@,
                    _ => names@[j] is None,
                },
            i <= orig.len() ==> cells@ == orig.skip(i as int),
            i > orig.len() ==> cells@.len() == 0,
            m@ == row_map(keys.take(i as int), orig),
        decreases names@.len() - i,
    {
        let cell = if cells.len() > 0 {
            cells.remove(0)
        } else {
            JsonValue::Null
        };
        proof {
            assert(cell == cell_at(orig, i as int));
            let t = keys.take(i + 1);
            assert(t.drop_last() =~= keys.take(i as int));
            assert(t.last() == keys[i as int]);
            if i < orig.len() {
                assert(cells@ =~= orig.skip(i + 1));
            }
        }
        match &names[i] {
            Some(k) => {
                m.insert(k.clone(), cell);
            },
            None => {},
        }
        proof {
            assert(m@ =~= row_map(keys.take(i + 1), orig));
        }
        i = i + 1;
    }
    proof {
        assert(keys.take(i as int) =~= keys);
    }
    let ghost mm = m;
    let pairs = m.into_pairs();
    proof {
        mm.lemma_shape();
        assert(keys_of(pairs@) =~= mm.ordered_keys());
    }
    JsonValue::Object(pairs)
}

/// Turns the "message" of a `frappe.desk.reportview.get` response, which holds a
/// list of column names ("keys") and a list of rows ("values"), into a list with
/// one object per row that is a list. A response of any other shape is returned
/// as it is.
pub fn tabulate_report(v: JsonValue) -> (res: JsonValue)
    ensures
        is_tabulation(res, v),
{
    let ghost orig = v;
    let idx = match &v {
        JsonValue::Object(ms) => match find_member(ms, "message") {
            Some(i) => {
                let msg = &ms[i].1;
                let keys_ok = match get_field(msg, "keys") {
                    Some(JsonValue::Array(_)) => true,
                    _ => false,
                };
                let values_ok = match get_field(msg, "values") {
                    Some(JsonValue::Array(_)) => true,
                    _ => false,
                };
                if keys_ok && values_ok {
                    i
                } else {
                    return v;
                }
            },
            None => return v,
        },
        _ => return v,
    };
    let mut ms = match v {
        JsonValue::Object(ms) => ms,
        _ => return v,
    };
    let ghost ms0 = ms@;
    let (key, msg) = ms.remove(idx);
    let names = match get_field(&msg, "keys") {
        Some(JsonValue::Array(k)) => column_names(k),
        _ => Vec::new(),
    };
    let ghost ks = field(msg, "keys"@)->Some_0->Array_0@;
    let ghost rs = field(msg, "values"@)->Some_0->Array_0@;
    let mut mm = match msg {
        JsonValue::Object(mm) => mm,
        _ => Vec::new(),
    };
    let vpos = find_member(&mm, "values");
    let mut rows: Vec<JsonValue> = match vpos {
        Some(p) => match mm.remove(p) {
            (_, JsonValue::Array(r)) => r,
            _ => Vec::new(),
        },
        None => Vec::new(),
    };
    proof {
        assert(rows@ == rs);
    }
    let mut items: Vec<JsonValue> = Vec::new();
    let n = rows.len();
    let mut i: usize = 0;
    proof {
        assert(rs.take(0) =~= Seq::<JsonValue>::empty());
        assert(rs.skip(0) =~= rs);
    }
    while i < n
        invariant
            i <= n == rs.len(),
            rows@ == rs.skip(i as int),
            names@.len() == ks.len(),
            forall|j: int|
                0 <= j < ks.len() ==> match ks[j] {
                    JsonValue::String(k) => (#[trigger] names@[j]) is Some && names@[j]->Some_0@ == k@,
                    _ => names@[j] is None,
                },
            items@.len() == array_rows(rs.take(i as int)).len(),
            forall|r: int|
                0 <= r < items@.len() ==> is_object_of(
                    #[trigger] items@[r],
                    row_map(ks, array_rows(rs.take(i as int))[r]),
                ),
        decreases n - i,
    {
        let row = rows.remove(0);
        proof {
            assert(row == rs[i as int]);
            assert(rows@ =~= rs.skip(i + 1));
            let t = rs.take(i + 1);
            assert(t.drop_last() =~= rs.take(i as int));
            assert(t.last() == rs[i as int]);
        }
        match row {
            JsonValue::Array(cells) => {
                let ghost cv = cells@;
                let obj = row_object(&names, cells, Ghost(ks));
                let ghost prev = items@;
                items.push(obj);
                proof {
                    let t = rs.take(i + 1);
                    assert(array_rows(t) == array_rows(rs.take(i as int)).push(cv));
                    assert forall|r: int| 0 <= r < items@.len() implies is_object_of(
                        #[trigger] items@[r],
                        row_map(ks, array_rows(t)[r]),
                    ) by {
                        if r < items@.len() - 1 {
                            assert(items@[r] == prev[r]);
                        }
                    }
                }
            },
            _ => {},
        }
        i = i + 1;
    }
    proof {
        assert(rs.take(i as int) =~= rs);
    }
    ms.insert(idx, (key, JsonValue::Array(items)));
    proof {
        assert(ms@ =~= ms0.update(idx as int, ms@[idx as int]));
    }
    JsonValue::Object(ms)
}

} // verus!
