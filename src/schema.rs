//! The schema document: its summary metadata and its default form.
use vstd::prelude::*;
use crate::json::{Json, JsonNumber, lookup, is_text, text, find_member, set_member, push_member, lemma_lookup_update};
use crate::path::{has_file_name, stem, file_name, file_stem, names_file};
use crate::rows::{now_rfc3339, utc_offset};

verus! {

pub open spec fn metadata_key() -> Seq<char> {
    "metadata"@
}

pub open spec fn row_count_key() -> Seq<char> {
    "row_count"@
}

pub open spec fn updated_at_key() -> Seq<char> {
    "updated_at"@
}

pub open spec fn count_value(n: usize) -> Json {
    Json::Number(JsonNumber::PosInt(n as u64))
}

/// The metadata members `md` hold `row_count` and `updated_at`, and every
/// other key as the earlier metadata `prior` had it, if that was an object.
pub open spec fn summary_set(
    prior: Option<Json>,
    md: Seq<(String, Json)>,
    row_count: usize,
    updated_at: String,
) -> bool {
    &&& lookup(md, row_count_key()) == Some(count_value(row_count))
    &&& lookup(md, updated_at_key()) == Some(Json::Text(updated_at))
    &&& forall|k: Seq<char>|
        k != row_count_key() && k != updated_at_key() ==> #[trigger] lookup(md, k) == match prior {
            Some(Json::Object(p)) => lookup(p@, k),
            _ => None,
        }
}

/// `new` is the schema `old` with its metadata summary set; a schema that
/// is not an object stays as it is.
pub open spec fn metadata_updated(old: Json, new: Json, row_count: usize, updated_at: String) -> bool {
    match old {
        Json::Object(m) => new matches Json::Object(n) && {
            &&& lookup(n@, metadata_key()) matches Some(Json::Object(md)) && summary_set(
                lookup(m@, metadata_key()),
                md@,
                row_count,
                updated_at,
            )
            &&& forall|k: Seq<char>| k != metadata_key() ==> #[trigger] lookup(n@, k) == lookup(m@, k)
        },
        _ => new == old,
    }
}

proof fn lemma_summary_keys_distinct()
    ensures
        row_count_key() != updated_at_key(),
{
    reveal_strlit("row_count");
    reveal_strlit("updated_at");
    assert(row_count_key()[0] != updated_at_key()[0]);
}

/// Sets the summary keys among the metadata members `md`.
fn set_summary(md: &mut Vec<(String, Json)>, row_count: usize, updated_at: &String)
    ensures
        summary_set(Some(Json::Object(*old(md))), final(md)@, row_count, *updated_at),
{
    proof {
        lemma_summary_keys_distinct();
    }
    let ghost m0 = md@;
    set_member(md, String::from_str("row_count"), Json::Number(JsonNumber::PosInt(row_count as u64)));
    let ghost m1 = md@;
    set_member(md, String::from_str("updated_at"), Json::Text(updated_at.clone()));
    assert(lookup(md@, row_count_key()) == lookup(m1, row_count_key()));
    assert forall|k: Seq<char>| k != row_count_key() && k != updated_at_key() implies #[trigger] lookup(md@, k) == lookup(m0, k) by {
        assert(lookup(md@, k) == lookup(m1, k));
    }
}

/// Sets the metadata summary of `schema`: the number of rows and the time
/// of the save. Other metadata keys are kept; a schema without an object
/// `metadata` gets one with the two keys alone; a schema that is not an
/// object is left as it is.
pub fn update_schema_metadata(schema: &mut Json, row_count: usize, updated_at: &String)
    ensures
        metadata_updated(*old(schema), *final(schema), row_count, *updated_at),
{
    let mut doc = Json::Null;
    std::mem::swap(schema, &mut doc);
    *schema = with_metadata(doc, row_count, updated_at);
}

fn with_metadata(doc: Json, row_count: usize, updated_at: &String) -> (r: Json)
    ensures
        metadata_updated(doc, r, row_count, *updated_at),
{
    match doc {
        Json::Object(mut m) => {
            let ghost m0 = m@;
            match find_member(&m, "metadata") {
                Some(i) => {
                    let mut slot = (String::new(), Json::Null);
                    m.set_and_swap(i, &mut slot);
                    let (key, value) = slot;
                    match value {
                        Json::Object(mut md) => {
                            set_summary(&mut md, row_count, updated_at);
                            let ghost p = (key, Json::Object(md));
                            m.set(i, (key, Json::Object(md)));
                            proof {
                                assert(m@ =~= m0.update(i as int, p));
                                lemma_lookup_update(m0, i as int, p);
                            }
                        },
                        other => {
                            m.set(i, (key, other));
                            assert(m@ =~= m0);
                            let mut md = Vec::new();
                            set_summary(&mut md, row_count, updated_at);
                            set_member(&mut m, String::from_str("metadata"), Json::Object(md));
                        },
                    }
                },
                None => {
                    let mut md = Vec::new();
                    set_summary(&mut md, row_count, updated_at);
                    set_member(&mut m, String::from_str("metadata"), Json::Object(md));
                },
            }
            Json::Object(m)
        },
        other => other,
    }
}

/// The content of a new data file: no rows.
pub fn seed_data() -> (r: Json)
    ensures
        r matches Json::Array(v) && v@.len() == 0,
{
    Json::Array(Vec::new())
}

/// The one column of a new schema: the hidden system column of row identifiers.
pub open spec fn is_id_column(c: Json) -> bool {
    c matches Json::Object(m) && {
        &&& m@.len() == 5
        &&& is_text(lookup(m@, "id"@), "_id"@)
        &&& is_text(lookup(m@, "name"@), "ID"@)
        &&& is_text(lookup(m@, "type"@), "text"@)
        &&& lookup(m@, "hidden"@) == Some(Json::Bool(true))
        &&& lookup(m@, "system"@) == Some(Json::Bool(true))
    }
}

/// The column types that a new schema announces.
pub open spec fn are_default_types(types: Seq<Json>) -> bool {
    &&& types.len() == 5
    &&& is_text(Some(types[0]), "text"@)
    &&& is_text(Some(types[1]), "number"@)
    &&& is_text(Some(types[2]), "checkbox"@)
    &&& is_text(Some(types[3]), "multiselect"@)
    &&& is_text(Some(types[4]), "relation"@)
}

pub open spec fn extension_note() -> Seq<char> {
    "拡張型を追加できる設計とする"@
}

/// `s` is the schema that a new data file named `table_name` gets at `now`.
pub open spec fn is_default_schema(s: Json, table_name: Seq<char>, now: String) -> bool {
    s matches Json::Object(m) && {
        &&& m@.len() == 5
        &&& is_text(lookup(m@, "version"@), "1.0"@)
        &&& is_text(lookup(m@, "table_name"@), table_name)
        &&& lookup(m@, "columns"@) matches Some(Json::Array(cols)) && cols@.len() == 1
            && is_id_column(cols@[0])
        &&& lookup(m@, metadata_key()) matches Some(Json::Object(md)) && {
            &&& md@.len() == 3
            &&& lookup(md@, "created_at"@) == Some(Json::Text(now))
            &&& lookup(md@, updated_at_key()) == Some(Json::Text(now))
            &&& lookup(md@, row_count_key()) == Some(count_value(0))
        }
        &&& lookup(m@, "extensions"@) matches Some(Json::Object(ext)) && {
            &&& ext@.len() == 2
            &&& lookup(ext@, "available_types"@) matches Some(Json::Array(types))
                && are_default_types(types@)
            &&& is_text(lookup(ext@, "future"@), extension_note())
        }
    }
}

fn id_column() -> (r: Json)
    ensures
        is_id_column(r),
{
    proof {
        reveal_strlit("id");
        reveal_strlit("name");
        reveal_strlit("type");
        reveal_strlit("hidden");
        reveal_strlit("system");
    }
    let mut m = Vec::new();
    push_member(&mut m, "id", text("_id"));
    push_member(&mut m, "name", text("ID"));
    push_member(&mut m, "type", text("text"));
    push_member(&mut m, "hidden", Json::Bool(true));
    push_member(&mut m, "system", Json::Bool(true));
    assert("id"@.len() == 2);
    assert("name"@.len() == 4);
    assert("type"@.len() == 4);
    assert("hidden"@.len() == 6);
    assert("system"@.len() == 6);
    assert("name"@[0] != "type"@[0]);
    assert("hidden"@[0] != "system"@[0]);
    Json::Object(m)
}

fn default_types() -> (r: Vec<Json>)
    ensures
        are_default_types(r@),
{
    let mut types = Vec::new();
    types.push(text("text"));
    types.push(text("number"));
    types.push(text("checkbox"));
    types.push(text("multiselect"));
    types.push(text("relation"));
    types
}

/// The schema that a new data file named `table_name` gets at `now`: one
/// hidden system column of row identifiers, no rows, created and updated at
/// `now`.
pub fn default_schema(table_name: &str, now: &String) -> (r: Json)
    ensures
        is_default_schema(r, table_name@, *now),
{
    proof {
        reveal_strlit("created_at");
        reveal_strlit("updated_at");
        reveal_strlit("row_count");
        reveal_strlit("available_types");
        reveal_strlit("future");
        reveal_strlit("version");
        reveal_strlit("table_name");
        reveal_strlit("columns");
        reveal_strlit("metadata");
        reveal_strlit("extensions");
    }
    assert("created_at"@.len() == 10);
    assert("updated_at"@.len() == 10);
    assert("row_count"@.len() == 9);
    assert("available_types"@.len() == 15);
    assert("future"@.len() == 6);
    assert("version"@.len() == 7);
    assert("table_name"@.len() == 10);
    assert("columns"@.len() == 7);
    assert("metadata"@.len() == 8);
    assert("extensions"@.len() == 10);
    assert("created_at"@[0] != "updated_at"@[0]);
    assert("created_at"@[0] != "table_name"@[0]);
    assert("created_at"@[0] != "extensions"@[0]);
    assert("updated_at"@[0] != "table_name"@[0]);
    assert("updated_at"@[0] != "extensions"@[0]);
    assert("version"@[0] != "columns"@[0]);
    assert("table_name"@[0] != "extensions"@[0]);
    let mut md = Vec::new();
    push_member(&mut md, "created_at", Json::Text(now.clone()));
    push_member(&mut md, "updated_at", Json::Text(now.clone()));
    push_member(&mut md, "row_count", Json::Number(JsonNumber::PosInt(0)));
    let mut ext = Vec::new();
    push_member(&mut ext, "available_types", Json::Array(default_types()));
    push_member(&mut ext, "future", text("拡張型を追加できる設計とする"));
    let mut cols = Vec::new();
    cols.push(id_column());
    let mut m = Vec::new();
    push_member(&mut m, "version", text("1.0"));
    push_member(&mut m, "table_name", text(table_name));
    push_member(&mut m, "columns", Json::Array(cols));
    push_member(&mut m, "metadata", Json::Object(md));
    push_member(&mut m, "extensions", Json::Object(ext));
    Json::Object(m)
}

pub open spec fn untitled() -> Seq<char> {
    "Untitled"@
}

/// The table name recorded for the data file `data_path`: its stem.
pub open spec fn table_name_of(data_path: Seq<char>) -> Seq<char> {
    if has_file_name(data_path) {
        stem(file_name(data_path))
    } else {
        untitled()
    }
}

/// The table name recorded for the data file `data_path`.
pub fn table_name_for(data_path: &str) -> (r: String)
    ensures
        r@ == table_name_of(data_path@),
{
    if names_file(data_path) {
        file_stem(data_path)
    } else {
        String::from_str("Untitled")
    }
}

/// The schema that the data file `data_path` gets when it has none, dated now.
pub fn seed_schema(data_path: &str) -> (r: Json)
    ensures
        exists|now: String|
            is_default_schema(r, table_name_of(data_path@), now) && now@.subrange(
                now@.len() - 6,
                now@.len() as int,
            ) == utc_offset() && now@.len() >= 25,
{
    let now = now_rfc3339();
    let name = table_name_for(data_path);
    default_schema(name.as_str(), &now)
}

} // verus!
