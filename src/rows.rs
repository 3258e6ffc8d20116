//! The system fields of a row: identity, creation and update times, and order.
use vstd::prelude::*;
use crate::json::{Json, JsonNumber, lookup, is_text, find_member, get_member, set_member};

verus! {

/// Length of the random part of a generated row identifier.
pub const ID_TOKEN_LEN: usize = 10;

pub open spec fn id_key() -> Seq<char> {
    "_id"@
}

pub open spec fn created_key() -> Seq<char> {
    "_created"@
}

pub open spec fn updated_key() -> Seq<char> {
    "_updated"@
}

pub open spec fn order_key() -> Seq<char> {
    "_order"@
}

/// The prefix of every generated row identifier.
pub open spec fn id_prefix() -> Seq<char> {
    "row_"@
}

pub open spec fn is_system_key(k: Seq<char>) -> bool {
    k == id_key() || k == created_key() || k == updated_key() || k == order_key()
}

/// A character of the URL-safe alphabet that identifiers are drawn from.
pub open spec fn is_token_char(c: char) -> bool {
    ('a' <= c && c <= 'z') || ('A' <= c && c <= 'Z') || ('0' <= c && c <= '9') || c == '_' || c
        == '-'
}

/// A random part of a row identifier.
pub open spec fn is_token(s: Seq<char>) -> bool {
    s.len() == ID_TOKEN_LEN && forall|j: int| 0 <= j < s.len() ==> is_token_char(#[trigger] s[j])
}

pub open spec fn is_number(v: Option<Json>) -> bool {
    v matches Some(Json::Number(_))
}

/// The order value that a row at `index` receives.
pub open spec fn position(index: usize) -> Json {
    Json::Number(JsonNumber::PosInt(index as u64))
}

/// The members `n` are the members `m` of the row at `index` after a save
/// at `timestamp`, where `fresh` is the identifier token drawn for it.
pub open spec fn members_normalised(
    m: Seq<(String, Json)>,
    n: Seq<(String, Json)>,
    index: usize,
    timestamp: String,
    fresh: Seq<char>,
) -> bool {
    &&& if lookup(m, id_key()) is Some {
        lookup(n, id_key()) == lookup(m, id_key())
    } else {
        is_text(lookup(n, id_key()), id_prefix() + fresh)
    }
    &&& lookup(n, created_key()) == if lookup(m, created_key()) is Some {
        lookup(m, created_key())
    } else {
        Some(Json::Text(timestamp))
    }
    &&& lookup(n, updated_key()) == Some(Json::Text(timestamp))
    &&& lookup(n, order_key()) == if is_number(lookup(m, order_key())) {
        lookup(m, order_key())
    } else {
        Some(position(index))
    }
    &&& forall|k: Seq<char>| !is_system_key(k) ==> #[trigger] lookup(n, k) == lookup(m, k)
}

/// `new` is the row `old` at `index` after a save at `timestamp` with the
/// identifier token `fresh`; a row that is not an object stays as it is.
pub open spec fn row_normalised(old: Json, new: Json, index: usize, timestamp: String, fresh: Seq<char>) -> bool {
    match old {
        Json::Object(m) => new matches Json::Object(n) && members_normalised(m@, n@, index, timestamp, fresh),
        _ => new == old,
    }
}

/// `new` is the row `old` at `index` after a save at `timestamp`, for some
/// freshly drawn identifier token.
pub open spec fn row_saved(old: Json, new: Json, index: usize, timestamp: String) -> bool {
    exists|fresh: Seq<char>| is_token(fresh) && row_normalised(old, new, index, timestamp, fresh)
}

proof fn lemma_system_keys_distinct()
    ensures
        id_key() != created_key(),
        id_key() != updated_key(),
        id_key() != order_key(),
        created_key() != updated_key(),
        created_key() != order_key(),
        updated_key() != order_key(),
{
    reveal_strlit("_id");
    reveal_strlit("_created");
    reveal_strlit("_updated");
    reveal_strlit("_order");
    assert(created_key()[1] != updated_key()[1]);
    assert(id_key().len() != order_key().len());
    assert(created_key().len() != order_key().len());
    assert(updated_key().len() != order_key().len());
}

/// Relies on `nanoid::format`, called as nanoid's `nanoid!` macro calls it:
/// with nanoid's default random source and its URL-safe alphabet of 64
/// characters, it returns `size` characters drawn from that alphabet.
#[verifier::external_body]
fn random_token(size: usize) -> (r: String)
    requires
        size > 0,
    ensures
        r@.len() == size,
        forall|j: int| 0 <= j < size ==> is_token_char(#[trigger] r@[j]),
{
    nanoid::format(nanoid::rngs::default, &nanoid::alphabet::SAFE, size)
}

/// The offset that RFC 3339 text of a UTC time ends with.
pub open spec fn utc_offset() -> Seq<char> {
    "+00:00"@
}

/// Relies on chrono's `Utc::now` and `DateTime::to_rfc3339`: the current
/// time in RFC 3339 form, at least a four-digit year, `-MM-DDTHH:MM:SS` and
/// the offset, which for UTC is written `+00:00`.
#[verifier::external_body]
pub(crate) fn now_rfc3339() -> (r: String)
    ensures
        r@.len() >= 25,
        r@.subrange(r@.len() - 6, r@.len() as int) == utc_offset(),
{
    chrono::Utc::now().to_rfc3339()
}

/// Gives the row at `index` its system fields for a save at `timestamp`:
/// an identifier `row_{fresh_id}` and a creation time where it has none, the
/// update time always, and its position as order where its order is absent
/// or not a number. A row that is not an object is returned as it is.
pub fn normalise_row(row: Json, index: usize, timestamp: &String, fresh_id: &str) -> (r: Json)
    ensures
        row_normalised(row, r, index, *timestamp, fresh_id@),
{
    match row {
        Json::Object(mut m) => {
            let ghost m0 = m@;
            proof {
                lemma_system_keys_distinct();
            }
            if find_member(&m, "_id").is_none() {
                let mut id = String::from_str("row_");
                id.append(fresh_id);
                set_member(&mut m, String::from_str("_id"), Json::Text(id));
            }
            let ghost m1 = m@;
            if find_member(&m, "_created").is_none() {
                set_member(&mut m, String::from_str("_created"), Json::Text(timestamp.clone()));
            }
            let ghost m2 = m@;
            set_member(&mut m, String::from_str("_updated"), Json::Text(timestamp.clone()));
            let ghost m3 = m@;
            let numeric = match get_member(&m, "_order") {
                Some(Json::Number(_)) => true,
                _ => false,
            };
            if !numeric {
                set_member(&mut m, String::from_str("_order"), Json::Number(JsonNumber::PosInt(index as u64)));
            }
            assert(lookup(m@, id_key()) == lookup(m3, id_key()));
            assert(lookup(m@, created_key()) == lookup(m3, created_key()));
            assert(lookup(m@, updated_key()) == lookup(m3, updated_key()));
            assert(lookup(m3, order_key()) == lookup(m0, order_key()));
            assert(lookup(m3, id_key()) == lookup(m1, id_key()));
            assert(lookup(m3, created_key()) == lookup(m2, created_key()));
            assert(lookup(m2, id_key()) == lookup(m1, id_key()));
            assert forall|k: Seq<char>| !is_system_key(k) implies #[trigger] lookup(m@, k) == lookup(m0, k) by {
                assert(lookup(m@, k) == lookup(m3, k));
                assert(lookup(m3, k) == lookup(m2, k));
                assert(lookup(m2, k) == lookup(m1, k));
                assert(lookup(m1, k) == lookup(m0, k));
            }
            Json::Object(m)
        },
        other => other,
    }
}

/// Whether `row` is an object that has no identifier yet.
fn lacks_id(row: &Json) -> (r: bool)
    ensures
        r == (row matches Json::Object(m) && lookup(m@, id_key()) is None),
{
    match row {
        Json::Object(m) => find_member(m, "_id").is_none(),
        _ => false,
    }
}

/// Gives every row its system fields for a save at `timestamp`, drawing a
/// fresh identifier for each object row that has none, and returns the
/// number of rows.
pub fn normalise_rows(rows: &mut Vec<Json>, timestamp: &String) -> (r: usize)
    ensures
        r == old(rows)@.len(),
        final(rows)@.len() == old(rows)@.len(),
        forall|i: int|
            0 <= i < old(rows)@.len() ==> #[trigger] row_saved(
                old(rows)@[i],
                final(rows)@[i],
                i as usize,
                *timestamp,
            ),
{
    let n = rows.len();
    let mut i: usize = 0;
    while i < n
        invariant
            0 <= i <= n == rows@.len() == old(rows)@.len(),
            forall|j: int| i <= j < n ==> rows@[j] == old(rows)@[j],
            forall|j: int|
                0 <= j < i ==> #[trigger] row_saved(old(rows)@[j], rows@[j], j as usize, *timestamp),
        decreases n - i,
    {
        let mut row = Json::Null;
        rows.set_and_swap(i, &mut row);
        let needs_id = lacks_id(&row);
        let fresh = if needs_id {
            random_token(ID_TOKEN_LEN)
        } else {
            String::new()
        };
        let ghost witness = if needs_id {
            fresh@
        } else {
            Seq::new(ID_TOKEN_LEN as nat, |j: int| '_')
        };
        let normalised = normalise_row(row, i, timestamp, fresh.as_str());
        assert(is_token(witness));
        assert(row_normalised(old(rows)@[i as int], normalised, i, *timestamp, witness));
        assert(row_saved(old(rows)@[i as int], normalised, i, *timestamp));
        rows.set(i, normalised);
        i = i + 1;
    }
    n
}


} // verus!
