//! A save: the rows get their system fields and the schema its summary,
//! both at one time. What holds across saves is stated here too.
use vstd::prelude::*;
use crate::json::{Json, lookup};
use crate::rows::{
    row_saved, row_normalised, normalise_rows, now_rfc3339, id_key,
    created_key, updated_key, order_key, is_number, position, is_token, utc_offset,
};
use crate::schema::{metadata_updated, update_schema_metadata};

verus! {

/// What a save reports: the number of rows and the time of the save.
pub struct SaveSummary {
    pub row_count: usize,
    pub updated_at: String,
}

/// `new` holds the rows `old` after a save at `timestamp`.
pub open spec fn rows_saved(old: Seq<Json>, new: Seq<Json>, timestamp: String) -> bool {
    &&& new.len() == old.len()
    &&& forall|i: int| 0 <= i < old.len() ==> #[trigger] row_saved(old[i], new[i], i as usize, timestamp)
}

/// Saves at `timestamp`: every row gets its system fields and the schema's
/// metadata records the number of rows and `timestamp`. Returns the number
/// of rows.
pub fn save_at(data: &mut Vec<Json>, schema: &mut Json, timestamp: &String) -> (r: usize)
    ensures
        r == old(data)@.len(),
        rows_saved(old(data)@, final(data)@, *timestamp),
        metadata_updated(*old(schema), *final(schema), r, *timestamp),
{
    let count = normalise_rows(data, timestamp);
    update_schema_metadata(schema, count, timestamp);
    count
}

/// Saves now: as `save_at`, at the current time, which it reports.
pub fn prepare_save(data: &mut Vec<Json>, schema: &mut Json) -> (r: SaveSummary)
    ensures
        r.row_count == old(data)@.len(),
        r.updated_at@.len() >= 25,
        r.updated_at@.subrange(r.updated_at@.len() - 6, r.updated_at@.len() as int) == utc_offset(),
        rows_saved(old(data)@, final(data)@, r.updated_at),
        metadata_updated(*old(schema), *final(schema), r.row_count, r.updated_at),
{
    let now = now_rfc3339();
    let row_count = save_at(data, schema, &now);
    SaveSummary { row_count, updated_at: now }
}

/// After a save, an object row has all four system fields, and its update
/// time is the time of the save.
pub proof fn lemma_saved_row_complete(old: Json, new: Json, index: usize, timestamp: String)
    requires
        row_saved(old, new, index, timestamp),
        old is Object,
    ensures
        new matches Json::Object(n) && {
            &&& lookup(n@, id_key()) is Some
            &&& lookup(n@, created_key()) is Some
            &&& lookup(n@, updated_key()) == Some(Json::Text(timestamp))
            &&& lookup(n@, order_key()) is Some
        },
{
    let fresh = choose|fresh: Seq<char>| is_token(fresh) && row_normalised(old, new, index, timestamp, fresh);
    assert(row_normalised(old, new, index, timestamp, fresh));
}

/// A row saved once and then edited in anything but its identifier and
/// creation time keeps both through the next save, and takes that save's
/// time as its update time.
pub proof fn lemma_resave_keeps_identity(
    original: Json,
    first: Json,
    edited: Json,
    second: Json,
    i: usize,
    j: usize,
    t1: String,
    t2: String,
)
    requires
        original is Object,
        row_saved(original, first, i, t1),
        edited matches Json::Object(e) && first matches Json::Object(f) && lookup(e@, id_key())
            == lookup(f@, id_key()) && lookup(e@, created_key()) == lookup(f@, created_key()),
        row_saved(edited, second, j, t2),
    ensures
        second matches Json::Object(s) && first matches Json::Object(f) && {
            &&& lookup(s@, id_key()) is Some
            &&& lookup(s@, id_key()) == lookup(f@, id_key())
            &&& lookup(s@, created_key()) is Some
            &&& lookup(s@, created_key()) == lookup(f@, created_key())
            &&& lookup(s@, updated_key()) == Some(Json::Text(t2))
        },
{
    lemma_saved_row_complete(original, first, i, t1);
    let f2 = choose|fresh: Seq<char>| is_token(fresh) && row_normalised(edited, second, j, t2, fresh);
    assert(row_normalised(edited, second, j, t2, f2));
}

/// Between two saves, the edited row `edited` keeps the identifier and
/// creation time of the saved object row `first`.
pub open spec fn identity_carried(first: Json, edited: Json) -> bool {
    first matches Json::Object(f) ==> (edited matches Json::Object(e) && lookup(e@, id_key())
        == lookup(f@, id_key()) && lookup(e@, created_key()) == lookup(f@, created_key()))
}

/// The row `second` has the identifier and creation time of `first` and
/// the update time `t`.
pub open spec fn identity_kept(first: Json, second: Json, t: String) -> bool {
    second matches Json::Object(s) && first matches Json::Object(f) && {
        &&& lookup(s@, id_key()) is Some
        &&& lookup(s@, id_key()) == lookup(f@, id_key())
        &&& lookup(s@, created_key()) is Some
        &&& lookup(s@, created_key()) == lookup(f@, created_key())
        &&& lookup(s@, updated_key()) == Some(Json::Text(t))
    }
}

/// Saving rows, editing them in anything but identifiers and creation
/// times, and saving again: every row that was an object keeps the
/// identifier and creation time of the first save and takes the second
/// save's time as its update time.
pub proof fn lemma_resave_rows(
    original: Seq<Json>,
    first: Seq<Json>,
    edited: Seq<Json>,
    second: Seq<Json>,
    t1: String,
    t2: String,
)
    requires
        rows_saved(original, first, t1),
        edited.len() == first.len(),
        forall|i: int| 0 <= i < first.len() ==> #[trigger] identity_carried(first[i], edited[i]),
        rows_saved(edited, second, t2),
    ensures
        second.len() == original.len(),
        forall|i: int|
            0 <= i < original.len() && original[i] is Object ==> #[trigger] identity_kept(
                first[i],
                second[i],
                t2,
            ),
{
    assert forall|i: int| 0 <= i < original.len() && original[i] is Object implies #[trigger] identity_kept(
        first[i],
        second[i],
        t2,
    ) by {
        assert(row_saved(original[i], first[i], i as usize, t1));
        lemma_saved_row_complete(original[i], first[i], i as usize, t1);
        assert(identity_carried(first[i], edited[i]));
        assert(row_saved(edited[i], second[i], i as usize, t2));
        lemma_resave_keeps_identity(original[i], first[i], edited[i], second[i], i as usize, i as usize, t1, t2);
    }
}

/// A row's identifier, once it has one, never changes over any number of
/// saves: `history[k + 1]` is `history[k]` saved as the row at `positions[k]`
/// at `times[k]`.
pub proof fn lemma_id_stable(history: Seq<Json>, positions: Seq<usize>, times: Seq<String>)
    requires
        history.len() >= 1,
        positions.len() == history.len() - 1,
        times.len() == history.len() - 1,
        history[0] matches Json::Object(m) && lookup(m@, id_key()) is Some,
        forall|k: int|
            0 <= k < history.len() - 1 ==> #[trigger] row_saved(
                history[k],
                history[k + 1],
                positions[k],
                times[k],
            ),
    ensures
        forall|k: int|
            0 <= k < history.len() ==> (#[trigger] history[k] matches Json::Object(m) && history[0] matches Json::Object(m0)
                && lookup(m@, id_key()) == lookup(m0@, id_key())),
    decreases history.len(),
{
    if history.len() > 1 {
        let n = (history.len() - 1) as int;
        lemma_id_stable(history.subrange(0, n), positions.subrange(0, n - 1), times.subrange(0, n - 1));
        assert forall|k: int| 0 <= k < history.len() implies (#[trigger] history[k] matches Json::Object(m)
            && history[0] matches Json::Object(m0) && lookup(m@, id_key()) == lookup(m0@, id_key())) by {
            if k < n {
                assert(history.subrange(0, n)[k] == history[k]);
            } else {
                assert(history.subrange(0, n)[n - 1] == history[n - 1]);
                let p = n - 1;
                assert(row_saved(history[p], history[p + 1], positions[p], times[p]));
                assert(p + 1 == n);
                let fresh = choose|fresh: Seq<char>|
                    is_token(fresh) && row_normalised(history[n - 1], history[n], positions[n - 1], times[n - 1], fresh);
                assert(row_normalised(history[n - 1], history[n], positions[n - 1], times[n - 1], fresh));
            }
        }
    }
}

/// A save keeps a numeric order as the user set it, and replaces any other
/// order value with the row's position.
pub proof fn lemma_order_coercion(old: Json, new: Json, index: usize, timestamp: String)
    requires
        row_saved(old, new, index, timestamp),
        old is Object,
    ensures
        old matches Json::Object(m) && new matches Json::Object(n) && {
            &&& is_number(lookup(m@, order_key())) ==> lookup(n@, order_key()) == lookup(m@, order_key())
            &&& !is_number(lookup(m@, order_key())) ==> lookup(n@, order_key()) == Some(position(index))
        },
{
    let fresh = choose|fresh: Seq<char>| is_token(fresh) && row_normalised(old, new, index, timestamp, fresh);
    assert(row_normalised(old, new, index, timestamp, fresh));
}

} // verus!
