//! A structured-document value: the shape of the data and schema files.
use vstd::prelude::*;

verus! {

/// A number as it stands in a document.
#[derive(Debug, PartialEq)]
pub enum JsonNumber {
    /// A non-negative integer.
    PosInt(u64),
    /// A negative integer.
    NegInt(i64),
    /// Any other number, held as its document text.
    Real(String),
}

/// A document value. An object is a list of members; where a key occurs
/// more than once, the last member with that key is the one that counts.
#[derive(Debug, PartialEq)]
pub enum Json {
    Null,
    Bool(bool),
    Number(JsonNumber),
    Text(String),
    Array(Vec<Json>),
    Object(Vec<(String, Json)>),
}

/// The value that the members `m` give to `key`.
pub open spec fn lookup(m: Seq<(String, Json)>, key: Seq<char>) -> Option<Json>
    decreases m.len(),
{
    if m.len() == 0 {
        None
    } else if m.last().0@ == key {
        Some(m.last().1)
    } else {
        lookup(m.drop_last(), key)
    }
}

/// `v` is a text value that reads `s`.
pub open spec fn is_text(v: Option<Json>, s: Seq<char>) -> bool {
    v matches Some(Json::Text(t)) && t@ == s
}

/// A text value that reads `s`.
pub fn text(s: &str) -> (r: Json)
    ensures
        is_text(Some(r), s@),
{
    Json::Text(String::from_str(s))
}

/// The members `n` are the members `m` with `key` set to `value`.
pub open spec fn assigned(
    m: Seq<(String, Json)>,
    n: Seq<(String, Json)>,
    key: Seq<char>,
    value: Json,
) -> bool {
    forall|k: Seq<char>|
        #![trigger lookup(n, k)]
        lookup(n, k) == if k == key {
            Some(value)
        } else {
            lookup(m, k)
        }
}

pub proof fn lemma_lookup_push(m: Seq<(String, Json)>, p: (String, Json))
    ensures
        assigned(m, m.push(p), p.0@, p.1),
{
    assert(m.push(p).drop_last() =~= m);
}

pub proof fn lemma_lookup_update(m: Seq<(String, Json)>, i: int, p: (String, Json))
    requires
        0 <= i < m.len(),
        m[i].0@ == p.0@,
        forall|j: int| i < j < m.len() ==> m[j].0@ != p.0@,
    ensures
        assigned(m, m.update(i, p), p.0@, p.1),
    decreases m.len(),
{
    let n = m.update(i, p);
    if i == m.len() - 1 {
        assert(n.drop_last() =~= m.drop_last());
    } else {
        assert(n.drop_last() =~= m.drop_last().update(i, p));
        lemma_lookup_update(m.drop_last(), i, p);
        assert forall|k: Seq<char>| #[trigger]
            lookup(n, k) == if k == p.0@ {
                Some(p.1)
            } else {
                lookup(m, k)
            } by {
            assert(lookup(n.drop_last(), k) == lookup(m.drop_last().update(i, p), k));
        }
    }
}

/// Finds the member that gives `key` its value.
pub fn find_member(m: &Vec<(String, Json)>, key: &str) -> (r: Option<usize>)
    ensures
        r is None ==> lookup(m@, key@) is None,
        r matches Some(i) ==> {
            &&& i < m@.len()
            &&& m@[i as int].0@ == key@
            &&& lookup(m@, key@) == Some(m@[i as int].1)
            &&& forall|j: int| i < j < m@.len() ==> m@[j].0@ != key@
        },
{
    let k = String::from_str(key);
    let mut i: usize = m.len();
    assert(m@.subrange(0, i as int) =~= m@);
    while i > 0
        invariant
            i <= m@.len(),
            k@ == key@,
            lookup(m@, key@) == lookup(m@.subrange(0, i as int), key@),
            forall|j: int| i <= j < m@.len() ==> m@[j].0@ != key@,
        decreases i,
    {
        assert(m@.subrange(0, i as int).drop_last() =~= m@.subrange(0, i - 1));
        if m[i - 1].0 == k {
            return Some(i - 1);
        }
        i = i - 1;
    }
    None
}

/// The value that `key` has among the members `m`.
pub fn get_member<'a>(m: &'a Vec<(String, Json)>, key: &str) -> (r: Option<&'a Json>)
    ensures
        r is None <==> lookup(m@, key@) is None,
        r matches Some(v) ==> lookup(m@, key@) == Some(*v),
{
    match find_member(m, key) {
        Some(i) => Some(&m[i].1),
        None => None,
    }
}

/// Appends the member `key`: `value` to `m`.
pub fn push_member(m: &mut Vec<(String, Json)>, key: &str, value: Json)
    ensures
        final(m)@.len() == old(m)@.len() + 1,
        assigned(old(m)@, final(m)@, key@, value),
{
    let p = (String::from_str(key), value);
    proof {
        lemma_lookup_push(old(m)@, p);
    }
    m.push(p);
}

/// Sets `key` to `value` among the members `m`, in place where the key is
/// present and at the end where it is not.
pub fn set_member(m: &mut Vec<(String, Json)>, key: String, value: Json)
    ensures
        assigned(old(m)@, final(m)@, key@, value),
{
    let ghost p = (key, value);
    match find_member(m, key.as_str()) {
        Some(i) => {
            m.set(i, (key, value));
            proof {
                lemma_lookup_update(old(m)@, i as int, p);
            }
        },
        None => {
            m.push((key, value));
            proof {
                lemma_lookup_push(old(m)@, p);
            }
        },
    }
}

} // verus!
