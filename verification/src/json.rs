//! JSON values as the tool interface exchanges them, and objects read as maps.

use vstd::prelude::*;

verus! {

/// A JSON value. Numbers keep their text.
#[derive(Debug)]
pub enum JsonValue {
    Null,
    Bool(bool),
    Number(String),
    Str(String),
    Array(Vec<JsonValue>),
    Object(Vec<JsonEntry>),
}

/// A member of a JSON object.
#[derive(Debug)]
pub struct JsonEntry {
    pub key: String,
    pub value: JsonValue,
}

/// The value of member `k`; of two members with one key the later counts.
pub open spec fn lookup(es: Seq<JsonEntry>, k: Seq<char>) -> Option<JsonValue>
    decreases es.len(),
{
    if es.len() == 0 {
        None
    } else if es.last().key@ == k {
        Some(es.last().value)
    } else {
        lookup(es.drop_last(), k)
    }
}

/// The text of a value that is a JSON string.
pub open spec fn str_of(v: Option<JsonValue>) -> Option<Seq<char>> {
    match v {
        Some(JsonValue::Str(s)) => Some(s@),
        _ => None,
    }
}

/// The value of member `k`.
pub fn get<'a>(es: &'a Vec<JsonEntry>, k: &str) -> (r: Option<&'a JsonValue>)
    ensures
        match r {
            Some(v) => lookup(es@, k@) == Some(*v),
            None => lookup(es@, k@) is None,
        },
{
    let mut i: usize = es.len();
    assert(es@.take(es.len() as int) == es@);
    while i > 0
        invariant
            i <= es.len(),
            lookup(es@, k@) == lookup(es@.take(i as int), k@),
        decreases i,
    {
        let ghost t = es@.take(i as int);
        assert(t.drop_last() == es@.take(i - 1));
        assert(t.last() == es@[i - 1]);
        if crate::text::str_eq(es[i - 1].key.as_str(), k) {
            return Some(&es[i - 1].value);
        }
        i = i - 1;
    }
    None
}

/// The text of member `k` when it is a JSON string.
pub fn get_str<'a>(es: &'a Vec<JsonEntry>, k: &str) -> (r: Option<&'a String>)
    ensures
        match r {
            Some(s) => str_of(lookup(es@, k@)) == Some(s@),
            None => str_of(lookup(es@, k@)) is None,
        },
{
    match get(es, k) {
        Some(JsonValue::Str(s)) => Some(s),
        _ => None,
    }
}

/// The object without member `k`.
pub fn without_key(es: Vec<JsonEntry>, k: &str) -> (r: Vec<JsonEntry>)
    ensures
        forall|q: Seq<char>| #[trigger] lookup(r@, q) == if q == k@ { None } else { lookup(es@, q) },
{
    let ghost all = es@;
    assert(all.len() == es.len());
    let mut rest = es;
    let mut out: Vec<JsonEntry> = Vec::new();
    let mut i: usize = 0;
    assert(all.skip(0) == all);
    while rest.len() > 0
        invariant
            all.len() <= usize::MAX,
            i + rest@.len() == all.len(),
            rest@ == all.skip(i as int),
            forall|q: Seq<char>| #[trigger] lookup(out@, q) == if q == k@ { None } else { lookup(all.take(i as int), q) },
        decreases rest.len(),
    {
        let e = rest.remove(0);
        assert(e == all[i as int]);
        assert(rest@ =~= all.skip(i + 1));
        let ghost t = all.take(i + 1);
        assert(t.drop_last() == all.take(i as int));
        assert(t.last() == e);
        if !crate::text::str_eq(e.key.as_str(), k) {
            let ghost before = out@;
            out.push(e);
            assert(out@.drop_last() == before);
            assert forall|q: Seq<char>| #[trigger] lookup(out@, q) == if q == k@ { None } else { lookup(t, q) } by {
                assert(lookup(out@, q) == if out@.last().key@ == q { Some(out@.last().value) } else { lookup(before, q) });
            }
        } else {
            assert forall|q: Seq<char>| #[trigger] lookup(out@, q) == if q == k@ { None } else { lookup(t, q) } by {
                if q != k@ {
                    assert(lookup(t, q) == lookup(all.take(i as int), q));
                }
            }
        }
        i = i + 1;
    }
    assert(all.take(i as int) == all);
    out
}

/// The object with member `k` set to `v`.
pub fn with_key(es: Vec<JsonEntry>, k: &str, v: JsonValue) -> (r: Vec<JsonEntry>)
    ensures
        forall|q: Seq<char>| #[trigger] lookup(r@, q) == if q == k@ { Some(v) } else { lookup(es@, q) },
{
    let mut out = without_key(es, k);
    let ghost before = out@;
    out.push(JsonEntry { key: String::from_str(k), value: v });
    assert(out@.drop_last() == before);
    assert forall|q: Seq<char>| #[trigger] lookup(out@, q) == if q == k@ { Some(v) } else { lookup(es@, q) } by {
        assert(lookup(out@, q) == if out@.last().key@ == q { Some(out@.last().value) } else { lookup(before, q) });
    }
    out
}

} // verus!
