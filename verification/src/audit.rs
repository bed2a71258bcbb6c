//! Audit events and the JSON sanitizing applied before they are stored:
//! the datastore's JSON columns reject nul bytes, so every string inside
//! an event's details is stripped of them on ingest.

use vstd::prelude::*;

verus! {

/// A JSON value as the audit sink stores it.
#[derive(Debug)]
pub enum JsonValue {
    Null,
    Bool(bool),
    Int(i64),
    Str(String),
    Arr(Vec<JsonValue>),
    Obj(Vec<(String, JsonValue)>),
}

/// Spec-level value of a stored JSON value.
#[verifier::ext_equal]
pub enum JsonV {
    Null,
    Bool(bool),
    Int(i64),
    Str(Seq<char>),
    Arr(Seq<JsonV>),
    Obj(Seq<(Seq<char>, JsonV)>),
}

/// The spec-level value of a JSON value.
pub open spec fn jv_view(v: JsonValue) -> JsonV
    decreases v,
{
    match v {
        JsonValue::Null => JsonV::Null,
        JsonValue::Bool(b) => JsonV::Bool(b),
        JsonValue::Int(n) => JsonV::Int(n),
        JsonValue::Str(s) => JsonV::Str(s@),
        JsonValue::Arr(items) => JsonV::Arr(jv_seq(items@)),
        JsonValue::Obj(fields) => JsonV::Obj(jv_pairs(fields@)),
    }
}

/// The spec-level values of a JSON array's elements.
pub open spec fn jv_seq(items: Seq<JsonValue>) -> Seq<JsonV>
    decreases items,
{
    if items.len() == 0 {
        Seq::empty()
    } else {
        jv_seq(items.drop_last()).push(jv_view(items.last()))
    }
}

/// The spec-level values of a JSON object's fields.
pub open spec fn jv_pairs(fields: Seq<(String, JsonValue)>) -> Seq<(Seq<char>, JsonV)>
    decreases fields,
{
    if fields.len() == 0 {
        Seq::empty()
    } else {
        jv_pairs(fields.drop_last()).push((fields.last().0@, jv_view(fields.last().1)))
    }
}

impl View for JsonValue {
    type V = JsonV;

    open spec fn view(&self) -> JsonV {
        jv_view(*self)
    }
}

/// One security or audit event on its way to the sink.
#[derive(Debug)]
pub struct AuditEvent {
    pub event_type: String,
    pub user_id: Option<String>,
    pub client_ip: String,
    pub target: Option<String>,
    pub event_details: Option<JsonValue>,
}

/// `s` with every nul character removed.
pub open spec fn without_nul(s: Seq<char>) -> Seq<char>
    decreases s.len(),
{
    if s.len() == 0 {
        s
    } else {
        let rest = without_nul(s.drop_last());
        if s.last() == '\0' {
            rest
        } else {
            rest.push(s.last())
        }
    }
}

/// Relies on `str::replace` with a nul-character pattern and an empty
/// replacement: every nul is removed and everything else kept in order.
#[verifier::external_body]
fn strip_nul(s: &str) -> (r: String)
    ensures
        r@ == without_nul(s@),
{
    s.replace('\0', "")
}

/// A JSON value with every nul removed from every string in it.
pub open spec fn spec_sanitize(v: JsonV) -> JsonV
    decreases v,
{
    match v {
        JsonV::Null => JsonV::Null,
        JsonV::Bool(b) => JsonV::Bool(b),
        JsonV::Int(n) => JsonV::Int(n),
        JsonV::Str(s) => JsonV::Str(without_nul(s)),
        JsonV::Arr(items) => JsonV::Arr(sanitize_seq(items)),
        JsonV::Obj(fields) => JsonV::Obj(sanitize_pairs(fields)),
    }
}

/// Each element of a JSON array, sanitized.
pub open spec fn sanitize_seq(items: Seq<JsonV>) -> Seq<JsonV>
    decreases items,
{
    if items.len() == 0 {
        Seq::empty()
    } else {
        sanitize_seq(items.drop_last()).push(spec_sanitize(items.last()))
    }
}

/// Each field of a JSON object, sanitized.
pub open spec fn sanitize_pairs(fields: Seq<(Seq<char>, JsonV)>) -> Seq<(Seq<char>, JsonV)>
    decreases fields,
{
    if fields.len() == 0 {
        Seq::empty()
    } else {
        sanitize_pairs(fields.drop_last()).push(
            (fields.last().0, spec_sanitize(fields.last().1)),
        )
    }
}

/// Strip nul bytes out of every string of a JSON value (the datastore's
/// JSON columns reject them).
pub fn sanitize_json(value: &JsonValue) -> (r: JsonValue)
    ensures
        r@ == spec_sanitize(value@),
    decreases *value,
{
    match value {
        JsonValue::Null => JsonValue::Null,
        JsonValue::Bool(b) => JsonValue::Bool(*b),
        JsonValue::Int(n) => JsonValue::Int(*n),
        JsonValue::Str(s) => JsonValue::Str(strip_nul(s.as_str())),
        JsonValue::Arr(items) => {
            let n = items.len();
            let mut out: Vec<JsonValue> = Vec::new();
            let mut i: usize = 0;
            proof {
                assert(items@.take(0) =~= Seq::<JsonValue>::empty());
            }
            while i < n
                invariant
                    0 <= i <= n,
                    n == items@.len(),
                    *value == JsonValue::Arr(*items),
                    jv_seq(out@) =~= sanitize_seq(jv_seq(items@.take(i as int))),
                decreases n - i,
            {
                proof {
                    assert(decreases_to!(*value => value->Arr_0));
                    assert(decreases_to!(value->Arr_0 => value->Arr_0@));
                    assert(decreases_to!(value->Arr_0@ => value->Arr_0@[i as int]));
                    assert(decreases_to!(*value => items@[i as int]));
                }
                let ghost old_out = out@;
                let item = sanitize_json(&items[i]);
                out.push(item);
                proof {
                    assert(out@.drop_last() =~= old_out);
                    assert(jv_seq(out@) =~= jv_seq(old_out).push(jv_view(out@.last())));
                    assert(items@.take(i as int + 1).drop_last() =~= items@.take(i as int));
                    assert(items@.take(i as int + 1).last() == items@[i as int]);
                    let t1 = jv_seq(items@.take(i as int + 1));
                    assert(t1 =~= jv_seq(items@.take(i as int)).push(jv_view(items@[i as int])));
                    assert(t1.drop_last() =~= jv_seq(items@.take(i as int)));
                    assert(sanitize_seq(t1) =~= sanitize_seq(jv_seq(items@.take(i as int))).push(
                        spec_sanitize(jv_view(items@[i as int])),
                    ));
                }
                i = i + 1;
            }
            proof {
                assert(items@.take(n as int) =~= items@);
            }
            JsonValue::Arr(out)
        },
        JsonValue::Obj(fields) => {
            let n = fields.len();
            let mut out: Vec<(String, JsonValue)> = Vec::new();
            let mut i: usize = 0;
            proof {
                assert(fields@.take(0) =~= Seq::<(String, JsonValue)>::empty());
            }
            while i < n
                invariant
                    0 <= i <= n,
                    n == fields@.len(),
                    *value == JsonValue::Obj(*fields),
                    jv_pairs(out@) =~= sanitize_pairs(jv_pairs(fields@.take(i as int))),
                decreases n - i,
            {
                proof {
                    assert(decreases_to!(*value => value->Obj_0));
                    assert(decreases_to!(value->Obj_0 => value->Obj_0@));
                    assert(decreases_to!(value->Obj_0@ => value->Obj_0@[i as int]));
                    assert(decreases_to!(value->Obj_0@[i as int] => value->Obj_0@[i as int].1));
                    assert(decreases_to!(*value => fields@[i as int].1));
                }
                let ghost old_out = out@;
                let key = fields[i].0.clone();
                let item = sanitize_json(&fields[i].1);
                out.push((key, item));
                proof {
                    assert(out@.drop_last() =~= old_out);
                    assert(jv_pairs(out@) =~= jv_pairs(old_out).push(
                        (out@.last().0@, jv_view(out@.last().1)),
                    ));
                    assert(fields@.take(i as int + 1).drop_last() =~= fields@.take(i as int));
                    assert(fields@.take(i as int + 1).last() == fields@[i as int]);
                    let t1 = jv_pairs(fields@.take(i as int + 1));
                    assert(t1 =~= jv_pairs(fields@.take(i as int)).push(
                        (fields@[i as int].0@, jv_view(fields@[i as int].1)),
                    ));
                    assert(t1.drop_last() =~= jv_pairs(fields@.take(i as int)));
                    assert(sanitize_pairs(t1) =~= sanitize_pairs(
                        jv_pairs(fields@.take(i as int)),
                    ).push((fields@[i as int].0@, spec_sanitize(jv_view(fields@[i as int].1)))));
                }
                i = i + 1;
            }
            proof {
                assert(fields@.take(n as int) =~= fields@);
            }
            JsonValue::Obj(out)
        },
    }
}

/// Sanitizing is idempotent: a value stripped of nuls has none left.
pub proof fn lemma_sanitize_idempotent(v: JsonV)
    ensures
        spec_sanitize(spec_sanitize(v)) == spec_sanitize(v),
    decreases v,
{
    match v {
        JsonV::Null => {},
        JsonV::Bool(_) => {},
        JsonV::Int(_) => {},
        JsonV::Str(s) => {
            lemma_without_nul_idempotent(s);
        },
        JsonV::Arr(items) => {
            lemma_sanitize_seq_idempotent(items);
            assert(spec_sanitize(spec_sanitize(v)) =~~= spec_sanitize(v));
        },
        JsonV::Obj(fields) => {
            lemma_sanitize_pairs_idempotent(fields);
            assert(spec_sanitize(spec_sanitize(v)) =~~= spec_sanitize(v));
        },
    }
}

proof fn lemma_sanitize_seq_idempotent(items: Seq<JsonV>)
    ensures
        sanitize_seq(sanitize_seq(items)) == sanitize_seq(items),
    decreases items,
{
    if items.len() > 0 {
        lemma_sanitize_seq_idempotent(items.drop_last());
        lemma_sanitize_idempotent(items.last());
        let once = sanitize_seq(items);
        assert(once.drop_last() =~= sanitize_seq(items.drop_last()));
        assert(once.last() == spec_sanitize(items.last()));
        assert(sanitize_seq(once) =~= sanitize_seq(sanitize_seq(items.drop_last())).push(
            spec_sanitize(spec_sanitize(items.last())),
        ));
        assert(sanitize_seq(sanitize_seq(items)) =~= sanitize_seq(items));
    }
}

proof fn lemma_sanitize_pairs_idempotent(fields: Seq<(Seq<char>, JsonV)>)
    ensures
        sanitize_pairs(sanitize_pairs(fields)) == sanitize_pairs(fields),
    decreases fields,
{
    if fields.len() > 0 {
        lemma_sanitize_pairs_idempotent(fields.drop_last());
        lemma_sanitize_idempotent(fields.last().1);
        let once = sanitize_pairs(fields);
        assert(once.drop_last() =~= sanitize_pairs(fields.drop_last()));
        assert(once.last() == (fields.last().0, spec_sanitize(fields.last().1)));
        assert(sanitize_pairs(once) =~= sanitize_pairs(sanitize_pairs(fields.drop_last())).push(
            (fields.last().0, spec_sanitize(spec_sanitize(fields.last().1))),
        ));
        assert(sanitize_pairs(sanitize_pairs(fields)) =~= sanitize_pairs(fields));
    }
}

proof fn lemma_without_nul_idempotent(s: Seq<char>)
    ensures
        without_nul(without_nul(s)) == without_nul(s),
    decreases s.len(),
{
    if s.len() > 0 {
        lemma_without_nul_idempotent(s.drop_last());
        if s.last() != '\0' {
            let rest = without_nul(s.drop_last());
            assert(without_nul(s) == rest.push(s.last()));
            assert(rest.push(s.last()).drop_last() =~= rest);
            assert(rest.push(s.last()).last() == s.last());
        }
    }
}

} // verus!
