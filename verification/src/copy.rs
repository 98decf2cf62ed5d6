//! Copies of types and values.

use vstd::prelude::*;
use crate::field::{
    FieldType, Value, lemma_types, lemma_views, lemma_views_push, texts, types, views,
};

verus! {

/// The models of a sequence of types with one more are the models of the
/// sequence with the model of the one more.
pub proof fn lemma_types_push(fields: Seq<FieldType>, field: FieldType)
    ensures
        types(fields.push(field)) == types(fields).push(field@),
{
    assert(fields.push(field).drop_last() =~= fields);
}

/// A copy of `names`.
fn copy_names(names: &Vec<String>) -> (r: Vec<String>)
    ensures
        texts(r@) == texts(names@),
{
    let mut out: Vec<String> = Vec::new();
    let mut k: usize = 0;
    while k < names.len()
        invariant
            k <= names@.len(),
            out@.len() == k,
            forall|i: int| 0 <= i < k ==> out@[i]@ == names@[i]@,
        decreases names@.len() - k,
    {
        out.push(names[k].clone());
        k += 1;
    }
    assert(texts(out@) =~= texts(names@));
    out
}

/// A copy of `fields`.
fn copy_types(fields: &Vec<FieldType>) -> (r: Vec<FieldType>)
    ensures
        types(r@) == types(fields@),
    decreases fields, 1nat,
{
    let mut out: Vec<FieldType> = Vec::new();
    let mut k: usize = 0;
    proof {
        lemma_types(fields@);
        assert(types(out@) =~= types(fields@).take(0));
    }
    while k < fields.len()
        invariant
            k <= fields@.len(),
            types(fields@).len() == fields@.len(),
            forall|i: int|
                0 <= i < fields@.len() ==> (#[trigger] types(fields@)[i]) == fields@[i]@,
            types(out@) == types(fields@).take(k as int),
        decreases fields@.len() - k,
    {
        let field = copy_type(&fields[k]);
        proof {
            lemma_types_push(out@, field);
            assert(types(fields@).take(k + 1) =~= types(fields@).take(k as int).push(
                fields@[k as int]@,
            ));
        }
        out.push(field);
        k += 1;
    }
    assert(types(fields@).take(k as int) =~= types(fields@));
    out
}

/// A copy of `ty`.
fn copy_type(ty: &FieldType) -> (r: FieldType)
    ensures
        r@ == ty@,
    decreases ty, 0nat,
{
    match ty {
        FieldType::U8 => FieldType::U8,
        FieldType::U16 => FieldType::U16,
        FieldType::U32 => FieldType::U32,
        FieldType::U64 => FieldType::U64,
        FieldType::I8 => FieldType::I8,
        FieldType::I16 => FieldType::I16,
        FieldType::I32 => FieldType::I32,
        FieldType::I64 => FieldType::I64,
        FieldType::Hash => FieldType::Hash,
        FieldType::PublicKey => FieldType::PublicKey,
        FieldType::Signature => FieldType::Signature,
        FieldType::Timestamp => FieldType::Timestamp,
        FieldType::Duration => FieldType::Duration,
        FieldType::Uuid => FieldType::Uuid,
        FieldType::Decimal => FieldType::Decimal,
        FieldType::Bytes => FieldType::Bytes,
        FieldType::Str => FieldType::Str,
        FieldType::Struct(names, fields) => FieldType::Struct(
            copy_names(names),
            copy_types(fields),
        ),
        FieldType::List(item) => FieldType::List(Box::new(copy_type(item))),
        FieldType::Optional(item) => FieldType::Optional(Box::new(copy_type(item))),
    }
}

/// A copy of `values`.
fn copy_values(values: &Vec<Value>) -> (r: Vec<Value>)
    ensures
        views(r@) == views(values@),
    decreases values, 1nat,
{
    let mut out: Vec<Value> = Vec::new();
    let mut k: usize = 0;
    proof {
        lemma_views(values@);
        assert(views(out@) =~= views(values@).take(0));
    }
    while k < values.len()
        invariant
            k <= values@.len(),
            views(values@).len() == values@.len(),
            forall|i: int|
                0 <= i < values@.len() ==> (#[trigger] views(values@)[i]) == values@[i]@,
            views(out@) == views(values@).take(k as int),
        decreases values@.len() - k,
    {
        let value = copy_value(&values[k]);
        proof {
            lemma_views_push(out@, value);
            assert(views(values@).take(k + 1) =~= views(values@).take(k as int).push(
                values@[k as int]@,
            ));
        }
        out.push(value);
        k += 1;
    }
    assert(views(values@).take(k as int) =~= views(values@));
    out
}

/// A copy of `value`.
fn copy_value(value: &Value) -> (r: Value)
    ensures
        r@ == value@,
    decreases value, 0nat,
{
    match value {
        Value::U8(x) => Value::U8(*x),
        Value::U16(x) => Value::U16(*x),
        Value::U32(x) => Value::U32(*x),
        Value::U64(x) => Value::U64(*x),
        Value::I8(x) => Value::I8(*x),
        Value::I16(x) => Value::I16(*x),
        Value::I32(x) => Value::I32(*x),
        Value::I64(x) => Value::I64(*x),
        Value::Hash(a) => Value::Hash(*a),
        Value::PublicKey(a) => Value::PublicKey(*a),
        Value::Signature(a) => Value::Signature(*a),
        Value::Timestamp(t) => Value::Timestamp(*t),
        Value::Duration(d) => Value::Duration(*d),
        Value::Uuid(a) => Value::Uuid(*a),
        Value::Decimal(a) => Value::Decimal(*a),
        Value::Bytes(b) => Value::Bytes(vstd::slice::slice_to_vec(b.as_slice())),
        Value::Str(s) => Value::Str(s.clone()),
        Value::Struct(fields) => Value::Struct(copy_values(fields)),
        Value::List(items) => Value::List(copy_values(items)),
        Value::Optional(None) => Value::Optional(None),
        Value::Optional(Some(inner)) => Value::Optional(Some(Box::new(copy_value(inner)))),
    }
}

impl Clone for FieldType {
    fn clone(&self) -> (r: FieldType)
        ensures
            r@ == self@,
    {
        copy_type(self)
    }
}

impl Clone for Value {
    fn clone(&self) -> (r: Value)
        ensures
            r@ == self@,
    {
        copy_value(self)
    }
}

} // verus!
