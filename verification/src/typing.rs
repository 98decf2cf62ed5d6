//! Deciding whether a value has a type.

use vstd::prelude::*;
use crate::field::{
    FieldType, Value, all_of_type, has_type, have_types, lemma_types, lemma_views, types, views,
};

verus! {

/// Whether `value` is a value of type `ty`.
pub fn conforms(value: &Value, ty: &FieldType) -> (r: bool)
    ensures
        r == has_type(value@, ty@),
    decreases ty, 0nat,
{
    match ty {
        FieldType::U8 => matches!(value, Value::U8(_)),
        FieldType::U16 => matches!(value, Value::U16(_)),
        FieldType::U32 => matches!(value, Value::U32(_)),
        FieldType::U64 => matches!(value, Value::U64(_)),
        FieldType::I8 => matches!(value, Value::I8(_)),
        FieldType::I16 => matches!(value, Value::I16(_)),
        FieldType::I32 => matches!(value, Value::I32(_)),
        FieldType::I64 => matches!(value, Value::I64(_)),
        FieldType::Hash => matches!(value, Value::Hash(_)),
        FieldType::PublicKey => matches!(value, Value::PublicKey(_)),
        FieldType::Signature => matches!(value, Value::Signature(_)),
        FieldType::Timestamp => matches!(value, Value::Timestamp(_)),
        FieldType::Duration => match value {
            Value::Duration(d) => d.is_valid(),
            _ => false,
        },
        FieldType::Uuid => matches!(value, Value::Uuid(_)),
        FieldType::Decimal => matches!(value, Value::Decimal(_)),
        FieldType::Bytes => matches!(value, Value::Bytes(_)),
        FieldType::Str => matches!(value, Value::Str(_)),
        FieldType::Struct(_, fields) => match value {
            Value::Struct(values) => all_conform(values, fields),
            _ => false,
        },
        FieldType::List(item) => match value {
            Value::List(items) => each_conforms(items, item),
            _ => false,
        },
        FieldType::Optional(item) => match value {
            Value::Optional(None) => true,
            Value::Optional(Some(inner)) => conforms(inner, item),
            _ => false,
        },
    }
}

/// Whether every one of `items` is a value of type `item`.
pub fn each_conforms(items: &Vec<Value>, item: &FieldType) -> (r: bool)
    ensures
        r == all_of_type(views(items@), item@),
    decreases item, 1nat,
{
    let ghost vals = views(items@);
    let mut k: usize = 0;
    proof {
        lemma_views(items@);
    }
    while k < items.len()
        invariant
            k <= items@.len(),
            vals == views(items@),
            vals.len() == items@.len(),
            forall|i: int| 0 <= i < items@.len() ==> (#[trigger] vals[i]) == items@[i]@,
            forall|i: int| 0 <= i < k ==> has_type(#[trigger] vals[i], item@),
        decreases items@.len() - k,
    {
        if !conforms(&items[k], item) {
            assert(!has_type(vals[k as int], item@));
            return false;
        }
        k += 1;
    }
    true
}

/// Whether `values` are values of the types `fields`, one for one.
pub fn all_conform(values: &Vec<Value>, fields: &Vec<FieldType>) -> (r: bool)
    ensures
        r == have_types(views(values@), types(fields@)),
    decreases fields, 1nat,
{
    let ghost vals = views(values@);
    let ghost tys = types(fields@);
    proof {
        lemma_views(values@);
        lemma_types(fields@);
    }
    if values.len() != fields.len() {
        return false;
    }
    let mut k: usize = 0;
    while k < fields.len()
        invariant
            k <= fields@.len(),
            vals == views(values@),
            tys == types(fields@),
            vals.len() == values@.len() == fields@.len() == tys.len(),
            forall|i: int| 0 <= i < values@.len() ==> (#[trigger] vals[i]) == values@[i]@,
            forall|i: int| 0 <= i < fields@.len() ==> (#[trigger] tys[i]) == fields@[i]@,
            forall|i: int| 0 <= i < k ==> has_type(#[trigger] vals[i], tys[i]),
        decreases fields@.len() - k,
    {
        if !conforms(&values[k], &fields[k]) {
            assert(!has_type(vals[k as int], tys[k as int]));
            return false;
        }
        k += 1;
    }
    true
}

} // verus!
