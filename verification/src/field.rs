//! The types a field of a structured message can have, the values of these
//! types, and their mathematical models.

use vstd::prelude::*;
use crate::time::{Duration, Timestamp, duration_valid};

verus! {

/// The type of a field. The first fifteen are stored inline in the header;
/// the others are segments: the header holds a pointer and a count, the
/// content lies in the body.
#[derive(Debug, PartialEq, Eq)]
pub enum FieldType {
    U8,
    U16,
    U32,
    U64,
    I8,
    I16,
    I32,
    I64,
    /// 32 bytes.
    Hash,
    /// 32 bytes.
    PublicKey,
    /// 64 bytes.
    Signature,
    Timestamp,
    Duration,
    /// 16 bytes.
    Uuid,
    /// 16 bytes.
    Decimal,
    /// A byte array of any length.
    Bytes,
    /// UTF-8 text.
    Str,
    /// A nested structured message with fields of these names and these
    /// types, in this order.
    Struct(Vec<String>, Vec<FieldType>),
    /// A sequence of values of one type.
    List(Box<FieldType>),
    /// A value of this type, or none.
    Optional(Box<FieldType>),
}

/// The mathematical model of a `FieldType`.
pub enum Ty {
    U8,
    U16,
    U32,
    U64,
    I8,
    I16,
    I32,
    I64,
    Hash,
    PublicKey,
    Signature,
    Timestamp,
    Duration,
    Uuid,
    Decimal,
    Bytes,
    Str,
    Struct(Seq<Seq<char>>, Seq<Ty>),
    List(Box<Ty>),
    Optional(Box<Ty>),
}

/// The characters of each of a sequence of strings.
pub open spec fn texts(names: Seq<String>) -> Seq<Seq<char>> {
    Seq::new(names.len(), |i: int| names[i]@)
}

/// The models of a sequence of field types.
pub open spec fn types(fields: Seq<FieldType>) -> Seq<Ty>
    decreases fields,
{
    if fields.len() == 0 {
        Seq::empty()
    } else {
        types(fields.drop_last()).push(fields.last()@)
    }
}

impl View for FieldType {
    type V = Ty;

    open spec fn view(&self) -> Ty
        decreases self,
    {
        match self {
            FieldType::U8 => Ty::U8,
            FieldType::U16 => Ty::U16,
            FieldType::U32 => Ty::U32,
            FieldType::U64 => Ty::U64,
            FieldType::I8 => Ty::I8,
            FieldType::I16 => Ty::I16,
            FieldType::I32 => Ty::I32,
            FieldType::I64 => Ty::I64,
            FieldType::Hash => Ty::Hash,
            FieldType::PublicKey => Ty::PublicKey,
            FieldType::Signature => Ty::Signature,
            FieldType::Timestamp => Ty::Timestamp,
            FieldType::Duration => Ty::Duration,
            FieldType::Uuid => Ty::Uuid,
            FieldType::Decimal => Ty::Decimal,
            FieldType::Bytes => Ty::Bytes,
            FieldType::Str => Ty::Str,
            FieldType::Struct(names, fields) => Ty::Struct(texts(names@), types(fields@)),
            FieldType::List(item) => Ty::List(Box::new((**item)@)),
            FieldType::Optional(item) => Ty::Optional(Box::new((**item)@)),
        }
    }
}

/// A value of some field type.
#[derive(Debug, PartialEq, Eq)]
pub enum Value {
    U8(u8),
    U16(u16),
    U32(u32),
    U64(u64),
    I8(i8),
    I16(i16),
    I32(i32),
    I64(i64),
    Hash([u8; 32]),
    PublicKey([u8; 32]),
    Signature([u8; 64]),
    Timestamp(Timestamp),
    Duration(Duration),
    Uuid([u8; 16]),
    Decimal([u8; 16]),
    Bytes(Vec<u8>),
    Str(String),
    Struct(Vec<Value>),
    List(Vec<Value>),
    Optional(Option<Box<Value>>),
}

/// The mathematical model of a `Value`.
pub enum Val {
    U8(u8),
    U16(u16),
    U32(u32),
    U64(u64),
    I8(i8),
    I16(i16),
    I32(i32),
    I64(i64),
    Hash(Seq<u8>),
    PublicKey(Seq<u8>),
    Signature(Seq<u8>),
    Timestamp(Timestamp),
    Duration(Duration),
    Uuid(Seq<u8>),
    Decimal(Seq<u8>),
    Bytes(Seq<u8>),
    Str(Seq<char>),
    Struct(Seq<Val>),
    List(Seq<Val>),
    Optional(Option<Box<Val>>),
}

/// The models of a sequence of values.
pub open spec fn views(values: Seq<Value>) -> Seq<Val>
    decreases values,
{
    if values.len() == 0 {
        Seq::empty()
    } else {
        views(values.drop_last()).push(values.last()@)
    }
}

impl View for Value {
    type V = Val;

    open spec fn view(&self) -> Val
        decreases self,
    {
        match self {
            Value::U8(x) => Val::U8(*x),
            Value::U16(x) => Val::U16(*x),
            Value::U32(x) => Val::U32(*x),
            Value::U64(x) => Val::U64(*x),
            Value::I8(x) => Val::I8(*x),
            Value::I16(x) => Val::I16(*x),
            Value::I32(x) => Val::I32(*x),
            Value::I64(x) => Val::I64(*x),
            Value::Hash(a) => Val::Hash(a@),
            Value::PublicKey(a) => Val::PublicKey(a@),
            Value::Signature(a) => Val::Signature(a@),
            Value::Timestamp(t) => Val::Timestamp(*t),
            Value::Duration(d) => Val::Duration(*d),
            Value::Uuid(a) => Val::Uuid(a@),
            Value::Decimal(a) => Val::Decimal(a@),
            Value::Bytes(b) => Val::Bytes(b@),
            Value::Str(s) => Val::Str(s@),
            Value::Struct(fields) => Val::Struct(views(fields@)),
            Value::List(items) => Val::List(views(items@)),
            Value::Optional(None) => Val::Optional(None),
            Value::Optional(Some(value)) => Val::Optional(Some(Box::new((**value)@))),
        }
    }
}

/// The width of the header slot of a field of type `ty`.
pub open spec fn header_size(ty: Ty) -> nat {
    match ty {
        Ty::U8 | Ty::I8 => 1,
        Ty::U16 | Ty::I16 => 2,
        Ty::U32 | Ty::I32 => 4,
        Ty::U64 | Ty::I64 => 8,
        Ty::Hash | Ty::PublicKey => 32,
        Ty::Signature => 64,
        Ty::Timestamp | Ty::Duration => 12,
        Ty::Uuid | Ty::Decimal => 16,
        Ty::Bytes | Ty::Str | Ty::Struct(_, _) | Ty::List(_) | Ty::Optional(_) => 8,
    }
}

/// The width of the header of a structured message with these fields.
pub open spec fn schema_size(fields: Seq<Ty>) -> nat
    decreases fields.len(),
{
    if fields.len() == 0 {
        0
    } else {
        schema_size(fields.drop_last()) + header_size(fields.last())
    }
}

} // verus!

verus! {

/// Whether `v` is a value of type `ty`: the variant is that of the type,
/// fixed arrays have their length, a duration is written in the accepted
/// way, and the parts of a structure or a list have their types in turn.
pub open spec fn has_type(v: Val, ty: Ty) -> bool
    decreases ty, 0nat,
{
    match (v, ty) {
        (Val::U8(_), Ty::U8) => true,
        (Val::U16(_), Ty::U16) => true,
        (Val::U32(_), Ty::U32) => true,
        (Val::U64(_), Ty::U64) => true,
        (Val::I8(_), Ty::I8) => true,
        (Val::I16(_), Ty::I16) => true,
        (Val::I32(_), Ty::I32) => true,
        (Val::I64(_), Ty::I64) => true,
        (Val::Hash(a), Ty::Hash) => a.len() == 32,
        (Val::PublicKey(a), Ty::PublicKey) => a.len() == 32,
        (Val::Signature(a), Ty::Signature) => a.len() == 64,
        (Val::Timestamp(_), Ty::Timestamp) => true,
        (Val::Duration(d), Ty::Duration) => duration_valid(d.secs as int, d.nanos as int),
        (Val::Uuid(a), Ty::Uuid) => a.len() == 16,
        (Val::Decimal(a), Ty::Decimal) => a.len() == 16,
        (Val::Bytes(_), Ty::Bytes) => true,
        (Val::Str(_), Ty::Str) => true,
        (Val::Struct(values), Ty::Struct(_, fields)) => have_types(values, fields),
        (Val::List(items), Ty::List(item)) => all_of_type(items, *item),
        (Val::Optional(None), Ty::Optional(_)) => true,
        (Val::Optional(Some(value)), Ty::Optional(item)) => has_type(*value, *item),
        _ => false,
    }
}

/// Whether `vals` are values of the types `tys`, one for one.
pub open spec fn have_types(vals: Seq<Val>, tys: Seq<Ty>) -> bool
    decreases tys, 1nat,
{
    &&& vals.len() == tys.len()
    &&& forall|i: int| 0 <= i < tys.len() ==> has_type(#[trigger] vals[i], tys[i])
}

/// Whether every one of `items` is a value of type `item`.
pub open spec fn all_of_type(items: Seq<Val>, item: Ty) -> bool
    decreases item, 1nat,
{
    forall|i: int| 0 <= i < items.len() ==> has_type(#[trigger] items[i], item)
}

impl FieldType {
    /// The width of the header slot of a field of this type.
    pub fn field_size(&self) -> (r: u32)
        ensures
            r == header_size(self@),
            1 <= r <= 64,
    {
        match self {
            FieldType::U8 | FieldType::I8 => 1,
            FieldType::U16 | FieldType::I16 => 2,
            FieldType::U32 | FieldType::I32 => 4,
            FieldType::U64 | FieldType::I64 => 8,
            FieldType::Hash | FieldType::PublicKey => 32,
            FieldType::Signature => 64,
            FieldType::Timestamp | FieldType::Duration => 12,
            FieldType::Uuid | FieldType::Decimal => 16,
            FieldType::Bytes
            | FieldType::Str
            | FieldType::Struct(_, _)
            | FieldType::List(_)
            | FieldType::Optional(_) => 8,
        }
    }
}


/// The models of a sequence of values with one more are the models of the
/// sequence with the model of the one more.
pub proof fn lemma_views_push(values: Seq<Value>, value: Value)
    ensures
        views(values.push(value)) == views(values).push(value@),
{
    assert(values.push(value).drop_last() =~= values);
}

/// The models of a sequence are the models of its elements, in order.
pub proof fn lemma_views(values: Seq<Value>)
    ensures
        views(values).len() == values.len(),
        forall|i: int| 0 <= i < values.len() ==> (#[trigger] views(values)[i]) == values[i]@,
    decreases values.len(),
{
    if values.len() > 0 {
        lemma_views(values.drop_last());
        assert(views(values) == views(values.drop_last()).push(values.last()@));
    } else {
        assert(views(values) == Seq::<Val>::empty());
    }
}

/// The models of a sequence of types are the models of its elements, in
/// order.
pub proof fn lemma_types(fields: Seq<FieldType>)
    ensures
        types(fields).len() == fields.len(),
        forall|i: int| 0 <= i < fields.len() ==> (#[trigger] types(fields)[i]) == fields[i]@,
    decreases fields.len(),
{
    if fields.len() > 0 {
        lemma_types(fields.drop_last());
        assert(types(fields) == types(fields.drop_last()).push(fields.last()@));
    } else {
        assert(types(fields) == Seq::<Ty>::empty());
    }
}

} // verus!
