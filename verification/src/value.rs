//! Taking a value apart: the content of a `Value` of a given variant.

use vstd::prelude::*;
use crate::field::{Val, Value, views};
use crate::time::Timestamp;

verus! {

impl Value {
    /// The content, if this is a value of this variant.
    pub fn as_u16(&self) -> (r: Option<u16>)
        ensures
            r == (match self@ {
                Val::U16(x) => Some(x),
                _ => None,
            }),
    {
        match self {
            Value::U16(x) => Some(*x),
            _ => None,
        }
    }

    /// The content, if this is a value of this variant.
    pub fn as_u32(&self) -> (r: Option<u32>)
        ensures
            r == (match self@ {
                Val::U32(x) => Some(x),
                _ => None,
            }),
    {
        match self {
            Value::U32(x) => Some(*x),
            _ => None,
        }
    }

    /// The content, if this is a value of this variant.
    pub fn as_u64(&self) -> (r: Option<u64>)
        ensures
            r == (match self@ {
                Val::U64(x) => Some(x),
                _ => None,
            }),
    {
        match self {
            Value::U64(x) => Some(*x),
            _ => None,
        }
    }

    /// The content, if this is a value of this variant.
    pub fn as_hash(&self) -> (r: Option<[u8; 32]>)
        ensures
            r is Some <==> self@ is Hash,
            r matches Some(a) ==> self@ == Val::Hash(a@),
    {
        match self {
            Value::Hash(a) => Some(*a),
            _ => None,
        }
    }

    /// The content, if this is a value of this variant.
    pub fn as_public_key(&self) -> (r: Option<[u8; 32]>)
        ensures
            r is Some <==> self@ is PublicKey,
            r matches Some(a) ==> self@ == Val::PublicKey(a@),
    {
        match self {
            Value::PublicKey(a) => Some(*a),
            _ => None,
        }
    }

    /// The content, if this is a value of this variant.
    pub fn as_signature(&self) -> (r: Option<[u8; 64]>)
        ensures
            r is Some <==> self@ is Signature,
            r matches Some(a) ==> self@ == Val::Signature(a@),
    {
        match self {
            Value::Signature(a) => Some(*a),
            _ => None,
        }
    }

    /// The content, if this is a value of this variant.
    pub fn as_timestamp(&self) -> (r: Option<Timestamp>)
        ensures
            r == (match self@ {
                Val::Timestamp(t) => Some(t),
                _ => None,
            }),
    {
        match self {
            Value::Timestamp(t) => Some(*t),
            _ => None,
        }
    }

    /// The content, if this is a value of this variant.
    pub fn as_bytes(&self) -> (r: Option<&Vec<u8>>)
        ensures
            r is Some <==> self@ is Bytes,
            r matches Some(b) ==> self@ == Val::Bytes(b@),
    {
        match self {
            Value::Bytes(b) => Some(b),
            _ => None,
        }
    }

    /// The content, if this is a value of this variant.
    pub fn as_str(&self) -> (r: Option<&String>)
        ensures
            r is Some <==> self@ is Str,
            r matches Some(s) ==> self@ == Val::Str(s@),
    {
        match self {
            Value::Str(s) => Some(s),
            _ => None,
        }
    }

    /// The content, if this is a value of this variant.
    pub fn as_struct(&self) -> (r: Option<&Vec<Value>>)
        ensures
            r is Some <==> self@ is Struct,
            r matches Some(fields) ==> self@ == Val::Struct(views(fields@)),
    {
        match self {
            Value::Struct(fields) => Some(fields),
            _ => None,
        }
    }

    /// The content, if this is a value of this variant.
    pub fn as_list(&self) -> (r: Option<&Vec<Value>>)
        ensures
            r is Some <==> self@ is List,
            r matches Some(items) ==> self@ == Val::List(views(items@)),
    {
        match self {
            Value::List(items) => Some(items),
            _ => None,
        }
    }
}

} // verus!
