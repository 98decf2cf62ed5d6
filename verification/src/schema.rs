//! Structured messages with a fixed schema: what a typed message has to
//! say about itself, and encoding and decoding built on it.

use vstd::prelude::*;
use crate::check::check_record;
use crate::codec::{decode_struct, encode_struct};
use crate::error::EncodingError;
use crate::field::{FieldType, Ty, Val, Value, have_types, texts, types, views};
use crate::json::{
    Json, from_json, json_of, lemma_json_round_trip, lemma_reversible_named, lemma_val_of_typed,
    reversible, to_json, val_of,
};
use crate::laws::{lemma_read_struct_typed, lemma_struct_round_trip};
use crate::layout::{bodies_len, record_bytes, slots_len};
use crate::read::read_fields;

verus! {

/// A message with a fixed, ordered list of typed fields.
pub trait StructuredMessage: Sized {
    /// The types of the fields, in order.
    spec fn schema() -> Seq<Ty>;

    /// The names of the fields, in order.
    spec fn names() -> Seq<Seq<char>>;

    /// The values of the fields, in order.
    spec fn model(&self) -> Seq<Val>;

    /// The field values have the types of the schema.
    proof fn lemma_model_typed(&self)
        ensures
            have_types(self.model(), Self::schema()),
    ;

    /// The schema has one name for each field and no name twice, here and
    /// in the messages that it holds.
    proof fn lemma_reversible()
        ensures
            reversible(Ty::Struct(Self::names(), Self::schema())),
    ;

    fn fields() -> (r: Vec<FieldType>)
        ensures
            types(r@) == Self::schema(),
    ;

    fn field_names() -> (r: Vec<String>)
        ensures
            texts(r@) == Self::names(),
    ;

    fn to_values(&self) -> (r: Vec<Value>)
        ensures
            views(r@) == self.model(),
    ;

    /// The message with these field values, if they have the types of the
    /// schema.
    fn from_values(values: &Vec<Value>) -> (r: Option<Self>)
        ensures
            r is Some <==> have_types(views(values@), Self::schema()),
            r matches Some(message) ==> message.model() == views(values@),
    ;
}

/// The type of `M` as a field of another message.
pub fn message_type<M: StructuredMessage>() -> (r: FieldType)
    ensures
        r@ == Ty::Struct(M::names(), M::schema()),
{
    FieldType::Struct(M::field_names(), M::fields())
}

/// Whether a message with the field values `model` can be encoded: its
/// bytes must be addressable by a `u32`.
pub open spec fn encodable(model: Seq<Val>) -> bool {
    slots_len(model) + bodies_len(model) <= u32::MAX
}

/// The bytes of `message`, if it can be encoded.
pub fn encode_message<M: StructuredMessage>(message: &M) -> (r: Option<Vec<u8>>)
    ensures
        r is Some <==> encodable(message.model()),
        r matches Some(bytes) ==> bytes@ == record_bytes(message.model(), 0),
{
    let values = message.to_values();
    encode_struct(&values)
}

/// Validates `bytes` against the schema of `M` and reads the message.
/// Fails exactly when the validation fails, with its error.
pub fn decode_message<M: StructuredMessage>(bytes: &[u8]) -> (r: Result<M, EncodingError>)
    ensures
        match r {
            Ok(message) => check_record(M::schema(), bytes@) is Ok && message.model()
                == read_fields(M::schema(), bytes@, 0, 0),
            Err(e) => check_record(M::schema(), bytes@) == Err::<int, EncodingError>(e),
        },
{
    let fields = M::fields();
    match decode_struct(&fields, bytes) {
        Ok(values) => {
            proof {
                lemma_read_struct_typed(M::schema(), bytes@);
            }
            match M::from_values(&values) {
                Some(message) => Ok(message),
                None => vstd::pervasive::unreached(),
            }
        },
        Err(e) => Err(e),
    }
}

/// A message that was encoded is accepted, and its fields are read back as
/// they were.
pub proof fn lemma_message_round_trip<M: StructuredMessage>(message: M)
    requires
        encodable(message.model()),
    ensures
        check_record(M::schema(), record_bytes(message.model(), 0)) is Ok,
        read_fields(M::schema(), record_bytes(message.model(), 0), 0, 0) == message.model(),
{
    message.lemma_model_typed();
    lemma_struct_round_trip(M::schema(), message.model());
}


/// The type of `M` as a field of another message.
pub open spec fn message_ty<M: StructuredMessage>() -> Ty {
    Ty::Struct(M::names(), M::schema())
}

/// The JSON object that stands for `message`: one member for each field,
/// under the name of the field.
pub fn message_to_json<M: StructuredMessage>(message: &M) -> (r: Json)
    ensures
        r@ == json_of(Val::Struct(message.model()), message_ty::<M>()),
{
    let ty = message_type::<M>();
    let value = Value::Struct(message.to_values());
    proof {
        message.lemma_model_typed();
        M::lemma_reversible();
        lemma_reversible_named(message_ty::<M>());
    }
    match to_json(&value, &ty) {
        Some(json) => json,
        None => vstd::pervasive::unreached(),
    }
}

/// The message that the JSON document `json` stands for, if there is one.
pub fn message_from_json<M: StructuredMessage>(json: &Json) -> (r: Option<M>)
    ensures
        match r {
            Some(message) => val_of(json@, message_ty::<M>()) == Some(
                Val::Struct(message.model()),
            ),
            None => val_of(json@, message_ty::<M>()) is None,
        },
{
    let ty = message_type::<M>();
    match from_json(json, &ty) {
        Some(value) => {
            proof {
                lemma_val_of_typed(json@, message_ty::<M>());
            }
            match value.as_struct() {
                Some(values) => M::from_values(values),
                None => None,
            }
        },
        None => None,
    }
}

/// A message is told from its JSON object.
pub proof fn lemma_message_json_round_trip<M: StructuredMessage>(message: M)
    ensures
        val_of(json_of(Val::Struct(message.model()), message_ty::<M>()), message_ty::<M>())
            == Some(Val::Struct(message.model())),
{
    message.lemma_model_typed();
    M::lemma_reversible();
    lemma_json_round_trip(Val::Struct(message.model()), message_ty::<M>());
}

} // verus!
