//! Values as JSON and back.
//!
//! Integers become numbers; fixed arrays and byte arrays become
//! hexadecimal text; timestamps and durations become objects with the
//! members `secs` and `nanos`; a structured message becomes an object with
//! one member for each field, under the name of the field; a list becomes
//! an array; an optional value that is absent becomes `null`, and one that
//! is present becomes what it holds.

use vstd::prelude::*;
use crate::field::{
    FieldType, Ty, Val, Value, all_of_type, has_type, have_types, lemma_types, lemma_views,
    lemma_views_push, texts, types, views,
};
use crate::hex::{from_hex, hex, to_hex, unhex};
use crate::read::array_at;
use crate::time::{Duration, Timestamp, duration_valid};

verus! {

/// A JSON document. Numbers are whole numbers.
#[derive(Debug, PartialEq, Eq)]
pub enum Json {
    Null,
    Bool(bool),
    Number(i128),
    String(String),
    Array(Vec<Json>),
    Object(Vec<(String, Json)>),
}

/// The mathematical model of a `Json`.
pub enum JsonModel {
    Null,
    Bool(bool),
    Number(int),
    String(Seq<char>),
    Array(Seq<JsonModel>),
    Object(Seq<(Seq<char>, JsonModel)>),
}

/// The models of a sequence of documents.
pub open spec fn json_views(items: Seq<Json>) -> Seq<JsonModel>
    decreases items,
{
    if items.len() == 0 {
        Seq::empty()
    } else {
        json_views(items.drop_last()).push(items.last()@)
    }
}

/// The models of the members of an object.
pub open spec fn member_views(members: Seq<(String, Json)>) -> Seq<(Seq<char>, JsonModel)>
    decreases members,
{
    if members.len() == 0 {
        Seq::empty()
    } else {
        member_views(members.drop_last()).push((members.last().0@, members.last().1@))
    }
}

impl View for Json {
    type V = JsonModel;

    open spec fn view(&self) -> JsonModel
        decreases self,
    {
        match self {
            Json::Null => JsonModel::Null,
            Json::Bool(b) => JsonModel::Bool(*b),
            Json::Number(n) => JsonModel::Number(*n as int),
            Json::String(s) => JsonModel::String(s@),
            Json::Array(items) => JsonModel::Array(json_views(items@)),
            Json::Object(members) => JsonModel::Object(member_views(members@)),
        }
    }
}

/// The object that stands for a point or a span of time.
pub open spec fn time_json(secs: int, nanos: int) -> JsonModel {
    JsonModel::Object(
        seq![("secs"@, JsonModel::Number(secs)), ("nanos"@, JsonModel::Number(nanos))],
    )
}

/// The document that stands for the value `v` of type `ty`.
pub open spec fn json_of(v: Val, ty: Ty) -> JsonModel
    decreases ty, 0nat,
{
    match (v, ty) {
        (Val::U8(x), Ty::U8) => JsonModel::Number(x as int),
        (Val::U16(x), Ty::U16) => JsonModel::Number(x as int),
        (Val::U32(x), Ty::U32) => JsonModel::Number(x as int),
        (Val::U64(x), Ty::U64) => JsonModel::Number(x as int),
        (Val::I8(x), Ty::I8) => JsonModel::Number(x as int),
        (Val::I16(x), Ty::I16) => JsonModel::Number(x as int),
        (Val::I32(x), Ty::I32) => JsonModel::Number(x as int),
        (Val::I64(x), Ty::I64) => JsonModel::Number(x as int),
        (Val::Hash(a), Ty::Hash) => JsonModel::String(hex(a)),
        (Val::PublicKey(a), Ty::PublicKey) => JsonModel::String(hex(a)),
        (Val::Signature(a), Ty::Signature) => JsonModel::String(hex(a)),
        (Val::Timestamp(t), Ty::Timestamp) => time_json(t.secs as int, t.nanos as int),
        (Val::Duration(d), Ty::Duration) => time_json(d.secs as int, d.nanos as int),
        (Val::Uuid(a), Ty::Uuid) => JsonModel::String(hex(a)),
        (Val::Decimal(a), Ty::Decimal) => JsonModel::String(hex(a)),
        (Val::Bytes(b), Ty::Bytes) => JsonModel::String(hex(b)),
        (Val::Str(s), Ty::Str) => JsonModel::String(s),
        (Val::Struct(vals), Ty::Struct(names, tys)) => JsonModel::Object(
            members_of(vals, names, tys, 0),
        ),
        (Val::List(items), Ty::List(item)) => JsonModel::Array(elements_of(items, *item, 0)),
        (Val::Optional(Some(value)), Ty::Optional(item)) => json_of(*value, *item),
        _ => JsonModel::Null,
    }
}

/// The members that stand for the fields from the `k`-th on.
pub open spec fn members_of(vals: Seq<Val>, names: Seq<Seq<char>>, tys: Seq<Ty>, k: nat) -> Seq<
    (Seq<char>, JsonModel),
>
    decreases tys, tys.len() - k + 1,
{
    if k >= tys.len() {
        Seq::empty()
    } else {
        seq![(names[k as int], json_of(vals[k as int], tys[k as int]))] + members_of(
            vals,
            names,
            tys,
            k + 1,
        )
    }
}

/// The documents that stand for the elements from the `k`-th on.
pub open spec fn elements_of(items: Seq<Val>, item: Ty, k: nat) -> Seq<JsonModel>
    decreases item, items.len() - k + 1,
{
    if k >= items.len() {
        Seq::empty()
    } else {
        seq![json_of(items[k as int], item)] + elements_of(items, item, k + 1)
    }
}

/// The first member of the name `name`.
pub open spec fn lookup(members: Seq<(Seq<char>, JsonModel)>, name: Seq<char>) -> Option<
    JsonModel,
>
    decreases members.len(),
{
    if members.len() == 0 {
        None
    } else if members[0].0 == name {
        Some(members[0].1)
    } else {
        lookup(members.drop_first(), name)
    }
}

/// The number that `j` is, if it is a number from `low` to `high`.
pub open spec fn number_in(j: JsonModel, low: int, high: int) -> Option<int> {
    match j {
        JsonModel::Number(n) => if low <= n <= high {
            Some(n)
        } else {
            None
        },
        _ => None,
    }
}

/// The bytes that `j` stands for, if it is a hexadecimal text.
pub open spec fn bytes_in(j: JsonModel) -> Option<Seq<u8>> {
    match j {
        JsonModel::String(text) => unhex(text),
        _ => None,
    }
}

/// The bytes that `j` stands for, if it is a hexadecimal text for `len`
/// bytes.
pub open spec fn array_in(j: JsonModel, len: nat) -> Option<Seq<u8>> {
    match bytes_in(j) {
        Some(bytes) => if bytes.len() == len {
            Some(bytes)
        } else {
            None
        },
        None => None,
    }
}

/// The seconds and nanoseconds that `j` stands for, if it is an object
/// with these two members in these ranges.
pub open spec fn time_in(j: JsonModel, low: int, high: int) -> Option<(int, int)> {
    match j {
        JsonModel::Object(members) => match (lookup(members, "secs"@), lookup(members, "nanos"@)) {
            (Some(secs), Some(nanos)) => match (
                number_in(secs, i64::MIN as int, i64::MAX as int),
                number_in(nanos, low, high),
            ) {
                (Some(s), Some(n)) => Some((s, n)),
                _ => None,
            },
            _ => None,
        },
        _ => None,
    }
}

/// The value of type `ty` that the document `j` stands for, if there is
/// one.
pub open spec fn val_of(j: JsonModel, ty: Ty) -> Option<Val>
    decreases ty, 0nat,
{
    match ty {
        Ty::U8 => match number_in(j, 0, u8::MAX as int) {
            Some(n) => Some(Val::U8(n as u8)),
            None => None,
        },
        Ty::U16 => match number_in(j, 0, u16::MAX as int) {
            Some(n) => Some(Val::U16(n as u16)),
            None => None,
        },
        Ty::U32 => match number_in(j, 0, u32::MAX as int) {
            Some(n) => Some(Val::U32(n as u32)),
            None => None,
        },
        Ty::U64 => match number_in(j, 0, u64::MAX as int) {
            Some(n) => Some(Val::U64(n as u64)),
            None => None,
        },
        Ty::I8 => match number_in(j, i8::MIN as int, i8::MAX as int) {
            Some(n) => Some(Val::I8(n as i8)),
            None => None,
        },
        Ty::I16 => match number_in(j, i16::MIN as int, i16::MAX as int) {
            Some(n) => Some(Val::I16(n as i16)),
            None => None,
        },
        Ty::I32 => match number_in(j, i32::MIN as int, i32::MAX as int) {
            Some(n) => Some(Val::I32(n as i32)),
            None => None,
        },
        Ty::I64 => match number_in(j, i64::MIN as int, i64::MAX as int) {
            Some(n) => Some(Val::I64(n as i64)),
            None => None,
        },
        Ty::Hash => match array_in(j, 32) {
            Some(a) => Some(Val::Hash(a)),
            None => None,
        },
        Ty::PublicKey => match array_in(j, 32) {
            Some(a) => Some(Val::PublicKey(a)),
            None => None,
        },
        Ty::Signature => match array_in(j, 64) {
            Some(a) => Some(Val::Signature(a)),
            None => None,
        },
        Ty::Timestamp => match time_in(j, 0, u32::MAX as int) {
            Some((secs, nanos)) => Some(
                Val::Timestamp(Timestamp { secs: secs as i64, nanos: nanos as u32 }),
            ),
            None => None,
        },
        Ty::Duration => match time_in(j, i32::MIN as int, i32::MAX as int) {
            Some((secs, nanos)) => if duration_valid(secs, nanos) {
                Some(Val::Duration(Duration { secs: secs as i64, nanos: nanos as i32 }))
            } else {
                None
            },
            None => None,
        },
        Ty::Uuid => match array_in(j, 16) {
            Some(a) => Some(Val::Uuid(a)),
            None => None,
        },
        Ty::Decimal => match array_in(j, 16) {
            Some(a) => Some(Val::Decimal(a)),
            None => None,
        },
        Ty::Bytes => match bytes_in(j) {
            Some(b) => Some(Val::Bytes(b)),
            None => None,
        },
        Ty::Str => match j {
            JsonModel::String(text) => Some(Val::Str(text)),
            _ => None,
        },
        Ty::Struct(names, tys) => match j {
            JsonModel::Object(members) => if names.len() == tys.len() {
                match fields_of(members, names, tys, 0) {
                    Some(vals) => Some(Val::Struct(vals)),
                    None => None,
                }
            } else {
                None
            },
            _ => None,
        },
        Ty::List(item) => match j {
            JsonModel::Array(elements) => match items_of(elements, *item, 0) {
                Some(items) => Some(Val::List(items)),
                None => None,
            },
            _ => None,
        },
        Ty::Optional(item) => match j {
            JsonModel::Null => Some(Val::Optional(None)),
            _ => match val_of(j, *item) {
                Some(value) => Some(Val::Optional(Some(Box::new(value)))),
                None => None,
            },
        },
    }
}

/// The values of the fields from the `k`-th on that the members stand
/// for, each field looked up by its name.
pub open spec fn fields_of(
    members: Seq<(Seq<char>, JsonModel)>,
    names: Seq<Seq<char>>,
    tys: Seq<Ty>,
    k: nat,
) -> Option<Seq<Val>>
    decreases tys, tys.len() - k + 1,
{
    if k >= tys.len() {
        Some(Seq::empty())
    } else {
        match lookup(members, names[k as int]) {
            Some(j) => match (val_of(j, tys[k as int]), fields_of(members, names, tys, k + 1)) {
                (Some(value), Some(rest)) => Some(seq![value] + rest),
                _ => None,
            },
            None => None,
        }
    }
}

/// The values that the elements from the `k`-th on stand for.
pub open spec fn items_of(elements: Seq<JsonModel>, item: Ty, k: nat) -> Option<Seq<Val>>
    decreases item, elements.len() - k + 1,
{
    if k >= elements.len() {
        Some(Seq::empty())
    } else {
        match (val_of(elements[k as int], item), items_of(elements, item, k + 1)) {
            (Some(value), Some(rest)) => Some(seq![value] + rest),
            _ => None,
        }
    }
}


/// Whether no two of `names` are the same.
pub open spec fn distinct(names: Seq<Seq<char>>) -> bool {
    forall|i: int, j: int| 0 <= i < j < names.len() ==> names[i] != names[j]
}

/// Whether values of type `ty` can be told from their documents: every
/// structure in it has one name for each field and no name twice, and no
/// optional value holds an optional value, whose absence could not be told
/// from its own.
pub open spec fn reversible(ty: Ty) -> bool
    decreases ty, 0nat,
{
    match ty {
        Ty::Struct(names, tys) => {
            &&& names.len() == tys.len()
            &&& distinct(names)
            &&& all_reversible(tys)
        },
        Ty::List(item) => reversible(*item),
        Ty::Optional(item) => !(*item is Optional) && reversible(*item),
        _ => true,
    }
}

/// Whether each of `tys` is reversible.
pub open spec fn all_reversible(tys: Seq<Ty>) -> bool
    decreases tys, 1nat,
{
    forall|i: int| 0 <= i < tys.len() ==> reversible(#[trigger] tys[i])
}

/// The member for the `k`-th field is found under its name.
pub proof fn lemma_lookup_member(
    vals: Seq<Val>,
    names: Seq<Seq<char>>,
    tys: Seq<Ty>,
    from: nat,
    k: nat,
)
    requires
        names.len() == tys.len(),
        distinct(names),
        from <= k < tys.len(),
    ensures
        lookup(members_of(vals, names, tys, from), names[k as int]) == Some(
            json_of(vals[k as int], tys[k as int]),
        ),
    decreases k - from,
{
    let members = members_of(vals, names, tys, from);
    assert(members.drop_first() =~= members_of(vals, names, tys, from + 1));
    if from < k {
        lemma_lookup_member(vals, names, tys, from + 1, k);
    }
}

/// The documents of the elements, one for one.
pub proof fn lemma_elements(items: Seq<Val>, item: Ty, k: nat)
    requires
        k <= items.len(),
    ensures
        elements_of(items, item, k).len() == items.len() - k,
        forall|i: int|
            0 <= i < items.len() - k ==> (#[trigger] elements_of(items, item, k)[i]) == json_of(
                items[k + i],
                item,
            ),
    decreases items.len() - k,
{
    if k < items.len() {
        lemma_elements(items, item, k + 1);
        let rest = elements_of(items, item, k + 1);
        let all = elements_of(items, item, k);
        assert forall|i: int| 0 <= i < items.len() - k implies (#[trigger] all[i]) == json_of(
            items[k + i],
            item,
        ) by {
            if i > 0 {
                assert(all[i] == rest[i - 1]);
            }
        }
    }
}

/// A value is told from its document: the document of a value of a
/// reversible type stands for this value and no other.
pub proof fn lemma_json_round_trip(v: Val, ty: Ty)
    requires
        crate::field::has_type(v, ty),
        reversible(ty),
    ensures
        val_of(json_of(v, ty), ty) == Some(v),
        !(ty is Optional) ==> !(json_of(v, ty) is Null),
    decreases ty, 0nat,
{
    reveal_strlit("secs");
    reveal_strlit("nanos");
    reveal_with_fuel(lookup, 3);
    match (v, ty) {
        (Val::Hash(a), Ty::Hash) => crate::hex::lemma_unhex_hex(a),
        (Val::PublicKey(a), Ty::PublicKey) => crate::hex::lemma_unhex_hex(a),
        (Val::Signature(a), Ty::Signature) => crate::hex::lemma_unhex_hex(a),
        (Val::Uuid(a), Ty::Uuid) => crate::hex::lemma_unhex_hex(a),
        (Val::Decimal(a), Ty::Decimal) => crate::hex::lemma_unhex_hex(a),
        (Val::Bytes(b), Ty::Bytes) => crate::hex::lemma_unhex_hex(b),
        (Val::Timestamp(t), Ty::Timestamp) => {
            let members = seq![
                ("secs"@, JsonModel::Number(t.secs as int)),
                ("nanos"@, JsonModel::Number(t.nanos as int)),
            ];
            assert(members.drop_first()[0] == members[1]);
            assert("secs"@.len() != "nanos"@.len());
            assert(lookup(members, "secs"@) == Some(JsonModel::Number(t.secs as int)));
            assert(lookup(members, "nanos"@) == Some(JsonModel::Number(t.nanos as int)));
        },
        (Val::Duration(d), Ty::Duration) => {
            let members = seq![
                ("secs"@, JsonModel::Number(d.secs as int)),
                ("nanos"@, JsonModel::Number(d.nanos as int)),
            ];
            assert(members.drop_first()[0] == members[1]);
            assert("secs"@.len() != "nanos"@.len());
            assert(lookup(members, "secs"@) == Some(JsonModel::Number(d.secs as int)));
            assert(lookup(members, "nanos"@) == Some(JsonModel::Number(d.nanos as int)));
        },
        (Val::Struct(vals), Ty::Struct(names, tys)) => {
            lemma_fields_round_trip(vals, names, tys, 0);
            assert(vals.skip(0) =~= vals);
        },
        (Val::List(items), Ty::List(item)) => {
            lemma_items_round_trip(items, *item, 0);
            assert(items.skip(0) =~= items);
        },
        (Val::Optional(Some(value)), Ty::Optional(item)) => {
            lemma_json_round_trip(*value, *item);
        },
        _ => {},
    }
}

/// The fields of a structure are told from its members.
pub proof fn lemma_fields_round_trip(vals: Seq<Val>, names: Seq<Seq<char>>, tys: Seq<Ty>, k: nat)
    requires
        crate::field::have_types(vals, tys),
        names.len() == tys.len(),
        distinct(names),
        all_reversible(tys),
        k <= tys.len(),
    ensures
        fields_of(members_of(vals, names, tys, 0), names, tys, k) == Some(vals.skip(k as int)),
    decreases tys, tys.len() - k + 1,
{
    let i = k as int;
    if i < tys.len() {
        lemma_lookup_member(vals, names, tys, 0, k);
        assert(crate::field::has_type(vals[i], tys[i]));
        assert(reversible(tys[i]));
        lemma_json_round_trip(vals[i], tys[i]);
        lemma_fields_round_trip(vals, names, tys, k + 1);
        assert(vals.skip(i) =~= seq![vals[i]] + vals.skip(i + 1));
    } else {
        assert(vals.skip(i) =~= Seq::<Val>::empty());
    }
}

/// The elements of a list are told from the elements of its array.
pub proof fn lemma_items_round_trip(items: Seq<Val>, item: Ty, k: nat)
    requires
        crate::field::all_of_type(items, item),
        reversible(item),
        k <= items.len(),
    ensures
        items_of(elements_of(items, item, 0), item, k) == Some(items.skip(k as int)),
    decreases item, items.len() - k + 1,
{
    let i = k as int;
    lemma_elements(items, item, 0);
    if i < items.len() {
        assert(crate::field::has_type(items[i], item));
        assert(elements_of(items, item, 0)[i] == json_of(items[0 + i], item));
        lemma_json_round_trip(items[i], item);
        lemma_items_round_trip(items, item, k + 1);
        assert(items.skip(i) =~= seq![items[i]] + items.skip(i + 1));
    } else {
        assert(items.skip(i) =~= Seq::<Val>::empty());
    }
}


/// Whether every structure in `ty` has one name for each of its fields.
pub open spec fn named(ty: Ty) -> bool
    decreases ty, 0nat,
{
    match ty {
        Ty::Struct(names, tys) => names.len() == tys.len() && all_named(tys),
        Ty::List(item) => named(*item),
        Ty::Optional(item) => named(*item),
        _ => true,
    }
}

/// Whether each of `tys` is named.
pub open spec fn all_named(tys: Seq<Ty>) -> bool
    decreases tys, 1nat,
{
    forall|i: int| 0 <= i < tys.len() ==> named(#[trigger] tys[i])
}

/// The models of a sequence of documents with one more are the models of
/// the sequence with the model of the one more.
pub proof fn lemma_json_views_push(items: Seq<Json>, item: Json)
    ensures
        json_views(items.push(item)) == json_views(items).push(item@),
{
    assert(items.push(item).drop_last() =~= items);
}

/// The models of the members of an object with one more are the models of
/// the members with the model of the one more.
pub proof fn lemma_member_views_push(members: Seq<(String, Json)>, member: (String, Json))
    ensures
        member_views(members.push(member)) == member_views(members).push((member.0@, member.1@)),
{
    assert(members.push(member).drop_last() =~= members);
}

/// The models of the members of an object are the models of its members,
/// in order.
pub proof fn lemma_member_views(members: Seq<(String, Json)>)
    ensures
        member_views(members).len() == members.len(),
        forall|i: int|
            0 <= i < members.len() ==> (#[trigger] member_views(members)[i]) == (
                members[i].0@,
                members[i].1@,
            ),
    decreases members.len(),
{
    if members.len() > 0 {
        lemma_member_views(members.drop_last());
        assert(member_views(members) == member_views(members.drop_last()).push(
            (members.last().0@, members.last().1@),
        ));
    } else {
        assert(member_views(members) == Seq::<(Seq<char>, JsonModel)>::empty());
    }
}

/// The models of a sequence of documents are the models of its elements,
/// in order.
pub proof fn lemma_json_views(items: Seq<Json>)
    ensures
        json_views(items).len() == items.len(),
        forall|i: int| 0 <= i < items.len() ==> (#[trigger] json_views(items)[i]) == items[i]@,
    decreases items.len(),
{
    if items.len() > 0 {
        lemma_json_views(items.drop_last());
        assert(json_views(items) == json_views(items.drop_last()).push(items.last()@));
    } else {
        assert(json_views(items) == Seq::<JsonModel>::empty());
    }
}

/// Whether every structure in `ty` has one name for each of its fields.
pub fn well_named(ty: &FieldType) -> (r: bool)
    ensures
        r == named(ty@),
    decreases ty, 0nat,
{
    match ty {
        FieldType::Struct(names, fields) => {
            proof {
                lemma_types(fields@);
            }
            names.len() == fields.len() && all_well_named(fields)
        },
        FieldType::List(item) => well_named(item),
        FieldType::Optional(item) => well_named(item),
        _ => true,
    }
}

/// Whether each of `fields` is well named.
pub fn all_well_named(fields: &Vec<FieldType>) -> (r: bool)
    ensures
        r == all_named(types(fields@)),
    decreases fields, 1nat,
{
    let ghost tys = types(fields@);
    proof {
        lemma_types(fields@);
    }
    let mut k: usize = 0;
    while k < fields.len()
        invariant
            k <= fields@.len(),
            tys == types(fields@),
            tys.len() == fields@.len(),
            forall|i: int| 0 <= i < fields@.len() ==> (#[trigger] tys[i]) == fields@[i]@,
            forall|i: int| 0 <= i < k ==> named(#[trigger] tys[i]),
        decreases fields@.len() - k,
    {
        if !well_named(&fields[k]) {
            assert(!named(tys[k as int]));
            return false;
        }
        k += 1;
    }
    true
}

/// The object for a point or a span of time.
fn time_to_json(secs: i64, nanos: i128) -> (r: Json)
    ensures
        r@ == time_json(secs as int, nanos as int),
{
    let members = vec![
        ("secs".to_owned(), Json::Number(secs as i128)),
        ("nanos".to_owned(), Json::Number(nanos)),
    ];
    proof {
        lemma_member_views(members@);
        assert(member_views(members@) =~= seq![
            ("secs"@, JsonModel::Number(secs as int)),
            ("nanos"@, JsonModel::Number(nanos as int)),
        ]);
    }
    Json::Object(members)
}

/// The document that stands for `value` as a value of type `ty`; nothing
/// if the value is not of this type or a structure in the type lacks
/// names.
pub fn to_json(value: &Value, ty: &FieldType) -> (r: Option<Json>)
    ensures
        r is Some <==> has_type(value@, ty@) && named(ty@),
        r matches Some(j) ==> j@ == json_of(value@, ty@),
    decreases ty, 0nat,
{
    match ty {
        FieldType::U8 => match value {
            Value::U8(x) => Some(Json::Number(*x as i128)),
            _ => None,
        },
        FieldType::U16 => match value {
            Value::U16(x) => Some(Json::Number(*x as i128)),
            _ => None,
        },
        FieldType::U32 => match value {
            Value::U32(x) => Some(Json::Number(*x as i128)),
            _ => None,
        },
        FieldType::U64 => match value {
            Value::U64(x) => Some(Json::Number(*x as i128)),
            _ => None,
        },
        FieldType::I8 => match value {
            Value::I8(x) => Some(Json::Number(*x as i128)),
            _ => None,
        },
        FieldType::I16 => match value {
            Value::I16(x) => Some(Json::Number(*x as i128)),
            _ => None,
        },
        FieldType::I32 => match value {
            Value::I32(x) => Some(Json::Number(*x as i128)),
            _ => None,
        },
        FieldType::I64 => match value {
            Value::I64(x) => Some(Json::Number(*x as i128)),
            _ => None,
        },
        FieldType::Hash => match value {
            Value::Hash(a) => Some(Json::String(to_hex(a.as_slice()))),
            _ => None,
        },
        FieldType::PublicKey => match value {
            Value::PublicKey(a) => Some(Json::String(to_hex(a.as_slice()))),
            _ => None,
        },
        FieldType::Signature => match value {
            Value::Signature(a) => Some(Json::String(to_hex(a.as_slice()))),
            _ => None,
        },
        FieldType::Timestamp => match value {
            Value::Timestamp(t) => Some(time_to_json(t.secs, t.nanos as i128)),
            _ => None,
        },
        FieldType::Duration => match value {
            Value::Duration(d) => if d.is_valid() {
                Some(time_to_json(d.secs, d.nanos as i128))
            } else {
                None
            },
            _ => None,
        },
        FieldType::Uuid => match value {
            Value::Uuid(a) => Some(Json::String(to_hex(a.as_slice()))),
            _ => None,
        },
        FieldType::Decimal => match value {
            Value::Decimal(a) => Some(Json::String(to_hex(a.as_slice()))),
            _ => None,
        },
        FieldType::Bytes => match value {
            Value::Bytes(b) => Some(Json::String(to_hex(b.as_slice()))),
            _ => None,
        },
        FieldType::Str => match value {
            Value::Str(s) => Some(Json::String(s.clone())),
            _ => None,
        },
        FieldType::Struct(names, fields) => {
            proof {
                lemma_types(fields@);
            }
            match value {
                Value::Struct(values) => match members_to_json(values, names, fields) {
                    Some(members) => Some(Json::Object(members)),
                    None => None,
                },
                _ => None,
            }
        },
        FieldType::List(item) => match value {
            Value::List(items) => match elements_to_json(items, item) {
                Some(elements) => Some(Json::Array(elements)),
                None => None,
            },
            _ => None,
        },
        FieldType::Optional(item) => match value {
            Value::Optional(None) => if well_named(item) {
                Some(Json::Null)
            } else {
                None
            },
            Value::Optional(Some(inner)) => to_json(inner, item),
            _ => None,
        },
    }
}

/// The members that stand for the field values `values` of a structure
/// with the field names `names` and the field types `fields`.
pub fn members_to_json(values: &Vec<Value>, names: &Vec<String>, fields: &Vec<FieldType>) -> (r:
    Option<Vec<(String, Json)>>)
    ensures
        r is Some <==> have_types(views(values@), types(fields@)) && names@.len() == fields@.len()
            && all_named(types(fields@)),
        r matches Some(members) ==> member_views(members@) == members_of(
            views(values@),
            texts(names@),
            types(fields@),
            0,
        ),
    decreases fields, 1nat,
{
    let ghost vals = views(values@);
    let ghost tys = types(fields@);
    let ghost labels = texts(names@);
    proof {
        lemma_views(values@);
        lemma_types(fields@);
    }
    if names.len() != fields.len() || values.len() != fields.len() {
        return None;
    }
    let mut out: Vec<(String, Json)> = Vec::new();
    let mut k: usize = 0;
    proof {
        assert(member_views(out@) =~= Seq::<(Seq<char>, JsonModel)>::empty());
    }
    while k < fields.len()
        invariant
            k <= fields@.len(),
            vals == views(values@),
            tys == types(fields@),
            labels == texts(names@),
            vals.len() == values@.len() == fields@.len() == tys.len() == names@.len(),
            forall|i: int| 0 <= i < values@.len() ==> (#[trigger] vals[i]) == values@[i]@,
            forall|i: int| 0 <= i < fields@.len() ==> (#[trigger] tys[i]) == fields@[i]@,
            forall|i: int| 0 <= i < k ==> has_type(#[trigger] vals[i], tys[i]),
            forall|i: int| 0 <= i < k ==> named(#[trigger] tys[i]),
            member_views(out@) + members_of(vals, labels, tys, k as nat) =~= members_of(
                vals,
                labels,
                tys,
                0,
            ),
        decreases fields@.len() - k,
    {
        match to_json(&values[k], &fields[k]) {
            Some(j) => {
                let member = (names[k].clone(), j);
                proof {
                    lemma_member_views_push(out@, member);
                    assert(has_type(vals[k as int], tys[k as int]));
                    assert(named(tys[k as int]));
                }
                out.push(member);
            },
            None => {
                assert(!(has_type(vals[k as int], tys[k as int]) && named(tys[k as int])));
                return None;
            },
        }
        k += 1;
    }
    Some(out)
}

/// The documents that stand for `items` as elements of type `item`.
pub fn elements_to_json(items: &Vec<Value>, item: &FieldType) -> (r: Option<Vec<Json>>)
    ensures
        r is Some <==> all_of_type(views(items@), item@) && named(item@),
        r matches Some(elements) ==> json_views(elements@) == elements_of(views(items@), item@, 0),
    decreases item, 1nat,
{
    let ghost vals = views(items@);
    proof {
        lemma_views(items@);
    }
    if !well_named(item) {
        return None;
    }
    let mut out: Vec<Json> = Vec::new();
    let mut k: usize = 0;
    proof {
        assert(json_views(out@) =~= Seq::<JsonModel>::empty());
    }
    while k < items.len()
        invariant
            k <= items@.len(),
            vals == views(items@),
            vals.len() == items@.len(),
            named(item@),
            forall|i: int| 0 <= i < items@.len() ==> (#[trigger] vals[i]) == items@[i]@,
            forall|i: int| 0 <= i < k ==> has_type(#[trigger] vals[i], item@),
            json_views(out@) + elements_of(vals, item@, k as nat) =~= elements_of(vals, item@, 0),
        decreases items@.len() - k,
    {
        match to_json(&items[k], item) {
            Some(j) => {
                proof {
                    lemma_json_views_push(out@, j);
                    assert(has_type(vals[k as int], item@));
                }
                out.push(j);
            },
            None => {
                assert(!has_type(vals[k as int], item@));
                return None;
            },
        }
        k += 1;
    }
    Some(out)
}


/// The first member of the name `name`.
pub fn find<'a>(members: &'a Vec<(String, Json)>, name: &String) -> (r: Option<&'a Json>)
    ensures
        match r {
            Some(j) => lookup(member_views(members@), name@) == Some(j@),
            None => lookup(member_views(members@), name@) is None,
        },
{
    let ghost all = member_views(members@);
    let mut i: usize = 0;
    proof {
        lemma_member_views(members@);
        assert(all.skip(0) =~= all);
    }
    while i < members.len()
        invariant
            i <= members@.len(),
            all == member_views(members@),
            all.len() == members@.len(),
            forall|j: int|
                0 <= j < members@.len() ==> (#[trigger] all[j]) == (
                    members@[j].0@,
                    members@[j].1@,
                ),
            lookup(all, name@) == lookup(all.skip(i as int), name@),
        decreases members@.len() - i,
    {
        proof {
            assert(all.skip(i as int).drop_first() =~= all.skip(i + 1));
            assert(all.skip(i as int)[0] == all[i as int]);
        }
        if members[i].0 == *name {
            return Some(&members[i].1);
        }
        i += 1;
    }
    None
}

/// The number that `json` is, if it is a number from `low` to `high`.
fn number_of(json: &Json, low: i128, high: i128) -> (r: Option<i128>)
    ensures
        match r {
            Some(n) => number_in(json@, low as int, high as int) == Some(n as int),
            None => number_in(json@, low as int, high as int) is None,
        },
{
    match json {
        Json::Number(n) => if low <= *n && *n <= high {
            Some(*n)
        } else {
            None
        },
        _ => None,
    }
}

/// The bytes that `json` stands for, if it is a hexadecimal text.
fn bytes_of(json: &Json) -> (r: Option<Vec<u8>>)
    ensures
        match r {
            Some(bytes) => bytes_in(json@) == Some(bytes@),
            None => bytes_in(json@) is None,
        },
{
    match json {
        Json::String(text) => from_hex(text.as_str()),
        _ => None,
    }
}

/// The bytes that `json` stands for, if it is a hexadecimal text for `N`
/// bytes.
fn array_of<const N: usize>(json: &Json) -> (r: Option<[u8; N]>)
    ensures
        match r {
            Some(bytes) => array_in(json@, N as nat) == Some(bytes@),
            None => array_in(json@, N as nat) is None,
        },
{
    match bytes_of(json) {
        Some(bytes) => if bytes.len() == N {
            Some(array_at::<N>(bytes.as_slice(), 0))
        } else {
            None
        },
        None => None,
    }
}

/// The seconds and nanoseconds that `json` stands for, if it is an object
/// with these two members in these ranges.
fn time_of(json: &Json, low: i128, high: i128) -> (r: Option<(i64, i128)>)
    ensures
        match r {
            Some((secs, nanos)) => time_in(json@, low as int, high as int) == Some(
                (secs as int, nanos as int),
            ),
            None => time_in(json@, low as int, high as int) is None,
        },
{
    match json {
        Json::Object(members) => {
            let secs = match find(members, &"secs".to_owned()) {
                Some(secs) => secs,
                None => {
                    return None;
                },
            };
            let nanos = match find(members, &"nanos".to_owned()) {
                Some(nanos) => nanos,
                None => {
                    return None;
                },
            };
            let secs = match number_of(secs, i64::MIN as i128, i64::MAX as i128) {
                Some(secs) => secs,
                None => {
                    return None;
                },
            };
            let nanos = match number_of(nanos, low, high) {
                Some(nanos) => nanos,
                None => {
                    return None;
                },
            };
            Some((secs as i64, nanos))
        },
        _ => None,
    }
}

/// The value of type `ty` that `json` stands for, if there is one.
pub fn from_json(json: &Json, ty: &FieldType) -> (r: Option<Value>)
    ensures
        match r {
            Some(value) => val_of(json@, ty@) == Some(value@),
            None => val_of(json@, ty@) is None,
        },
    decreases ty, 0nat,
{
    match ty {
        FieldType::U8 => match number_of(json, 0, u8::MAX as i128) {
            Some(n) => Some(Value::U8(n as u8)),
            None => None,
        },
        FieldType::U16 => match number_of(json, 0, u16::MAX as i128) {
            Some(n) => Some(Value::U16(n as u16)),
            None => None,
        },
        FieldType::U32 => match number_of(json, 0, u32::MAX as i128) {
            Some(n) => Some(Value::U32(n as u32)),
            None => None,
        },
        FieldType::U64 => match number_of(json, 0, u64::MAX as i128) {
            Some(n) => Some(Value::U64(n as u64)),
            None => None,
        },
        FieldType::I8 => match number_of(json, i8::MIN as i128, i8::MAX as i128) {
            Some(n) => Some(Value::I8(n as i8)),
            None => None,
        },
        FieldType::I16 => match number_of(json, i16::MIN as i128, i16::MAX as i128) {
            Some(n) => Some(Value::I16(n as i16)),
            None => None,
        },
        FieldType::I32 => match number_of(json, i32::MIN as i128, i32::MAX as i128) {
            Some(n) => Some(Value::I32(n as i32)),
            None => None,
        },
        FieldType::I64 => match number_of(json, i64::MIN as i128, i64::MAX as i128) {
            Some(n) => Some(Value::I64(n as i64)),
            None => None,
        },
        FieldType::Hash => match array_of::<32>(json) {
            Some(a) => Some(Value::Hash(a)),
            None => None,
        },
        FieldType::PublicKey => match array_of::<32>(json) {
            Some(a) => Some(Value::PublicKey(a)),
            None => None,
        },
        FieldType::Signature => match array_of::<64>(json) {
            Some(a) => Some(Value::Signature(a)),
            None => None,
        },
        FieldType::Timestamp => match time_of(json, 0, u32::MAX as i128) {
            Some((secs, nanos)) => Some(Value::Timestamp(Timestamp { secs, nanos: nanos as u32 })),
            None => None,
        },
        FieldType::Duration => match time_of(json, i32::MIN as i128, i32::MAX as i128) {
            Some((secs, nanos)) => {
                let duration = Duration { secs, nanos: nanos as i32 };
                if duration.is_valid() {
                    Some(Value::Duration(duration))
                } else {
                    None
                }
            },
            None => None,
        },
        FieldType::Uuid => match array_of::<16>(json) {
            Some(a) => Some(Value::Uuid(a)),
            None => None,
        },
        FieldType::Decimal => match array_of::<16>(json) {
            Some(a) => Some(Value::Decimal(a)),
            None => None,
        },
        FieldType::Bytes => match bytes_of(json) {
            Some(b) => Some(Value::Bytes(b)),
            None => None,
        },
        FieldType::Str => match json {
            Json::String(text) => Some(Value::Str(text.clone())),
            _ => None,
        },
        FieldType::Struct(names, fields) => {
            proof {
                lemma_types(fields@);
            }
            match json {
                Json::Object(members) => if names.len() == fields.len() {
                    match fields_from_json(members, names, fields) {
                        Some(values) => Some(Value::Struct(values)),
                        None => None,
                    }
                } else {
                    None
                },
                _ => None,
            }
        },
        FieldType::List(item) => match json {
            Json::Array(elements) => match items_from_json(elements, item) {
                Some(items) => Some(Value::List(items)),
                None => None,
            },
            _ => None,
        },
        FieldType::Optional(item) => match json {
            Json::Null => Some(Value::Optional(None)),
            _ => match from_json(json, item) {
                Some(value) => Some(Value::Optional(Some(Box::new(value)))),
                None => None,
            },
        },
    }
}

/// The values of the fields that the members stand for, each field
/// looked up by its name.
pub fn fields_from_json(
    members: &Vec<(String, Json)>,
    names: &Vec<String>,
    fields: &Vec<FieldType>,
) -> (r: Option<Vec<Value>>)
    requires
        names@.len() == fields@.len(),
    ensures
        match r {
            Some(values) => fields_of(member_views(members@), texts(names@), types(fields@), 0)
                == Some(views(values@)),
            None => fields_of(member_views(members@), texts(names@), types(fields@), 0) is None,
        },
    decreases fields, 1nat,
{
    let ghost all = member_views(members@);
    let ghost labels = texts(names@);
    let ghost tys = types(fields@);
    let mut out: Vec<Value> = Vec::new();
    let mut k: usize = 0;
    proof {
        lemma_types(fields@);
        assert(views(out@) =~= Seq::<Val>::empty());
        match fields_of(all, labels, tys, 0) {
            Some(rest) => {
                assert(views(out@) + rest =~= rest);
            },
            None => {},
        }
    }
    while k < fields.len()
        invariant
            k <= fields@.len(),
            all == member_views(members@),
            labels == texts(names@),
            tys == types(fields@),
            tys.len() == fields@.len() == names@.len(),
            forall|i: int| 0 <= i < fields@.len() ==> (#[trigger] tys[i]) == fields@[i]@,
            fields_of(all, labels, tys, 0) == match fields_of(all, labels, tys, k as nat) {
                Some(rest) => Some(views(out@) + rest),
                None => None,
            },
        decreases fields@.len() - k,
    {
        assert(labels[k as int] == names@[k as int]@);
        assert(tys[k as int] == fields@[k as int]@);
        let member = match find(members, &names[k]) {
            Some(member) => member,
            None => {
                return None;
            },
        };
        let value = match from_json(member, &fields[k]) {
            Some(value) => value,
            None => {
                return None;
            },
        };
        proof {
            lemma_views_push(out@, value);
            match fields_of(all, labels, tys, (k + 1) as nat) {
                Some(rest) => {
                    assert(views(out@) + (seq![value@] + rest) =~= views(out@).push(value@)
                        + rest);
                },
                None => {},
            }
        }
        out.push(value);
        k += 1;
    }
    proof {
        assert(views(out@) + Seq::<Val>::empty() =~= views(out@));
    }
    Some(out)
}

/// The values that the elements of an array stand for.
pub fn items_from_json(elements: &Vec<Json>, item: &FieldType) -> (r: Option<Vec<Value>>)
    ensures
        match r {
            Some(values) => items_of(json_views(elements@), item@, 0) == Some(views(values@)),
            None => items_of(json_views(elements@), item@, 0) is None,
        },
    decreases item, 1nat,
{
    let ghost all = json_views(elements@);
    let mut out: Vec<Value> = Vec::new();
    let mut k: usize = 0;
    proof {
        lemma_json_views(elements@);
        assert(views(out@) =~= Seq::<Val>::empty());
        match items_of(all, item@, 0) {
            Some(rest) => {
                assert(views(out@) + rest =~= rest);
            },
            None => {},
        }
    }
    while k < elements.len()
        invariant
            k <= elements@.len(),
            all == json_views(elements@),
            all.len() == elements@.len(),
            forall|i: int| 0 <= i < elements@.len() ==> (#[trigger] all[i]) == elements@[i]@,
            items_of(all, item@, 0) == match items_of(all, item@, k as nat) {
                Some(rest) => Some(views(out@) + rest),
                None => None,
            },
        decreases elements@.len() - k,
    {
        assert(all[k as int] == elements@[k as int]@);
        let value = match from_json(&elements[k], item) {
            Some(value) => value,
            None => {
                return None;
            },
        };
        proof {
            lemma_views_push(out@, value);
            match items_of(all, item@, (k + 1) as nat) {
                Some(rest) => {
                    assert(views(out@) + (seq![value@] + rest) =~= views(out@).push(value@)
                        + rest);
                },
                None => {},
            }
        }
        out.push(value);
        k += 1;
    }
    proof {
        assert(views(out@) + Seq::<Val>::empty() =~= views(out@));
    }
    Some(out)
}


/// A reversible type is named.
pub proof fn lemma_reversible_named(ty: Ty)
    requires
        reversible(ty),
    ensures
        named(ty),
    decreases ty, 0nat,
{
    match ty {
        Ty::Struct(names, tys) => {
            assert(all_reversible(tys));
            assert forall|i: int| 0 <= i < tys.len() implies named(#[trigger] tys[i]) by {
                assert(reversible(tys[i]));
                lemma_reversible_named(tys[i]);
            }
            assert(all_named(tys));
        },
        Ty::List(item) => lemma_reversible_named(*item),
        Ty::Optional(item) => lemma_reversible_named(*item),
        _ => {},
    }
}

/// What a document stands for as a value of a type is a value of this
/// type.
pub proof fn lemma_val_of_typed(j: JsonModel, ty: Ty)
    requires
        val_of(j, ty) is Some,
    ensures
        has_type(val_of(j, ty)->Some_0, ty),
    decreases ty, 0nat,
{
    match ty {
        Ty::Struct(names, tys) => {
            let members = j->Object_0;
            lemma_fields_of_typed(members, names, tys, 0);
            assert(tys.skip(0) =~= tys);
        },
        Ty::List(item) => {
            lemma_items_of_typed(j->Array_0, *item, 0);
        },
        Ty::Optional(item) => {
            if !(j is Null) {
                lemma_val_of_typed(j, *item);
            }
        },
        _ => {},
    }
}

/// The field values that members stand for have the types of the fields.
pub proof fn lemma_fields_of_typed(
    members: Seq<(Seq<char>, JsonModel)>,
    names: Seq<Seq<char>>,
    tys: Seq<Ty>,
    k: nat,
)
    requires
        k <= tys.len(),
        fields_of(members, names, tys, k) is Some,
    ensures
        have_types(fields_of(members, names, tys, k)->Some_0, tys.skip(k as int)),
    decreases tys, tys.len() - k + 1,
{
    let i = k as int;
    if i < tys.len() {
        let member = lookup(members, names[i])->Some_0;
        lemma_val_of_typed(member, tys[i]);
        lemma_fields_of_typed(members, names, tys, k + 1);
        let rest = fields_of(members, names, tys, k + 1)->Some_0;
        let all = fields_of(members, names, tys, k)->Some_0;
        assert(all =~= seq![val_of(member, tys[i])->Some_0] + rest);
        assert(rest.len() == tys.skip(i + 1).len());
        assert forall|n: int| 0 <= n < tys.skip(i).len() implies has_type(
            #[trigger] all[n],
            tys.skip(i)[n],
        ) by {
            if n > 0 {
                assert(all[n] == rest[n - 1]);
                assert(tys.skip(i)[n] == tys.skip(i + 1)[n - 1]);
            }
        }
    }
}

/// The values that the elements of an array stand for have the element
/// type.
pub proof fn lemma_items_of_typed(elements: Seq<JsonModel>, item: Ty, k: nat)
    requires
        k <= elements.len(),
        items_of(elements, item, k) is Some,
    ensures
        all_of_type(items_of(elements, item, k)->Some_0, item),
    decreases item, elements.len() - k + 1,
{
    let i = k as int;
    if i < elements.len() {
        lemma_val_of_typed(elements[i], item);
        lemma_items_of_typed(elements, item, k + 1);
        let rest = items_of(elements, item, k + 1)->Some_0;
        let all = items_of(elements, item, k)->Some_0;
        assert(all =~= seq![val_of(elements[i], item)->Some_0] + rest);
        assert forall|n: int| 0 <= n < all.len() implies has_type(#[trigger] all[n], item) by {
            if n > 0 {
                assert(all[n] == rest[n - 1]);
            }
        }
    }
}

} // verus!
