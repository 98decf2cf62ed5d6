//! Signed envelopes: a payload that proves who wrote it.

use vstd::prelude::*;
use vstd::slice::slice_to_vec;
use crate::crypto::{
    PublicKey, SecretKey, Signature, ed25519_public, ed25519_signature, ed25519_verifies, sign,
    verify,
};
use crate::error::EncodingError;
use crate::field::{
    FieldType, Ty, Val, Value, has_type, lemma_types, lemma_views, texts, types, views,
};
use crate::json::{all_reversible, distinct, reversible};
use crate::layout::record_bytes;
use crate::messages::{ConsensusMessage, decoded_payload};
use crate::schema::{StructuredMessage, encodable};
use crate::typing::all_conform;

verus! {

/// A signed envelope: a payload with the tag of its kind, the public key of
/// its author and the signature of the author over the payload.
#[derive(Clone, Debug, PartialEq, Eq)]
pub struct Message {
    pub tag: u16,
    pub author: PublicKey,
    pub body: Vec<u8>,
    pub signature: Signature,
}

impl Message {
    pub fn new(tag: u16, author: &PublicKey, body: &[u8], signature: &Signature) -> (r: Message)
        ensures
            r.tag == tag,
            r.author == *author,
            r.body@ == body@,
            r.signature == *signature,
    {
        Message { tag, author: *author, body: slice_to_vec(body), signature: *signature }
    }

    pub fn tag(&self) -> (r: u16)
        ensures
            r == self.tag,
    {
        self.tag
    }

    pub fn author(&self) -> (r: &PublicKey)
        ensures
            *r == self.author,
    {
        &self.author
    }

    pub fn body(&self) -> (r: &[u8])
        ensures
            r@ == self.body@,
    {
        self.body.as_slice()
    }

    pub fn signature(&self) -> (r: &Signature)
        ensures
            *r == self.signature,
    {
        &self.signature
    }
}

impl StructuredMessage for Message {
    open spec fn schema() -> Seq<Ty> {
        seq![Ty::U16, Ty::PublicKey, Ty::Bytes, Ty::Signature]
    }

    open spec fn names() -> Seq<Seq<char>> {
        seq!["tag"@, "author"@, "body"@, "signature"@]
    }

    open spec fn model(&self) -> Seq<Val> {
        seq![
            Val::U16(self.tag),
            Val::PublicKey(self.author@),
            Val::Bytes(self.body@),
            Val::Signature(self.signature@),
        ]
    }

    proof fn lemma_model_typed(&self) {
    }

    proof fn lemma_reversible() {
        reveal_strlit("tag");
        reveal_strlit("author");
        reveal_strlit("body");
        reveal_strlit("signature");
        let names = Self::names();
        let tys = Self::schema();
        assert(names.len() == tys.len());
        assert forall|i: int, j: int| 0 <= i < j < names.len() implies names[i]
            != names[j] by {
            if i == 0 && j == 1 {
                assert("tag"@.len() != "author"@.len());
            }
            if i == 0 && j == 2 {
                assert("tag"@.len() != "body"@.len());
            }
            if i == 0 && j == 3 {
                assert("tag"@.len() != "signature"@.len());
            }
            if i == 1 && j == 2 {
                assert("author"@.len() != "body"@.len());
            }
            if i == 1 && j == 3 {
                assert("author"@.len() != "signature"@.len());
            }
            if i == 2 && j == 3 {
                assert("body"@.len() != "signature"@.len());
            }
        }
        assert(distinct(names));
        assert forall|i: int| 0 <= i < tys.len() implies reversible(
            #[trigger] tys[i],
        ) by {
        }
        assert(all_reversible(tys));
    }

    fn fields() -> (r: Vec<FieldType>) {
        let r = vec![FieldType::U16, FieldType::PublicKey, FieldType::Bytes, FieldType::Signature];
        proof {
            lemma_types(r@);
            assert(types(r@) =~= Self::schema());
        }
        r
    }

    fn field_names() -> (r: Vec<String>) {
        let r = vec![
            "tag".to_owned(),
            "author".to_owned(),
            "body".to_owned(),
            "signature".to_owned(),
        ];
        assert(texts(r@) =~= Self::names());
        r
    }

    fn to_values(&self) -> (r: Vec<Value>) {
        let r = vec![
            Value::U16(self.tag),
            Value::PublicKey(self.author.0),
            Value::Bytes(slice_to_vec(self.body.as_slice())),
            Value::Signature(self.signature.0),
        ];
        proof {
            lemma_views(r@);
            assert(views(r@) =~= self.model());
        }
        r
    }

    fn from_values(values: &Vec<Value>) -> (r: Option<Message>) {
        let fields = Self::fields();
        if !all_conform(values, &fields) {
            return None;
        }
        proof {
            lemma_views(values@);
            let vals = views(values@);
            assert(has_type(vals[0], Self::schema()[0]));
            assert(has_type(vals[1], Self::schema()[1]));
            assert(has_type(vals[2], Self::schema()[2]));
            assert(has_type(vals[3], Self::schema()[3]));
        }
        let tag = match values[0].as_u16() {
            Some(x) => x,
            None => {
                return None;
            },
        };
        let author = match values[1].as_public_key() {
            Some(x) => PublicKey(x),
            None => {
                return None;
            },
        };
        let body = match values[2].as_bytes() {
            Some(x) => slice_to_vec(x.as_slice()),
            None => {
                return None;
            },
        };
        let signature = match values[3].as_signature() {
            Some(x) => Signature(x),
            None => {
                return None;
            },
        };
        let message = Message {tag, author, body, signature};
        assert(message.model() =~= views(values@));
        Some(message)
    }
}
impl Message {
    /// What opening the envelope gives: the tag and the field values of
    /// its payload, or why it is refused. The signature is judged first;
    /// where it does not verify, the payload is not looked at.
    pub open spec fn opened(&self) -> Result<(u16, Seq<Val>), EncodingError> {
        if !ed25519_verifies(self.body@, self.signature@, self.author@) {
            Err(EncodingError::SignatureInvalid)
        } else {
            match decoded_payload(self.tag, self.body@) {
                Err(e) => Err(e),
                Ok(model) => Ok((self.tag, model)),
            }
        }
    }

    /// Whether the envelope is valid: its signature verifies against its
    /// author, and its payload is accepted under its tag.
    pub open spec fn valid(&self) -> bool {
        self.opened() is Ok
    }

    /// Whether the envelope is what signing `payload` with the secret key
    /// `secret` gives.
    pub open spec fn seals(&self, payload: ConsensusMessage, secret: Seq<u8>) -> bool {
        &&& self.tag == payload.tag_of()
        &&& self.body@ == record_bytes(payload.model(), 0)
        &&& self.signature@ == ed25519_signature(self.body@, secret)
    }

    /// Wraps `payload` into an envelope of `author`, signed with
    /// `secret_key`; nothing if the payload cannot be encoded. Where the
    /// author is the owner of the secret key, the envelope opens to the
    /// payload.
    pub fn concrete(payload: &ConsensusMessage, author: PublicKey, secret_key: &SecretKey) -> (r:
        Option<Message>)
        ensures
            r is Some <==> encodable(payload.model()),
            r matches Some(envelope) ==> {
                &&& envelope.author == author
                &&& envelope.seals(*payload, secret_key@)
                &&& author@ == ed25519_public(secret_key@) ==> envelope.opened() == Ok::<
                    (u16, Seq<Val>),
                    EncodingError,
                >((payload.tag_of(), payload.model()))
            },
    {
        match payload.encode() {
            Some(body) => {
                let signature = sign(body.as_slice(), secret_key);
                proof {
                    payload.lemma_round_trip();
                }
                Some(Message { tag: payload.tag(), author, body, signature })
            },
            None => None,
        }
    }

    /// Whether the signature verifies against the author over the payload.
    pub fn verify(&self) -> (r: bool)
        ensures
            r == ed25519_verifies(self.body@, self.signature@, self.author@),
    {
        verify(&self.signature, self.body.as_slice(), &self.author)
    }

    /// Opens the envelope: verifies the signature, then validates and reads
    /// the payload under the tag.
    pub fn open(&self) -> (r: Result<ConsensusMessage, EncodingError>)
        ensures
            match r {
                Ok(message) => self.opened() == Ok::<(u16, Seq<Val>), EncodingError>(
                    (message.tag_of(), message.model()),
                ),
                Err(e) => self.opened() == Err::<(u16, Seq<Val>), EncodingError>(e),
            },
    {
        if !self.verify() {
            return Err(EncodingError::SignatureInvalid);
        }
        ConsensusMessage::decode(self.tag, self.body.as_slice())
    }
}

} // verus!
