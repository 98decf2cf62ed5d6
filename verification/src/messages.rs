//! The messages of the consensus protocol, each a structured message with
//! a fixed schema.

use vstd::prelude::*;
use vstd::slice::slice_to_vec;
use crate::check::check_record;
use crate::crypto::PublicKey;
use crate::error::EncodingError;
use crate::field::{
    FieldType, Ty, Val, Value, all_of_type, has_type, have_types, lemma_types, lemma_views,
    lemma_views_push, texts, types, views,
};
use crate::helpers::{Height, Round, ValidatorId};
use crate::json::{all_reversible, distinct, reversible};
use crate::layout::record_bytes;
use crate::read::read_fields;
use crate::schema::{StructuredMessage, decode_message, encodable, encode_message};
use crate::time::Timestamp;
use crate::typing::all_conform;

verus! {

/// The values that stand for a sequence of hashes in a list field.
pub open spec fn hash_vals(hashes: Seq<crate::crypto::Hash>) -> Seq<Val> {
    Seq::new(hashes.len(), |i: int| Val::Hash(hashes[i]@))
}

/// The values that stand for a sequence of precommits in a list field.
pub open spec fn precommit_vals(precommits: Seq<Precommit>) -> Seq<Val> {
    Seq::new(precommits.len(), |i: int| Val::Struct(precommits[i].model()))
}

/// The type of a precommit as a field of another message.
pub open spec fn precommit_ty() -> Ty {
    Ty::Struct(Precommit::names(), Precommit::schema())
}

/// Each of the values that stand for precommits has the schema of a
/// precommit.
pub proof fn lemma_precommit_vals_typed(precommits: Seq<Precommit>)
    ensures
        all_of_type(precommit_vals(precommits), precommit_ty()),
{
    assert forall|i: int| 0 <= i < precommits.len() implies has_type(
        #[trigger] precommit_vals(precommits)[i],
        precommit_ty(),
    ) by {
        precommits[i].lemma_model_typed();
    }
}

/// Each of the values that stand for hashes is a hash.
pub proof fn lemma_hash_vals_typed(hashes: Seq<crate::crypto::Hash>)
    ensures
        all_of_type(hash_vals(hashes), Ty::Hash),
{
    assert forall|i: int| 0 <= i < hashes.len() implies has_type(
        #[trigger] hash_vals(hashes)[i],
        Ty::Hash,
    ) by {
        assert(hashes[i]@.len() == 32);
    }
}

/// The list items that stand for `hashes`.
pub fn hashes_to_values(hashes: &Vec<crate::crypto::Hash>) -> (r: Vec<Value>)
    ensures
        views(r@) == hash_vals(hashes@),
{
    let mut out: Vec<Value> = Vec::new();
    let mut i: usize = 0;
    assert(views(out@) =~= hash_vals(hashes@.take(0)));
    while i < hashes.len()
        invariant
            i <= hashes@.len(),
            views(out@) == hash_vals(hashes@.take(i as int)),
        decreases hashes@.len() - i,
    {
        proof {
            lemma_views_push(out@, Value::Hash(hashes@[i as int].0));
            assert(hash_vals(hashes@.take(i + 1)) =~= hash_vals(hashes@.take(i as int)).push(
                Val::Hash(hashes@[i as int]@),
            ));
        }
        out.push(Value::Hash(hashes[i].0));
        i += 1;
    }
    assert(hashes@.take(i as int) =~= hashes@);
    out
}

/// The hashes that the list items `values` stand for, if each of them is a
/// hash.
pub fn values_to_hashes(values: &Vec<Value>) -> (r: Option<Vec<crate::crypto::Hash>>)
    ensures
        r is Some <==> all_of_type(views(values@), Ty::Hash),
        r matches Some(hashes) ==> hash_vals(hashes@) == views(values@),
{
    let ghost vals = views(values@);
    let mut out: Vec<crate::crypto::Hash> = Vec::new();
    let mut i: usize = 0;
    proof {
        lemma_views(values@);
        assert(hash_vals(out@) =~= vals.take(0));
    }
    while i < values.len()
        invariant
            i <= values@.len(),
            vals == views(values@),
            vals.len() == values@.len(),
            forall|j: int| 0 <= j < values@.len() ==> (#[trigger] vals[j]) == values@[j]@,
            hash_vals(out@) == vals.take(i as int),
        decreases values@.len() - i,
    {
        match values[i].as_hash() {
            Some(bytes) => {
                proof {
                    let next = crate::crypto::Hash(bytes);
                    assert(vals[i as int] == Val::Hash(next@));
                    assert(vals.take(i + 1) =~= vals.take(i as int).push(vals[i as int]));
                    assert(hash_vals(out@.push(next)) =~= hash_vals(out@).push(Val::Hash(next@)));
                }
                out.push(crate::crypto::Hash(bytes));
            },
            None => {
                assert(!has_type(vals[i as int], Ty::Hash));
                return None;
            },
        }
        i += 1;
    }
    proof {
        assert(vals.take(i as int) =~= vals);
        lemma_hash_vals_typed(out@);
    }
    Some(out)
}

/// The list items that stand for `precommits`.
pub fn precommits_to_values(precommits: &Vec<Precommit>) -> (r: Vec<Value>)
    ensures
        views(r@) == precommit_vals(precommits@),
{
    let mut out: Vec<Value> = Vec::new();
    let mut i: usize = 0;
    assert(views(out@) =~= precommit_vals(precommits@.take(0)));
    while i < precommits.len()
        invariant
            i <= precommits@.len(),
            views(out@) == precommit_vals(precommits@.take(i as int)),
        decreases precommits@.len() - i,
    {
        let item = Value::Struct(precommits[i].to_values());
        proof {
            lemma_views_push(out@, item);
            assert(precommit_vals(precommits@.take(i + 1)) =~= precommit_vals(
                precommits@.take(i as int),
            ).push(Val::Struct(precommits@[i as int].model())));
        }
        out.push(item);
        i += 1;
    }
    assert(precommits@.take(i as int) =~= precommits@);
    out
}

/// The precommits that the list items `values` stand for, if each of them
/// has the schema of a precommit.
pub fn values_to_precommits(values: &Vec<Value>) -> (r: Option<Vec<Precommit>>)
    ensures
        r is Some <==> all_of_type(views(values@), precommit_ty()),
        r matches Some(precommits) ==> precommit_vals(precommits@) == views(values@),
{
    let ghost vals = views(values@);
    let mut out: Vec<Precommit> = Vec::new();
    let mut i: usize = 0;
    proof {
        lemma_views(values@);
        assert(precommit_vals(out@) =~= vals.take(0));
    }
    while i < values.len()
        invariant
            i <= values@.len(),
            vals == views(values@),
            vals.len() == values@.len(),
            forall|j: int| 0 <= j < values@.len() ==> (#[trigger] vals[j]) == values@[j]@,
            precommit_vals(out@) == vals.take(i as int),
        decreases values@.len() - i,
    {
        let item = match values[i].as_struct() {
            Some(inner) => Precommit::from_values(inner),
            None => None,
        };
        match item {
            Some(precommit) => {
                proof {
                    assert(vals[i as int] == Val::Struct(precommit.model()));
                    assert(vals.take(i + 1) =~= vals.take(i as int).push(vals[i as int]));
                    assert(precommit_vals(out@.push(precommit)) =~= precommit_vals(out@).push(
                        Val::Struct(precommit.model()),
                    ));
                }
                out.push(precommit);
            },
            None => {
                assert(!has_type(vals[i as int], precommit_ty()));
                return None;
            },
        }
        i += 1;
    }
    proof {
        assert(vals.take(i as int) =~= vals);
        lemma_precommit_vals_typed(out@);
    }
    Some(out)
}

/// A node announces the address at which peers can reach it.
#[derive(Clone, Debug, PartialEq, Eq)]
pub struct Connect {
    pub pub_addr: String,
    pub time: Timestamp,
    pub user_agent: String,
}

impl Connect {
    pub fn new(pub_addr: &str, time: Timestamp, user_agent: &str) -> (r: Connect)
        ensures
            r.pub_addr@ == pub_addr@,
            r.time == time,
            r.user_agent@ == user_agent@,
    {
        Connect { pub_addr: pub_addr.to_owned(), time, user_agent: user_agent.to_owned() }
    }

    pub fn pub_addr(&self) -> (r: &str)
        ensures
            r@ == self.pub_addr@,
    {
        self.pub_addr.as_str()
    }

    pub fn time(&self) -> (r: Timestamp)
        ensures
            r == self.time,
    {
        self.time
    }

    pub fn user_agent(&self) -> (r: &str)
        ensures
            r@ == self.user_agent@,
    {
        self.user_agent.as_str()
    }
}

impl StructuredMessage for Connect {
    open spec fn schema() -> Seq<Ty> {
        seq![Ty::Str, Ty::Timestamp, Ty::Str]
    }

    open spec fn names() -> Seq<Seq<char>> {
        seq!["pub_addr"@, "time"@, "user_agent"@]
    }

    open spec fn model(&self) -> Seq<Val> {
        seq![Val::Str(self.pub_addr@), Val::Timestamp(self.time), Val::Str(self.user_agent@)]
    }

    proof fn lemma_model_typed(&self) {
    }

    proof fn lemma_reversible() {
        reveal_strlit("pub_addr");
        reveal_strlit("time");
        reveal_strlit("user_agent");
        let names = Self::names();
        let tys = Self::schema();
        assert(names.len() == tys.len());
        assert forall|i: int, j: int| 0 <= i < j < names.len() implies names[i]
            != names[j] by {
            if i == 0 && j == 1 {
                assert("pub_addr"@.len() != "time"@.len());
            }
            if i == 0 && j == 2 {
                assert("pub_addr"@.len() != "user_agent"@.len());
            }
            if i == 1 && j == 2 {
                assert("time"@.len() != "user_agent"@.len());
            }
        }
        assert(distinct(names));
        assert forall|i: int| 0 <= i < tys.len() implies reversible(
            #[trigger] tys[i],
        ) by {
        }
        assert(all_reversible(tys));
    }

    fn fields() -> (r: Vec<FieldType>) {
        let r = vec![FieldType::Str, FieldType::Timestamp, FieldType::Str];
        proof {
            lemma_types(r@);
            assert(types(r@) =~= Self::schema());
        }
        r
    }

    fn field_names() -> (r: Vec<String>) {
        let r = vec!["pub_addr".to_owned(), "time".to_owned(), "user_agent".to_owned()];
        assert(texts(r@) =~= Self::names());
        r
    }

    fn to_values(&self) -> (r: Vec<Value>) {
        let r = vec![
            Value::Str(self.pub_addr.clone()),
            Value::Timestamp(self.time),
            Value::Str(self.user_agent.clone()),
        ];
        proof {
            lemma_views(r@);
            assert(views(r@) =~= self.model());
        }
        r
    }

    fn from_values(values: &Vec<Value>) -> (r: Option<Connect>) {
        let fields = Self::fields();
        if !all_conform(values, &fields) {
            return None;
        }
        proof {
            lemma_views(values@);
            let vals = views(values@);
            assert(has_type(vals[0], Self::schema()[0]));
            assert(has_type(vals[1], Self::schema()[1]));
            assert(has_type(vals[2], Self::schema()[2]));
        }
        let pub_addr = match values[0].as_str() {
            Some(x) => x.clone(),
            None => {
                return None;
            },
        };
        let time = match values[1].as_timestamp() {
            Some(x) => x,
            None => {
                return None;
            },
        };
        let user_agent = match values[2].as_str() {
            Some(x) => x.clone(),
            None => {
                return None;
            },
        };
        let message = Connect {pub_addr, time, user_agent};
        assert(message.model() =~= views(values@));
        Some(message)
    }
}

/// A validator proposes the next block.
#[derive(Clone, Debug, PartialEq, Eq)]
pub struct Propose {
    pub validator: ValidatorId,
    pub height: Height,
    pub round: Round,
    pub prev_hash: crate::crypto::Hash,
    pub transactions: Vec<crate::crypto::Hash>,
}

impl Propose {
    pub fn new(
        validator: ValidatorId,
        height: Height,
        round: Round,
        prev_hash: &crate::crypto::Hash,
        transactions: &[crate::crypto::Hash],
    ) -> (r: Propose)
        ensures
            r.validator == validator,
            r.height == height,
            r.round == round,
            r.prev_hash == *prev_hash,
            r.transactions@ == transactions@,
    {
        Propose {
            validator,
            height,
            round,
            prev_hash: *prev_hash,
            transactions: slice_to_vec(transactions),
        }
    }

    pub fn validator(&self) -> (r: ValidatorId)
        ensures
            r == self.validator,
    {
        self.validator
    }

    pub fn height(&self) -> (r: Height)
        ensures
            r == self.height,
    {
        self.height
    }

    pub fn round(&self) -> (r: Round)
        ensures
            r == self.round,
    {
        self.round
    }

    pub fn prev_hash(&self) -> (r: &crate::crypto::Hash)
        ensures
            *r == self.prev_hash,
    {
        &self.prev_hash
    }

    pub fn transactions(&self) -> (r: &[crate::crypto::Hash])
        ensures
            r@ == self.transactions@,
    {
        self.transactions.as_slice()
    }
}

impl StructuredMessage for Propose {
    open spec fn schema() -> Seq<Ty> {
        seq![Ty::U16, Ty::U64, Ty::U32, Ty::Hash, Ty::List(Box::new(Ty::Hash))]
    }

    open spec fn names() -> Seq<Seq<char>> {
        seq!["validator"@, "height"@, "round"@, "prev_hash"@, "transactions"@]
    }

    open spec fn model(&self) -> Seq<Val> {
        seq![
            Val::U16(self.validator.0),
            Val::U64(self.height.0),
            Val::U32(self.round.0),
            Val::Hash(self.prev_hash@),
            Val::List(hash_vals(self.transactions@)),
        ]
    }

    proof fn lemma_model_typed(&self) {
        lemma_hash_vals_typed(self.transactions@);
    }

    proof fn lemma_reversible() {
        reveal_strlit("validator");
        reveal_strlit("height");
        reveal_strlit("round");
        reveal_strlit("prev_hash");
        reveal_strlit("transactions");
        let names = Self::names();
        let tys = Self::schema();
        assert(names.len() == tys.len());
        assert forall|i: int, j: int| 0 <= i < j < names.len() implies names[i]
            != names[j] by {
            if i == 0 && j == 1 {
                assert("validator"@.len() != "height"@.len());
            }
            if i == 0 && j == 2 {
                assert("validator"@.len() != "round"@.len());
            }
            if i == 0 && j == 3 {
                assert("validator"@[0] != "prev_hash"@[0]);
            }
            if i == 0 && j == 4 {
                assert("validator"@.len() != "transactions"@.len());
            }
            if i == 1 && j == 2 {
                assert("height"@.len() != "round"@.len());
            }
            if i == 1 && j == 3 {
                assert("height"@.len() != "prev_hash"@.len());
            }
            if i == 1 && j == 4 {
                assert("height"@.len() != "transactions"@.len());
            }
            if i == 2 && j == 3 {
                assert("round"@.len() != "prev_hash"@.len());
            }
            if i == 2 && j == 4 {
                assert("round"@.len() != "transactions"@.len());
            }
            if i == 3 && j == 4 {
                assert("prev_hash"@.len() != "transactions"@.len());
            }
        }
        assert(distinct(names));
        assert forall|i: int| 0 <= i < tys.len() implies reversible(
            #[trigger] tys[i],
        ) by {
            if i == 4 {
                assert(reversible(Ty::Hash));
            }
        }
        assert(all_reversible(tys));
    }

    fn fields() -> (r: Vec<FieldType>) {
        let hash = FieldType::Hash;
        assert(hash@ == Ty::Hash);
        let transactions = FieldType::List(Box::new(hash));
        let r = vec![FieldType::U16, FieldType::U64, FieldType::U32, FieldType::Hash, transactions];
        proof {
            lemma_types(r@);
            assert(types(r@) =~= Self::schema());
        }
        r
    }

    fn field_names() -> (r: Vec<String>) {
        let r = vec![
            "validator".to_owned(),
            "height".to_owned(),
            "round".to_owned(),
            "prev_hash".to_owned(),
            "transactions".to_owned(),
        ];
        assert(texts(r@) =~= Self::names());
        r
    }

    fn to_values(&self) -> (r: Vec<Value>) {
        let r = vec![
            Value::U16(self.validator.0),
            Value::U64(self.height.0),
            Value::U32(self.round.0),
            Value::Hash(self.prev_hash.0),
            Value::List(hashes_to_values(&self.transactions)),
        ];
        proof {
            lemma_views(r@);
            assert(views(r@) =~= self.model());
        }
        r
    }

    fn from_values(values: &Vec<Value>) -> (r: Option<Propose>) {
        let fields = Self::fields();
        if !all_conform(values, &fields) {
            return None;
        }
        proof {
            lemma_views(values@);
            let vals = views(values@);
            assert(has_type(vals[0], Self::schema()[0]));
            assert(has_type(vals[1], Self::schema()[1]));
            assert(has_type(vals[2], Self::schema()[2]));
            assert(has_type(vals[3], Self::schema()[3]));
            assert(has_type(vals[4], Self::schema()[4]));
        }
        let validator = match values[0].as_u16() {
            Some(x) => ValidatorId(x),
            None => {
                return None;
            },
        };
        let height = match values[1].as_u64() {
            Some(x) => Height(x),
            None => {
                return None;
            },
        };
        let round = match values[2].as_u32() {
            Some(x) => Round(x),
            None => {
                return None;
            },
        };
        let prev_hash = match values[3].as_hash() {
            Some(x) => crate::crypto::Hash(x),
            None => {
                return None;
            },
        };
        let transactions_found = match values[4].as_list() {
            Some(items) => values_to_hashes(items),
            None => None,
        };
        let transactions = match transactions_found {
            Some(x) => x,
            None => {
                return None;
            },
        };
        let message = Propose {validator, height, round, prev_hash, transactions};
        assert(message.model() =~= views(values@));
        Some(message)
    }
}

/// A validator votes to lock on a proposal.
#[derive(Clone, Debug, PartialEq, Eq)]
pub struct Prevote {
    pub validator: ValidatorId,
    pub height: Height,
    pub round: Round,
    pub propose_hash: crate::crypto::Hash,
    pub locked_round: Round,
}

impl Prevote {
    pub fn new(
        validator: ValidatorId,
        height: Height,
        round: Round,
        propose_hash: &crate::crypto::Hash,
        locked_round: Round,
    ) -> (r: Prevote)
        ensures
            r.validator == validator,
            r.height == height,
            r.round == round,
            r.propose_hash == *propose_hash,
            r.locked_round == locked_round,
    {
        Prevote { validator, height, round, propose_hash: *propose_hash, locked_round }
    }

    pub fn validator(&self) -> (r: ValidatorId)
        ensures
            r == self.validator,
    {
        self.validator
    }

    pub fn height(&self) -> (r: Height)
        ensures
            r == self.height,
    {
        self.height
    }

    pub fn round(&self) -> (r: Round)
        ensures
            r == self.round,
    {
        self.round
    }

    pub fn propose_hash(&self) -> (r: &crate::crypto::Hash)
        ensures
            *r == self.propose_hash,
    {
        &self.propose_hash
    }

    pub fn locked_round(&self) -> (r: Round)
        ensures
            r == self.locked_round,
    {
        self.locked_round
    }
}

impl StructuredMessage for Prevote {
    open spec fn schema() -> Seq<Ty> {
        seq![Ty::U16, Ty::U64, Ty::U32, Ty::Hash, Ty::U32]
    }

    open spec fn names() -> Seq<Seq<char>> {
        seq!["validator"@, "height"@, "round"@, "propose_hash"@, "locked_round"@]
    }

    open spec fn model(&self) -> Seq<Val> {
        seq![
            Val::U16(self.validator.0),
            Val::U64(self.height.0),
            Val::U32(self.round.0),
            Val::Hash(self.propose_hash@),
            Val::U32(self.locked_round.0),
        ]
    }

    proof fn lemma_model_typed(&self) {
    }

    proof fn lemma_reversible() {
        reveal_strlit("validator");
        reveal_strlit("height");
        reveal_strlit("round");
        reveal_strlit("propose_hash");
        reveal_strlit("locked_round");
        let names = Self::names();
        let tys = Self::schema();
        assert(names.len() == tys.len());
        assert forall|i: int, j: int| 0 <= i < j < names.len() implies names[i]
            != names[j] by {
            if i == 0 && j == 1 {
                assert("validator"@.len() != "height"@.len());
            }
            if i == 0 && j == 2 {
                assert("validator"@.len() != "round"@.len());
            }
            if i == 0 && j == 3 {
                assert("validator"@.len() != "propose_hash"@.len());
            }
            if i == 0 && j == 4 {
                assert("validator"@.len() != "locked_round"@.len());
            }
            if i == 1 && j == 2 {
                assert("height"@.len() != "round"@.len());
            }
            if i == 1 && j == 3 {
                assert("height"@.len() != "propose_hash"@.len());
            }
            if i == 1 && j == 4 {
                assert("height"@.len() != "locked_round"@.len());
            }
            if i == 2 && j == 3 {
                assert("round"@.len() != "propose_hash"@.len());
            }
            if i == 2 && j == 4 {
                assert("round"@.len() != "locked_round"@.len());
            }
            if i == 3 && j == 4 {
                assert("propose_hash"@[0] != "locked_round"@[0]);
            }
        }
        assert(distinct(names));
        assert forall|i: int| 0 <= i < tys.len() implies reversible(
            #[trigger] tys[i],
        ) by {
        }
        assert(all_reversible(tys));
    }

    fn fields() -> (r: Vec<FieldType>) {
        let r = vec![
            FieldType::U16,
            FieldType::U64,
            FieldType::U32,
            FieldType::Hash,
            FieldType::U32,
        ];
        proof {
            lemma_types(r@);
            assert(types(r@) =~= Self::schema());
        }
        r
    }

    fn field_names() -> (r: Vec<String>) {
        let r = vec![
            "validator".to_owned(),
            "height".to_owned(),
            "round".to_owned(),
            "propose_hash".to_owned(),
            "locked_round".to_owned(),
        ];
        assert(texts(r@) =~= Self::names());
        r
    }

    fn to_values(&self) -> (r: Vec<Value>) {
        let r = vec![
            Value::U16(self.validator.0),
            Value::U64(self.height.0),
            Value::U32(self.round.0),
            Value::Hash(self.propose_hash.0),
            Value::U32(self.locked_round.0),
        ];
        proof {
            lemma_views(r@);
            assert(views(r@) =~= self.model());
        }
        r
    }

    fn from_values(values: &Vec<Value>) -> (r: Option<Prevote>) {
        let fields = Self::fields();
        if !all_conform(values, &fields) {
            return None;
        }
        proof {
            lemma_views(values@);
            let vals = views(values@);
            assert(has_type(vals[0], Self::schema()[0]));
            assert(has_type(vals[1], Self::schema()[1]));
            assert(has_type(vals[2], Self::schema()[2]));
            assert(has_type(vals[3], Self::schema()[3]));
            assert(has_type(vals[4], Self::schema()[4]));
        }
        let validator = match values[0].as_u16() {
            Some(x) => ValidatorId(x),
            None => {
                return None;
            },
        };
        let height = match values[1].as_u64() {
            Some(x) => Height(x),
            None => {
                return None;
            },
        };
        let round = match values[2].as_u32() {
            Some(x) => Round(x),
            None => {
                return None;
            },
        };
        let propose_hash = match values[3].as_hash() {
            Some(x) => crate::crypto::Hash(x),
            None => {
                return None;
            },
        };
        let locked_round = match values[4].as_u32() {
            Some(x) => Round(x),
            None => {
                return None;
            },
        };
        let message = Prevote {validator, height, round, propose_hash, locked_round};
        assert(message.model() =~= views(values@));
        Some(message)
    }
}

/// A validator votes to commit a block.
#[derive(Clone, Debug, PartialEq, Eq)]
pub struct Precommit {
    pub validator: ValidatorId,
    pub height: Height,
    pub round: Round,
    pub propose_hash: crate::crypto::Hash,
    pub block_hash: crate::crypto::Hash,
    pub time: Timestamp,
}

impl Precommit {
    pub fn new(
        validator: ValidatorId,
        height: Height,
        round: Round,
        propose_hash: &crate::crypto::Hash,
        block_hash: &crate::crypto::Hash,
        time: Timestamp,
    ) -> (r: Precommit)
        ensures
            r.validator == validator,
            r.height == height,
            r.round == round,
            r.propose_hash == *propose_hash,
            r.block_hash == *block_hash,
            r.time == time,
    {
        Precommit {
            validator,
            height,
            round,
            propose_hash: *propose_hash,
            block_hash: *block_hash,
            time,
        }
    }

    pub fn validator(&self) -> (r: ValidatorId)
        ensures
            r == self.validator,
    {
        self.validator
    }

    pub fn height(&self) -> (r: Height)
        ensures
            r == self.height,
    {
        self.height
    }

    pub fn round(&self) -> (r: Round)
        ensures
            r == self.round,
    {
        self.round
    }

    pub fn propose_hash(&self) -> (r: &crate::crypto::Hash)
        ensures
            *r == self.propose_hash,
    {
        &self.propose_hash
    }

    pub fn block_hash(&self) -> (r: &crate::crypto::Hash)
        ensures
            *r == self.block_hash,
    {
        &self.block_hash
    }

    pub fn time(&self) -> (r: Timestamp)
        ensures
            r == self.time,
    {
        self.time
    }
}

impl StructuredMessage for Precommit {
    open spec fn schema() -> Seq<Ty> {
        seq![Ty::U16, Ty::U64, Ty::U32, Ty::Hash, Ty::Hash, Ty::Timestamp]
    }

    open spec fn names() -> Seq<Seq<char>> {
        seq!["validator"@, "height"@, "round"@, "propose_hash"@, "block_hash"@, "time"@]
    }

    open spec fn model(&self) -> Seq<Val> {
        seq![
            Val::U16(self.validator.0),
            Val::U64(self.height.0),
            Val::U32(self.round.0),
            Val::Hash(self.propose_hash@),
            Val::Hash(self.block_hash@),
            Val::Timestamp(self.time),
        ]
    }

    proof fn lemma_model_typed(&self) {
    }

    proof fn lemma_reversible() {
        reveal_strlit("validator");
        reveal_strlit("height");
        reveal_strlit("round");
        reveal_strlit("propose_hash");
        reveal_strlit("block_hash");
        reveal_strlit("time");
        let names = Self::names();
        let tys = Self::schema();
        assert(names.len() == tys.len());
        assert forall|i: int, j: int| 0 <= i < j < names.len() implies names[i]
            != names[j] by {
            if i == 0 && j == 1 {
                assert("validator"@.len() != "height"@.len());
            }
            if i == 0 && j == 2 {
                assert("validator"@.len() != "round"@.len());
            }
            if i == 0 && j == 3 {
                assert("validator"@.len() != "propose_hash"@.len());
            }
            if i == 0 && j == 4 {
                assert("validator"@.len() != "block_hash"@.len());
            }
            if i == 0 && j == 5 {
                assert("validator"@.len() != "time"@.len());
            }
            if i == 1 && j == 2 {
                assert("height"@.len() != "round"@.len());
            }
            if i == 1 && j == 3 {
                assert("height"@.len() != "propose_hash"@.len());
            }
            if i == 1 && j == 4 {
                assert("height"@.len() != "block_hash"@.len());
            }
            if i == 1 && j == 5 {
                assert("height"@.len() != "time"@.len());
            }
            if i == 2 && j == 3 {
                assert("round"@.len() != "propose_hash"@.len());
            }
            if i == 2 && j == 4 {
                assert("round"@.len() != "block_hash"@.len());
            }
            if i == 2 && j == 5 {
                assert("round"@.len() != "time"@.len());
            }
            if i == 3 && j == 4 {
                assert("propose_hash"@.len() != "block_hash"@.len());
            }
            if i == 3 && j == 5 {
                assert("propose_hash"@.len() != "time"@.len());
            }
            if i == 4 && j == 5 {
                assert("block_hash"@.len() != "time"@.len());
            }
        }
        assert(distinct(names));
        assert forall|i: int| 0 <= i < tys.len() implies reversible(
            #[trigger] tys[i],
        ) by {
        }
        assert(all_reversible(tys));
    }

    fn fields() -> (r: Vec<FieldType>) {
        let r = vec![
            FieldType::U16,
            FieldType::U64,
            FieldType::U32,
            FieldType::Hash,
            FieldType::Hash,
            FieldType::Timestamp,
        ];
        proof {
            lemma_types(r@);
            assert(types(r@) =~= Self::schema());
        }
        r
    }

    fn field_names() -> (r: Vec<String>) {
        let r = vec![
            "validator".to_owned(),
            "height".to_owned(),
            "round".to_owned(),
            "propose_hash".to_owned(),
            "block_hash".to_owned(),
            "time".to_owned(),
        ];
        assert(texts(r@) =~= Self::names());
        r
    }

    fn to_values(&self) -> (r: Vec<Value>) {
        let r = vec![
            Value::U16(self.validator.0),
            Value::U64(self.height.0),
            Value::U32(self.round.0),
            Value::Hash(self.propose_hash.0),
            Value::Hash(self.block_hash.0),
            Value::Timestamp(self.time),
        ];
        proof {
            lemma_views(r@);
            assert(views(r@) =~= self.model());
        }
        r
    }

    fn from_values(values: &Vec<Value>) -> (r: Option<Precommit>) {
        let fields = Self::fields();
        if !all_conform(values, &fields) {
            return None;
        }
        proof {
            lemma_views(values@);
            let vals = views(values@);
            assert(has_type(vals[0], Self::schema()[0]));
            assert(has_type(vals[1], Self::schema()[1]));
            assert(has_type(vals[2], Self::schema()[2]));
            assert(has_type(vals[3], Self::schema()[3]));
            assert(has_type(vals[4], Self::schema()[4]));
            assert(has_type(vals[5], Self::schema()[5]));
        }
        let validator = match values[0].as_u16() {
            Some(x) => ValidatorId(x),
            None => {
                return None;
            },
        };
        let height = match values[1].as_u64() {
            Some(x) => Height(x),
            None => {
                return None;
            },
        };
        let round = match values[2].as_u32() {
            Some(x) => Round(x),
            None => {
                return None;
            },
        };
        let propose_hash = match values[3].as_hash() {
            Some(x) => crate::crypto::Hash(x),
            None => {
                return None;
            },
        };
        let block_hash = match values[4].as_hash() {
            Some(x) => crate::crypto::Hash(x),
            None => {
                return None;
            },
        };
        let time = match values[5].as_timestamp() {
            Some(x) => x,
            None => {
                return None;
            },
        };
        let message = Precommit {validator, height, round, propose_hash, block_hash, time};
        assert(message.model() =~= views(values@));
        Some(message)
    }
}

/// A node tells its peers of the height it has reached.
#[derive(Clone, Debug, PartialEq, Eq)]
pub struct Status {
    pub height: Height,
    pub last_hash: crate::crypto::Hash,
}

impl Status {
    pub fn new(height: Height, last_hash: &crate::crypto::Hash) -> (r: Status)
        ensures
            r.height == height,
            r.last_hash == *last_hash,
    {
        Status { height, last_hash: *last_hash }
    }

    pub fn height(&self) -> (r: Height)
        ensures
            r == self.height,
    {
        self.height
    }

    pub fn last_hash(&self) -> (r: &crate::crypto::Hash)
        ensures
            *r == self.last_hash,
    {
        &self.last_hash
    }
}

impl StructuredMessage for Status {
    open spec fn schema() -> Seq<Ty> {
        seq![Ty::U64, Ty::Hash]
    }

    open spec fn names() -> Seq<Seq<char>> {
        seq!["height"@, "last_hash"@]
    }

    open spec fn model(&self) -> Seq<Val> {
        seq![Val::U64(self.height.0), Val::Hash(self.last_hash@)]
    }

    proof fn lemma_model_typed(&self) {
    }

    proof fn lemma_reversible() {
        reveal_strlit("height");
        reveal_strlit("last_hash");
        let names = Self::names();
        let tys = Self::schema();
        assert(names.len() == tys.len());
        assert forall|i: int, j: int| 0 <= i < j < names.len() implies names[i]
            != names[j] by {
            if i == 0 && j == 1 {
                assert("height"@.len() != "last_hash"@.len());
            }
        }
        assert(distinct(names));
        assert forall|i: int| 0 <= i < tys.len() implies reversible(
            #[trigger] tys[i],
        ) by {
        }
        assert(all_reversible(tys));
    }

    fn fields() -> (r: Vec<FieldType>) {
        let r = vec![FieldType::U64, FieldType::Hash];
        proof {
            lemma_types(r@);
            assert(types(r@) =~= Self::schema());
        }
        r
    }

    fn field_names() -> (r: Vec<String>) {
        let r = vec!["height".to_owned(), "last_hash".to_owned()];
        assert(texts(r@) =~= Self::names());
        r
    }

    fn to_values(&self) -> (r: Vec<Value>) {
        let r = vec![Value::U64(self.height.0), Value::Hash(self.last_hash.0)];
        proof {
            lemma_views(r@);
            assert(views(r@) =~= self.model());
        }
        r
    }

    fn from_values(values: &Vec<Value>) -> (r: Option<Status>) {
        let fields = Self::fields();
        if !all_conform(values, &fields) {
            return None;
        }
        proof {
            lemma_views(values@);
            let vals = views(values@);
            assert(has_type(vals[0], Self::schema()[0]));
            assert(has_type(vals[1], Self::schema()[1]));
        }
        let height = match values[0].as_u64() {
            Some(x) => Height(x),
            None => {
                return None;
            },
        };
        let last_hash = match values[1].as_hash() {
            Some(x) => crate::crypto::Hash(x),
            None => {
                return None;
            },
        };
        let message = Status {height, last_hash};
        assert(message.model() =~= views(values@));
        Some(message)
    }
}

/// A node asks a peer for the block at a height.
#[derive(Clone, Debug, PartialEq, Eq)]
pub struct BlockRequest {
    pub to: PublicKey,
    pub height: Height,
}

impl BlockRequest {
    pub fn new(to: &PublicKey, height: Height) -> (r: BlockRequest)
        ensures
            r.to == *to,
            r.height == height,
    {
        BlockRequest { to: *to, height }
    }

    pub fn to(&self) -> (r: &PublicKey)
        ensures
            *r == self.to,
    {
        &self.to
    }

    pub fn height(&self) -> (r: Height)
        ensures
            r == self.height,
    {
        self.height
    }
}

impl StructuredMessage for BlockRequest {
    open spec fn schema() -> Seq<Ty> {
        seq![Ty::PublicKey, Ty::U64]
    }

    open spec fn names() -> Seq<Seq<char>> {
        seq!["to"@, "height"@]
    }

    open spec fn model(&self) -> Seq<Val> {
        seq![Val::PublicKey(self.to@), Val::U64(self.height.0)]
    }

    proof fn lemma_model_typed(&self) {
    }

    proof fn lemma_reversible() {
        reveal_strlit("to");
        reveal_strlit("height");
        let names = Self::names();
        let tys = Self::schema();
        assert(names.len() == tys.len());
        assert forall|i: int, j: int| 0 <= i < j < names.len() implies names[i]
            != names[j] by {
            if i == 0 && j == 1 {
                assert("to"@.len() != "height"@.len());
            }
        }
        assert(distinct(names));
        assert forall|i: int| 0 <= i < tys.len() implies reversible(
            #[trigger] tys[i],
        ) by {
        }
        assert(all_reversible(tys));
    }

    fn fields() -> (r: Vec<FieldType>) {
        let r = vec![FieldType::PublicKey, FieldType::U64];
        proof {
            lemma_types(r@);
            assert(types(r@) =~= Self::schema());
        }
        r
    }

    fn field_names() -> (r: Vec<String>) {
        let r = vec!["to".to_owned(), "height".to_owned()];
        assert(texts(r@) =~= Self::names());
        r
    }

    fn to_values(&self) -> (r: Vec<Value>) {
        let r = vec![Value::PublicKey(self.to.0), Value::U64(self.height.0)];
        proof {
            lemma_views(r@);
            assert(views(r@) =~= self.model());
        }
        r
    }

    fn from_values(values: &Vec<Value>) -> (r: Option<BlockRequest>) {
        let fields = Self::fields();
        if !all_conform(values, &fields) {
            return None;
        }
        proof {
            lemma_views(values@);
            let vals = views(values@);
            assert(has_type(vals[0], Self::schema()[0]));
            assert(has_type(vals[1], Self::schema()[1]));
        }
        let to = match values[0].as_public_key() {
            Some(x) => PublicKey(x),
            None => {
                return None;
            },
        };
        let height = match values[1].as_u64() {
            Some(x) => Height(x),
            None => {
                return None;
            },
        };
        let message = BlockRequest {to, height};
        assert(message.model() =~= views(values@));
        Some(message)
    }
}

/// The header of a committed block.
#[derive(Clone, Debug, PartialEq, Eq)]
pub struct Block {
    pub proposer_id: ValidatorId,
    pub height: Height,
    pub tx_count: u32,
    pub prev_hash: crate::crypto::Hash,
    pub tx_hash: crate::crypto::Hash,
    pub state_hash: crate::crypto::Hash,
}

impl Block {
    pub fn new(
        proposer_id: ValidatorId,
        height: Height,
        tx_count: u32,
        prev_hash: &crate::crypto::Hash,
        tx_hash: &crate::crypto::Hash,
        state_hash: &crate::crypto::Hash,
    ) -> (r: Block)
        ensures
            r.proposer_id == proposer_id,
            r.height == height,
            r.tx_count == tx_count,
            r.prev_hash == *prev_hash,
            r.tx_hash == *tx_hash,
            r.state_hash == *state_hash,
    {
        Block {
            proposer_id,
            height,
            tx_count,
            prev_hash: *prev_hash,
            tx_hash: *tx_hash,
            state_hash: *state_hash,
        }
    }

    pub fn proposer_id(&self) -> (r: ValidatorId)
        ensures
            r == self.proposer_id,
    {
        self.proposer_id
    }

    pub fn height(&self) -> (r: Height)
        ensures
            r == self.height,
    {
        self.height
    }

    pub fn tx_count(&self) -> (r: u32)
        ensures
            r == self.tx_count,
    {
        self.tx_count
    }

    pub fn prev_hash(&self) -> (r: &crate::crypto::Hash)
        ensures
            *r == self.prev_hash,
    {
        &self.prev_hash
    }

    pub fn tx_hash(&self) -> (r: &crate::crypto::Hash)
        ensures
            *r == self.tx_hash,
    {
        &self.tx_hash
    }

    pub fn state_hash(&self) -> (r: &crate::crypto::Hash)
        ensures
            *r == self.state_hash,
    {
        &self.state_hash
    }
}

impl StructuredMessage for Block {
    open spec fn schema() -> Seq<Ty> {
        seq![Ty::U16, Ty::U64, Ty::U32, Ty::Hash, Ty::Hash, Ty::Hash]
    }

    open spec fn names() -> Seq<Seq<char>> {
        seq!["proposer_id"@, "height"@, "tx_count"@, "prev_hash"@, "tx_hash"@, "state_hash"@]
    }

    open spec fn model(&self) -> Seq<Val> {
        seq![
            Val::U16(self.proposer_id.0),
            Val::U64(self.height.0),
            Val::U32(self.tx_count),
            Val::Hash(self.prev_hash@),
            Val::Hash(self.tx_hash@),
            Val::Hash(self.state_hash@),
        ]
    }

    proof fn lemma_model_typed(&self) {
    }

    proof fn lemma_reversible() {
        reveal_strlit("proposer_id");
        reveal_strlit("height");
        reveal_strlit("tx_count");
        reveal_strlit("prev_hash");
        reveal_strlit("tx_hash");
        reveal_strlit("state_hash");
        let names = Self::names();
        let tys = Self::schema();
        assert(names.len() == tys.len());
        assert forall|i: int, j: int| 0 <= i < j < names.len() implies names[i]
            != names[j] by {
            if i == 0 && j == 1 {
                assert("proposer_id"@.len() != "height"@.len());
            }
            if i == 0 && j == 2 {
                assert("proposer_id"@.len() != "tx_count"@.len());
            }
            if i == 0 && j == 3 {
                assert("proposer_id"@.len() != "prev_hash"@.len());
            }
            if i == 0 && j == 4 {
                assert("proposer_id"@.len() != "tx_hash"@.len());
            }
            if i == 0 && j == 5 {
                assert("proposer_id"@.len() != "state_hash"@.len());
            }
            if i == 1 && j == 2 {
                assert("height"@.len() != "tx_count"@.len());
            }
            if i == 1 && j == 3 {
                assert("height"@.len() != "prev_hash"@.len());
            }
            if i == 1 && j == 4 {
                assert("height"@.len() != "tx_hash"@.len());
            }
            if i == 1 && j == 5 {
                assert("height"@.len() != "state_hash"@.len());
            }
            if i == 2 && j == 3 {
                assert("tx_count"@.len() != "prev_hash"@.len());
            }
            if i == 2 && j == 4 {
                assert("tx_count"@.len() != "tx_hash"@.len());
            }
            if i == 2 && j == 5 {
                assert("tx_count"@.len() != "state_hash"@.len());
            }
            if i == 3 && j == 4 {
                assert("prev_hash"@.len() != "tx_hash"@.len());
            }
            if i == 3 && j == 5 {
                assert("prev_hash"@.len() != "state_hash"@.len());
            }
            if i == 4 && j == 5 {
                assert("tx_hash"@.len() != "state_hash"@.len());
            }
        }
        assert(distinct(names));
        assert forall|i: int| 0 <= i < tys.len() implies reversible(
            #[trigger] tys[i],
        ) by {
        }
        assert(all_reversible(tys));
    }

    fn fields() -> (r: Vec<FieldType>) {
        let r = vec![
            FieldType::U16,
            FieldType::U64,
            FieldType::U32,
            FieldType::Hash,
            FieldType::Hash,
            FieldType::Hash,
        ];
        proof {
            lemma_types(r@);
            assert(types(r@) =~= Self::schema());
        }
        r
    }

    fn field_names() -> (r: Vec<String>) {
        let r = vec![
            "proposer_id".to_owned(),
            "height".to_owned(),
            "tx_count".to_owned(),
            "prev_hash".to_owned(),
            "tx_hash".to_owned(),
            "state_hash".to_owned(),
        ];
        assert(texts(r@) =~= Self::names());
        r
    }

    fn to_values(&self) -> (r: Vec<Value>) {
        let r = vec![
            Value::U16(self.proposer_id.0),
            Value::U64(self.height.0),
            Value::U32(self.tx_count),
            Value::Hash(self.prev_hash.0),
            Value::Hash(self.tx_hash.0),
            Value::Hash(self.state_hash.0),
        ];
        proof {
            lemma_views(r@);
            assert(views(r@) =~= self.model());
        }
        r
    }

    fn from_values(values: &Vec<Value>) -> (r: Option<Block>) {
        let fields = Self::fields();
        if !all_conform(values, &fields) {
            return None;
        }
        proof {
            lemma_views(values@);
            let vals = views(values@);
            assert(has_type(vals[0], Self::schema()[0]));
            assert(has_type(vals[1], Self::schema()[1]));
            assert(has_type(vals[2], Self::schema()[2]));
            assert(has_type(vals[3], Self::schema()[3]));
            assert(has_type(vals[4], Self::schema()[4]));
            assert(has_type(vals[5], Self::schema()[5]));
        }
        let proposer_id = match values[0].as_u16() {
            Some(x) => ValidatorId(x),
            None => {
                return None;
            },
        };
        let height = match values[1].as_u64() {
            Some(x) => Height(x),
            None => {
                return None;
            },
        };
        let tx_count = match values[2].as_u32() {
            Some(x) => x,
            None => {
                return None;
            },
        };
        let prev_hash = match values[3].as_hash() {
            Some(x) => crate::crypto::Hash(x),
            None => {
                return None;
            },
        };
        let tx_hash = match values[4].as_hash() {
            Some(x) => crate::crypto::Hash(x),
            None => {
                return None;
            },
        };
        let state_hash = match values[5].as_hash() {
            Some(x) => crate::crypto::Hash(x),
            None => {
                return None;
            },
        };
        let message = Block {proposer_id, height, tx_count, prev_hash, tx_hash, state_hash};
        assert(message.model() =~= views(values@));
        Some(message)
    }
}

/// A peer answers a request with a block, the votes that committed it and
/// the hashes of its transactions.
#[derive(Clone, Debug, PartialEq, Eq)]
pub struct BlockResponse {
    pub to: PublicKey,
    pub block: Block,
    pub precommits: Vec<Precommit>,
    pub transactions: Vec<crate::crypto::Hash>,
}

impl BlockResponse {
    pub fn new(
        to: &PublicKey,
        block: Block,
        precommits: Vec<Precommit>,
        transactions: &[crate::crypto::Hash],
    ) -> (r: BlockResponse)
        ensures
            r.to == *to,
            r.block == block,
            r.precommits == precommits,
            r.transactions@ == transactions@,
    {
        BlockResponse { to: *to, block, precommits, transactions: slice_to_vec(transactions) }
    }

    pub fn to(&self) -> (r: &PublicKey)
        ensures
            *r == self.to,
    {
        &self.to
    }

    pub fn block(&self) -> (r: &Block)
        ensures
            *r == self.block,
    {
        &self.block
    }

    pub fn precommits(&self) -> (r: &[Precommit])
        ensures
            r@ == self.precommits@,
    {
        self.precommits.as_slice()
    }

    pub fn transactions(&self) -> (r: &[crate::crypto::Hash])
        ensures
            r@ == self.transactions@,
    {
        self.transactions.as_slice()
    }
}

impl StructuredMessage for BlockResponse {
    open spec fn schema() -> Seq<Ty> {
        seq![
            Ty::PublicKey,
            Ty::Struct(Block::names(), Block::schema()),
            Ty::List(Box::new(precommit_ty())),
            Ty::List(Box::new(Ty::Hash)),
        ]
    }

    open spec fn names() -> Seq<Seq<char>> {
        seq!["to"@, "block"@, "precommits"@, "transactions"@]
    }

    open spec fn model(&self) -> Seq<Val> {
        seq![
            Val::PublicKey(self.to@),
            Val::Struct(self.block.model()),
            Val::List(precommit_vals(self.precommits@)),
            Val::List(hash_vals(self.transactions@)),
        ]
    }

    proof fn lemma_model_typed(&self) {
        self.block.lemma_model_typed();
        lemma_precommit_vals_typed(self.precommits@);
        lemma_hash_vals_typed(self.transactions@);
    }

    proof fn lemma_reversible() {
        reveal_strlit("to");
        reveal_strlit("block");
        reveal_strlit("precommits");
        reveal_strlit("transactions");
        let names = Self::names();
        let tys = Self::schema();
        assert(names.len() == tys.len());
        assert forall|i: int, j: int| 0 <= i < j < names.len() implies names[i]
            != names[j] by {
            if i == 0 && j == 1 {
                assert("to"@.len() != "block"@.len());
            }
            if i == 0 && j == 2 {
                assert("to"@.len() != "precommits"@.len());
            }
            if i == 0 && j == 3 {
                assert("to"@.len() != "transactions"@.len());
            }
            if i == 1 && j == 2 {
                assert("block"@.len() != "precommits"@.len());
            }
            if i == 1 && j == 3 {
                assert("block"@.len() != "transactions"@.len());
            }
            if i == 2 && j == 3 {
                assert("precommits"@.len() != "transactions"@.len());
            }
        }
        assert(distinct(names));
        assert forall|i: int| 0 <= i < tys.len() implies reversible(
            #[trigger] tys[i],
        ) by {
            if i == 1 {
                Block::lemma_reversible();
            }
            if i == 2 {
                Precommit::lemma_reversible();
            }
            if i == 3 {
                assert(reversible(Ty::Hash));
            }
        }
        assert(all_reversible(tys));
    }

    fn fields() -> (r: Vec<FieldType>) {
        let precommit = FieldType::Struct(Precommit::field_names(), Precommit::fields());
        assert(precommit@ == precommit_ty());
        let precommits = FieldType::List(Box::new(precommit));
        let hash = FieldType::Hash;
        assert(hash@ == Ty::Hash);
        let transactions = FieldType::List(Box::new(hash));
        let r = vec![
            FieldType::PublicKey,
            FieldType::Struct(Block::field_names(), Block::fields()),
            precommits,
            transactions,
        ];
        proof {
            lemma_types(r@);
            assert(types(r@) =~= Self::schema());
        }
        r
    }

    fn field_names() -> (r: Vec<String>) {
        let r = vec![
            "to".to_owned(),
            "block".to_owned(),
            "precommits".to_owned(),
            "transactions".to_owned(),
        ];
        assert(texts(r@) =~= Self::names());
        r
    }

    fn to_values(&self) -> (r: Vec<Value>) {
        let r = vec![
            Value::PublicKey(self.to.0),
            Value::Struct(self.block.to_values()),
            Value::List(precommits_to_values(&self.precommits)),
            Value::List(hashes_to_values(&self.transactions)),
        ];
        proof {
            lemma_views(r@);
            assert(views(r@) =~= self.model());
        }
        r
    }

    fn from_values(values: &Vec<Value>) -> (r: Option<BlockResponse>) {
        let fields = Self::fields();
        if !all_conform(values, &fields) {
            return None;
        }
        proof {
            lemma_views(values@);
            let vals = views(values@);
            assert(has_type(vals[0], Self::schema()[0]));
            assert(has_type(vals[1], Self::schema()[1]));
            assert(has_type(vals[2], Self::schema()[2]));
            assert(has_type(vals[3], Self::schema()[3]));
        }
        let to = match values[0].as_public_key() {
            Some(x) => PublicKey(x),
            None => {
                return None;
            },
        };
        let block_found = match values[1].as_struct() {
            Some(inner) => Block::from_values(inner),
            None => None,
        };
        let block = match block_found {
            Some(x) => x,
            None => {
                return None;
            },
        };
        let precommits_found = match values[2].as_list() {
            Some(items) => values_to_precommits(items),
            None => None,
        };
        let precommits = match precommits_found {
            Some(x) => x,
            None => {
                return None;
            },
        };
        let transactions_found = match values[3].as_list() {
            Some(items) => values_to_hashes(items),
            None => None,
        };
        let transactions = match transactions_found {
            Some(x) => x,
            None => {
                return None;
            },
        };
        let message = BlockResponse {to, block, precommits, transactions};
        assert(message.model() =~= views(values@));
        Some(message)
    }
}
pub const CONNECT_TAG: u16 = 0;

pub const STATUS_TAG: u16 = 1;

pub const PROPOSE_TAG: u16 = 2;

pub const PREVOTE_TAG: u16 = 3;

pub const PRECOMMIT_TAG: u16 = 4;

pub const BLOCK_RESPONSE_TAG: u16 = 5;

pub const BLOCK_REQUEST_TAG: u16 = 6;

/// A message of the consensus protocol, of any of its seven kinds.
#[derive(Clone, Debug, PartialEq, Eq)]
pub enum ConsensusMessage {
    Connect(Connect),
    Status(Status),
    Propose(Propose),
    Prevote(Prevote),
    Precommit(Precommit),
    BlockResponse(BlockResponse),
    BlockRequest(BlockRequest),
}

/// The schema of the payload that goes with `tag`, if `tag` names a kind of
/// message.
pub open spec fn payload_schema(tag: u16) -> Option<Seq<Ty>> {
    if tag == CONNECT_TAG {
        Some(Connect::schema())
    } else if tag == STATUS_TAG {
        Some(Status::schema())
    } else if tag == PROPOSE_TAG {
        Some(Propose::schema())
    } else if tag == PREVOTE_TAG {
        Some(Prevote::schema())
    } else if tag == PRECOMMIT_TAG {
        Some(Precommit::schema())
    } else if tag == BLOCK_RESPONSE_TAG {
        Some(BlockResponse::schema())
    } else if tag == BLOCK_REQUEST_TAG {
        Some(BlockRequest::schema())
    } else {
        None
    }
}

/// What decoding the payload `bytes` under `tag` gives: the field values,
/// or why the payload is refused.
pub open spec fn decoded_payload(tag: u16, bytes: Seq<u8>) -> Result<Seq<Val>, EncodingError> {
    match payload_schema(tag) {
        None => Err(EncodingError::IncorrectMessageType),
        Some(schema) => match check_record(schema, bytes) {
            Err(e) => Err(e),
            Ok(_) => Ok(read_fields(schema, bytes, 0, 0)),
        },
    }
}

impl ConsensusMessage {
    /// The tag that tells the kind of this message.
    pub open spec fn tag_of(&self) -> u16 {
        match self {
            ConsensusMessage::Connect(_) => CONNECT_TAG,
            ConsensusMessage::Status(_) => STATUS_TAG,
            ConsensusMessage::Propose(_) => PROPOSE_TAG,
            ConsensusMessage::Prevote(_) => PREVOTE_TAG,
            ConsensusMessage::Precommit(_) => PRECOMMIT_TAG,
            ConsensusMessage::BlockResponse(_) => BLOCK_RESPONSE_TAG,
            ConsensusMessage::BlockRequest(_) => BLOCK_REQUEST_TAG,
        }
    }

    /// The field values of this message.
    pub open spec fn model(&self) -> Seq<Val> {
        match self {
            ConsensusMessage::Connect(m) => m.model(),
            ConsensusMessage::Status(m) => m.model(),
            ConsensusMessage::Propose(m) => m.model(),
            ConsensusMessage::Prevote(m) => m.model(),
            ConsensusMessage::Precommit(m) => m.model(),
            ConsensusMessage::BlockResponse(m) => m.model(),
            ConsensusMessage::BlockRequest(m) => m.model(),
        }
    }

    pub fn tag(&self) -> (r: u16)
        ensures
            r == self.tag_of(),
            payload_schema(r) is Some,
    {
        match self {
            ConsensusMessage::Connect(_) => CONNECT_TAG,
            ConsensusMessage::Status(_) => STATUS_TAG,
            ConsensusMessage::Propose(_) => PROPOSE_TAG,
            ConsensusMessage::Prevote(_) => PREVOTE_TAG,
            ConsensusMessage::Precommit(_) => PRECOMMIT_TAG,
            ConsensusMessage::BlockResponse(_) => BLOCK_RESPONSE_TAG,
            ConsensusMessage::BlockRequest(_) => BLOCK_REQUEST_TAG,
        }
    }

    /// The bytes of the payload, if it can be encoded.
    pub fn encode(&self) -> (r: Option<Vec<u8>>)
        ensures
            r is Some <==> encodable(self.model()),
            r matches Some(bytes) ==> bytes@ == record_bytes(self.model(), 0),
    {
        match self {
            ConsensusMessage::Connect(m) => encode_message(m),
            ConsensusMessage::Status(m) => encode_message(m),
            ConsensusMessage::Propose(m) => encode_message(m),
            ConsensusMessage::Prevote(m) => encode_message(m),
            ConsensusMessage::Precommit(m) => encode_message(m),
            ConsensusMessage::BlockResponse(m) => encode_message(m),
            ConsensusMessage::BlockRequest(m) => encode_message(m),
        }
    }

    /// Validates `bytes` as the payload of a message of the kind that `tag`
    /// names, and reads the message. A tag that names no kind gives
    /// `IncorrectMessageType`; otherwise decoding fails exactly when the
    /// validation against the schema of the kind fails, with its error.
    pub fn decode(tag: u16, bytes: &[u8]) -> (r: Result<ConsensusMessage, EncodingError>)
        ensures
            match r {
                Ok(message) => message.tag_of() == tag && decoded_payload(tag, bytes@) == Ok::<
                    Seq<Val>,
                    EncodingError,
                >(message.model()),
                Err(e) => decoded_payload(tag, bytes@) == Err::<Seq<Val>, EncodingError>(e),
            },
    {
        if tag == CONNECT_TAG {
            match decode_message::<Connect>(bytes) {
                Ok(m) => Ok(ConsensusMessage::Connect(m)),
                Err(e) => Err(e),
            }
        } else if tag == STATUS_TAG {
            match decode_message::<Status>(bytes) {
                Ok(m) => Ok(ConsensusMessage::Status(m)),
                Err(e) => Err(e),
            }
        } else if tag == PROPOSE_TAG {
            match decode_message::<Propose>(bytes) {
                Ok(m) => Ok(ConsensusMessage::Propose(m)),
                Err(e) => Err(e),
            }
        } else if tag == PREVOTE_TAG {
            match decode_message::<Prevote>(bytes) {
                Ok(m) => Ok(ConsensusMessage::Prevote(m)),
                Err(e) => Err(e),
            }
        } else if tag == PRECOMMIT_TAG {
            match decode_message::<Precommit>(bytes) {
                Ok(m) => Ok(ConsensusMessage::Precommit(m)),
                Err(e) => Err(e),
            }
        } else if tag == BLOCK_RESPONSE_TAG {
            match decode_message::<BlockResponse>(bytes) {
                Ok(m) => Ok(ConsensusMessage::BlockResponse(m)),
                Err(e) => Err(e),
            }
        } else if tag == BLOCK_REQUEST_TAG {
            match decode_message::<BlockRequest>(bytes) {
                Ok(m) => Ok(ConsensusMessage::BlockRequest(m)),
                Err(e) => Err(e),
            }
        } else {
            Err(EncodingError::IncorrectMessageType)
        }
    }

    /// The field values of a message have the types of the schema of its
    /// kind.
    pub proof fn lemma_model_typed(&self)
        ensures
            payload_schema(self.tag_of()) is Some,
            have_types(self.model(), payload_schema(self.tag_of())->Some_0),
    {
        match self {
            ConsensusMessage::Connect(m) => m.lemma_model_typed(),
            ConsensusMessage::Status(m) => m.lemma_model_typed(),
            ConsensusMessage::Propose(m) => m.lemma_model_typed(),
            ConsensusMessage::Prevote(m) => m.lemma_model_typed(),
            ConsensusMessage::Precommit(m) => m.lemma_model_typed(),
            ConsensusMessage::BlockResponse(m) => m.lemma_model_typed(),
            ConsensusMessage::BlockRequest(m) => m.lemma_model_typed(),
        }
    }

    /// Decoding the payload of a message under its tag gives back its field
    /// values.
    pub proof fn lemma_round_trip(&self)
        requires
            encodable(self.model()),
        ensures
            decoded_payload(self.tag_of(), record_bytes(self.model(), 0)) == Ok::<
                Seq<Val>,
                EncodingError,
            >(self.model()),
    {
        self.lemma_model_typed();
        crate::laws::lemma_struct_round_trip(
            payload_schema(self.tag_of())->Some_0,
            self.model(),
        );
    }
}

} // verus!
