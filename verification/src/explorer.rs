//! Read-only queries over committed blocks and transactions.

use vstd::prelude::*;
use crate::error::StorageError;

verus! {

/// The exclusive end of the range that holds the one height `height`;
/// nothing where no larger height exists, which stands for "up to the tip".
pub open spec fn end_of(height: u64) -> Option<u64> {
    if height < u64::MAX {
        Some((height + 1) as u64)
    } else {
        None
    }
}

/// The exclusive end of the range that holds the one height `height`;
/// nothing where no larger height exists, which stands for "up to the tip".
pub fn range_end(height: u64) -> (r: Option<u64>)
    ensures
        r == end_of(height),
{
    height.checked_add(1)
}

/// Whether a range query from `from` to `to` asks for the block at
/// `height`, in a chain of `len` blocks whose heights count from zero: the
/// height is at least `from`, below `to` where `to` is given, and below
/// `len`.
pub open spec fn in_range(height: u64, from: u64, to: Option<u64>, len: u64) -> bool {
    &&& from <= height < len
    &&& to matches Some(end) ==> height < end
}

/// The heights `[r.0, r.1)` of the committed blocks that a range query
/// from `from` to `to` asks for, in a chain of `len` blocks whose heights
/// count from zero. The range starts at `from`, or at `len` where `from`
/// lies beyond the chain.
pub fn range_bounds(from: u64, to: Option<u64>, len: u64) -> (r: (u64, u64))
    ensures
        r.0 <= r.1 <= len,
        r.0 == if from < len {
            from
        } else {
            len
        },
        forall|height: u64| r.0 <= height < r.1 <==> #[trigger] in_range(height, from, to, len),
{
    let start = if from < len {
        from
    } else {
        len
    };
    let end = match to {
        Some(end) => if end < len {
            end
        } else {
            len
        },
        None => len,
    };
    if end < start {
        (start, start)
    } else {
        (start, end)
    }
}

/// The content of what a query for a list returned.
pub open spec fn listed<T>(r: Result<Vec<T>, StorageError>) -> Result<Seq<T>, StorageError> {
    match r {
        Ok(items) => Ok(items@),
        Err(e) => Err(e),
    }
}

/// What a query for one block answers, given what the range query for its
/// height returned: the first block of the range, nothing where the range
/// is empty, and the error where the range query failed.
pub open spec fn first_of<B>(range: Result<Seq<B>, StorageError>) -> Result<
    Option<B>,
    StorageError,
> {
    match range {
        Ok(blocks) => Ok(
            if blocks.len() > 0 {
                Some(blocks[0])
            } else {
                None
            },
        ),
        Err(e) => Err(e),
    }
}

/// What a query for one block answers, given what the range query for its
/// height returned.
pub fn block_of_range<B>(range: Result<Vec<B>, StorageError>) -> (r: Result<
    Option<B>,
    StorageError,
>)
    ensures
        r == first_of(listed(range)),
{
    match range {
        Ok(blocks) => {
            let mut blocks = blocks;
            if blocks.len() == 0 {
                Ok(None)
            } else {
                Ok(Some(blocks.swap_remove(0)))
            }
        },
        Err(e) => Err(e),
    }
}

/// Adds the answer of one lookup to the transactions found so far: a
/// transaction that was found is appended, one that is not in the store is
/// passed over, and a lookup that failed ends the query with its error and
/// leaves what was found as it is.
pub fn add_answer<T>(found: &mut Vec<T>, answer: Result<Option<T>, StorageError>) -> (r: Result<
    (),
    StorageError,
>)
    ensures
        final(found)@ == match answer {
            Ok(Some(tx)) => old(found)@.push(tx),
            _ => old(found)@,
        },
        r == match answer {
            Ok(_) => Ok::<(), StorageError>(()),
            Err(e) => Err::<(), StorageError>(e),
        },
{
    match answer {
        Ok(Some(tx)) => {
            found.push(tx);
            Ok(())
        },
        Ok(None) => Ok(()),
        Err(e) => Err(e),
    }
}

/// What a batch of lookups answers, given what the lookups returned in
/// turn: the transactions that were found, in order, or the error of the
/// first lookup that failed.
pub open spec fn gathered<T>(answers: Seq<Result<Option<T>, StorageError>>) -> Result<
    Seq<T>,
    StorageError,
>
    decreases answers.len(),
{
    if answers.len() == 0 {
        Ok(Seq::empty())
    } else {
        match gathered(answers.drop_last()) {
            Err(e) => Err(e),
            Ok(found) => match answers.last() {
                Err(e) => Err(e),
                Ok(Some(tx)) => Ok(found.push(tx)),
                Ok(None) => Ok(found),
            },
        }
    }
}

/// Whether `answers` are what a store returned when `hashes` were looked
/// up in turn, where `may_answer` tells which answers the store may give
/// for a hash: one answer for each hash, up to the first lookup that
/// failed, after which no lookup is made.
pub open spec fn looked_up<T>(
    may_answer: spec_fn(crate::crypto::Hash, Result<Option<T>, StorageError>) -> bool,
    hashes: Seq<crate::crypto::Hash>,
    answers: Seq<Result<Option<T>, StorageError>>,
) -> bool {
    &&& answers.len() <= hashes.len()
    &&& forall|i: int| 0 <= i < answers.len() ==> may_answer(hashes[i], #[trigger] answers[i])
    &&& forall|i: int| 0 <= i < answers.len() - 1 ==> (#[trigger] answers[i]) is Ok
    &&& answers.len() < hashes.len() ==> answers.len() > 0 && answers.last() is Err
}

/// Whether `r` is what a batch of lookups of `hashes` answers on a store
/// whose lookups answer as `may_answer` tells.
pub open spec fn batch_answer<T>(
    may_answer: spec_fn(crate::crypto::Hash, Result<Option<T>, StorageError>) -> bool,
    hashes: Seq<crate::crypto::Hash>,
    r: Result<Seq<T>, StorageError>,
) -> bool {
    exists|answers: Seq<Result<Option<T>, StorageError>>|
        #[trigger] looked_up(may_answer, hashes, answers) && r == gathered(answers)
}

/// A read-only view of committed blocks and transactions. The three
/// lookups are what a store has to offer; the other three queries are
/// built on them. A store may change between two calls, so each lookup
/// says only that its answer is one that the store may give; the queries
/// say what they make of the answers.
pub trait BlockchainExplorer {
    type BlockInfo;

    type TxInfo;

    /// Whether `answer` is one that `blocks_range(from, to)` may give. A
    /// store that says nothing of its answers leaves this as it is.
    open spec fn may_answer_range(
        &self,
        from: u64,
        to: Option<u64>,
        answer: Result<Seq<Self::BlockInfo>, StorageError>,
    ) -> bool {
        true
    }

    /// Whether `answer` is one that `get_tx_info(hash)` may give.
    open spec fn may_answer_tx(
        &self,
        hash: crate::crypto::Hash,
        answer: Result<Option<Self::TxInfo>, StorageError>,
    ) -> bool {
        true
    }

    /// Whether `answer` is one that `get_tx_hashes_from_block(height)`
    /// may give.
    open spec fn may_answer_hashes(
        &self,
        height: u64,
        answer: Result<Seq<crate::crypto::Hash>, StorageError>,
    ) -> bool {
        true
    }

    /// The committed blocks with a height in `[from, to)`, or from `from`
    /// up to the tip where `to` is absent, by ascending height.
    fn blocks_range(&self, from: u64, to: Option<u64>) -> (r: Result<
        Vec<Self::BlockInfo>,
        StorageError,
    >)
        ensures
            self.may_answer_range(from, to, listed(r)),
    ;

    /// The transaction with the content hash `hash`, if it was committed.
    fn get_tx_info(&self, hash: &crate::crypto::Hash) -> (r: Result<
        Option<Self::TxInfo>,
        StorageError,
    >)
        ensures
            self.may_answer_tx(*hash, r),
    ;

    /// The hashes of the transactions committed at `height`, in commit
    /// order.
    fn get_tx_hashes_from_block(&self, height: u64) -> (r: Result<
        Vec<crate::crypto::Hash>,
        StorageError,
    >)
        ensures
            self.may_answer_hashes(height, listed(r)),
    ;

    /// The block at `height`: the first block of the range that holds this
    /// height alone, nothing if the store has no such block, and the error
    /// of the range query if it failed.
    fn get_block_info(&self, height: u64) -> (r: Result<Option<Self::BlockInfo>, StorageError>)
        ensures
            exists|range: Result<Seq<Self::BlockInfo>, StorageError>|
                #[trigger] self.may_answer_range(height, end_of(height), range) && r == first_of(
                    range,
                ),
    {
        block_of_range(self.blocks_range(height, range_end(height)))
    }

    /// The transactions with the hashes `hashes`, in the order of the
    /// hashes. A hash with no transaction is passed over; the first lookup
    /// that fails ends the query with its error.
    fn get_txs(&self, hashes: &[crate::crypto::Hash]) -> (r: Result<
        Vec<Self::TxInfo>,
        StorageError,
    >)
        ensures
            batch_answer(
                |hash: crate::crypto::Hash, answer: Result<Option<Self::TxInfo>, StorageError>|
                    self.may_answer_tx(hash, answer),
                hashes@,
                listed(r),
            ),
    {
        let ghost may_answer = |
            hash: crate::crypto::Hash,
            answer: Result<Option<Self::TxInfo>, StorageError>,
        | self.may_answer_tx(hash, answer);
        let ghost mut answers: Seq<Result<Option<Self::TxInfo>, StorageError>> = Seq::empty();
        let mut found: Vec<Self::TxInfo> = Vec::new();
        let mut i: usize = 0;
        while i < hashes.len()
            invariant
                i <= hashes@.len(),
                answers.len() == i,
                may_answer == (|
                    hash: crate::crypto::Hash,
                    answer: Result<Option<Self::TxInfo>, StorageError>,
                | self.may_answer_tx(hash, answer)),
                forall|j: int|
                    0 <= j < i ==> may_answer(hashes@[j], #[trigger] answers[j])
                        && answers[j] is Ok,
                gathered(answers) == Ok::<Seq<Self::TxInfo>, StorageError>(found@),
            decreases hashes@.len() - i,
        {
            let answer = self.get_tx_info(&hashes[i]);
            proof {
                let before = answers;
                answers = answers.push(answer);
                assert(answers.drop_last() =~= before);
            }
            match add_answer(&mut found, answer) {
                Ok(_) => {},
                Err(e) => {
                    assert(looked_up(may_answer, hashes@, answers));
                    return Err(e);
                },
            }
            i += 1;
        }
        assert(looked_up(may_answer, hashes@, answers));
        Ok(found)
    }

    /// The transactions committed at `height`, in commit order: what the
    /// batch of lookups of the hashes of this height answers, or the error
    /// of the query for the hashes if it failed.
    fn get_txs_for_block(&self, height: u64) -> (r: Result<Vec<Self::TxInfo>, StorageError>)
        ensures
            exists|listing: Result<Seq<crate::crypto::Hash>, StorageError>|
                #[trigger] self.may_answer_hashes(height, listing) && match listing {
                    Ok(hashes) => batch_answer(
                        |
                            hash: crate::crypto::Hash,
                            answer: Result<Option<Self::TxInfo>, StorageError>,
                        | self.may_answer_tx(hash, answer),
                        hashes,
                        listed(r),
                    ),
                    Err(e) => r == Err::<Vec<Self::TxInfo>, StorageError>(e),
                },
    {
        let listing = self.get_tx_hashes_from_block(height);
        let ghost answer = listed(listing);
        match listing {
            Ok(hashes) => {
                let r = self.get_txs(hashes.as_slice());
                assert(self.may_answer_hashes(height, answer));
                r
            },
            Err(e) => {
                assert(self.may_answer_hashes(height, answer));
                Err(e)
            },
        }
    }
}

} // verus!
