use exonum::error::StorageError;
use exonum::explorer::{add_answer, block_of_range, range_bounds, range_end, BlockchainExplorer};

/// A store that holds its blocks in memory, block `i` at height `i`.
struct MemoryStore {
    blocks: Vec<Vec<exonum::crypto::Hash>>,
    broken: bool,
}

#[derive(Clone, Debug, PartialEq)]
struct BlockInfo {
    height: u64,
    tx_count: usize,
}

#[derive(Clone, Debug, PartialEq)]
struct TxInfo {
    hash: exonum::crypto::Hash,
    height: u64,
}

impl MemoryStore {
    fn with_blocks(count: u8) -> MemoryStore {
        let blocks = (0..count)
            .map(|height| (0..height).map(|tx| exonum::crypto::hash(&[height, tx])).collect())
            .collect();
        MemoryStore { blocks, broken: false }
    }

    fn fail(&self) -> Result<(), StorageError> {
        if self.broken {
            Err(StorageError { message: "unreadable".to_string() })
        } else {
            Ok(())
        }
    }
}

impl BlockchainExplorer for MemoryStore {
    type BlockInfo = BlockInfo;
    type TxInfo = TxInfo;

    fn blocks_range(&self, from: u64, to: Option<u64>) -> Result<Vec<BlockInfo>, StorageError> {
        self.fail()?;
        let (start, end) = range_bounds(from, to, self.blocks.len() as u64);
        Ok((start..end)
            .map(|height| BlockInfo { height, tx_count: self.blocks[height as usize].len() })
            .collect())
    }

    fn get_tx_info(&self, hash: &exonum::crypto::Hash) -> Result<Option<TxInfo>, StorageError> {
        self.fail()?;
        for (height, txs) in self.blocks.iter().enumerate() {
            if txs.contains(hash) {
                return Ok(Some(TxInfo { hash: *hash, height: height as u64 }));
            }
        }
        Ok(None)
    }

    fn get_tx_hashes_from_block(
        &self,
        height: u64,
    ) -> Result<Vec<exonum::crypto::Hash>, StorageError> {
        self.fail()?;
        Ok(self.blocks.get(height as usize).cloned().unwrap_or_default())
    }
}

#[test]
fn test_blocks_range_is_half_open_and_ascending() {
    let store = MemoryStore::with_blocks(6);
    let heights: Vec<u64> =
        store.blocks_range(2, Some(4)).unwrap().iter().map(|b| b.height).collect();
    assert_eq!(heights, vec![2, 3]);
    let heights: Vec<u64> = store.blocks_range(4, None).unwrap().iter().map(|b| b.height).collect();
    assert_eq!(heights, vec![4, 5]);
    assert!(store.blocks_range(4, Some(2)).unwrap().is_empty());
    assert!(store.blocks_range(9, None).unwrap().is_empty());
}

#[test]
fn test_get_block_info_of_missing_height_is_empty() {
    let store = MemoryStore::with_blocks(3);
    assert_eq!(store.get_block_info(3).unwrap(), None);
    assert_eq!(store.get_block_info(u64::MAX).unwrap(), None);
    assert_eq!(store.get_block_info(2).unwrap(), Some(BlockInfo { height: 2, tx_count: 2 }));
    assert_eq!(store.get_block_info(0).unwrap(), Some(BlockInfo { height: 0, tx_count: 0 }));
}

#[test]
fn test_get_txs_skips_unknown_hashes() {
    let store = MemoryStore::with_blocks(4);
    let known = exonum::crypto::hash(&[3, 1]);
    let unknown = exonum::crypto::hash(&[9, 9]);
    let other = exonum::crypto::hash(&[2, 0]);
    let txs = store.get_txs(&[known, unknown, other, known]).unwrap();
    assert_eq!(
        txs,
        vec![
            TxInfo { hash: known, height: 3 },
            TxInfo { hash: other, height: 2 },
            TxInfo { hash: known, height: 3 },
        ]
    );
    assert!(store.get_txs(&[]).unwrap().is_empty());
}

#[test]
fn test_get_txs_for_block_is_in_commit_order() {
    let store = MemoryStore::with_blocks(4);
    let txs = store.get_txs_for_block(3).unwrap();
    let hashes: Vec<_> = txs.iter().map(|tx| tx.hash).collect();
    assert_eq!(hashes, store.get_tx_hashes_from_block(3).unwrap());
    assert_eq!(hashes.len(), 3);
    assert!(store.get_txs_for_block(17).unwrap().is_empty());
}

#[test]
fn test_storage_error_is_passed_on() {
    let mut store = MemoryStore::with_blocks(2);
    store.broken = true;
    assert_eq!(store.get_block_info(1).unwrap_err().message, "unreadable");
    assert_eq!(store.get_txs(&[exonum::crypto::hash(&[1, 0])]).unwrap_err().message, "unreadable");
    assert_eq!(store.get_txs_for_block(1).unwrap_err().message, "unreadable");
    // no lookup is made for an empty list of hashes
    assert!(store.get_txs(&[]).unwrap().is_empty());
}

#[test]
fn test_range_bounds_values() {
    assert_eq!(range_bounds(2, Some(4), 10), (2, 4));
    assert_eq!(range_bounds(2, Some(40), 10), (2, 10));
    assert_eq!(range_bounds(2, None, 10), (2, 10));
    assert_eq!(range_bounds(12, None, 10), (10, 10));
    assert_eq!(range_bounds(5, Some(3), 10), (5, 5));
    assert_eq!(range_bounds(0, Some(0), 0), (0, 0));
    assert_eq!(range_end(7), Some(8));
    assert_eq!(range_end(u64::MAX), None);
}

#[test]
fn test_block_of_range_and_add_answer() {
    assert_eq!(block_of_range(Ok(vec![5, 6, 7])).unwrap(), Some(5));
    assert_eq!(block_of_range::<u8>(Ok(vec![])).unwrap(), None);
    let failed = block_of_range::<u8>(Err(StorageError { message: "gone".to_string() }));
    assert_eq!(failed.unwrap_err().message, "gone");

    let mut found = vec![1];
    add_answer(&mut found, Ok(Some(2))).unwrap();
    add_answer(&mut found, Ok(None)).unwrap();
    assert_eq!(found, vec![1, 2]);
    let failed = add_answer(&mut found, Err(StorageError { message: "gone".to_string() }));
    assert_eq!(failed.unwrap_err().message, "gone");
    assert_eq!(found, vec![1, 2]);
}
