//! The solution executor.

use vstd::prelude::*;

use crate::core_types::blockchain::Blockchain;

verus! {

/// What the executor found in a block: the solution to replay, and the
/// author to whom royalties go.
#[derive(Debug)]
pub struct LedgerExecution {
    pub index: u64,
    pub author: String,
    pub language: String,
    pub code: String,
}

/// A simulated executor for the solutions in the ledger.
pub struct Executor;

impl Executor {
    /// Looks up the solution in block `block_index`. There is none where the
    /// chain is not that long.
    pub fn run_from_ledger(blockchain: &Blockchain, block_index: u64) -> (r: Option<
        LedgerExecution,
    >)
        ensures
            block_index >= blockchain.chain@.len() ==> r is None,
            block_index < blockchain.chain@.len() ==> {
                &&& r matches Some(found)
                &&& found.index == blockchain.chain@[block_index as int].index
                &&& found.author@ == blockchain.chain@[block_index as int].proof.author@
                &&& found.language@ == blockchain.chain@[block_index as int].proof.language@
                &&& found.code@ == blockchain.chain@[block_index as int].proof.code@
            },
    {
        match blockchain.block_at(block_index) {
            Some(block) => Some(
                LedgerExecution {
                    index: block.index,
                    author: block.proof.author.clone(),
                    language: block.proof.language.clone(),
                    code: block.proof.code.clone(),
                },
            ),
            None => None,
        }
    }
}

} // verus!
