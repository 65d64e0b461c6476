//! Blocks and the chain that links them.

use std::time::{Duration, SystemTime, UNIX_EPOCH};
use vstd::prelude::*;

use crate::challenges::challenge_trait::{ChallengeSolution, SolutionView};
use crate::core_types::canonical::{
    digest_of, digest_text, is_digest_shaped, json_string, push_json_string, push_solution_json, push_transaction_json,
    solution_json, transactions_json,
};
use crate::core_types::transaction::{
    copy_transactions, transaction_views, Transaction, TransactionView,
};
use crate::oracle::verdict::VerificationResult;
use crate::text::{decimal, push_decimal, same_text};

verus! {

/// The coins credited to the beneficiary of each mined block.
pub const BLOCK_REWARD: u64 = 100;

/// One entry of the ledger: an accepted proof with the reward transactions it
/// carries, bound to its predecessor by `previous_hash`.
#[derive(Debug)]
pub struct Block {
    pub index: u64,
    pub timestamp: u64,
    pub transactions: Vec<Transaction>,
    pub proof: ChallengeSolution,
    pub previous_hash: String,
    pub hash: String,
}

/// The mathematical content of a [`Block`].
pub ghost struct BlockView {
    pub index: nat,
    pub timestamp: nat,
    pub transactions: Seq<TransactionView>,
    pub proof: SolutionView,
    pub previous_hash: Seq<char>,
    pub hash: Seq<char>,
}

impl View for Block {
    type V = BlockView;

    open spec fn view(&self) -> BlockView {
        BlockView {
            index: self.index as nat,
            timestamp: self.timestamp as nat,
            transactions: transaction_views(self.transactions@),
            proof: self.proof@,
            previous_hash: self.previous_hash@,
            hash: self.hash@,
        }
    }
}

impl Clone for Block {
    fn clone(&self) -> (r: Self)
        ensures
            r@ == self@,
    {
        Block {
            index: self.index,
            timestamp: self.timestamp,
            transactions: copy_transactions(&self.transactions),
            proof: self.proof.clone(),
            previous_hash: self.previous_hash.clone(),
            hash: self.hash.clone(),
        }
    }
}

/// The canonical text of a block. The `hash` field is written blank whatever
/// the block holds there, so that a block's hash does not depend on itself.
pub open spec fn block_json(b: BlockView) -> Seq<char> {
    "{\"index\":"@ + decimal(b.index) + ",\"timestamp\":"@ + decimal(b.timestamp)
        + ",\"transactions\":["@ + transactions_json(b.transactions) + "],\"proof\":"@
        + solution_json(b.proof) + ",\"previous_hash\":"@ + json_string(b.previous_hash)
        + ",\"hash\":\"\"}"@
}

/// The hash that a block with these contents must carry.
pub open spec fn block_digest(b: BlockView) -> Seq<char> {
    digest_text(block_json(b))
}

impl Block {
    /// Writes the block as canonical text, with the `hash` field blank.
    pub fn canonical_json(&self) -> (r: String)
        ensures
            r@ == block_json(self@),
    {
        let mut out = String::new();
        out.append("{\"index\":");
        push_decimal(&mut out, self.index);
        out.append(",\"timestamp\":");
        push_decimal(&mut out, self.timestamp);
        out.append(",\"transactions\":[");
        let ghost head = out@;
        let ghost items = transaction_views(self.transactions@);
        let n = self.transactions.len();
        let mut i: usize = 0;
        while i < n
            invariant
                i <= n,
                n == self.transactions@.len(),
                items == transaction_views(self.transactions@),
                out@ == head + transactions_json(items.take(i as int)),
            decreases n - i,
        {
            if i > 0 {
                out.append(",");
            }
            push_transaction_json(&mut out, &self.transactions[i]);
            proof {
                let grown = items.take(i + 1);
                assert(grown.drop_last() == items.take(i as int));
            }
            i += 1;
        }
        assert(items.take(n as int) == items);
        out.append("],\"proof\":");
        push_solution_json(&mut out, &self.proof);
        out.append(",\"previous_hash\":");
        push_json_string(&mut out, self.previous_hash.as_str());
        out.append(",\"hash\":\"\"}");
        out
    }

    /// Recomputes the hash of the block from its contents.
    pub fn calculate_hash(&self) -> (r: String)
        ensures
            r@ == block_digest(self@),
            is_digest_shaped(r@),
    {
        let serialized = self.canonical_json();
        digest_of(serialized.as_str())
    }
}

/// The contents of a list of blocks, in order.
pub open spec fn block_views(blocks: Seq<Block>) -> Seq<BlockView> {
    Seq::new(blocks.len(), |i: int| blocks[i]@)
}

/// The proof carried by the first block of every chain.
pub open spec fn genesis_proof() -> SolutionView {
    SolutionView {
        challenge_id: "genesis"@,
        language: "genesis"@,
        code: "genesis_proof"@,
        author: "system"@,
    }
}

/// The first block of a chain created at `timestamp`.
pub open spec fn genesis_block(timestamp: nat) -> BlockView {
    let blank = BlockView {
        index: 0,
        timestamp,
        transactions: Seq::empty(),
        proof: genesis_proof(),
        previous_hash: "0"@,
        hash: Seq::empty(),
    };
    BlockView { hash: block_digest(blank), ..blank }
}

/// The reward credited by the system to `recipient`.
pub open spec fn reward_for(recipient: Seq<char>) -> TransactionView {
    TransactionView { sender: "0"@, recipient, amount: BLOCK_REWARD as nat }
}

/// The block that mining appends to `chain`: it carries `proof`, takes the
/// pending transactions followed by the reward for `miner`, and points at the
/// hash of the current head.
pub open spec fn next_block(
    chain: Seq<BlockView>,
    pending: Seq<TransactionView>,
    proof: SolutionView,
    miner: Seq<char>,
    timestamp: nat,
) -> BlockView {
    let blank = BlockView {
        index: chain.len(),
        timestamp,
        transactions: pending.push(reward_for(miner)),
        proof,
        previous_hash: chain.last().hash,
        hash: Seq::empty(),
    };
    BlockView { hash: block_digest(blank), ..blank }
}

/// A block whose `hash` is the digest of its own contents.
pub open spec fn sealed(b: BlockView) -> bool {
    b.hash == block_digest(b)
}

/// Chain integrity: the chain is not empty, its first block points at `"0"`,
/// every block is sealed, and every later block points at the hash of the
/// block before it.
pub open spec fn chain_valid(chain: Seq<BlockView>) -> bool {
    &&& chain.len() > 0
    &&& chain[0].previous_hash == "0"@
    &&& forall|i: int| 0 <= i < chain.len() ==> sealed(#[trigger] chain[i])
    &&& forall|i: int| 0 < i < chain.len() ==> (#[trigger] chain[i]).previous_hash == chain[i - 1].hash
}

/// Why the ledger refused an operation.
#[derive(Debug, Clone, Copy, PartialEq, Eq, Structural)]
pub enum LedgerError {
    /// A hash or a link of the chain does not match its contents.
    ChainIntegrityError,
}

/// The ledger: the committed blocks and the transactions waiting for the next
/// block.
#[derive(Debug)]
pub struct Blockchain {
    pub chain: Vec<Block>,
    pub pending_transactions: Vec<Transaction>,
}

/// The mathematical content of a [`Blockchain`].
pub ghost struct LedgerView {
    pub chain: Seq<BlockView>,
    pub pending: Seq<TransactionView>,
}

impl View for Blockchain {
    type V = LedgerView;

    open spec fn view(&self) -> LedgerView {
        LedgerView {
            chain: block_views(self.chain@),
            pending: transaction_views(self.pending_transactions@),
        }
    }
}

/// A point in time as the system clock gives it.
#[verifier::external_type_specification]
#[verifier::external_body]
pub struct ExSystemTime(SystemTime);

/// `SystemTime::now`: the reading of the system clock. Nothing is known of
/// it.
#[verifier::external_body]
fn clock_now() -> SystemTime {
    SystemTime::now()
}

/// `SystemTime::duration_since` with `UNIX_EPOCH`: the time from the epoch
/// to `now`, or `None` where `now` lies before the epoch.
#[verifier::external_body]
fn since_epoch(now: &SystemTime) -> Option<Duration> {
    match now.duration_since(UNIX_EPOCH) {
        Ok(elapsed) => Some(elapsed),
        Err(_) => None,
    }
}

/// `Duration::as_secs`: the whole seconds of `elapsed`.
#[verifier::external_body]
fn whole_seconds(elapsed: &Duration) -> u64 {
    elapsed.as_secs()
}

/// The current time for a block's timestamp: what [`timestamp_of`] makes of
/// the clock's reading. Nothing is known of the reading, so nothing is
/// promised of the result.
fn block_time() -> u64 {
    let now = clock_now();
    let reading = match since_epoch(&now) {
        Some(elapsed) => Some(whole_seconds(&elapsed)),
        None => None,
    };
    timestamp_of(reading)
}

/// The timestamp that a reading of the clock stands for: the seconds read,
/// and 0 where the clock stands before the epoch.
pub open spec fn stamp_of(reading: Option<u64>) -> u64 {
    match reading {
        Some(seconds) => seconds,
        None => 0,
    }
}

/// The timestamp for a reading of the clock. See [`stamp_of`].
pub fn timestamp_of(reading: Option<u64>) -> (r: u64)
    ensures
        r == stamp_of(reading),
{
    match reading {
        Some(seconds) => seconds,
        None => 0,
    }
}

impl Blockchain {
    /// A fresh ledger that holds the genesis block, stamped with the current
    /// time, and no pending transactions.
    pub fn new() -> (r: Self)
        ensures
            r@.chain == seq![genesis_block(r@.chain[0].timestamp)],
            r@.pending == Seq::<TransactionView>::empty(),
            chain_valid(r@.chain),
            is_digest_shaped(r@.chain[0].hash),
    {
        Self::genesis_at(block_time())
    }

    /// A fresh ledger whose genesis block is stamped `timestamp`.
    pub fn genesis_at(timestamp: u64) -> (r: Self)
        ensures
            r@.chain == seq![genesis_block(timestamp as nat)],
            r@.pending == Seq::<TransactionView>::empty(),
            chain_valid(r@.chain),
            is_digest_shaped(r@.chain[0].hash),
    {
        let mut blockchain = Blockchain { chain: Vec::new(), pending_transactions: Vec::new() };
        blockchain.create_genesis_block(timestamp);
        blockchain
    }

    fn create_genesis_block(&mut self, timestamp: u64)
        requires
            old(self).chain@.len() == 0,
        ensures
            final(self).chain@.len() == 1,
            final(self).chain@[0]@ == genesis_block(timestamp as nat),
            final(self).pending_transactions == old(self).pending_transactions,
            is_digest_shaped(final(self).chain@[0]@.hash),
    {
        let genesis_solution = ChallengeSolution {
            challenge_id: String::from_str("genesis"),
            language: String::from_str("genesis"),
            code: String::from_str("genesis_proof"),
            author: String::from_str("system"),
        };
        let mut genesis_block = Block {
            index: 0,
            timestamp,
            transactions: Vec::new(),
            proof: genesis_solution,
            previous_hash: String::from_str("0"),
            hash: String::new(),
        };
        assert(transaction_views(genesis_block.transactions@) =~= Seq::<TransactionView>::empty());
        genesis_block.hash = genesis_block.calculate_hash();
        self.chain.push(genesis_block);
    }

    /// The most recently appended block.
    pub fn last_block(&self) -> (r: &Block)
        requires
            self.chain@.len() > 0,
        ensures
            *r == self.chain@.last(),
    {
        &self.chain[self.chain.len() - 1]
    }

    /// The block at `index`, if the chain is that long.
    pub fn block_at(&self, index: u64) -> (r: Option<&Block>)
        ensures
            index < self.chain@.len() ==> r == Some(&self.chain@[index as int]),
            index >= self.chain@.len() ==> r is None,
    {
        if index < self.chain.len() as u64 {
            Some(&self.chain[index as usize])
        } else {
            None
        }
    }

    /// Mines a block for `proof`, stamped with the current time. The oracle
    /// must have accepted `proof` before, and the chain must be valid: nothing
    /// is mined on top of a chain that fails validation. A caller that cannot
    /// vouch for the chain goes through [`Blockchain::commit`], which checks
    /// it. See [`Blockchain::mine_new_block_at`] for what is appended.
    pub fn mine_new_block(&mut self, proof: ChallengeSolution, miner_address: &str) -> (r: &Block)
        requires
            chain_valid(old(self)@.chain),
        ensures
            r@ == next_block(
                old(self)@.chain,
                old(self)@.pending,
                proof@,
                miner_address@,
                r@.timestamp,
            ),
            final(self).chain@.len() == old(self).chain@.len() + 1,
            final(self).chain@.take(old(self).chain@.len() as int) == old(self).chain@,
            *r == final(self).chain@.last(),
            final(self)@.chain == old(self)@.chain.push(r@),
            final(self).pending_transactions@.len() == 0,
            chain_valid(final(self)@.chain),
            is_digest_shaped(r@.hash),
    {
        self.mine_new_block_at(proof, miner_address, block_time())
    }

    /// Mines a block for `proof`, stamped `timestamp`, on top of a valid chain.
    ///
    /// A reward for `miner_address` joins the pending transactions; the new
    /// block takes them all, points at the hash of the current head, is
    /// sealed with its own hash and appended. Every block that was there
    /// before stays as it was, and the pending buffer is left empty.
    pub fn mine_new_block_at(
        &mut self,
        proof: ChallengeSolution,
        miner_address: &str,
        timestamp: u64,
    ) -> (r: &Block)
        requires
            chain_valid(old(self)@.chain),
        ensures
            r@ == next_block(
                old(self)@.chain,
                old(self)@.pending,
                proof@,
                miner_address@,
                timestamp as nat,
            ),
            final(self).chain@.len() == old(self).chain@.len() + 1,
            final(self).chain@.take(old(self).chain@.len() as int) == old(self).chain@,
            *r == final(self).chain@.last(),
            final(self)@.chain == old(self)@.chain.push(r@),
            final(self).pending_transactions@.len() == 0,
            chain_valid(final(self)@.chain),
            is_digest_shaped(r@.hash),
    {
        let reward_tx = Transaction {
            sender: String::from_str("0"),
            recipient: String::from_str(miner_address),
            amount: BLOCK_REWARD,
        };
        self.pending_transactions.push(reward_tx);
        assert(transaction_views(self.pending_transactions@) =~= old(self)@.pending.push(
            reward_for(miner_address@),
        ));

        let previous_hash = self.last_block().hash.clone();
        let mut new_block = Block {
            index: self.chain.len() as u64,
            timestamp,
            transactions: copy_transactions(&self.pending_transactions),
            proof,
            previous_hash,
            hash: String::new(),
        };
        new_block.hash = new_block.calculate_hash();

        self.pending_transactions = Vec::new();
        self.chain.push(new_block);
        proof {
            let before = old(self)@.chain;
            let after = self@.chain;
            assert(after =~= before.push(new_block@));
            lemma_push_keeps_valid(before, new_block@);
        }
        &self.chain[self.chain.len() - 1]
    }

    /// Checks chain integrity: recomputes the hash of every block from its
    /// contents and checks every link.
    pub fn validate(&self) -> (ok: bool)
        ensures
            ok == chain_valid(self@.chain),
    {
        let n = self.chain.len();
        if n == 0 {
            return false;
        }
        if !same_text(self.chain[0].previous_hash.as_str(), "0") {
            return false;
        }
        let ghost views = self@.chain;
        let mut i: usize = 0;
        while i < n
            invariant
                i <= n,
                n == self.chain@.len(),
                views == block_views(self.chain@),
                forall|k: int| 0 <= k < i ==> sealed(#[trigger] views[k]),
                forall|k: int| 0 < k < i ==> (#[trigger] views[k]).previous_hash == views[k - 1].hash,
            decreases n - i,
        {
            let block = &self.chain[i];
            let expected = block.calculate_hash();
            if !same_text(expected.as_str(), block.hash.as_str()) {
                assert(!sealed(views[i as int]));
                return false;
            }
            if i > 0 {
                let before = &self.chain[i - 1];
                if !same_text(block.previous_hash.as_str(), before.hash.as_str()) {
                    assert(views[i as int].previous_hash != views[i - 1].hash);
                    return false;
                }
            }
            i += 1;
        }
        true
    }

    /// Takes over a block sequence and a pending buffer read from storage.
    /// The ledger is handed out only if the chain is valid.
    pub fn restore(chain: Vec<Block>, pending_transactions: Vec<Transaction>) -> (r: Result<
        Self,
        LedgerError,
    >)
        ensures
            chain_valid(block_views(chain@)) ==> r is Ok,
            !chain_valid(block_views(chain@)) ==> r == Err::<Self, LedgerError>(
                LedgerError::ChainIntegrityError,
            ),
            r matches Ok(ledger) ==> ledger.chain == chain && ledger.pending_transactions
                == pending_transactions,
    {
        let ledger = Blockchain { chain, pending_transactions };
        if ledger.validate() {
            Ok(ledger)
        } else {
            Err(LedgerError::ChainIntegrityError)
        }
    }

    /// Mines a block for `proof` if the oracle's verdict accepts it.
    ///
    /// A rejecting verdict leaves the ledger as it is and yields `Ok(None)`.
    /// An accepting verdict is committed only on top of a valid chain: the
    /// block is mined as by [`Blockchain::mine_new_block`] and its index and
    /// hash are returned; on an invalid chain nothing is mined and the error
    /// says so.
    pub fn commit(
        &mut self,
        verdict: &VerificationResult,
        proof: ChallengeSolution,
        beneficiary: &str,
    ) -> (r: Result<Option<(u64, String)>, LedgerError>)
        ensures
            !verdict@.accepted ==> r == Ok::<Option<(u64, String)>, LedgerError>(None) && *final(self)
                == *old(self),
            verdict@.accepted && !chain_valid(old(self)@.chain) ==> r == Err::<
                Option<(u64, String)>,
                LedgerError,
            >(LedgerError::ChainIntegrityError) && *final(self) == *old(self),
            verdict@.accepted && chain_valid(old(self)@.chain) ==> {
                &&& r matches Ok(Some(notice))
                &&& final(self).chain@.len() == old(self).chain@.len() + 1
                &&& final(self).chain@.take(old(self).chain@.len() as int) == old(self).chain@
                &&& final(self)@.chain.last() == next_block(
                    old(self)@.chain,
                    old(self)@.pending,
                    proof@,
                    beneficiary@,
                    final(self)@.chain.last().timestamp,
                )
                &&& final(self).pending_transactions@.len() == 0
                &&& chain_valid(final(self)@.chain)
                &&& notice.0 == final(self)@.chain.last().index
                &&& notice.1@ == final(self)@.chain.last().hash
                &&& is_digest_shaped(notice.1@)
            },
    {
        if !verdict.accepted {
            return Ok(None);
        }
        if !self.validate() {
            return Err(LedgerError::ChainIntegrityError);
        }
        let block = self.mine_new_block(proof, beneficiary);
        let notice = (block.index, block.hash.clone());
        Ok(Some(notice))
    }
}

/// A valid chain stays valid when a sealed block that points at the hash of
/// its head is appended.
pub proof fn lemma_push_keeps_valid(chain: Seq<BlockView>, block: BlockView)
    requires
        chain_valid(chain),
        sealed(block),
        block.previous_hash == chain.last().hash,
    ensures
        chain_valid(chain.push(block)),
{
}

/// The first block of a valid chain points at `"0"`.
pub proof fn lemma_first_block_points_at_zero(chain: Seq<BlockView>)
    requires
        chain_valid(chain),
    ensures
        chain[0].previous_hash == "0"@,
{
}

/// In a valid chain every block after the first points at the hash of the
/// block before it.
pub proof fn lemma_blocks_are_linked(chain: Seq<BlockView>, i: int)
    requires
        chain_valid(chain),
        0 < i < chain.len(),
    ensures
        chain[i].previous_hash == chain[i - 1].hash,
{
}

/// In a valid chain the hash of every block is the digest of that block with
/// its `hash` field blank.
pub proof fn lemma_hash_is_recomputed(chain: Seq<BlockView>, i: int)
    requires
        chain_valid(chain),
        0 <= i < chain.len(),
    ensures
        block_digest(BlockView { hash: Seq::empty(), ..chain[i] }) == chain[i].hash,
{
}

/// A valid chain in which the `previous_hash` of any block is replaced by
/// another text is no longer valid.
pub proof fn lemma_tampered_link_is_detected(chain: Seq<BlockView>, i: int, forged: Seq<char>)
    requires
        chain_valid(chain),
        0 <= i < chain.len(),
        forged != chain[i].previous_hash,
    ensures
        !chain_valid(chain.update(i, BlockView { previous_hash: forged, ..chain[i] })),
{
    let tampered = chain.update(i, BlockView { previous_hash: forged, ..chain[i] });
    if i > 0 {
        assert(tampered[i].previous_hash != tampered[i - 1].hash);
    }
}

} // verus!
