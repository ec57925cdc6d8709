//! The ledger: an append-only chain of blocks and a pool of pending transfers.
use vstd::prelude::*;
use crate::block::{transfers_view, Block, BlockView, Transfer, TransferView};
use crate::clock::now_timestamp;
use crate::hashing::{block_digest, compute_block_digest, is_valid_proof, valid_proof};

verus! {

/// Proof value of the genesis block.
pub const GENESIS_PROOF: u64 = 100;

/// Why a ledger operation was refused.
#[derive(Debug, PartialEq, Eq, Structural)]
pub enum LedgerError {
    /// The proof offered for a new block is not accepted after the latest block's proof.
    InvalidProofSubmitted,
}

/// The mathematical value of a ledger.
pub struct LedgerView {
    pub chain: Seq<BlockView>,
    pub pending: Seq<TransferView>,
}

/// The views of a sequence of blocks.
pub open spec fn blocks_view(bs: Seq<Block>) -> Seq<BlockView> {
    bs.map_values(|b: Block| b@)
}

/// The unmined first block, made at `timestamp`.
pub open spec fn genesis_block(timestamp: i64) -> BlockView {
    BlockView {
        index: 0,
        timestamp,
        transfers: Seq::empty(),
        proof: GENESIS_PROOF,
        previous_hash: seq!['0'],
    }
}

/// Whether a chain is intact: it opens with a genesis block, its indexes
/// count from zero, each later block holds the digest of the one before it,
/// and each later proof is accepted after the one before it.
pub open spec fn chain_intact(c: Seq<BlockView>) -> bool {
    &&& c.len() >= 1
    &&& c[0] == genesis_block(c[0].timestamp)
    &&& forall|i: int| 0 <= i < c.len() ==> (#[trigger] c[i]).index == i
    &&& forall|i: int| 1 <= i < c.len() ==> (#[trigger] c[i]).previous_hash == block_digest(c[i - 1])
    &&& forall|i: int| 1 <= i < c.len() ==> valid_proof(c[i - 1].proof, (#[trigger] c[i]).proof)
}

/// A ledger after a transfer joins the pool.
pub open spec fn queued(v: LedgerView, t: TransferView) -> LedgerView {
    LedgerView { chain: v.chain, pending: v.pending.push(t) }
}

/// The block that committing the pool with `proof` at `timestamp` appends.
pub open spec fn next_block(v: LedgerView, proof: u64, timestamp: i64) -> BlockView {
    BlockView {
        index: v.chain.len() as u64,
        timestamp,
        transfers: v.pending,
        proof,
        previous_hash: block_digest(v.chain.last()),
    }
}

/// A ledger after its pool is committed as a new block.
pub open spec fn committed(v: LedgerView, proof: u64, timestamp: i64) -> LedgerView {
    LedgerView { chain: v.chain.push(next_block(v, proof, timestamp)), pending: Seq::empty() }
}

/// A ledger after each transfer of `ts` joins the pool in turn.
pub open spec fn queued_all(v: LedgerView, ts: Seq<TransferView>) -> LedgerView
    decreases ts.len(),
{
    if ts.len() == 0 {
        v
    } else {
        queued(queued_all(v, ts.drop_last()), ts.last())
    }
}

/// Every block of an intact ledger sits at the position its index names.
pub proof fn lemma_indexes_dense(l: &Ledger)
    requires
        l.wf(),
    ensures
        forall|i: int| 0 <= i < l@.chain.len() ==> (#[trigger] l@.chain[i]).index == i,
{
}

/// Every block of an intact ledger but the first holds the digest of the block before it.
pub proof fn lemma_hash_chained(l: &Ledger)
    requires
        l.wf(),
    ensures
        forall|i: int|
            1 <= i < l@.chain.len() ==> (#[trigger] l@.chain[i]).previous_hash == block_digest(
                l@.chain[i - 1],
            ),
{
}

/// Every block of an intact ledger but the first carries a proof accepted
/// after the proof of the block before it.
pub proof fn lemma_proofs_valid(l: &Ledger)
    requires
        l.wf(),
    ensures
        forall|i: int|
            1 <= i < l@.chain.len() ==> valid_proof(
                l@.chain[i - 1].proof,
                (#[trigger] l@.chain[i]).proof,
            ),
{
}

/// Queuing transfers leaves the chain alone and appends them to the pool in order.
pub proof fn lemma_queued_all(v: LedgerView, ts: Seq<TransferView>)
    ensures
        queued_all(v, ts).chain == v.chain,
        queued_all(v, ts).pending == v.pending + ts,
    decreases ts.len(),
{
    if ts.len() > 0 {
        lemma_queued_all(v, ts.drop_last());
        assert(v.pending + ts =~= (v.pending + ts.drop_last()).push(ts.last()));
    } else {
        assert(v.pending + ts =~= v.pending);
    }
}

/// From an empty pool, queuing transfers and then committing puts exactly
/// those transfers, in order, into the new block, and leaves the pool empty.
pub proof fn lemma_pool_moves_into_block(
    v: LedgerView,
    ts: Seq<TransferView>,
    proof: u64,
    timestamp: i64,
)
    requires
        v.pending.len() == 0,
    ensures
        committed(queued_all(v, ts), proof, timestamp).chain.last().transfers == ts,
        committed(queued_all(v, ts), proof, timestamp).chain.drop_last() == v.chain,
        committed(queued_all(v, ts), proof, timestamp).pending.len() == 0,
{
    lemma_queued_all(v, ts);
    assert(v.pending + ts =~= ts);
    let w = committed(queued_all(v, ts), proof, timestamp);
    assert(w.chain.drop_last() =~= v.chain);
}

/// Committed blocks in order, and transfers not yet committed.
pub struct Ledger {
    chain: Vec<Block>,
    current_transactions: Vec<Transfer>,
}

impl View for Ledger {
    type V = LedgerView;

    closed spec fn view(&self) -> LedgerView {
        LedgerView {
            chain: blocks_view(self.chain@),
            pending: transfers_view(self.current_transactions@),
        }
    }
}

impl Ledger {
    /// Whether the chain is intact.
    pub open spec fn wf(&self) -> bool {
        chain_intact(self@.chain)
    }

    /// A ledger whose chain holds only a genesis block made now, with an empty pool.
    pub fn initialize() -> (l: Ledger)
        ensures
            l.wf(),
            l@.chain.len() == 1,
            l@.chain[0] == genesis_block(l@.chain[0].timestamp),
            l@.pending.len() == 0,
    {
        Ledger::initialize_at(now_timestamp())
    }

    /// A ledger whose chain holds only a genesis block made at `timestamp`,
    /// with an empty pool.
    pub fn initialize_at(timestamp: i64) -> (l: Ledger)
        ensures
            l.wf(),
            l@.chain == seq![genesis_block(timestamp)],
            l@.pending.len() == 0,
    {
        proof {
            reveal_strlit("0");
        }
        let genesis = Block {
            index: 0,
            timestamp,
            transfers: Vec::new(),
            proof: GENESIS_PROOF,
            previous_hash: String::from_str("0"),
        };
        assert(genesis@.transfers =~= Seq::<TransferView>::empty());
        assert(genesis@.previous_hash =~= seq!['0']);
        assert(genesis@ == genesis_block(timestamp));
        let mut chain: Vec<Block> = Vec::new();
        chain.push(genesis);
        let l = Ledger { chain, current_transactions: Vec::new() };
        assert(l@.chain =~= seq![genesis_block(timestamp)]);
        assert(l@.pending =~= Seq::<TransferView>::empty());
        l
    }

    /// Adds a transfer to the pool and returns the index of the block that
    /// will hold it if the pool is committed next.
    pub fn queue_transfer(&mut self, sender: String, recipient: String, amount: i64) -> (r: usize)
        requires
            old(self).wf(),
        ensures
            final(self).wf(),
            final(self)@ == queued(
                old(self)@,
                TransferView { sender: sender@, recipient: recipient@, amount },
            ),
            r == old(self)@.chain.len(),
    {
        let t = Transfer { sender, recipient, amount };
        self.current_transactions.push(t);
        assert(final(self)@.pending =~= old(self)@.pending.push(t@));
        self.chain.len()
    }

    /// The last block of the chain.
    pub fn latest_block(&self) -> (r: &Block)
        requires
            self.wf(),
        ensures
            r@ == self@.chain.last(),
    {
        self.chain.last().unwrap()
    }

    /// The committed blocks, in order.
    pub fn chain(&self) -> (r: &Vec<Block>)
        ensures
            blocks_view(r@) == self@.chain,
    {
        &self.chain
    }

    /// The transfers not yet committed, in arrival order.
    pub fn pending(&self) -> (r: &Vec<Transfer>)
        ensures
            transfers_view(r@) == self@.pending,
    {
        &self.current_transactions
    }

    /// Commits the whole pool as a new block with `proof`, stamped with the
    /// current time, and returns a copy of it. A proof not accepted after the
    /// latest block's proof is refused, and the ledger is left as it was.
    pub fn commit_block(&mut self, proof: u64) -> (r: Result<Block, LedgerError>)
        requires
            old(self).wf(),
        ensures
            final(self).wf(),
            r is Ok <==> valid_proof(old(self)@.chain.last().proof, proof),
            r is Ok ==> final(self)@ == committed(old(self)@, proof, r->Ok_0@.timestamp),
            r is Ok ==> r->Ok_0@ == final(self)@.chain.last(),
            r is Err ==> final(self)@ == old(self)@,
    {
        self.commit_block_at(proof, now_timestamp())
    }

    /// Commits the whole pool as a new block with `proof`, stamped with
    /// `timestamp`, and returns a copy of it. A proof not accepted after the
    /// latest block's proof is refused, and the ledger is left as it was.
    pub fn commit_block_at(&mut self, proof: u64, timestamp: i64) -> (r: Result<Block, LedgerError>)
        requires
            old(self).wf(),
        ensures
            final(self).wf(),
            match r {
                Ok(b) => {
                    &&& valid_proof(old(self)@.chain.last().proof, proof)
                    &&& final(self)@ == committed(old(self)@, proof, timestamp)
                    &&& b@ == next_block(old(self)@, proof, timestamp)
                },
                Err(LedgerError::InvalidProofSubmitted) => {
                    &&& !valid_proof(old(self)@.chain.last().proof, proof)
                    &&& final(self)@ == old(self)@
                },
            },
    {
        let last = self.latest_block();
        if !is_valid_proof(last.proof, proof) {
            return Err(LedgerError::InvalidProofSubmitted);
        }
        let previous_hash = compute_block_digest(last);
        let index = self.chain.len() as u64;
        let mut transfers: Vec<Transfer> = Vec::new();
        std::mem::swap(&mut transfers, &mut self.current_transactions);
        let block = Block { index, timestamp, transfers, proof, previous_hash };
        let copy = block.duplicate();
        let ghost old_chain = self@.chain;
        self.chain.push(block);
        proof {
            let v = old(self)@;
            assert(self@.chain =~= v.chain.push(next_block(v, proof, timestamp)));
            assert(self@.pending =~= Seq::<TransferView>::empty());
            let c = self@.chain;
            assert forall|i: int| 1 <= i < c.len() implies (#[trigger] c[i]).previous_hash
                == block_digest(c[i - 1]) && valid_proof(c[i - 1].proof, c[i].proof) by {
                if i < c.len() - 1 {
                    assert(c[i] == old_chain[i]);
                    assert(c[i - 1] == old_chain[i - 1]);
                }
            }
        }
        Ok(copy)
    }
}

} // verus!
