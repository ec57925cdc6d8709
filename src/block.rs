//! Transfers and blocks, and the text that a block's digest is taken over.
use vstd::prelude::*;
use vstd::string::*;
use crate::text::{dec_text, push_decimal, push_signed_decimal, signed_dec_text};

verus! {

/// One value movement. The amount is a signed count of minor units.
#[derive(Debug)]
pub struct Transfer {
    pub sender: String,
    pub recipient: String,
    pub amount: i64,
}

/// The mathematical value of a transfer.
pub struct TransferView {
    pub sender: Seq<char>,
    pub recipient: Seq<char>,
    pub amount: i64,
}

impl View for Transfer {
    type V = TransferView;

    open spec fn view(&self) -> TransferView {
        TransferView { sender: self.sender@, recipient: self.recipient@, amount: self.amount }
    }
}

/// One committed unit of the ledger.
#[derive(Debug)]
pub struct Block {
    pub index: u64,
    /// Seconds since the Unix epoch.
    pub timestamp: i64,
    pub transfers: Vec<Transfer>,
    pub proof: u64,
    /// Lowercase hex digest of the preceding block, or `"0"` for the first block.
    pub previous_hash: String,
}

/// The mathematical value of a block.
pub struct BlockView {
    pub index: u64,
    pub timestamp: i64,
    pub transfers: Seq<TransferView>,
    pub proof: u64,
    pub previous_hash: Seq<char>,
}

/// The views of a sequence of transfers.
pub open spec fn transfers_view(ts: Seq<Transfer>) -> Seq<TransferView> {
    ts.map_values(|t: Transfer| t@)
}

impl View for Block {
    type V = BlockView;

    open spec fn view(&self) -> BlockView {
        BlockView {
            index: self.index,
            timestamp: self.timestamp,
            transfers: transfers_view(self.transfers@),
            proof: self.proof,
            previous_hash: self.previous_hash@,
        }
    }
}

/// A text field preceded by its length in characters and a colon, so that
/// any text can stand there without ambiguity.
pub open spec fn field_text(f: Seq<char>) -> Seq<char> {
    dec_text(f.len()) + seq![':'] + f
}

/// Encoding of one transfer: sender, recipient, amount, then `;`.
pub open spec fn transfer_text(t: TransferView) -> Seq<char> {
    field_text(t.sender) + field_text(t.recipient) + signed_dec_text(t.amount as int) + seq![';']
}

/// Encoding of a sequence of transfers, each in turn.
pub open spec fn transfers_text(ts: Seq<TransferView>) -> Seq<char>
    decreases ts.len(),
{
    if ts.len() == 0 {
        Seq::empty()
    } else {
        transfers_text(ts.drop_last()) + transfer_text(ts.last())
    }
}

/// Encoding of a block: index, timestamp, the bracketed transfers, proof and
/// previous hash, in that order, separated by commas.
pub open spec fn block_text(b: BlockView) -> Seq<char> {
    dec_text(b.index as nat) + seq![','] + signed_dec_text(b.timestamp as int) + seq![',', '[']
        + transfers_text(b.transfers) + seq![']', ','] + dec_text(b.proof as nat) + seq![',']
        + b.previous_hash
}

/// Appends a length-prefixed text field to `s`.
fn push_field(s: &mut String, f: &String)
    ensures
        final(s)@ == old(s)@ + field_text(f@),
{
    let len = f.as_str().unicode_len();
    push_decimal(s, len as u64);
    proof {
        reveal_strlit(":");
    }
    s.append(":");
    s.append(f.as_str());
    assert(final(s)@ =~= old(s)@ + field_text(f@));
}

/// Appends the encoding of one transfer to `s`.
fn push_transfer(s: &mut String, t: &Transfer)
    ensures
        final(s)@ == old(s)@ + transfer_text(t@),
{
    push_field(s, &t.sender);
    push_field(s, &t.recipient);
    push_signed_decimal(s, t.amount);
    proof {
        reveal_strlit(";");
    }
    s.append(";");
    assert(final(s)@ =~= old(s)@ + transfer_text(t@));
}

impl Transfer {
    /// A copy of this transfer.
    pub fn duplicate(&self) -> (r: Transfer)
        ensures
            r@ == self@,
    {
        Transfer { sender: self.sender.clone(), recipient: self.recipient.clone(), amount: self.amount }
    }
}

impl Block {
    /// A copy of this block.
    pub fn duplicate(&self) -> (r: Block)
        ensures
            r@ == self@,
    {
        let mut transfers: Vec<Transfer> = Vec::new();
        let mut i: usize = 0;
        while i < self.transfers.len()
            invariant
                i <= self.transfers@.len(),
                transfers@.len() == i,
                forall|j: int| 0 <= j < i ==> #[trigger] transfers@[j]@ == self.transfers@[j]@,
            decreases self.transfers@.len() - i,
        {
            transfers.push(self.transfers[i].duplicate());
            i = i + 1;
        }
        assert(transfers_view(transfers@) =~= transfers_view(self.transfers@));
        Block {
            index: self.index,
            timestamp: self.timestamp,
            transfers,
            proof: self.proof,
            previous_hash: self.previous_hash.clone(),
        }
    }

    /// The text over which this block's digest is taken.
    pub fn encode(&self) -> (r: String)
        ensures
            r@ == block_text(self@),
    {
        let mut s = String::new();
        push_decimal(&mut s, self.index);
        proof {
            reveal_strlit(",");
            reveal_strlit(",[");
            reveal_strlit("],");
        }
        s.append(",");
        push_signed_decimal(&mut s, self.timestamp);
        s.append(",[");
        let ghost start = s@;
        let mut i: usize = 0;
        while i < self.transfers.len()
            invariant
                i <= self.transfers@.len(),
                s@ == start + transfers_text(transfers_view(self.transfers@.take(i as int))),
            decreases self.transfers@.len() - i,
        {
            push_transfer(&mut s, &self.transfers[i]);
            proof {
                let vs = transfers_view(self.transfers@.take(i + 1));
                assert(vs.drop_last() =~= transfers_view(self.transfers@.take(i as int)));
                assert(vs.last() == self.transfers@[i as int]@);
            }
            i = i + 1;
        }
        assert(self.transfers@.take(self.transfers@.len() as int) =~= self.transfers@);
        s.append("],");
        push_decimal(&mut s, self.proof);
        s.append(",");
        s.append(self.previous_hash.as_str());
        assert(s@ =~= block_text(self@));
        s
    }
}

} // verus!
