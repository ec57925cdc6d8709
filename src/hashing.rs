//! Block digests and the proof-of-work predicate and search.
use vstd::prelude::*;
use crate::block::{block_text, Block, BlockView};
use crate::text::{
    dec_text, hex_text, is_lower_hex_char, lemma_hex_text_four_zeros, lemma_hex_text_index,
    lemma_hex_text_lower, push_decimal, to_hex,
};

verus! {

/// The SHA-256 digest of the UTF-8 bytes of a text.
pub uninterp spec fn sha256_of(text: Seq<char>) -> Seq<u8>;

/// Relies on `sha2::Sha256::digest` over the UTF-8 bytes of `text`: the digest
/// depends on the text alone and is 32 bytes long (the output size of `Sha256`).
#[verifier::external_body]
fn sha256(text: &str) -> (r: Vec<u8>)
    ensures
        r@ == sha256_of(text@),
        r@.len() == 32,
{
    <sha2::Sha256 as sha2::Digest>::digest(text.as_bytes()).to_vec()
}

/// Lowercase hex SHA-256 digest of a block's encoding.
pub open spec fn block_digest(b: BlockView) -> Seq<char> {
    hex_text(sha256_of(block_text(b)))
}

/// The text hashed to judge a proof: both numbers in decimal, with no separator.
pub open spec fn proof_text(last_proof: u64, proof: u64) -> Seq<char> {
    dec_text(last_proof as nat) + dec_text(proof as nat)
}

/// Whether a hex digest starts with four `'0'` characters.
pub open spec fn has_difficulty_prefix(h: Seq<char>) -> bool {
    h.len() >= 4 && h.take(4) == seq!['0', '0', '0', '0']
}

/// Whether `proof` is accepted after `last_proof`: the hex digest of their
/// joined decimal text starts with four zeros.
pub open spec fn valid_proof(last_proof: u64, proof: u64) -> bool {
    has_difficulty_prefix(hex_text(sha256_of(proof_text(last_proof, proof))))
}

/// The lowercase hex digest of a block, 64 characters long.
pub fn compute_block_digest(b: &Block) -> (r: String)
    ensures
        r@ == block_digest(b@),
        r@.len() == 64,
        forall|j: int| 0 <= j < r@.len() ==> is_lower_hex_char(#[trigger] r@[j]),
{
    let text = b.encode();
    let d = sha256(text.as_str());
    proof {
        lemma_hex_text_index(d@);
        lemma_hex_text_lower(d@);
    }
    to_hex(&d)
}

/// Whether a raw digest, written in lowercase hex, starts with four zeros.
pub fn meets_difficulty(d: &Vec<u8>) -> (r: bool)
    ensures
        r == has_difficulty_prefix(hex_text(d@)),
        r == (d@.len() >= 2 && d@[0] == 0 && d@[1] == 0),
{
    proof {
        lemma_hex_text_index(d@);
        if d@.len() >= 2 {
            lemma_hex_text_four_zeros(d@);
        }
    }
    d.len() >= 2 && d[0] == 0 && d[1] == 0
}

/// Whether `proof` is accepted after `last_proof`.
pub fn is_valid_proof(last_proof: u64, proof: u64) -> (r: bool)
    ensures
        r == valid_proof(last_proof, proof),
{
    let mut guess = String::new();
    push_decimal(&mut guess, last_proof);
    push_decimal(&mut guess, proof);
    let d = sha256(guess.as_str());
    meets_difficulty(&d)
}

/// Searches the candidates `0, 1, ...` below `attempts` in order and returns
/// the first one accepted after `last_proof`, or `None` if none is.
pub fn search_proof_within(last_proof: u64, attempts: u64) -> (r: Option<u64>)
    ensures
        match r {
            Some(p) => p < attempts && valid_proof(last_proof, p) && forall|q: u64|
                q < p ==> !#[trigger] valid_proof(last_proof, q),
            None => forall|q: u64| q < attempts ==> !#[trigger] valid_proof(last_proof, q),
        },
{
    let mut candidate: u64 = 0;
    while candidate < attempts
        invariant
            forall|q: u64| q < candidate ==> !#[trigger] valid_proof(last_proof, q),
        decreases attempts - candidate,
    {
        if is_valid_proof(last_proof, candidate) {
            return Some(candidate);
        }
        candidate = candidate + 1;
    }
    None
}

/// Searches every `u64` candidate from 0 upward and returns the first one
/// accepted after `last_proof`, or `None` if no `u64` is.
pub fn search_proof(last_proof: u64) -> (r: Option<u64>)
    ensures
        match r {
            Some(p) => valid_proof(last_proof, p) && forall|q: u64|
                q < p ==> !#[trigger] valid_proof(last_proof, q),
            None => forall|q: u64| !#[trigger] valid_proof(last_proof, q),
        },
{
    let mut candidate: u64 = 0;
    loop
        invariant
            forall|q: u64| q < candidate ==> !#[trigger] valid_proof(last_proof, q),
        decreases u64::MAX - candidate,
    {
        if is_valid_proof(last_proof, candidate) {
            return Some(candidate);
        }
        if candidate == u64::MAX {
            return None;
        }
        candidate = candidate + 1;
    }
}

/// Digests are a function of the block's value: equal blocks digest equally.
pub proof fn lemma_digest_deterministic(a: BlockView, b: BlockView)
    requires
        a == b,
    ensures
        block_digest(a) == block_digest(b),
{
}

} // verus!
