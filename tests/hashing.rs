use crypto_bite::block::{Block, Transfer};
use crypto_bite::hashing::{
    compute_block_digest, is_valid_proof, meets_difficulty, search_proof, search_proof_within,
};
use crypto_bite::text::{push_decimal, push_signed_decimal, to_hex};

fn genesis_at(timestamp: i64) -> Block {
    Block {
        index: 0,
        timestamp,
        transfers: Vec::new(),
        proof: 100,
        previous_hash: String::from("0"),
    }
}

fn is_lower_hex(s: &str) -> bool {
    s.chars().all(|c| c.is_ascii_digit() || ('a'..='f').contains(&c))
}

#[test]
fn decimal_text() {
    let mut s = String::from("x");
    push_decimal(&mut s, 0);
    push_decimal(&mut s, 1907);
    push_decimal(&mut s, u64::MAX);
    assert_eq!(s, "x0190718446744073709551615");
}

#[test]
fn signed_decimal_text() {
    let mut s = String::new();
    push_signed_decimal(&mut s, -42);
    s.push('|');
    push_signed_decimal(&mut s, 7);
    s.push('|');
    push_signed_decimal(&mut s, i64::MIN);
    assert_eq!(s, "-42|7|-9223372036854775808");
}

#[test]
fn hex_text_of_bytes() {
    assert_eq!(to_hex(&vec![0x00, 0x0f, 0xa5, 0xff]), "000fa5ff");
    assert_eq!(to_hex(&Vec::new()), "");
}

#[test]
fn block_encoding_fields_in_order() {
    let b = Block {
        index: 1,
        timestamp: 1700000060,
        transfers: vec![Transfer {
            sender: String::from("0"),
            recipient: String::from("Alice"),
            amount: 100,
        }],
        proof: 35293,
        previous_hash: String::from("ab"),
    };
    assert_eq!(b.encode(), "1,1700000060,[1:05:Alice100;],35293,ab");
}

#[test]
fn block_encoding_negative_amount_and_time() {
    let b = Block {
        index: 2,
        timestamp: -5,
        transfers: vec![
            Transfer { sender: String::from("a:b"), recipient: String::new(), amount: -3 },
            Transfer { sender: String::from("é"), recipient: String::from("z"), amount: 0 },
        ],
        proof: 0,
        previous_hash: String::new(),
    };
    assert_eq!(b.encode(), "2,-5,[3:a:b0:-3;1:é1:z0;],0,");
}

#[test]
fn genesis_digest_exact() {
    let d = compute_block_digest(&genesis_at(1700000000));
    assert_eq!(d, "cb33db0bd315f815ad93203e84ede85f419bc35a647cb05ce4db81b93b33eaf7");
}

#[test]
fn repeated_digest_stability() {
    let g = genesis_at(1700000000);
    let first = compute_block_digest(&g);
    let second = compute_block_digest(&g);
    assert_eq!(first, second);
    assert_eq!(first.len(), 64);
    assert!(is_lower_hex(&first));
}

#[test]
fn digest_changes_with_content() {
    let a = genesis_at(1700000000);
    let b = genesis_at(1700000001);
    assert_ne!(compute_block_digest(&a), compute_block_digest(&b));
}

#[test]
fn difficulty_prefix_on_raw_digests() {
    assert!(meets_difficulty(&vec![0, 0, 0x12]));
    assert!(meets_difficulty(&vec![0, 0]));
    assert!(!meets_difficulty(&vec![0, 0x01, 0]));
    assert!(!meets_difficulty(&vec![0x10, 0, 0]));
    assert!(!meets_difficulty(&vec![0]));
    assert!(!meets_difficulty(&Vec::new()));
}

#[test]
fn valid_proof_exact_values() {
    assert!(is_valid_proof(100, 35293));
    assert!(!is_valid_proof(100, 0));
    assert!(!is_valid_proof(100, 35292));
}

#[test]
fn bounded_search_finds_first_valid_proof() {
    let p = search_proof_within(100, 200_000);
    assert_eq!(p, Some(35293));
    assert!(is_valid_proof(100, p.unwrap()));
}

#[test]
fn bounded_search_reports_not_found() {
    assert_eq!(search_proof_within(100, 35293), None);
    assert_eq!(search_proof_within(100, 0), None);
}

#[test]
fn unbounded_search_terminates_and_validates() {
    let p = search_proof(35293).unwrap();
    assert_eq!(p, 35089);
    assert!(is_valid_proof(35293, p));
}
