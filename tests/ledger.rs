use ledger::blockchain::{Block, Printer, Transaction};
use ledger::digest::hash_string;
use ledger::text::{push_decimal, to_hex};

fn tx(from: &str, to: &str, amount: u64, ts: &str) -> Transaction {
    Transaction::with_timestamp(from.to_string(), to.to_string(), amount, ts.to_string())
}

fn is_lower_hex(s: &str) -> bool {
    s.chars().all(|c| c.is_ascii_digit() || ('a'..='f').contains(&c))
}

#[test]
fn decimal_text_of_integers() {
    for (n, want) in [(0u64, "0"), (7, "7"), (10, "10"), (1337, "1337"), (u64::MAX, "18446744073709551615")] {
        let mut s = String::from("x");
        push_decimal(&mut s, n);
        assert_eq!(s, format!("x{}", want));
    }
}

#[test]
fn hex_text_of_bytes() {
    assert_eq!(to_hex(&vec![0x00, 0xab, 0xff, 0x10]), "00abff10");
    assert_eq!(to_hex(&Vec::new()), "");
}

#[test]
fn digest_is_sha256_in_hex() {
    assert_eq!(
        hash_string("abc"),
        "ba7816bf8f01cfea414140de5dae2223b00361a396177a9cb410ff61f20015ad"
    );
    assert_eq!(
        hash_string(""),
        "e3b0c44298fc1c149afbf4c8996fb92427ae41e4649b934ca495991b7852b855"
    );
}

#[test]
fn transaction_digest_and_text() {
    let t = tx("alice", "bob", 42, "T0");
    assert_eq!(t.hash(), hash_string("alicebob42T0"));
    assert_eq!(t.hash().len(), 64);
    assert!(is_lower_hex(t.hash()));
    assert_eq!(
        t.print(),
        format!("[From: alice, To: bob, Ammount: 42, Timestamp: T0, Hash: {}]", t.hash())
    );
}

#[test]
fn transaction_recompute_is_deterministic() {
    let mut t = tx("a", "b", 1, "T");
    let first = t.hash().to_string();
    t.calc_hash();
    assert_eq!(t.hash(), first);
    t.calc_hash();
    assert_eq!(t.hash(), first);
}

#[test]
fn transaction_digest_depends_on_each_field() {
    let base = tx("a", "b", 1, "T");
    assert_ne!(base.hash(), tx("c", "b", 1, "T").hash());
    assert_ne!(base.hash(), tx("a", "c", 1, "T").hash());
    assert_ne!(base.hash(), tx("a", "b", 2, "T").hash());
}

#[test]
fn transaction_new_reads_the_clock() {
    let t = Transaction::new("Rickard 1".to_string(), "Rickard 2".to_string(), 1337);
    assert!(!t.timestamp().is_empty());
    assert_eq!(t.hash(), hash_string(&format!("Rickard 1Rickard 21337{}", t.timestamp())));
}

#[test]
fn empty_block_renders_brackets() {
    let b = Block::with_timestamp(Vec::new(), 0, "T".to_string());
    assert_eq!(b.get_transactions(), "[]");
    let b2 = Block::new(Vec::new(), 5);
    assert_eq!(b2.get_transactions(), "[]");
}

#[test]
fn block_digest_and_text() {
    let b = Block::with_timestamp(Vec::new(), 7, "T".to_string());
    assert_eq!(b.nonce(), 0);
    assert_eq!(b.hash(), hash_string("[]T07"));
    assert_eq!(
        b.print(),
        format!("[Transactions: [], Timestamp: T, Nonce: 0, Hash: {}, PreviousHash: ]", b.hash())
    );
}

#[test]
fn block_renders_transactions_in_order() {
    let a = tx("a", "b", 1, "T1");
    let c = tx("c", "d", 2, "T2");
    let (pa, pc) = (a.print(), c.print());
    let b = Block::with_timestamp(vec![a, c], 3, "T".to_string());
    let list = b.get_transactions();
    assert_eq!(list, format!("[{}, {}]", pa, pc));
    assert_ne!(list, format!("[{}, {}]", pc, pa));
    assert_eq!(b.hash(), hash_string(&format!("{}T03", list)));
}

#[test]
fn block_recompute_is_deterministic() {
    let mut b = Block::with_timestamp(vec![tx("a", "b", 1, "T1")], 3, "T".to_string());
    let first = b.hash().to_string();
    b.calc_hash();
    assert_eq!(b.hash(), first);
    b.calc_hash();
    assert_eq!(b.hash(), first);
}

#[test]
fn block_digest_changes_with_nonce() {
    assert_ne!(hash_string("[]T07"), hash_string("[]T17"));
    let mut b = Block::with_timestamp(Vec::new(), 7, "T".to_string());
    let before = b.hash().to_string();
    assert!(b.mine_block(1));
    assert!(b.hash().starts_with('0'));
    assert_eq!(b.hash(), hash_string(&format!("[]T{}7", b.nonce())));
    if b.nonce() > 0 {
        assert_ne!(b.hash(), before);
    }
}

#[test]
fn mining_with_zero_difficulty_changes_nothing() {
    let mut b = Block::with_timestamp(Vec::new(), 7, "T".to_string());
    let before = b.hash().to_string();
    assert!(b.mine_block(0));
    assert_eq!(b.nonce(), 0);
    assert_eq!(b.hash(), before);
}

#[test]
fn mining_beyond_digest_length_is_refused() {
    let mut b = Block::with_timestamp(Vec::new(), 7, "T".to_string());
    let before = b.hash().to_string();
    assert!(!b.mine_block(65));
    assert_eq!(b.nonce(), 0);
    assert_eq!(b.hash(), before);
}

#[test]
fn mining_finds_the_first_qualifying_nonce() {
    let mut b = Block::with_timestamp(vec![tx("a", "b", 1, "T1")], 2, "T".to_string());
    let list = b.get_transactions();
    assert!(b.mine_block(2));
    let n = b.nonce();
    assert!(b.hash().starts_with("00"));
    for k in 0..n {
        assert!(!hash_string(&format!("{}T{}2", list, k)).starts_with("00"));
    }
    let before = n;
    assert!(b.mine_block(2));
    assert_eq!(b.nonce(), before);
    assert!(b.mine_block(3));
    assert!(b.nonce() >= before);
    assert!(b.hash().starts_with("000"));
}

#[test]
fn end_to_end_mining_scenario() {
    let t = Transaction::new("Rickard 1".to_string(), "Rickard 2".to_string(), 1337);
    let tx_text = t.print();
    let mut b = Block::new(vec![t], 1337);
    let before = b.nonce();
    assert!(b.mine_block(4));
    assert!(b.hash().starts_with("0000"));
    assert!(b.nonce() >= before);
    let text = b.print();
    assert!(text.contains(b.hash()));
    assert!(text.contains(&tx_text));
    assert!(text.contains("From: Rickard 1, To: Rickard 2, Ammount: 1337"));
    assert!(text.contains(&format!("Nonce: {}", b.nonce())));
}

#[test]
fn block_digest_changes_with_one_transaction() {
    let b1 = Block::with_timestamp(vec![tx("a", "b", 1, "T1"), tx("c", "d", 2, "T2")], 3, "T".to_string());
    let b2 = Block::with_timestamp(vec![tx("a", "b", 1, "T1"), tx("c", "e", 2, "T2")], 3, "T".to_string());
    let b3 = Block::with_timestamp(vec![tx("a", "b", 9, "T1"), tx("c", "d", 2, "T2")], 3, "T".to_string());
    assert_ne!(b1.get_transactions(), b2.get_transactions());
    assert_ne!(b1.hash(), b2.hash());
    assert_ne!(b1.hash(), b3.hash());
}

#[test]
fn mining_equal_blocks_gives_equal_results() {
    let mut b1 = Block::with_timestamp(vec![tx("a", "b", 1, "T1")], 3, "T".to_string());
    let mut b2 = Block::with_timestamp(vec![tx("a", "b", 1, "T1")], 3, "T".to_string());
    assert!(b1.mine_block(2));
    assert!(b2.mine_block(2));
    assert_eq!(b1.nonce(), b2.nonce());
    assert_eq!(b1.hash(), b2.hash());
    assert_eq!(b1.print(), b2.print());
}
