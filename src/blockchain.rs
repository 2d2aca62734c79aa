//! Transactions and blocks, their digests and printable forms, and mining.

use crate::clock::utc_now_text;
use crate::digest::{digest_of, hash_string, DIGEST_LEN};
use crate::text::{decimal, lemma_decimal_injective, push_decimal};
use vstd::prelude::*;

verus! {

/// A transfer of `amount` from one address to another, stamped with the
/// instant of its creation and carrying the digest of those fields.
pub struct Transaction {
    from_address: String,
    to_address: String,
    ammount: u64,
    timestamp: String,
    hash: String,
}

/// The fields of a transaction as mathematical values.
pub struct TransactionView {
    pub from_address: Seq<char>,
    pub to_address: Seq<char>,
    pub amount: u64,
    pub timestamp: Seq<char>,
    pub hash: Seq<char>,
}

impl View for Transaction {
    type V = TransactionView;

    closed spec fn view(&self) -> TransactionView {
        TransactionView {
            from_address: self.from_address@,
            to_address: self.to_address@,
            amount: self.ammount,
            timestamp: self.timestamp@,
            hash: self.hash@,
        }
    }
}

/// What a transaction's digest is computed from: sender, recipient, decimal
/// amount and timestamp, concatenated without separators.
pub open spec fn transaction_digest_input(t: TransactionView) -> Seq<char> {
    t.from_address + t.to_address + decimal(t.amount as nat) + t.timestamp
}

/// The digest that a transaction's fields determine.
pub open spec fn transaction_digest(t: TransactionView) -> Seq<char> {
    digest_of(transaction_digest_input(t))
}

/// `[From: <sender>, To: <recipient>, Ammount: <amount>, Timestamp: <timestamp>, Hash: <digest>]`
pub open spec fn transaction_text(t: TransactionView) -> Seq<char> {
    "[From: "@ + t.from_address + ", To: "@ + t.to_address + ", Ammount: "@ + decimal(
        t.amount as nat,
    ) + ", Timestamp: "@ + t.timestamp + ", Hash: "@ + t.hash + "]"@
}

/// Something that has a canonical text representation.
pub trait Printer {
    spec fn text(&self) -> Seq<char>;

    fn print(&self) -> (r: String)
        ensures
            r@ == self.text(),
    ;
}

impl Transaction {
    /// The stored digest is the one the other fields determine.
    pub open spec fn wf(&self) -> bool {
        &&& self@.hash == transaction_digest(self@)
        &&& self@.hash.len() == DIGEST_LEN
    }

    /// Creates a transaction stamped with the current UTC instant.
    pub fn new(from_address: String, to_address: String, ammount: u64) -> (t: Transaction)
        ensures
            t.wf(),
            t@.from_address == from_address@,
            t@.to_address == to_address@,
            t@.amount == ammount,
    {
        Transaction::with_timestamp(from_address, to_address, ammount, utc_now_text())
    }

    /// Creates a transaction with the given timestamp text.
    pub fn with_timestamp(from_address: String, to_address: String, ammount: u64, timestamp: String) -> (t: Transaction)
        ensures
            t.wf(),
            t@.from_address == from_address@,
            t@.to_address == to_address@,
            t@.amount == ammount,
            t@.timestamp == timestamp@,
    {
        let mut t = Transaction {
            from_address,
            to_address,
            ammount,
            timestamp,
            hash: String::new(),
        };
        t.calc_hash();
        t
    }

    /// The stored digest.
    pub fn hash(&self) -> (r: &str)
        ensures
            r@ == self@.hash,
    {
        self.hash.as_str()
    }

    /// The creation timestamp text.
    pub fn timestamp(&self) -> (r: &str)
        ensures
            r@ == self@.timestamp,
    {
        self.timestamp.as_str()
    }

    /// Recomputes the digest from the other fields.
    pub fn calc_hash(&mut self)
        ensures
            final(self)@ == (TransactionView { hash: transaction_digest(old(self)@), ..old(self)@ }),
            final(self).wf(),
    {
        let mut s = String::new();
        s.append(self.from_address.as_str());
        s.append(self.to_address.as_str());
        push_decimal(&mut s, self.ammount);
        s.append(self.timestamp.as_str());
        assert(s@ == transaction_digest_input(self@));
        self.hash = hash_string(s.as_str());
    }
}

impl Printer for Transaction {
    open spec fn text(&self) -> Seq<char> {
        transaction_text(self@)
    }

    fn print(&self) -> (r: String) {
        let mut s = String::new();
        s.append("[From: ");
        s.append(self.from_address.as_str());
        s.append(", To: ");
        s.append(self.to_address.as_str());
        s.append(", Ammount: ");
        push_decimal(&mut s, self.ammount);
        s.append(", Timestamp: ");
        s.append(self.timestamp.as_str());
        s.append(", Hash: ");
        s.append(self.hash.as_str());
        s.append("]");
        s
    }
}

/// Transactions with metadata, a nonce for proof of work, the block's own
/// digest and the digest of the block before it.
pub struct Block {
    timestamp: String,
    ammount: u64,
    nonce: u64,
    hash: String,
    previous_hash: String,
    transactions: Vec<Transaction>,
}

/// The fields of a block as mathematical values.
pub struct BlockView {
    pub timestamp: Seq<char>,
    pub amount: u64,
    pub nonce: u64,
    pub hash: Seq<char>,
    pub previous_hash: Seq<char>,
    pub transactions: Seq<TransactionView>,
}

impl View for Block {
    type V = BlockView;

    closed spec fn view(&self) -> BlockView {
        BlockView {
            timestamp: self.timestamp@,
            amount: self.ammount,
            nonce: self.nonce,
            hash: self.hash@,
            previous_hash: self.previous_hash@,
            transactions: self.transactions@.map_values(|t: Transaction| t@),
        }
    }
}

/// The printable forms of the transactions, joined by `, `.
pub open spec fn joined_text(ts: Seq<TransactionView>) -> Seq<char>
    decreases ts.len(),
{
    if ts.len() == 0 {
        Seq::empty()
    } else if ts.len() == 1 {
        transaction_text(ts[0])
    } else {
        joined_text(ts.drop_last()) + ", "@ + transaction_text(ts.last())
    }
}

/// `[` + the printable forms of the transactions joined by `, ` + `]`.
pub open spec fn transactions_text(ts: Seq<TransactionView>) -> Seq<char> {
    "["@ + joined_text(ts) + "]"@
}

/// What a block's digest is computed from: the transaction list text,
/// timestamp, decimal nonce, decimal amount and previous digest, concatenated
/// without separators.
pub open spec fn block_digest_input(b: BlockView) -> Seq<char> {
    transactions_text(b.transactions) + b.timestamp + decimal(b.nonce as nat) + decimal(
        b.amount as nat,
    ) + b.previous_hash
}

/// The digest that a block's fields determine.
pub open spec fn block_digest(b: BlockView) -> Seq<char> {
    digest_of(block_digest_input(b))
}

/// `[Transactions: <list>, Timestamp: <timestamp>, Nonce: <nonce>, Hash: <digest>, PreviousHash: <previous digest>]`
pub open spec fn block_text(b: BlockView) -> Seq<char> {
    "[Transactions: "@ + transactions_text(b.transactions) + ", Timestamp: "@ + b.timestamp
        + ", Nonce: "@ + decimal(b.nonce as nat) + ", Hash: "@ + b.hash + ", PreviousHash: "@
        + b.previous_hash + "]"@
}

/// The first `d` characters of `h` are all `'0'`.
pub open spec fn has_zero_prefix(h: Seq<char>, d: nat) -> bool {
    d <= h.len() && forall|i: int| 0 <= i < d ==> h[i] == '0'
}

/// The block `b` with nonce `n` and the digest that this determines.
pub open spec fn with_nonce(b: BlockView, n: u64) -> BlockView {
    let c = BlockView { nonce: n, ..b };
    BlockView { hash: block_digest(c), ..c }
}

/// With nonce `n`, block `b` would meet difficulty `d`.
pub open spec fn meets_difficulty(b: BlockView, n: u64, d: nat) -> bool {
    has_zero_prefix(with_nonce(b, n).hash, d)
}

/// Tests whether the first `d` characters of `h` are all `'0'`.
fn zero_prefix(h: &String, d: usize) -> (r: bool)
    ensures
        r == has_zero_prefix(h@, d as nat),
{
    let s = h.as_str();
    if d > s.unicode_len() {
        return false;
    }
    let mut i: usize = 0;
    while i < d
        invariant
            s@ == h@,
            d <= s@.len(),
            i <= d,
            forall|j: int| 0 <= j < i ==> s@[j] == '0',
        decreases d - i,
    {
        if s.get_char(i) != '0' {
            assert(s@[i as int] != '0');
            return false;
        }
        i = i + 1;
    }
    true
}

impl Block {
    /// The stored digest is the one the other fields determine.
    pub open spec fn wf(&self) -> bool {
        &&& self@.hash == block_digest(self@)
        &&& self@.hash.len() == DIGEST_LEN
    }

    /// Creates a block of the given transactions, stamped with the current UTC
    /// instant, with nonce 0 and an empty previous digest.
    pub fn new(transactions: Vec<Transaction>, ammount: u64) -> (b: Block)
        ensures
            b.wf(),
            b@.transactions == transactions@.map_values(|t: Transaction| t@),
            b@.amount == ammount,
            b@.nonce == 0,
            b@.previous_hash == Seq::<char>::empty(),
    {
        Block::with_timestamp(transactions, ammount, utc_now_text())
    }

    /// Creates a block with the given timestamp text, nonce 0 and an empty
    /// previous digest.
    pub fn with_timestamp(transactions: Vec<Transaction>, ammount: u64, timestamp: String) -> (b: Block)
        ensures
            b.wf(),
            b@.transactions == transactions@.map_values(|t: Transaction| t@),
            b@.amount == ammount,
            b@.nonce == 0,
            b@.previous_hash == Seq::<char>::empty(),
            b@.timestamp == timestamp@,
    {
        let mut b = Block {
            timestamp,
            ammount,
            nonce: 0,
            hash: String::new(),
            previous_hash: String::new(),
            transactions,
        };
        b.calc_hash();
        b
    }

    /// The stored digest.
    pub fn hash(&self) -> (r: &str)
        ensures
            r@ == self@.hash,
    {
        self.hash.as_str()
    }

    /// The creation timestamp text.
    pub fn timestamp(&self) -> (r: &str)
        ensures
            r@ == self@.timestamp,
    {
        self.timestamp.as_str()
    }

    /// The current nonce.
    pub fn nonce(&self) -> (r: u64)
        ensures
            r == self@.nonce,
    {
        self.nonce
    }

    /// Renders the transactions as `[` + their printable forms joined by
    /// `, ` + `]`.
    pub fn get_transactions(&self) -> (r: String)
        ensures
            r@ == transactions_text(self@.transactions),
    {
        let ghost ts = self@.transactions;
        let mut s = String::new();
        s.append("[");
        let mut i: usize = 0;
        while i < self.transactions.len()
            invariant
                i <= ts.len(),
                ts == self@.transactions,
                s@ == "["@ + joined_text(ts.subrange(0, i as int)),
            decreases ts.len() - i,
        {
            let t = self.transactions[i].print();
            if i > 0 {
                s.append(", ");
            }
            s.append(t.as_str());
            proof {
                let p = ts.subrange(0, i + 1);
                assert(p.drop_last() =~= ts.subrange(0, i as int));
                if i == 0 {
                    assert(ts.subrange(0, 0) =~= Seq::<TransactionView>::empty());
                }
            }
            i = i + 1;
        }
        s.append("]");
        assert(ts.subrange(0, ts.len() as int) =~= ts);
        s
    }

    /// Recomputes the digest from the other fields.
    pub fn calc_hash(&mut self)
        ensures
            final(self)@ == (BlockView { hash: block_digest(old(self)@), ..old(self)@ }),
            final(self).wf(),
    {
        let mut s = self.get_transactions();
        s.append(self.timestamp.as_str());
        push_decimal(&mut s, self.nonce);
        push_decimal(&mut s, self.ammount);
        s.append(self.previous_hash.as_str());
        self.hash = hash_string(s.as_str());
    }

    /// Searches for proof of work: unless the digest already starts with
    /// `difficulty` zeros, increments the nonce and recomputes the digest until
    /// it does. Returns whether it does. The search stops without success
    /// when the nonce reaches `u64::MAX`, and is not started when
    /// `difficulty` exceeds the digest length.
    pub fn mine_block(&mut self, difficulty: usize) -> (found: bool)
        requires
            old(self).wf(),
        ensures
            final(self).wf(),
            final(self)@ == with_nonce(old(self)@, final(self)@.nonce),
            old(self)@.nonce <= final(self)@.nonce,
            found == has_zero_prefix(final(self)@.hash, difficulty as nat),
            forall|n: u64|
                old(self)@.nonce <= n < final(self)@.nonce ==> !meets_difficulty(
                    old(self)@,
                    n,
                    difficulty as nat,
                ),
            !found ==> difficulty > DIGEST_LEN || forall|n: u64|
                old(self)@.nonce <= n ==> !meets_difficulty(old(self)@, n, difficulty as nat),
            !found && difficulty <= DIGEST_LEN ==> final(self)@.nonce == u64::MAX,
            difficulty > DIGEST_LEN ==> final(self)@ == old(self)@,
    {
        if difficulty > DIGEST_LEN {
            return false;
        }
        let mut found = zero_prefix(&self.hash, difficulty);
        while !found && self.nonce < u64::MAX
            invariant
                self.wf(),
                self@ == with_nonce(old(self)@, self@.nonce),
                old(self)@.nonce <= self@.nonce,
                found == has_zero_prefix(self@.hash, difficulty as nat),
                forall|n: u64|
                    old(self)@.nonce <= n < self@.nonce ==> !meets_difficulty(
                        old(self)@,
                        n,
                        difficulty as nat,
                    ),
            decreases u64::MAX - self.nonce,
        {
            self.nonce = self.nonce + 1;
            self.calc_hash();
            found = zero_prefix(&self.hash, difficulty);
        }
        found
    }
}

impl Printer for Block {
    open spec fn text(&self) -> Seq<char> {
        block_text(self@)
    }

    fn print(&self) -> (r: String) {
        let mut s = String::new();
        s.append("[Transactions: ");
        let t = self.get_transactions();
        s.append(t.as_str());
        s.append(", Timestamp: ");
        s.append(self.timestamp.as_str());
        s.append(", Nonce: ");
        push_decimal(&mut s, self.nonce);
        s.append(", Hash: ");
        s.append(self.hash.as_str());
        s.append(", PreviousHash: ");
        s.append(self.previous_hash.as_str());
        s.append("]");
        s
    }
}

/// Recomputing a transaction's digest a second time, with no field changed in
/// between, gives the same digest: the digest does not depend on the stored one.
pub proof fn lemma_transaction_recompute_stable(t: TransactionView)
    ensures
        ({
            let once = TransactionView { hash: transaction_digest(t), ..t };
            TransactionView { hash: transaction_digest(once), ..once } == once
        }),
{
}

/// Recomputing a block's digest a second time, with no field changed in
/// between, gives the same digest: the digest does not depend on the stored one.
pub proof fn lemma_block_recompute_stable(b: BlockView)
    ensures
        ({
            let once = BlockView { hash: block_digest(b), ..b };
            BlockView { hash: block_digest(once), ..once } == once
        }),
{
}

/// A block with no transactions renders its transaction list as `[]`.
pub proof fn lemma_empty_transactions_text()
    ensures
        transactions_text(Seq::empty()) == "[]"@,
{
    reveal_strlit("[");
    reveal_strlit("]");
    reveal_strlit("[]");
    assert(transactions_text(Seq::empty()) =~= "[]"@);
}

/// Two transactions `a`, `b` are rendered in that order, `a` first, in the
/// transaction list text that a block's digest is computed from.
pub proof fn lemma_transactions_text_in_order(a: TransactionView, b: TransactionView)
    ensures
        transactions_text(seq![a, b]) == "["@ + transaction_text(a) + ", "@ + transaction_text(b)
            + "]"@,
{
    let ab = seq![a, b];
    assert(ab.drop_last() =~= seq![a]);
    assert(joined_text(seq![a]) == transaction_text(a));
    assert(joined_text(ab) == transaction_text(a) + ", "@ + transaction_text(b));
    assert(transactions_text(ab) =~= "["@ + transaction_text(a) + ", "@ + transaction_text(b)
        + "]"@);
}

proof fn lemma_middle_cancel(p: Seq<char>, x: Seq<char>, y: Seq<char>, s: Seq<char>)
    requires
        p + x + s == p + y + s,
    ensures
        x == y,
{
    lemma_middle_cancel_len(p, x, y, s, s);
}

proof fn lemma_middle_cancel_len(p: Seq<char>, x: Seq<char>, y: Seq<char>, s: Seq<char>, t: Seq<char>)
    requires
        p + x + s == p + y + t,
        s.len() == t.len(),
    ensures
        x == y,
{
    let whole = p + x + s;
    assert(whole.len() == (p + y + t).len());
    assert(x =~= whole.subrange(p.len() as int, (p.len() + x.len()) as int));
    assert(y =~= (p + y + t).subrange(p.len() as int, (p.len() + y.len()) as int));
}

/// Two transactions with the same timestamp that differ in exactly one of
/// sender, recipient and amount have different digest inputs.
pub proof fn lemma_transaction_field_changes_digest_input(t: TransactionView, u: TransactionView)
    requires
        t.timestamp == u.timestamp,
        (t.from_address != u.from_address && t.to_address == u.to_address && t.amount == u.amount)
            || (t.from_address == u.from_address && t.to_address != u.to_address && t.amount
            == u.amount) || (t.from_address == u.from_address && t.to_address == u.to_address
            && t.amount != u.amount),
    ensures
        transaction_digest_input(t) != transaction_digest_input(u),
{
    let e = Seq::<char>::empty();
    let amt_t = decimal(t.amount as nat);
    let amt_u = decimal(u.amount as nat);
    if transaction_digest_input(t) == transaction_digest_input(u) {
        if t.from_address != u.from_address {
            let rest = t.to_address + amt_t + t.timestamp;
            assert(e + t.from_address + rest =~= transaction_digest_input(t));
            assert(e + u.from_address + rest =~= transaction_digest_input(u));
            lemma_middle_cancel(e, t.from_address, u.from_address, rest);
        } else if t.to_address != u.to_address {
            let rest = amt_t + t.timestamp;
            assert(t.from_address + t.to_address + rest =~= transaction_digest_input(t));
            assert(t.from_address + u.to_address + rest =~= transaction_digest_input(u));
            lemma_middle_cancel(t.from_address, t.to_address, u.to_address, rest);
        } else {
            let front = t.from_address + t.to_address;
            lemma_middle_cancel(front, amt_t, amt_u, t.timestamp);
            lemma_decimal_injective(t.amount as nat, u.amount as nat);
        }
    }
}

/// Two blocks with the same transactions and timestamp that differ in exactly
/// one of nonce, amount and previous digest have different digest inputs.
pub proof fn lemma_block_field_changes_digest_input(b: BlockView, c: BlockView)
    requires
        b.transactions == c.transactions,
        b.timestamp == c.timestamp,
        (b.nonce != c.nonce && b.amount == c.amount && b.previous_hash == c.previous_hash) || (
        b.nonce == c.nonce && b.amount != c.amount && b.previous_hash == c.previous_hash) || (
        b.nonce == c.nonce && b.amount == c.amount && b.previous_hash != c.previous_hash),
    ensures
        block_digest_input(b) != block_digest_input(c),
{
    let e = Seq::<char>::empty();
    let front = transactions_text(b.transactions) + b.timestamp;
    let nb = decimal(b.nonce as nat);
    let nc = decimal(c.nonce as nat);
    let ab = decimal(b.amount as nat);
    let ac = decimal(c.amount as nat);
    if block_digest_input(b) == block_digest_input(c) {
        if b.nonce != c.nonce {
            let rest = ab + b.previous_hash;
            assert(front + nb + rest =~= block_digest_input(b));
            assert(front + nc + rest =~= block_digest_input(c));
            lemma_middle_cancel(front, nb, nc, rest);
            lemma_decimal_injective(b.nonce as nat, c.nonce as nat);
        } else if b.amount != c.amount {
            lemma_middle_cancel(front + nb, ab, ac, b.previous_hash);
            lemma_decimal_injective(b.amount as nat, c.amount as nat);
        } else {
            let head = front + nb + ab;
            assert(head + b.previous_hash + e =~= block_digest_input(b));
            assert(head + c.previous_hash + e =~= block_digest_input(c));
            lemma_middle_cancel(head, b.previous_hash, c.previous_hash, e);
        }
    }
}

/// Two transactions with the same timestamp and digests of equal length that
/// differ in exactly one of sender, recipient and amount have different
/// printable forms.
pub proof fn lemma_transaction_field_changes_text(t: TransactionView, u: TransactionView)
    requires
        t.timestamp == u.timestamp,
        t.hash.len() == u.hash.len(),
        (t.from_address != u.from_address && t.to_address == u.to_address && t.amount == u.amount)
            || (t.from_address == u.from_address && t.to_address != u.to_address && t.amount
            == u.amount) || (t.from_address == u.from_address && t.to_address == u.to_address
            && t.amount != u.amount),
    ensures
        transaction_text(t) != transaction_text(u),
{
    let amt_t = decimal(t.amount as nat);
    let amt_u = decimal(u.amount as nat);
    let tail_t = ", Timestamp: "@ + t.timestamp + ", Hash: "@ + t.hash + "]"@;
    let tail_u = ", Timestamp: "@ + u.timestamp + ", Hash: "@ + u.hash + "]"@;
    if transaction_text(t) == transaction_text(u) {
        if t.from_address != u.from_address {
            let p = "[From: "@;
            let rt = ", To: "@ + t.to_address + ", Ammount: "@ + amt_t + tail_t;
            let ru = ", To: "@ + u.to_address + ", Ammount: "@ + amt_u + tail_u;
            assert(p + t.from_address + rt =~= transaction_text(t));
            assert(p + u.from_address + ru =~= transaction_text(u));
            lemma_middle_cancel_len(p, t.from_address, u.from_address, rt, ru);
        } else if t.to_address != u.to_address {
            let p = "[From: "@ + t.from_address + ", To: "@;
            let rt = ", Ammount: "@ + amt_t + tail_t;
            let ru = ", Ammount: "@ + amt_u + tail_u;
            assert(p + t.to_address + rt =~= transaction_text(t));
            assert(p + u.to_address + ru =~= transaction_text(u));
            lemma_middle_cancel_len(p, t.to_address, u.to_address, rt, ru);
        } else {
            let p = "[From: "@ + t.from_address + ", To: "@ + t.to_address + ", Ammount: "@;
            assert(p + amt_t + tail_t =~= transaction_text(t));
            assert(p + amt_u + tail_u =~= transaction_text(u));
            lemma_middle_cancel_len(p, amt_t, amt_u, tail_t, tail_u);
            lemma_decimal_injective(t.amount as nat, u.amount as nat);
        }
    }
}

/// `, ` followed by the printable form, for each transaction in turn.
pub open spec fn separated_text(ts: Seq<TransactionView>) -> Seq<char>
    decreases ts.len(),
{
    if ts.len() == 0 {
        Seq::empty()
    } else {
        separated_text(ts.drop_last()) + ", "@ + transaction_text(ts.last())
    }
}

proof fn lemma_joined_split(ts: Seq<TransactionView>, k: int)
    requires
        1 <= k <= ts.len(),
    ensures
        joined_text(ts) == joined_text(ts.subrange(0, k)) + separated_text(ts.subrange(k, ts.len() as int)),
    decreases ts.len(),
{
    if k == ts.len() {
        assert(ts.subrange(0, k) =~= ts);
        assert(separated_text(ts.subrange(k, ts.len() as int)) =~= Seq::<char>::empty());
    } else {
        let d = ts.drop_last();
        lemma_joined_split(d, k);
        assert(d.subrange(0, k) =~= ts.subrange(0, k));
        let rest = ts.subrange(k, ts.len() as int);
        assert(rest.drop_last() =~= d.subrange(k, d.len() as int));
        assert(rest.last() == ts.last());
        assert(joined_text(ts) =~= joined_text(ts.subrange(0, k)) + separated_text(rest));
    }
}

/// What precedes the printable form of transaction `i` in the joined text.
spec fn text_before(ts: Seq<TransactionView>, i: int) -> Seq<char> {
    if i == 0 {
        Seq::empty()
    } else {
        joined_text(ts.subrange(0, i)) + ", "@
    }
}

proof fn lemma_joined_at(ts: Seq<TransactionView>, i: int)
    requires
        0 <= i < ts.len(),
    ensures
        joined_text(ts) == text_before(ts, i) + transaction_text(ts[i]) + separated_text(
            ts.subrange(i + 1, ts.len() as int),
        ),
{
    lemma_joined_split(ts, i + 1);
    let bi = ts.subrange(0, i + 1);
    if i == 0 {
        assert(joined_text(bi) == transaction_text(ts[0]));
    } else {
        assert(bi.drop_last() =~= ts.subrange(0, i));
    }
    assert(joined_text(bi) =~= text_before(ts, i) + transaction_text(ts[i]));
}

/// Two blocks whose fields are equal but for the transaction at index `i`,
/// where the two transactions have different printable forms, have different
/// digest inputs.
#[verifier::rlimit(60)]
pub proof fn lemma_transaction_change_changes_block_digest_input(b: BlockView, c: BlockView, i: int)
    requires
        b.timestamp == c.timestamp,
        b.nonce == c.nonce,
        b.amount == c.amount,
        b.previous_hash == c.previous_hash,
        b.transactions.len() == c.transactions.len(),
        0 <= i < b.transactions.len(),
        forall|j: int| 0 <= j < b.transactions.len() && j != i ==> b.transactions[j] == c.transactions[j],
        transaction_text(b.transactions[i]) != transaction_text(c.transactions[i]),
    ensures
        block_digest_input(b) != block_digest_input(c),
{
    let (bs, cs) = (b.transactions, c.transactions);
    let n = bs.len() as int;
    lemma_joined_at(bs, i);
    lemma_joined_at(cs, i);
    assert(bs.subrange(i + 1, n) =~= cs.subrange(i + 1, n));
    assert(bs.subrange(0, i) =~= cs.subrange(0, i));
    assert(text_before(bs, i) == text_before(cs, i));
    let (tb, tc) = (transaction_text(bs[i]), transaction_text(cs[i]));
    let p = "["@ + text_before(bs, i);
    let s = separated_text(bs.subrange(i + 1, n)) + "]"@ + b.timestamp + decimal(b.nonce as nat)
        + decimal(b.amount as nat) + b.previous_hash;
    assert(p + tb + s =~= block_digest_input(b));
    assert(p + tc + s =~= block_digest_input(c));
    if block_digest_input(b) == block_digest_input(c) {
        lemma_middle_cancel(p, tb, tc, s);
    }
}

} // verus!
