use vstd::bytes::{spec_u64_to_le_bytes, u64_to_le_bytes};
use vstd::prelude::*;
use vstd::utf8::encode_utf8;

use crate::digest::{hex_of, sha256, sha256_of, to_hex};

verus! {

/// An atomic movement of value from one account (or from nowhere, for a
/// credit-only event such as an account creation) to another.
pub struct Transaction {
    /// The node that submitted the transaction.
    pub node_id: String,
    /// The paying account; `None` marks a credit-only event.
    pub from_account_id: Option<String>,
    /// The receiving account.
    pub to_account_id: String,
    /// The amount moved, in whole units.
    pub amount: u64,
    /// Creation time in seconds since the Unix epoch; informational only.
    pub created_at: u64,
}

impl Transaction {
    /// Returns a new transaction with the given parameters.
    pub fn new(
        node_id: String,
        from_account_id: Option<String>,
        to_account_id: String,
        amount: u64,
        created_at: u64,
    ) -> (r: Transaction)
        ensures
            r.node_id@ == node_id@,
            r.from_account_id == from_account_id,
            r.to_account_id@ == to_account_id@,
            r.amount == amount,
            r.created_at == created_at,
    {
        Transaction { node_id, from_account_id, to_account_id, amount, created_at }
    }
}

/// A batch of transactions, chained to its predecessor by `previous_hash`.
/// `hash` stays empty while the block still accepts transactions.
pub struct Block {
    pub transactions: Vec<Transaction>,
    pub previous_hash: String,
    pub hash: String,
}

/// The plain values a transaction carries: node, sender, receiver, amount and
/// creation time.
pub open spec fn tx_view(t: Transaction) -> (Seq<char>, Option<Seq<char>>, Seq<char>, u64, u64) {
    (
        t.node_id@,
        match t.from_account_id {
            Some(f) => Some(f@),
            None => None,
        },
        t.to_account_id@,
        t.amount,
        t.created_at,
    )
}

/// Whether every length that the encoding writes as a `u64` fits in one.
pub open spec fn encodable(txs: Seq<Transaction>, previous_hash: Seq<char>) -> bool {
    &&& txs.len() < 0x1_0000_0000_0000_0000
    &&& encode_utf8(previous_hash).len() < 0x1_0000_0000_0000_0000
    &&& forall|k: int| 0 <= k < txs.len() ==> #[trigger] tx_encodable(txs[k])
}

/// Whether each text field of `t` has a UTF-8 length that fits in a `u64`.
pub open spec fn tx_encodable(t: Transaction) -> bool {
    &&& encode_utf8(t.node_id@).len() < 0x1_0000_0000_0000_0000
    &&& encode_utf8(t.to_account_id@).len() < 0x1_0000_0000_0000_0000
    &&& (t.from_account_id is Some ==> encode_utf8(t.from_account_id->Some_0@).len()
        < 0x1_0000_0000_0000_0000)
}

/// A length-prefixed byte field: the length as eight little-endian bytes,
/// then the bytes themselves.
pub open spec fn field_bytes(b: Seq<u8>) -> Seq<u8> {
    spec_u64_to_le_bytes(b.len() as u64) + b
}

/// The encoding of a text field: its UTF-8 bytes, length-prefixed.
pub open spec fn text_bytes(s: Seq<char>) -> Seq<u8> {
    field_bytes(encode_utf8(s))
}

/// The encoding of an optional text field: a tag byte, then the text if present.
pub open spec fn opt_text_bytes(s: Option<String>) -> Seq<u8> {
    match s {
        None => seq![0u8],
        Some(v) => seq![1u8] + text_bytes(v@),
    }
}

/// The encoding of one transaction, its fields in declaration order.
pub open spec fn tx_bytes(t: Transaction) -> Seq<u8> {
    text_bytes(t.node_id@) + opt_text_bytes(t.from_account_id) + text_bytes(t.to_account_id@)
        + spec_u64_to_le_bytes(t.amount) + spec_u64_to_le_bytes(t.created_at)
}

/// The encodings of a run of transactions, one after another.
pub open spec fn txs_bytes(txs: Seq<Transaction>) -> Seq<u8>
    decreases txs.len(),
{
    if txs.len() == 0 {
        Seq::empty()
    } else {
        txs_bytes(txs.drop_last()) + tx_bytes(txs.last())
    }
}

/// The bytes that a block's hash is taken over: the transaction count, the
/// transactions, then the previous hash. The block's own hash is left out.
pub open spec fn block_bytes(txs: Seq<Transaction>, previous_hash: Seq<char>) -> Seq<u8> {
    spec_u64_to_le_bytes(txs.len() as u64) + txs_bytes(txs) + text_bytes(previous_hash)
}

/// The digest of a block's contents, as lowercase hexadecimal text.
pub open spec fn block_digest(txs: Seq<Transaction>, previous_hash: Seq<char>) -> Seq<char> {
    hex_of(sha256_of(block_bytes(txs, previous_hash)))
}

fn push_field(out: &mut Vec<u8>, b: &[u8])
    ensures
        final(out)@ == old(out)@ + field_bytes(b@),
{
    let mut len = u64_to_le_bytes(b.len() as u64);
    out.append(&mut len);
    out.extend_from_slice(b);
}

fn push_text(out: &mut Vec<u8>, s: &String)
    ensures
        final(out)@ == old(out)@ + text_bytes(s@),
{
    push_field(out, s.as_str().as_bytes());
}

fn push_tx(out: &mut Vec<u8>, t: &Transaction)
    ensures
        final(out)@ == old(out)@ + tx_bytes(*t),
{
    let ghost start = out@;
    push_text(out, &t.node_id);
    match &t.from_account_id {
        None => {
            out.push(0u8);
        },
        Some(f) => {
            out.push(1u8);
            push_text(out, f);
        },
    }
    push_text(out, &t.to_account_id);
    let mut amount = u64_to_le_bytes(t.amount);
    out.append(&mut amount);
    let mut created = u64_to_le_bytes(t.created_at);
    out.append(&mut created);
    assert(out@ =~= start + tx_bytes(*t));
}

/// Encodes a block's transactions and previous hash as `block_bytes` states.
pub fn encode_block(txs: &Vec<Transaction>, previous_hash: &String) -> (r: Vec<u8>)
    ensures
        r@ == block_bytes(txs@, previous_hash@),
{
    let mut out = u64_to_le_bytes(txs.len() as u64);
    let mut i: usize = 0;
    while i < txs.len()
        invariant
            i <= txs@.len(),
            out@ == spec_u64_to_le_bytes(txs@.len() as u64) + txs_bytes(txs@.take(i as int)),
        decreases txs@.len() - i,
    {
        push_tx(&mut out, &txs[i]);
        assert(txs@.take(i as int + 1).drop_last() =~= txs@.take(i as int));
        i += 1;
    }
    assert(txs@.take(i as int) =~= txs@);
    push_text(&mut out, previous_hash);
    out
}

/// Computes the digest of a block's contents.
pub fn hash_block(txs: &Vec<Transaction>, previous_hash: &String) -> (r: String)
    ensures
        r@ == block_digest(txs@, previous_hash@),
{
    let bytes = encode_block(txs, previous_hash);
    let digest = sha256(bytes.as_slice());
    to_hex(digest.as_slice())
}

impl Block {
    /// A fresh, empty, unhashed block chained to `previous_hash`.
    pub fn new(previous_hash: String) -> (r: Block)
        ensures
            r.transactions@.len() == 0,
            r.previous_hash@ == previous_hash@,
            r.hash@.len() == 0,
    {
        Block { transactions: Vec::new(), previous_hash, hash: String::new() }
    }

    /// Calculates and sets the hash of the block if it is not already set.
    pub fn calc_and_set_hash(&mut self)
        ensures
            final(self).transactions@ == old(self).transactions@,
            final(self).previous_hash@ == old(self).previous_hash@,
            old(self).hash@.len() == 0 ==> final(self).hash@ == block_digest(
                old(self).transactions@,
                old(self).previous_hash@,
            ),
            old(self).hash@.len() != 0 ==> final(self).hash@ == old(self).hash@,
    {
        if self.hash.as_str().is_empty() {
            self.hash = hash_block(&self.transactions, &self.previous_hash);
        }
    }
}

} // verus!
