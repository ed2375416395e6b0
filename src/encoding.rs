use vstd::bytes::{lemma_auto_spec_u64_to_from_le_bytes, spec_u64_to_le_bytes};
use vstd::prelude::*;
use vstd::utf8::{encode_utf8, encode_utf8_decode_utf8};

use crate::block::{
    block_bytes, encodable, field_bytes, opt_text_bytes, text_bytes, tx_bytes, tx_encodable,
    tx_view, txs_bytes, Transaction,
};

verus! {

proof fn lemma_split(a1: Seq<u8>, r1: Seq<u8>, a2: Seq<u8>, r2: Seq<u8>)
    requires
        a1.len() == a2.len(),
        a1 + r1 == a2 + r2,
    ensures
        a1 == a2,
        r1 == r2,
{
    assert(a1 =~= (a1 + r1).take(a1.len() as int));
    assert(a2 =~= (a2 + r2).take(a1.len() as int));
    assert(r1 =~= (a1 + r1).skip(a1.len() as int));
    assert(r2 =~= (a2 + r2).skip(a1.len() as int));
}

proof fn lemma_u64_prefix(x: u64, r1: Seq<u8>, y: u64, r2: Seq<u8>)
    requires
        spec_u64_to_le_bytes(x) + r1 == spec_u64_to_le_bytes(y) + r2,
    ensures
        x == y,
        r1 == r2,
{
    lemma_auto_spec_u64_to_from_le_bytes();
    lemma_split(spec_u64_to_le_bytes(x), r1, spec_u64_to_le_bytes(y), r2);
}

proof fn lemma_field_prefix(b1: Seq<u8>, r1: Seq<u8>, b2: Seq<u8>, r2: Seq<u8>)
    requires
        b1.len() < 0x1_0000_0000_0000_0000,
        b2.len() < 0x1_0000_0000_0000_0000,
        field_bytes(b1) + r1 == field_bytes(b2) + r2,
    ensures
        b1 == b2,
        r1 == r2,
{
    assert(field_bytes(b1) + r1 =~= spec_u64_to_le_bytes(b1.len() as u64) + (b1 + r1));
    assert(field_bytes(b2) + r2 =~= spec_u64_to_le_bytes(b2.len() as u64) + (b2 + r2));
    lemma_u64_prefix(b1.len() as u64, b1 + r1, b2.len() as u64, b2 + r2);
    lemma_split(b1, r1, b2, r2);
}

proof fn lemma_text_prefix(s1: Seq<char>, r1: Seq<u8>, s2: Seq<char>, r2: Seq<u8>)
    requires
        encode_utf8(s1).len() < 0x1_0000_0000_0000_0000,
        encode_utf8(s2).len() < 0x1_0000_0000_0000_0000,
        text_bytes(s1) + r1 == text_bytes(s2) + r2,
    ensures
        s1 == s2,
        r1 == r2,
{
    lemma_field_prefix(encode_utf8(s1), r1, encode_utf8(s2), r2);
    encode_utf8_decode_utf8(s1);
    encode_utf8_decode_utf8(s2);
}

proof fn lemma_tx_prefix(t1: Transaction, r1: Seq<u8>, t2: Transaction, r2: Seq<u8>)
    requires
        tx_encodable(t1),
        tx_encodable(t2),
        tx_bytes(t1) + r1 == tx_bytes(t2) + r2,
    ensures
        tx_view(t1) == tx_view(t2),
        r1 == r2,
{
    let a1 = spec_u64_to_le_bytes(t1.amount) + (spec_u64_to_le_bytes(t1.created_at) + r1);
    let a2 = spec_u64_to_le_bytes(t2.amount) + (spec_u64_to_le_bytes(t2.created_at) + r2);
    let to1 = text_bytes(t1.to_account_id@) + a1;
    let to2 = text_bytes(t2.to_account_id@) + a2;
    let from1 = opt_text_bytes(t1.from_account_id) + to1;
    let from2 = opt_text_bytes(t2.from_account_id) + to2;
    assert(tx_bytes(t1) + r1 =~= text_bytes(t1.node_id@) + from1);
    assert(tx_bytes(t2) + r2 =~= text_bytes(t2.node_id@) + from2);
    lemma_text_prefix(t1.node_id@, from1, t2.node_id@, from2);
    assert(from1[0] == from2[0]);
    match (t1.from_account_id, t2.from_account_id) {
        (Some(f1), Some(f2)) => {
            assert(from1 =~= seq![1u8] + (text_bytes(f1@) + to1));
            assert(from2 =~= seq![1u8] + (text_bytes(f2@) + to2));
            lemma_split(seq![1u8], text_bytes(f1@) + to1, seq![1u8], text_bytes(f2@) + to2);
            lemma_text_prefix(f1@, to1, f2@, to2);
        },
        (None, None) => {
            lemma_split(seq![0u8], to1, seq![0u8], to2);
        },
        (Some(f1), None) => {
            assert(from1[0] == 1u8);
        },
        (None, Some(f2)) => {
            assert(from2[0] == 1u8);
        },
    }
    lemma_text_prefix(t1.to_account_id@, a1, t2.to_account_id@, a2);
    lemma_u64_prefix(t1.amount, spec_u64_to_le_bytes(t1.created_at) + r1, t2.amount,
        spec_u64_to_le_bytes(t2.created_at) + r2);
    lemma_u64_prefix(t1.created_at, r1, t2.created_at, r2);
}

proof fn lemma_txs_bytes_front(txs: Seq<Transaction>)
    requires
        txs.len() > 0,
    ensures
        txs_bytes(txs) == tx_bytes(txs[0]) + txs_bytes(txs.drop_first()),
    decreases txs.len(),
{
    if txs.len() == 1 {
        assert(txs.drop_last() =~= Seq::<Transaction>::empty());
        assert(txs.drop_first() =~= Seq::<Transaction>::empty());
        assert(txs_bytes(txs.drop_last()) =~= Seq::<u8>::empty());
        assert(txs.last() == txs[0]);
        assert(txs_bytes(txs) =~= tx_bytes(txs[0]));
        assert(txs_bytes(txs.drop_first()) =~= Seq::<u8>::empty());
        assert(tx_bytes(txs[0]) + Seq::<u8>::empty() =~= tx_bytes(txs[0]));
    } else {
        let init = txs.drop_last();
        lemma_txs_bytes_front(init);
        assert(init.drop_first() =~= txs.drop_first().drop_last());
        assert(txs.drop_first().last() == txs.last());
        assert(init[0] == txs[0]);
        assert(txs_bytes(txs.drop_first()) == txs_bytes(init.drop_first()) + tx_bytes(txs.last()));
        assert(txs_bytes(txs) =~= tx_bytes(txs[0]) + txs_bytes(txs.drop_first()));
    }
}

proof fn lemma_txs_prefix(s1: Seq<Transaction>, r1: Seq<u8>, s2: Seq<Transaction>, r2: Seq<u8>)
    requires
        s1.len() == s2.len(),
        forall|k: int| 0 <= k < s1.len() ==> #[trigger] tx_encodable(s1[k]),
        forall|k: int| 0 <= k < s2.len() ==> #[trigger] tx_encodable(s2[k]),
        txs_bytes(s1) + r1 == txs_bytes(s2) + r2,
    ensures
        s1.map_values(|t: Transaction| tx_view(t)) == s2.map_values(|t: Transaction| tx_view(t)),
        r1 == r2,
    decreases s1.len(),
{
    if s1.len() == 0 {
        assert(r1 =~= txs_bytes(s1) + r1);
        assert(r2 =~= txs_bytes(s2) + r2);
        assert(s1.map_values(|t: Transaction| tx_view(t)) =~= s2.map_values(
            |t: Transaction| tx_view(t),
        ));
    } else {
        lemma_txs_bytes_front(s1);
        lemma_txs_bytes_front(s2);
        let rest1 = txs_bytes(s1.drop_first()) + r1;
        let rest2 = txs_bytes(s2.drop_first()) + r2;
        assert(txs_bytes(s1) + r1 =~= tx_bytes(s1[0]) + rest1);
        assert(txs_bytes(s2) + r2 =~= tx_bytes(s2[0]) + rest2);
        assert(tx_encodable(s1[0]) && tx_encodable(s2[0]));
        lemma_tx_prefix(s1[0], rest1, s2[0], rest2);
        assert forall|k: int| 0 <= k < s1.drop_first().len() implies #[trigger] tx_encodable(
            s1.drop_first()[k],
        ) by {
            assert(tx_encodable(s1[k + 1]));
        }
        assert forall|k: int| 0 <= k < s2.drop_first().len() implies #[trigger] tx_encodable(
            s2.drop_first()[k],
        ) by {
            assert(tx_encodable(s2[k + 1]));
        }
        lemma_txs_prefix(s1.drop_first(), r1, s2.drop_first(), r2);
        let v1 = s1.map_values(|t: Transaction| tx_view(t));
        let v2 = s2.map_values(|t: Transaction| tx_view(t));
        assert forall|k: int| 0 <= k < v1.len() implies v1[k] == v2[k] by {
            if k > 0 {
                assert(s1.drop_first().map_values(|t: Transaction| tx_view(t))[k - 1] == v1[k]);
                assert(s2.drop_first().map_values(|t: Transaction| tx_view(t))[k - 1] == v2[k]);
            }
        }
        assert(v1 =~= v2);
    }
}

/// Two blocks whose encodings are equal hold the same transactions, field for
/// field, and the same previous hash: a change to any of them changes the bytes
/// that the digest is taken over.
pub proof fn lemma_block_bytes_injective(
    txs1: Seq<Transaction>,
    previous1: Seq<char>,
    txs2: Seq<Transaction>,
    previous2: Seq<char>,
)
    requires
        encodable(txs1, previous1),
        encodable(txs2, previous2),
        block_bytes(txs1, previous1) == block_bytes(txs2, previous2),
    ensures
        txs1.map_values(|t: Transaction| tx_view(t)) == txs2.map_values(
            |t: Transaction| tx_view(t),
        ),
        previous1 == previous2,
{
    let rest1 = txs_bytes(txs1) + text_bytes(previous1);
    let rest2 = txs_bytes(txs2) + text_bytes(previous2);
    assert(block_bytes(txs1, previous1) =~= spec_u64_to_le_bytes(txs1.len() as u64) + rest1);
    assert(block_bytes(txs2, previous2) =~= spec_u64_to_le_bytes(txs2.len() as u64) + rest2);
    lemma_u64_prefix(txs1.len() as u64, rest1, txs2.len() as u64, rest2);
    lemma_txs_prefix(txs1, text_bytes(previous1), txs2, text_bytes(previous2));
    assert(text_bytes(previous1) + Seq::<u8>::empty() =~= text_bytes(previous1));
    assert(text_bytes(previous2) + Seq::<u8>::empty() =~= text_bytes(previous2));
    lemma_text_prefix(previous1, Seq::empty(), previous2, Seq::empty());
}

} // verus!
