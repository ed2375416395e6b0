use vstd::prelude::*;

use crate::block::{block_digest, Block, Transaction};
use crate::ledger::{
    balance_of, chain_linked, finalized_txs, known_account, mentions, received, sealed, sent,
    State,
};

verus! {

proof fn lemma_unmentioned_sums(txs: Seq<Transaction>, account: Seq<char>)
    requires
        forall|k: int| 0 <= k < txs.len() ==> !#[trigger] mentions(txs[k], account),
    ensures
        received(txs, account) == 0,
        sent(txs, account) == 0,
    decreases txs.len(),
{
    if txs.len() > 0 {
        let rest = txs.drop_last();
        assert forall|k: int| 0 <= k < rest.len() implies !#[trigger] mentions(rest[k], account) by {
            assert(rest[k] == txs[k]);
        }
        lemma_unmentioned_sums(rest, account);
        assert(!mentions(txs[txs.len() - 1], account));
    }
}

/// An account's balance is what it received minus what it sent, over every
/// finalized transaction; an account that no finalized transaction names has
/// balance zero.
pub proof fn lemma_balance_replay(blocks: Seq<Block>, account: Seq<char>)
    ensures
        balance_of(blocks, account) == received(finalized_txs(blocks), account) - sent(
            finalized_txs(blocks),
            account,
        ),
        !known_account(blocks, account) ==> balance_of(blocks, account) == 0,
{
    if !known_account(blocks, account) {
        lemma_unmentioned_sums(finalized_txs(blocks), account);
    }
}

/// Every block of a well-formed ledger points at its predecessor's hash, the
/// first at the empty genesis marker, and each carries the digest of its own
/// contents; the pending block points at the last hash.
pub proof fn lemma_chain_integrity(s: State)
    requires
        s.wf(),
    ensures
        s.ledger@.len() > 0 ==> s.ledger@[0].previous_hash@.len() == 0,
        forall|i: int|
            0 <= i < s.ledger@.len() - 1 ==> #[trigger] s.ledger@[i + 1].previous_hash@
                == s.ledger@[i].hash@,
        forall|i: int|
            0 <= i < s.ledger@.len() ==> #[trigger] s.ledger@[i].hash@ == block_digest(
                s.ledger@[i].transactions@,
                s.ledger@[i].previous_hash@,
            ),
        s.ledger@.len() > 0 ==> s.next_block_to_mint.previous_hash@ == s.ledger@.last().hash@,
        s.ledger@.len() == 0 ==> s.next_block_to_mint.previous_hash@.len() == 0,
{
    assert(chain_linked(s.ledger@));
    assert forall|i: int| 0 <= i < s.ledger@.len() implies #[trigger] s.ledger@[i].hash@
        == block_digest(s.ledger@[i].transactions@, s.ledger@[i].previous_hash@) by {
        assert(sealed(s.ledger@[i]));
    }
}

/// A block's digest depends on its transactions and previous hash alone: the
/// same contents give the same digest.
pub proof fn lemma_digest_deterministic(
    txs1: Seq<Transaction>,
    previous1: Seq<char>,
    txs2: Seq<Transaction>,
    previous2: Seq<char>,
)
    requires
        txs1 == txs2,
        previous1 == previous2,
    ensures
        block_digest(txs1, previous1) == block_digest(txs2, previous2),
{
}

} // verus!
