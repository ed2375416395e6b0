use vstd::prelude::*;

use crate::block::{block_digest, Block, Transaction};
use crate::request::{Operation, Request};

verus! {

/// The most transactions the ledger holds, finalized and pending together.
/// It keeps every replayed balance within `i128`.
pub const MAX_TRANSACTIONS: u64 = 0x4000_0000_0000_0000;

/// One more than the largest amount a single transaction can carry.
pub open spec fn amount_bound() -> int {
    0x1_0000_0000_0000_0000
}

/// All finalized transactions, block by block, in append order.
pub open spec fn finalized_txs(blocks: Seq<Block>) -> Seq<Transaction>
    decreases blocks.len(),
{
    if blocks.len() == 0 {
        Seq::empty()
    } else {
        finalized_txs(blocks.drop_last()) + blocks.last().transactions@
    }
}

/// What a transaction pays into `account`.
pub open spec fn credit(t: Transaction, account: Seq<char>) -> int {
    if t.to_account_id@ == account {
        t.amount as int
    } else {
        0
    }
}

/// What a transaction takes out of `account`; a credit-only event takes nothing.
pub open spec fn debit(t: Transaction, account: Seq<char>) -> int {
    match t.from_account_id {
        Some(f) => if f@ == account {
            t.amount as int
        } else {
            0
        },
        None => 0,
    }
}

/// The sum of the amounts that `txs` pay into `account`.
pub open spec fn received(txs: Seq<Transaction>, account: Seq<char>) -> int
    decreases txs.len(),
{
    if txs.len() == 0 {
        0
    } else {
        received(txs.drop_last(), account) + credit(txs.last(), account)
    }
}

/// The sum of the amounts that `txs` take out of `account`.
pub open spec fn sent(txs: Seq<Transaction>, account: Seq<char>) -> int
    decreases txs.len(),
{
    if txs.len() == 0 {
        0
    } else {
        sent(txs.drop_last(), account) + debit(txs.last(), account)
    }
}

/// The balance of `account` over the finalized blocks: received minus sent.
pub open spec fn balance_of(blocks: Seq<Block>, account: Seq<char>) -> int {
    received(finalized_txs(blocks), account) - sent(finalized_txs(blocks), account)
}

/// Whether a transaction names `account` as sender or receiver.
pub open spec fn mentions(t: Transaction, account: Seq<char>) -> bool {
    t.to_account_id@ == account || (t.from_account_id is Some && t.from_account_id->Some_0@
        == account)
}

/// Whether some finalized transaction names `account`.
pub open spec fn known_account(blocks: Seq<Block>, account: Seq<char>) -> bool {
    exists|k: int|
        0 <= k < finalized_txs(blocks).len() && #[trigger] mentions(
            finalized_txs(blocks)[k],
            account,
        )
}

/// Each block after the first points at its predecessor's hash; the first
/// points at the empty genesis marker.
pub open spec fn chain_linked(blocks: Seq<Block>) -> bool {
    &&& blocks.len() > 0 ==> blocks[0].previous_hash@.len() == 0
    &&& forall|i: int|
        0 <= i < blocks.len() - 1 ==> #[trigger] blocks[i + 1].previous_hash@ == blocks[i].hash@
}

/// A finalized block: non-empty, and stamped with the digest of its contents.
pub open spec fn sealed(b: Block) -> bool {
    b.transactions@.len() > 0 && b.hash@ == block_digest(b.transactions@, b.previous_hash@)
}

/// The hash the next block must point at: the last block's, or the genesis marker.
pub open spec fn tail_hash(blocks: Seq<Block>) -> Seq<char> {
    if blocks.len() == 0 {
        Seq::empty()
    } else {
        blocks.last().hash@
    }
}

proof fn lemma_take_step(blocks: Seq<Block>, i: int)
    requires
        0 <= i < blocks.len(),
    ensures
        finalized_txs(blocks.take(i + 1)) == finalized_txs(blocks.take(i))
            + blocks[i].transactions@,
{
    assert(blocks.take(i + 1).drop_last() =~= blocks.take(i));
}

proof fn lemma_prefix_of_all(blocks: Seq<Block>, i: int)
    requires
        0 <= i <= blocks.len(),
    ensures
        finalized_txs(blocks.take(i)).len() <= finalized_txs(blocks).len(),
        forall|k: int|
            0 <= k < finalized_txs(blocks.take(i)).len() ==> #[trigger] finalized_txs(
                blocks.take(i),
            )[k] == finalized_txs(blocks)[k],
    decreases blocks.len(),
{
    if i == blocks.len() {
        assert(blocks.take(i) =~= blocks);
    } else {
        assert(blocks.drop_last().take(i) =~= blocks.take(i));
        lemma_prefix_of_all(blocks.drop_last(), i);
    }
}

proof fn lemma_sums_bounded(txs: Seq<Transaction>, account: Seq<char>)
    ensures
        0 <= received(txs, account) <= txs.len() * amount_bound(),
        0 <= sent(txs, account) <= txs.len() * amount_bound(),
    decreases txs.len(),
{
    if txs.len() > 0 {
        lemma_sums_bounded(txs.drop_last(), account);
    }
}

/// Whether `t` carries the given fields.
pub open spec fn has_fields(
    t: Transaction,
    node: Seq<char>,
    from: Option<Seq<char>>,
    to: Seq<char>,
    amount: u64,
    at: u64,
) -> bool {
    &&& t.node_id@ == node
    &&& match from {
        None => t.from_account_id is None,
        Some(f) => t.from_account_id is Some && t.from_account_id->Some_0@ == f,
    }
    &&& t.to_account_id@ == to
    &&& t.amount == amount
    &&& t.created_at == at
}

/// `post` is `pre` with one transaction carrying the given fields appended to
/// the pending block; the finalized chain is untouched.
pub open spec fn appended(
    pre: State,
    post: State,
    node: Seq<char>,
    from: Option<Seq<char>>,
    to: Seq<char>,
    amount: u64,
    at: u64,
) -> bool {
    &&& post.ledger@ == pre.ledger@
    &&& post.next_block_to_mint.previous_hash@ == pre.next_block_to_mint.previous_hash@
    &&& post.next_block_to_mint.transactions@.len() == pre.next_block_to_mint.transactions@.len()
        + 1
    &&& post.next_block_to_mint.transactions@.drop_last() == pre.next_block_to_mint.transactions@
    &&& has_fields(post.next_block_to_mint.transactions@.last(), node, from, to, amount, at)
}

/// What creating `account` with `amount` does: refused if the account already
/// appears in the finalized chain, else a credit-only transaction is queued.
pub open spec fn create_account_effect(
    pre: State,
    post: State,
    node: Seq<char>,
    account: Seq<char>,
    amount: u64,
    now: u64,
    r: Outcome,
) -> bool {
    if known_account(pre.ledger@, account) {
        post == pre && (r matches Outcome::AccountExists { account_id } && account_id@ == account)
    } else if pre.tx_count >= MAX_TRANSACTIONS {
        post == pre && r is LedgerFull
    } else {
        &&& appended(pre, post, node, None, account, amount, now)
        &&& r matches Outcome::AccountCreated { account_id, starting_balance }
        &&& account_id@ == account
        &&& starting_balance == amount
    }
}

/// What a transfer does: refused between an account and itself, or when the
/// sender's finalized balance is below `amount`; else the transfer is queued.
pub open spec fn transfer_effect(
    pre: State,
    post: State,
    node: Seq<char>,
    from: Seq<char>,
    to: Seq<char>,
    amount: u64,
    now: u64,
    r: Outcome,
) -> bool {
    if from == to {
        post == pre && r is SameAccount
    } else if balance_of(pre.ledger@, from) < amount {
        &&& post == pre
        &&& r matches Outcome::InsufficientFunds { account_id, amount: wanted }
        &&& account_id@ == from
        &&& wanted == amount
    } else if pre.tx_count >= MAX_TRANSACTIONS {
        post == pre && r is LedgerFull
    } else {
        &&& appended(pre, post, node, Some(from), to, amount, now)
        &&& r matches Outcome::TransferCommitted { from_account_id, to_account_id, amount: moved }
        &&& from_account_id@ == from
        &&& to_account_id@ == to
        &&& moved == amount
    }
}

/// The answer to a balance query.
pub open spec fn balance_report(pre: State, account: Seq<char>, r: Outcome) -> bool {
    &&& r matches Outcome::Balance { account_id, balance }
    &&& account_id@ == account
    &&& balance == balance_of(pre.ledger@, account)
}

/// What a request did, for the transport to render.
pub enum Outcome {
    AccountCreated { account_id: String, starting_balance: u64 },
    AccountExists { account_id: String },
    TransferCommitted { from_account_id: String, to_account_id: String, amount: u64 },
    SameAccount,
    InsufficientFunds { account_id: String, amount: u64 },
    Balance { account_id: String, balance: i128 },
    LedgerFull,
}

/// What a mint did.
pub enum MintOutcome {
    /// The pending block was empty; nothing changed.
    Skipped,
    /// The pending block was sealed under `hash` and appended to the chain.
    Minted { hash: String, transaction_count: usize },
}

/// The ledger engine: the finalized chain, the block being filled, and the
/// number of transactions held in both.
pub struct State {
    pub ledger: Vec<Block>,
    pub next_block_to_mint: Block,
    pub tx_count: u64,
}

impl State {
    /// The engine's invariant: the chain is linked and sealed, the pending
    /// block is unhashed and points at the chain's tail, and the count is exact.
    pub open spec fn wf(&self) -> bool {
        &&& chain_linked(self.ledger@)
        &&& forall|i: int| 0 <= i < self.ledger@.len() ==> #[trigger] sealed(self.ledger@[i])
        &&& self.next_block_to_mint.hash@.len() == 0
        &&& self.next_block_to_mint.previous_hash@ == tail_hash(self.ledger@)
        &&& self.tx_count == finalized_txs(self.ledger@).len()
            + self.next_block_to_mint.transactions@.len()
        &&& self.tx_count <= MAX_TRANSACTIONS
    }

    /// An empty ledger with an empty pending block chained to the genesis marker.
    pub fn new() -> (r: State)
        ensures
            r.wf(),
            r.ledger@.len() == 0,
            r.next_block_to_mint.transactions@.len() == 0,
    {
        State { ledger: Vec::new(), next_block_to_mint: Block::new(String::new()), tx_count: 0 }
    }

    /// Whether any finalized transaction names `account_id` as sender or receiver.
    pub fn account_exists(&self, account_id: &String) -> (r: bool)
        ensures
            r == known_account(self.ledger@, account_id@),
    {
        let ghost blocks = self.ledger@;
        let mut i: usize = 0;
        while i < self.ledger.len()
            invariant
                i <= blocks.len(),
                blocks == self.ledger@,
                forall|k: int|
                    0 <= k < finalized_txs(blocks.take(i as int)).len() ==> !#[trigger] mentions(
                        finalized_txs(blocks.take(i as int))[k],
                        account_id@,
                    ),
            decreases blocks.len() - i,
        {
            let block = &self.ledger[i];
            let ghost before = finalized_txs(blocks.take(i as int));
            proof {
                lemma_take_step(blocks, i as int);
            }
            let mut j: usize = 0;
            while j < block.transactions.len()
                invariant
                    i < blocks.len(),
                    blocks == self.ledger@,
                    *block == blocks[i as int],
                    before == finalized_txs(blocks.take(i as int)),
                    finalized_txs(blocks.take(i as int + 1)) == before
                        + blocks[i as int].transactions@,
                    j <= block.transactions@.len(),
                    forall|k: int|
                        0 <= k < before.len() ==> !#[trigger] mentions(before[k], account_id@),
                    forall|k: int|
                        0 <= k < j ==> !#[trigger] mentions(block.transactions@[k], account_id@),
                decreases block.transactions@.len() - j,
            {
                let t = &block.transactions[j];
                let hit = match &t.from_account_id {
                    Some(f) => *f == *account_id,
                    None => false,
                };
                if t.to_account_id == *account_id || hit {
                    let ghost all = finalized_txs(blocks);
                    proof {
                        lemma_prefix_of_all(blocks, i as int + 1);
                        let k = before.len() + j;
                        assert(finalized_txs(blocks.take(i as int + 1))[k] == t);
                        assert(mentions(all[k], account_id@));
                    }
                    return true;
                }
                j += 1;
            }
            proof {
                let now = finalized_txs(blocks.take(i as int + 1));
                assert forall|k: int| 0 <= k < now.len() implies !#[trigger] mentions(
                    now[k],
                    account_id@,
                ) by {
                    if k >= before.len() {
                        assert(now[k] == block.transactions@[k - before.len()]);
                    }
                }
            }
            i += 1;
        }
        assert(blocks.take(i as int) =~= blocks);
        false
    }

    /// The balance of `account_id`, replayed from every finalized transaction:
    /// what it received minus what it sent. The pending block is not counted.
    pub fn get_balance(&self, account_id: &String) -> (r: i128)
        requires
            self.wf(),
        ensures
            r == balance_of(self.ledger@, account_id@),
    {
        let ghost blocks = self.ledger@;
        let ghost a = account_id@;
        proof {
            lemma_prefix_of_all(blocks, blocks.len() as int);
            assert(blocks.take(blocks.len() as int) =~= blocks);
        }
        let mut balance: i128 = 0;
        let mut i: usize = 0;
        while i < self.ledger.len()
            invariant
                self.wf(),
                a == account_id@,
                i <= blocks.len(),
                blocks == self.ledger@,
                balance == received(finalized_txs(blocks.take(i as int)), a) - sent(
                    finalized_txs(blocks.take(i as int)),
                    a,
                ),
            decreases blocks.len() - i,
        {
            let block = &self.ledger[i];
            let ghost before = finalized_txs(blocks.take(i as int));
            proof {
                lemma_take_step(blocks, i as int);
                lemma_prefix_of_all(blocks, i as int + 1);
            }
            let mut j: usize = 0;
            while j < block.transactions.len()
                invariant
                    self.wf(),
                    a == account_id@,
                    i < blocks.len(),
                    blocks == self.ledger@,
                    *block == blocks[i as int],
                    before == finalized_txs(blocks.take(i as int)),
                    finalized_txs(blocks.take(i as int + 1)) == before
                        + blocks[i as int].transactions@,
                    finalized_txs(blocks.take(i as int + 1)).len() <= finalized_txs(blocks).len(),
                    j <= block.transactions@.len(),
                    balance == received(before + block.transactions@.take(j as int), a) - sent(
                        before + block.transactions@.take(j as int),
                        a,
                    ),
                decreases block.transactions@.len() - j,
            {
                let t = &block.transactions[j];
                let ghost seen = before + block.transactions@.take(j as int);
                let ghost next = before + block.transactions@.take(j as int + 1);
                proof {
                    assert(next.drop_last() =~= seen);
                    assert(next.last() == *t);
                    assert(received(next, a) == received(seen, a) + credit(*t, a));
                    assert(sent(next, a) == sent(seen, a) + debit(*t, a));
                    lemma_sums_bounded(next, a);
                    assert(next.len() <= MAX_TRANSACTIONS);
                }
                if let Some(f) = &t.from_account_id {
                    if *f == *account_id {
                        balance = balance - t.amount as i128;
                    }
                }
                if t.to_account_id == *account_id {
                    balance = balance + t.amount as i128;
                }
                j += 1;
            }
            assert(block.transactions@.take(j as int) =~= block.transactions@);
            i += 1;
        }
        assert(blocks.take(i as int) =~= blocks);
        balance
    }

    /// Appends a transaction to the pending block, unless the ledger is full.
    pub fn append_pending(&mut self, t: Transaction) -> (ok: bool)
        requires
            old(self).wf(),
        ensures
            final(self).wf(),
            ok == (old(self).tx_count < MAX_TRANSACTIONS),
            ok ==> final(self).ledger@ == old(self).ledger@
                && final(self).next_block_to_mint.previous_hash@
                == old(self).next_block_to_mint.previous_hash@
                && final(self).next_block_to_mint.transactions@
                == old(self).next_block_to_mint.transactions@.push(t),
            !ok ==> *final(self) == *old(self),
    {
        if self.tx_count >= MAX_TRANSACTIONS {
            return false;
        }
        self.next_block_to_mint.transactions.push(t);
        self.tx_count = self.tx_count + 1;
        true
    }

    /// Seals the pending block into the chain and opens a fresh one chained to
    /// it. With no pending transactions nothing changes.
    pub fn mint(&mut self) -> (r: MintOutcome)
        requires
            old(self).wf(),
        ensures
            final(self).wf(),
            old(self).next_block_to_mint.transactions@.len() == 0 ==> r is Skipped && *final(self)
                == *old(self),
            old(self).next_block_to_mint.transactions@.len() > 0 ==> {
                let txs = old(self).next_block_to_mint.transactions@;
                let hash = block_digest(txs, old(self).next_block_to_mint.previous_hash@);
                &&& final(self).ledger@.len() == old(self).ledger@.len() + 1
                &&& final(self).ledger@.drop_last() == old(self).ledger@
                &&& final(self).ledger@.last().transactions@ == txs
                &&& final(self).ledger@.last().previous_hash@
                    == old(self).next_block_to_mint.previous_hash@
                &&& final(self).ledger@.last().hash@ == hash
                &&& final(self).next_block_to_mint.transactions@.len() == 0
                &&& final(self).next_block_to_mint.previous_hash@ == hash
                &&& r matches MintOutcome::Minted { hash: h, transaction_count }
                &&& h@ == hash
                &&& transaction_count == txs.len()
            },
    {
        if self.next_block_to_mint.transactions.len() == 0 {
            return MintOutcome::Skipped;
        }
        self.next_block_to_mint.calc_and_set_hash();
        let hash = self.next_block_to_mint.hash.clone();
        let transaction_count = self.next_block_to_mint.transactions.len();
        let mut sealed = Block::new(hash.clone());
        std::mem::swap(&mut sealed, &mut self.next_block_to_mint);
        let ghost pre = self.ledger@;
        self.ledger.push(sealed);
        proof {
            assert(self.ledger@.drop_last() =~= pre);
            assert(forall|i: int| 0 <= i < pre.len() ==> self.ledger@[i] == pre[i]);
        }
        MintOutcome::Minted { hash, transaction_count }
    }

    /// Opens `account_id` with `starting_balance`, unless it already appears in
    /// the finalized chain.
    pub fn create_account(
        &mut self,
        node_id: String,
        account_id: String,
        starting_balance: u64,
        now: u64,
    ) -> (r: Outcome)
        requires
            old(self).wf(),
        ensures
            final(self).wf(),
            create_account_effect(
                *old(self),
                *final(self),
                node_id@,
                account_id@,
                starting_balance,
                now,
                r,
            ),
    {
        let ghost pre = *self;
        if self.account_exists(&account_id) {
            return Outcome::AccountExists { account_id };
        }
        let t = Transaction::new(node_id, None, account_id.clone(), starting_balance, now);
        let ok = self.append_pending(t);
        proof {
            if ok {
                let txs = pre.next_block_to_mint.transactions@;
                assert(txs.push(t).drop_last() =~= txs);
            }
        }
        if ok {
            Outcome::AccountCreated { account_id, starting_balance }
        } else {
            Outcome::LedgerFull
        }
    }

    /// Moves `amount` from one account to another, if they differ and the
    /// sender's finalized balance covers it.
    pub fn transfer_funds(
        &mut self,
        node_id: String,
        from_account_id: String,
        to_account_id: String,
        amount: u64,
        now: u64,
    ) -> (r: Outcome)
        requires
            old(self).wf(),
        ensures
            final(self).wf(),
            transfer_effect(
                *old(self),
                *final(self),
                node_id@,
                from_account_id@,
                to_account_id@,
                amount,
                now,
                r,
            ),
    {
        let ghost pre = *self;
        if from_account_id == to_account_id {
            return Outcome::SameAccount;
        }
        let balance = self.get_balance(&from_account_id);
        if balance < amount as i128 {
            return Outcome::InsufficientFunds { account_id: from_account_id, amount };
        }
        let t = Transaction::new(
            node_id,
            Some(from_account_id.clone()),
            to_account_id.clone(),
            amount,
            now,
        );
        let ok = self.append_pending(t);
        proof {
            if ok {
                let txs = pre.next_block_to_mint.transactions@;
                assert(txs.push(t).drop_last() =~= txs);
            }
        }
        if ok {
            Outcome::TransferCommitted { from_account_id, to_account_id, amount }
        } else {
            Outcome::LedgerFull
        }
    }

    /// Reports the finalized balance of `account_id`.
    pub fn get_funds(&self, account_id: String) -> (r: Outcome)
        requires
            self.wf(),
        ensures
            balance_report(*self, account_id@, r),
    {
        let balance = self.get_balance(&account_id);
        Outcome::Balance { account_id, balance }
    }

    /// Validates and applies one request; `now` stamps any transaction it queues.
    pub fn process_request(&mut self, request: Request, now: u64) -> (r: Outcome)
        requires
            old(self).wf(),
        ensures
            final(self).wf(),
            match request.operation {
                Operation::CreateAccount(op) => create_account_effect(
                    *old(self),
                    *final(self),
                    request.from_node@,
                    op.account_id@,
                    op.starting_balance,
                    now,
                    r,
                ),
                Operation::TransferFunds(op) => transfer_effect(
                    *old(self),
                    *final(self),
                    request.from_node@,
                    op.from_account_id@,
                    op.to_account_id@,
                    op.amount,
                    now,
                    r,
                ),
                Operation::GetFunds(op) => *final(self) == *old(self) && balance_report(
                    *old(self),
                    op.account_id@,
                    r,
                ),
            },
    {
        match request.operation {
            Operation::CreateAccount(op) => self.create_account(
                request.from_node,
                op.account_id,
                op.starting_balance,
                now,
            ),
            Operation::TransferFunds(op) => self.transfer_funds(
                request.from_node,
                op.from_account_id,
                op.to_account_id,
                op.amount,
                now,
            ),
            Operation::GetFunds(op) => self.get_funds(op.account_id),
        }
    }
}

} // verus!
