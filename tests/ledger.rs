use toychain::block::{encode_block, hash_block, Block, Transaction};
use toychain::digest::to_hex;
use toychain::ledger::{MintOutcome, Outcome, State};
use toychain::request::{Operation, Request};

fn create(state: &mut State, account: &str, amount: u64) -> Outcome {
    let request =
        Request::new_create_account_request("node".to_string(), account.to_string(), amount);
    state.process_request(request, 1)
}

fn transfer(state: &mut State, from: &str, to: &str, amount: u64) -> Outcome {
    let request = Request::new_transfer_funds_request(
        "node".to_string(),
        from.to_string(),
        to.to_string(),
        amount,
    );
    state.process_request(request, 2)
}

fn balance(state: &State, account: &str) -> i128 {
    state.get_balance(&account.to_string())
}

fn count_creations(state: &State, account: &str) -> usize {
    let mut n = 0;
    for block in &state.ledger {
        for t in &block.transactions {
            if t.from_account_id.is_none() && t.to_account_id == account {
                n += 1;
            }
        }
    }
    n
}

#[test]
fn created_account_is_invisible_until_minted() {
    let mut state = State::new();
    let outcome = create(&mut state, "alice", 100);
    assert!(matches!(
        outcome,
        Outcome::AccountCreated { ref account_id, starting_balance: 100 } if account_id == "alice"
    ));
    assert_eq!(balance(&state, "alice"), 0);
    assert!(!state.account_exists(&"alice".to_string()));
    assert!(matches!(state.mint(), MintOutcome::Minted { transaction_count: 1, .. }));
    assert_eq!(balance(&state, "alice"), 100);
    assert!(state.account_exists(&"alice".to_string()));
}

#[test]
fn transfer_moves_funds_after_mint() {
    let mut state = State::new();
    create(&mut state, "alice", 100);
    state.mint();
    let outcome = transfer(&mut state, "alice", "bob", 40);
    assert!(matches!(outcome, Outcome::TransferCommitted { amount: 40, .. }));
    state.mint();
    assert_eq!(balance(&state, "alice"), 60);
    assert_eq!(balance(&state, "bob"), 40);
    assert!(state.account_exists(&"bob".to_string()));
}

#[test]
fn transfer_without_funds_is_rejected() {
    let mut state = State::new();
    let outcome = transfer(&mut state, "alice", "bob", 10);
    assert!(matches!(
        outcome,
        Outcome::InsufficientFunds { ref account_id, amount: 10 } if account_id == "alice"
    ));
    assert!(state.next_block_to_mint.transactions.is_empty());
    assert!(state.ledger.is_empty());
    assert!(matches!(state.mint(), MintOutcome::Skipped));
    assert!(state.ledger.is_empty());
}

#[test]
fn second_creation_is_rejected() {
    let mut state = State::new();
    create(&mut state, "alice", 50);
    state.mint();
    let outcome = create(&mut state, "alice", 50);
    assert!(matches!(outcome, Outcome::AccountExists { ref account_id } if account_id == "alice"));
    assert!(state.next_block_to_mint.transactions.is_empty());
    state.mint();
    assert_eq!(count_creations(&state, "alice"), 1);
    assert_eq!(state.ledger.len(), 1);
}

#[test]
fn self_transfer_is_rejected() {
    let mut state = State::new();
    let outcome = transfer(&mut state, "alice", "alice", 10);
    assert!(matches!(outcome, Outcome::SameAccount));
    create(&mut state, "alice", 100);
    state.mint();
    let outcome = transfer(&mut state, "alice", "alice", 10);
    assert!(matches!(outcome, Outcome::SameAccount));
    assert!(state.next_block_to_mint.transactions.is_empty());
}

#[test]
fn balance_query_reports_finalized_balance() {
    let mut state = State::new();
    create(&mut state, "carol", 25);
    state.mint();
    let request = Request::new_get_funds_request("node".to_string(), "carol".to_string());
    assert!(matches!(request.operation, Operation::GetFunds(_)));
    let outcome = state.process_request(request, 3);
    assert!(matches!(
        outcome,
        Outcome::Balance { ref account_id, balance: 25 } if account_id == "carol"
    ));
    let outcome = state.get_funds("nobody".to_string());
    assert!(matches!(outcome, Outcome::Balance { balance: 0, .. }));
}

#[test]
fn balance_is_received_minus_sent() {
    let mut state = State::new();
    create(&mut state, "a", 100);
    create(&mut state, "b", 10);
    state.mint();
    transfer(&mut state, "a", "b", 30);
    transfer(&mut state, "b", "a", 5);
    state.mint();
    transfer(&mut state, "a", "c", 70);
    state.mint();
    assert_eq!(balance(&state, "a"), 100 - 30 + 5 - 70);
    assert_eq!(balance(&state, "b"), 10 + 30 - 5);
    assert_eq!(balance(&state, "c"), 70);
    assert_eq!(balance(&state, "d"), 0);
    assert!(!state.account_exists(&"d".to_string()));
}

#[test]
fn pending_transfers_are_checked_against_finalized_balance() {
    let mut state = State::new();
    create(&mut state, "a", 50);
    state.mint();
    assert!(matches!(transfer(&mut state, "a", "b", 50), Outcome::TransferCommitted { .. }));
    assert!(matches!(transfer(&mut state, "a", "c", 50), Outcome::TransferCommitted { .. }));
    state.mint();
    assert_eq!(balance(&state, "a"), -50);
}

#[test]
fn mint_of_empty_pending_block_changes_nothing() {
    let mut state = State::new();
    assert!(matches!(state.mint(), MintOutcome::Skipped));
    assert!(state.ledger.is_empty());
    assert_eq!(state.next_block_to_mint.previous_hash, "");
    create(&mut state, "a", 1);
    state.mint();
    let tail = state.next_block_to_mint.previous_hash.clone();
    assert!(matches!(state.mint(), MintOutcome::Skipped));
    assert_eq!(state.ledger.len(), 1);
    assert_eq!(state.next_block_to_mint.previous_hash, tail);
}

#[test]
fn blocks_are_chained_by_hash() {
    let mut state = State::new();
    create(&mut state, "a", 10);
    let first = match state.mint() {
        MintOutcome::Minted { hash, .. } => hash,
        MintOutcome::Skipped => panic!("expected a mint"),
    };
    create(&mut state, "b", 20);
    state.mint();
    create(&mut state, "c", 30);
    state.mint();
    assert_eq!(state.ledger.len(), 3);
    assert_eq!(state.ledger[0].previous_hash, "");
    assert_eq!(state.ledger[0].hash, first);
    for i in 0..2 {
        assert_eq!(state.ledger[i + 1].previous_hash, state.ledger[i].hash);
    }
    for block in &state.ledger {
        assert_eq!(block.hash.len(), 64);
        assert_eq!(hash_block(&block.transactions, &block.previous_hash), block.hash);
    }
    assert_eq!(state.next_block_to_mint.previous_hash, state.ledger[2].hash);
    assert_eq!(state.next_block_to_mint.hash, "");
}

#[test]
fn hex_rendering_is_lowercase_two_digits_per_byte() {
    assert_eq!(to_hex(&[0x00, 0xab, 0x0f, 0xf0]), "00ab0ff0");
    assert_eq!(to_hex(&[]), "");
}

#[test]
fn block_encoding_is_length_prefixed() {
    let t = Transaction::new("n1".to_string(), None, "alice".to_string(), 100, 7);
    let bytes = encode_block(&vec![t], &String::new());
    let expected: Vec<u8> = vec![
        1, 0, 0, 0, 0, 0, 0, 0, 2, 0, 0, 0, 0, 0, 0, 0, 110, 49, 0, 5, 0, 0, 0, 0, 0, 0, 0, 97,
        108, 105, 99, 101, 100, 0, 0, 0, 0, 0, 0, 0, 7, 0, 0, 0, 0, 0, 0, 0, 0, 0, 0, 0, 0, 0, 0,
        0,
    ];
    assert_eq!(bytes, expected);
}

#[test]
fn block_hash_is_sha256_of_encoding() {
    assert_eq!(
        hash_block(&Vec::new(), &String::new()),
        "374708fff7719dd5979ec875d56cd2286f6d3cf7ec317a3b25632aab28ec37bb"
    );
    let t = Transaction::new("n1".to_string(), None, "alice".to_string(), 100, 7);
    assert_eq!(
        hash_block(&vec![t], &String::new()),
        "a3b9bc182992e8936997b2bfbff055335326ab0bb2445eecd43ead01374be300"
    );
}

#[test]
fn hash_is_deterministic_and_sensitive_to_fields() {
    let make = |amount: u64, to: &str| {
        vec![Transaction::new("n".to_string(), Some("x".to_string()), to.to_string(), amount, 9)]
    };
    let prev = "abc".to_string();
    assert_eq!(hash_block(&make(5, "y"), &prev), hash_block(&make(5, "y"), &prev));
    assert_ne!(hash_block(&make(5, "y"), &prev), hash_block(&make(6, "y"), &prev));
    assert_ne!(hash_block(&make(5, "y"), &prev), hash_block(&make(5, "z"), &prev));
    assert_ne!(hash_block(&make(5, "y"), &prev), hash_block(&make(5, "y"), &"abd".to_string()));
}

#[test]
fn calc_and_set_hash_sets_once() {
    let mut block = Block::new(String::new());
    block.transactions.push(Transaction::new("n".to_string(), None, "a".to_string(), 1, 0));
    block.calc_and_set_hash();
    let h = block.hash.clone();
    assert_eq!(h, hash_block(&block.transactions, &block.previous_hash));
    block.transactions.push(Transaction::new("n".to_string(), None, "b".to_string(), 2, 0));
    block.calc_and_set_hash();
    assert_eq!(block.hash, h);
}

#[test]
fn queued_transactions_carry_request_fields() {
    let mut state = State::new();
    let request =
        Request::new_create_account_request("node-7".to_string(), "dave".to_string(), 12);
    state.process_request(request, 1234);
    let t = &state.next_block_to_mint.transactions[0];
    assert_eq!(t.node_id, "node-7");
    assert!(t.from_account_id.is_none());
    assert_eq!(t.to_account_id, "dave");
    assert_eq!(t.amount, 12);
    assert_eq!(t.created_at, 1234);
    state.mint();
    let request = Request::new_transfer_funds_request(
        "node-8".to_string(),
        "dave".to_string(),
        "erin".to_string(),
        5,
    );
    state.process_request(request, 99);
    let t = &state.next_block_to_mint.transactions[0];
    assert_eq!(t.node_id, "node-8");
    assert_eq!(t.from_account_id.as_deref(), Some("dave"));
    assert_eq!(t.to_account_id, "erin");
    assert_eq!(t.amount, 5);
    assert_eq!(t.created_at, 99);
    assert_eq!(state.tx_count, 2);
}

#[test]
fn append_pending_adds_to_pending_block_only() {
    let mut state = State::new();
    let t = Transaction::new("n".to_string(), None, "a".to_string(), 3, 0);
    assert!(state.append_pending(t));
    assert_eq!(state.next_block_to_mint.transactions.len(), 1);
    assert!(state.ledger.is_empty());
    assert_eq!(balance(&state, "a"), 0);
}
