use vstd::prelude::*;

verus! {

/// The operations a client can ask the ledger to perform.
pub enum Operation {
    CreateAccount(AccountCreationOp),
    TransferFunds(FundTransferOp),
    GetFunds(GetFundsOp),
}

/// Opens an account with a starting balance.
pub struct AccountCreationOp {
    pub account_id: String,
    pub starting_balance: u64,
}

/// Moves funds from one account to another.
pub struct FundTransferOp {
    pub from_account_id: String,
    pub to_account_id: String,
    pub amount: u64,
}

/// Asks for the balance of an account.
pub struct GetFundsOp {
    pub account_id: String,
}

/// One operation, tagged with the node that submitted it.
pub struct Request {
    pub from_node: String,
    pub operation: Operation,
}

impl Request {
    pub fn new_get_funds_request(node_id: String, account_id: String) -> (r: Request)
        ensures
            r.from_node@ == node_id@,
            r.operation is GetFunds,
            r.operation->GetFunds_0.account_id@ == account_id@,
    {
        Request { from_node: node_id, operation: Operation::GetFunds(GetFundsOp { account_id }) }
    }

    pub fn new_create_account_request(
        node_id: String,
        account_id: String,
        starting_balance: u64,
    ) -> (r: Request)
        ensures
            r.from_node@ == node_id@,
            r.operation is CreateAccount,
            r.operation->CreateAccount_0.account_id@ == account_id@,
            r.operation->CreateAccount_0.starting_balance == starting_balance,
    {
        Request {
            from_node: node_id,
            operation: Operation::CreateAccount(AccountCreationOp { account_id, starting_balance }),
        }
    }

    pub fn new_transfer_funds_request(
        node_id: String,
        from_account_id: String,
        to_account_id: String,
        amount: u64,
    ) -> (r: Request)
        ensures
            r.from_node@ == node_id@,
            r.operation is TransferFunds,
            r.operation->TransferFunds_0.from_account_id@ == from_account_id@,
            r.operation->TransferFunds_0.to_account_id@ == to_account_id@,
            r.operation->TransferFunds_0.amount == amount,
    {
        Request {
            from_node: node_id,
            operation: Operation::TransferFunds(
                FundTransferOp { from_account_id, to_account_id, amount },
            ),
        }
    }
}

} // verus!
