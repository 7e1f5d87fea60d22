//! The arithmetic of one operation on one account.

use vstd::prelude::*;
use crate::errors::LedgerError;
use crate::models::{Client, TransactionResponse};
use crate::operation::{Kind, Operation, OperationView};

verus! {

/// The account after an operation, or why the operation is refused.
///
/// The new balance is the old one plus the operation's delta. The operation
/// is refused as over the limit when the new balance plus the limit is
/// negative; a new balance of exactly minus the limit is allowed. A new
/// balance that is too large to be stored is an internal failure.
pub open spec fn settled(account: Client, op: OperationView) -> Result<Client, LedgerError> {
    let balance = account.balance + op.delta();
    if balance + account.account_limit < 0 {
        Err(LedgerError::LimitExceeded)
    } else if balance > i64::MAX {
        Err(LedgerError::InternalFailure)
    } else {
        Ok(Client { id: account.id, account_limit: account.account_limit, balance: balance as i64 })
    }
}

/// The answer that reports an account's state.
pub open spec fn response_for(account: Client) -> TransactionResponse {
    TransactionResponse { limite: account.account_limit, saldo: account.balance }
}

/// Applies an operation to an account's balance and gives the account as it
/// is to be written, or the reason for which nothing is to be written.
pub fn settle(account: Client, op: &Operation) -> (r: Result<Client, LedgerError>)
    ensures
        r == settled(account, op@),
        r matches Ok(after) ==> after.balance + after.account_limit >= 0,
{
    let amount = op.amount();
    let delta: i128 = match op.kind() {
        Kind::Credit => amount as i128,
        Kind::Debit => -(amount as i128),
    };
    let balance: i128 = account.balance as i128 + delta;
    if balance + (account.account_limit as i128) < 0 {
        Err(LedgerError::LimitExceeded)
    } else if balance > i64::MAX as i128 {
        Err(LedgerError::InternalFailure)
    } else {
        Ok(Client { id: account.id, account_limit: account.account_limit, balance: balance as i64 })
    }
}

/// The answer that reports an account's state: its limit and its balance.
pub fn respond(account: Client) -> (r: TransactionResponse)
    ensures
        r == response_for(account),
{
    TransactionResponse { limite: account.account_limit, saldo: account.balance }
}

/// An operation that is applied leaves the account within its limit, and
/// changes nothing of the account but its balance.
pub proof fn settled_stays_within_limit(account: Client, op: OperationView)
    requires
        account.account_limit >= 0,
        settled(account, op) is Ok,
    ensures
        settled(account, op)->Ok_0.within_limit(),
        settled(account, op)->Ok_0.id == account.id,
        settled(account, op)->Ok_0.account_limit == account.account_limit,
        settled(account, op)->Ok_0.balance == account.balance + op.delta(),
{
}

/// A credit is never refused for the limit: an account within its limit
/// takes any credit that its balance can hold.
pub proof fn credit_never_exceeds_limit(account: Client, credit: OperationView)
    requires
        account.within_limit(),
        credit.kind == Kind::Credit,
        credit.valid(),
    ensures
        settled(account, credit) != Err::<Client, LedgerError>(LedgerError::LimitExceeded),
{
}

/// A credit of an amount followed by a debit of the same amount gives the
/// account back as it was.
pub proof fn credit_then_debit_restores(account: Client, credit: OperationView, debit: OperationView)
    requires
        account.within_limit(),
        credit.valid(),
        credit.kind == Kind::Credit,
        debit.kind == Kind::Debit,
        debit.amount == credit.amount,
        settled(account, credit) is Ok,
    ensures
        settled(settled(account, credit)->Ok_0, debit) == Ok::<Client, LedgerError>(account),
{
}

/// A debit is applied exactly when it leaves the balance at or above minus
/// the limit.
pub proof fn debit_applies_up_to_limit(account: Client, debit: OperationView)
    requires
        debit.kind == Kind::Debit,
        debit.valid(),
    ensures
        settled(account, debit) is Ok <==> account.balance - debit.amount >= -account.account_limit,
        !(settled(account, debit) is Ok) ==> settled(account, debit) == Err::<Client, LedgerError>(
            LedgerError::LimitExceeded,
        ),
{
}

} // verus!
