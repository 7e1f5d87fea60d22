//! The atomic unit of one operation, as a state machine.
//!
//! A unit reads the account under a lock, settles the operation, writes the
//! new balance, appends the record and commits. The storage does each of
//! these, and each may fail; the unit decides what comes next. Whoever runs
//! a unit performs the action that the unit hands out, and hands back what
//! the storage answered, as an event, until the unit hands out the answer.

use vstd::prelude::*;
use crate::errors::LedgerError;
use crate::models::{
    Client, NewTransaction, NewTransactionView, PayloadView, TransactionPayload,
    TransactionResponse,
};
use crate::operation::{operation_of, valid_payload, Operation, OperationView};
use crate::settlement::{respond, response_for, settle, settled};

verus! {

/// What the storage answered to the last action.
#[derive(Clone, Copy, Debug, PartialEq, Eq, Structural)]
pub enum Event {
    /// The locked read found the account, and holds its lock.
    Account(Client),
    /// The locked read found no such account.
    NoAccount,
    /// The storage did what the action asked.
    Done,
    /// The storage could not do what the action asked.
    Failed,
}

/// What is to be done next.
#[derive(Debug)]
pub enum Action {
    /// Open the unit and read the account, locking it until the unit ends.
    LockedRead { account_id: i32 },
    /// Write the account's new balance within the unit.
    Write { account: Client },
    /// Append the record to the log within the unit.
    Append { record: NewTransaction },
    /// Commit the unit: the write and the record become visible together.
    Commit,
    /// Abort the unit: nothing of it becomes visible.
    Rollback,
    /// The unit has ended: give the caller this answer.
    Respond { result: Result<TransactionResponse, LedgerError> },
}

/// What an [`Action`] holds.
pub ghost enum ActionView {
    LockedRead { account_id: int },
    Write { account: Client },
    Append { record: NewTransactionView },
    Commit,
    Rollback,
    Respond { result: Result<TransactionResponse, LedgerError> },
}

impl View for Action {
    type V = ActionView;

    open spec fn view(&self) -> ActionView {
        match *self {
            Action::LockedRead { account_id } => ActionView::LockedRead {
                account_id: account_id as int,
            },
            Action::Write { account } => ActionView::Write { account },
            Action::Append { record } => ActionView::Append { record: record@ },
            Action::Commit => ActionView::Commit,
            Action::Rollback => ActionView::Rollback,
            Action::Respond { result } => ActionView::Respond { result },
        }
    }
}

/// Where a unit stands: which answer of the storage it waits for.
#[derive(Debug)]
pub enum Unit {
    /// The locked read was asked for.
    Reading { account_id: i32, op: Operation },
    /// The write of `account` was asked for.
    Writing { account: Client, op: Operation },
    /// The append of the record was asked for.
    Appending { account: Client },
    /// The commit was asked for.
    Committing { account: Client },
    /// The rollback was asked for, because of `error`.
    Aborting { error: LedgerError },
    /// The answer was handed out.
    Finished { result: Result<TransactionResponse, LedgerError> },
}

/// What a [`Unit`] holds.
pub ghost enum UnitView {
    Reading { account_id: int, op: OperationView },
    Writing { account: Client, op: OperationView },
    Appending { account: Client },
    Committing { account: Client },
    Aborting { error: LedgerError },
    Finished { result: Result<TransactionResponse, LedgerError> },
}

impl View for Unit {
    type V = UnitView;

    open spec fn view(&self) -> UnitView {
        match *self {
            Unit::Reading { account_id, op } => UnitView::Reading {
                account_id: account_id as int,
                op: op@,
            },
            Unit::Writing { account, op } => UnitView::Writing { account, op: op@ },
            Unit::Appending { account } => UnitView::Appending { account },
            Unit::Committing { account } => UnitView::Committing { account },
            Unit::Aborting { error } => UnitView::Aborting { error },
            Unit::Finished { result } => UnitView::Finished { result },
        }
    }
}

/// The unit gives up: it asks for the rollback and keeps the reason.
pub open spec fn abort(error: LedgerError) -> (UnitView, ActionView) {
    (UnitView::Aborting { error }, ActionView::Rollback)
}

/// The unit ends with this answer.
pub open spec fn finish(result: Result<TransactionResponse, LedgerError>) -> (UnitView, ActionView) {
    (UnitView::Finished { result }, ActionView::Respond { result })
}

/// How a unit starts. A request that is not well formed is answered at
/// once, before the storage is touched. For any other the unit asks for the
/// locked read of the account.
pub open spec fn begun(account_id: int, p: PayloadView) -> (UnitView, ActionView) {
    if valid_payload(p) {
        (
            UnitView::Reading { account_id, op: operation_of(p) },
            ActionView::LockedRead { account_id },
        )
    } else {
        finish(Err(LedgerError::InvalidOperation))
    }
}

/// What a unit does with an answer of the storage.
///
/// - After the locked read: with the account, the operation is settled, and
///   the new balance is written or the unit gives up for the reason that
///   settling gave; without the account the unit gives up as not found.
/// - After the write the record is appended, after the append the unit is
///   committed, and after the commit the answer is the new balance.
/// - An answer that does not confirm what was asked for is a failure of
///   the storage: the unit gives up, and a commit that was not confirmed
///   ends the unit with an internal failure.
/// - After the rollback, whatever became of it, the answer is the reason
///   for which the unit gave up.
/// - A unit that has ended stays as it is.
pub open spec fn stepped(unit: UnitView, event: Event) -> (UnitView, ActionView) {
    match unit {
        UnitView::Reading { account_id, op } => match event {
            Event::Account(account) => if account.id != account_id {
                abort(LedgerError::InternalFailure)
            } else {
                match settled(account, op) {
                    Ok(after) => (
                        UnitView::Writing { account: after, op },
                        ActionView::Write { account: after },
                    ),
                    Err(error) => abort(error),
                }
            },
            Event::NoAccount => abort(LedgerError::NotFound),
            _ => abort(LedgerError::InternalFailure),
        },
        UnitView::Writing { account, op } => match event {
            Event::Done => (
                UnitView::Appending { account },
                ActionView::Append { record: op.record_for(account.id as int) },
            ),
            _ => abort(LedgerError::InternalFailure),
        },
        UnitView::Appending { account } => match event {
            Event::Done => (UnitView::Committing { account }, ActionView::Commit),
            _ => abort(LedgerError::InternalFailure),
        },
        UnitView::Committing { account } => match event {
            Event::Done => finish(Ok(response_for(account))),
            _ => finish(Err(LedgerError::InternalFailure)),
        },
        UnitView::Aborting { error } => finish(Err(error)),
        UnitView::Finished { result } => finish(result),
    }
}

impl Unit {
    /// Starts the unit of one operation on one account and gives the first
    /// action.
    pub fn begin(account_id: i32, payload: &TransactionPayload) -> (r: (Unit, Action))
        ensures
            (r.0@, r.1@) == begun(account_id as int, payload@),
    {
        match Operation::validate(payload) {
            Ok(op) => (Unit::Reading { account_id, op }, Action::LockedRead { account_id }),
            Err(error) => (
                Unit::Finished { result: Err(error) },
                Action::Respond { result: Err(error) },
            ),
        }
    }

    /// Takes the storage's answer to the last action and gives the next
    /// action.
    pub fn step(self, event: Event) -> (r: (Unit, Action))
        ensures
            (r.0@, r.1@) == stepped(self@, event),
    {
        match self {
            Unit::Reading { account_id, op } => match event {
                Event::Account(account) => {
                    if account.id != account_id {
                        Unit::give_up(LedgerError::InternalFailure)
                    } else {
                        match settle(account, &op) {
                            Ok(after) => (
                                Unit::Writing { account: after, op },
                                Action::Write { account: after },
                            ),
                            Err(error) => Unit::give_up(error),
                        }
                    }
                },
                Event::NoAccount => Unit::give_up(LedgerError::NotFound),
                _ => Unit::give_up(LedgerError::InternalFailure),
            },
            Unit::Writing { account, op } => match event {
                Event::Done => (
                    Unit::Appending { account },
                    Action::Append { record: op.record_for(account.id) },
                ),
                _ => Unit::give_up(LedgerError::InternalFailure),
            },
            Unit::Appending { account } => match event {
                Event::Done => (Unit::Committing { account }, Action::Commit),
                _ => Unit::give_up(LedgerError::InternalFailure),
            },
            Unit::Committing { account } => match event {
                Event::Done => Unit::end(Ok(respond(account))),
                _ => Unit::end(Err(LedgerError::InternalFailure)),
            },
            Unit::Aborting { error } => Unit::end(Err(error)),
            Unit::Finished { result } => Unit::end(result),
        }
    }

    fn give_up(error: LedgerError) -> (r: (Unit, Action))
        ensures
            (r.0@, r.1@) == abort(error),
    {
        (Unit::Aborting { error }, Action::Rollback)
    }

    fn end(result: Result<TransactionResponse, LedgerError>) -> (r: (Unit, Action))
        ensures
            (r.0@, r.1@) == finish(result),
    {
        (Unit::Finished { result }, Action::Respond { result })
    }
}

/// How many answers of the storage a unit waits for at most before it
/// ends.
pub open spec fn remaining(unit: UnitView) -> nat {
    match unit {
        UnitView::Reading { .. } => 4,
        UnitView::Writing { .. } => 3,
        UnitView::Appending { .. } => 2,
        UnitView::Committing { .. } => 1,
        UnitView::Aborting { .. } => 1,
        UnitView::Finished { .. } => 0,
    }
}

/// Every unit ends: each answer of the storage brings it nearer to its end,
/// whatever the answer is. It hands out its answer when it ends, and not
/// before. A unit that has ended repeats its answer and asks for nothing
/// more.
pub proof fn unit_ends(unit: UnitView, event: Event)
    ensures
        !(unit is Finished) ==> remaining(stepped(unit, event).0) < remaining(unit),
        unit is Finished ==> stepped(unit, event) == finish(unit->Finished_result),
        stepped(unit, event).1 is Respond <==> stepped(unit, event).0 is Finished,
        stepped(unit, event).1 matches ActionView::Respond { result } ==> stepped(unit, event).0
            == (UnitView::Finished { result }),
{
}

/// A unit answers with success only when the storage has confirmed the
/// commit, and then with the balance that was committed. A commit that is
/// not confirmed is answered as an internal failure.
pub proof fn success_only_after_commit(unit: UnitView, event: Event)
    requires
        !(unit is Finished),
    ensures
        stepped(unit, event).1 matches ActionView::Respond { result: Ok(response) } ==> {
            &&& unit matches UnitView::Committing { account }
            &&& event == Event::Done
            &&& response == response_for(account)
        },
        unit is Committing && event != Event::Done ==> stepped(unit, event).1 == (
        ActionView::Respond { result: Err(LedgerError::InternalFailure) }),
{
}

/// A unit asks for the commit only when the append was confirmed, for the
/// append only when the write was confirmed, and for the write only when
/// the locked read gave the account and the operation could be settled on
/// it: what is written is the account as settled, and what is appended is
/// the record of the operation on that account.
pub proof fn writes_in_order(unit: UnitView, event: Event)
    ensures
        stepped(unit, event).1 is Commit ==> unit is Appending && event == Event::Done,
        stepped(unit, event).1 matches ActionView::Append { record } ==> {
            &&& unit matches UnitView::Writing { account, op }
            &&& event == Event::Done
            &&& record == op.record_for(account.id as int)
        },
        stepped(unit, event).1 matches ActionView::Write { account: after } ==> {
            &&& unit matches UnitView::Reading { account_id, op }
            &&& event matches Event::Account(account)
            &&& account.id == account_id
            &&& settled(account, op) == Ok::<Client, LedgerError>(after)
            &&& after.balance + after.account_limit >= 0
        },
        stepped(unit, event).1 is LockedRead ==> false,
{
}

/// A unit that gives up never asks the storage for anything but the
/// rollback, and answers with the reason for which it gave up.
pub proof fn gives_up_without_trace(unit: UnitView, event: Event, then: Event)
    requires
        stepped(unit, event).1 is Rollback,
    ensures
        stepped(unit, event).0 is Aborting,
        stepped(stepped(unit, event).0, then).1 == (ActionView::Respond {
            result: Err(stepped(unit, event).0->Aborting_error),
        }),
{
}

} // verus!
