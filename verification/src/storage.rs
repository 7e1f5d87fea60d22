//! What a unit assumes of the storage, and what follows from it.
//!
//! The storage is modelled as a ledger that is visible to all, and a copy of
//! it in which an open unit works. A commit that succeeds makes the copy the
//! visible ledger; everything else that ends a unit throws the copy away.
//! Any action may fail. On such a storage a unit applies its operation as
//! the ledger defines it, or leaves the visible ledger untouched.

use vstd::prelude::*;
use crate::ledger::LedgerView;
use crate::models::{PayloadView, TransactionResponse, TransactionView};
use crate::errors::LedgerError;
use crate::unit::{begun, stepped, ActionView, Event, UnitView};

verus! {

/// A storage: the ledger that everyone sees, and the ledger as the open
/// unit has changed it so far.
pub ghost struct Storage {
    pub visible: LedgerView,
    pub pending: LedgerView,
    pub open: bool,
}

impl Storage {
    /// A storage that holds the ledger, with no unit open.
    pub open spec fn idle(ledger: LedgerView) -> Storage {
        Storage { visible: ledger, pending: ledger, open: false }
    }

    /// The storage after its unit has ended without a commit.
    pub open spec fn discarded(self) -> Storage {
        Storage::idle(self.visible)
    }

    /// What the storage does with an action, at the moment `now`, and what
    /// it answers. With `succeeds` false the storage fails at the action.
    ///
    /// - A locked read opens a unit and answers with the account as it is
    ///   visible.
    /// - A write and an append change the open unit's copy only. The
    ///   storage numbers the appended transaction and gives it its time;
    ///   it cannot append to a log that has used up its numbers.
    /// - A commit makes the copy visible and ends the unit. A commit that
    ///   fails, and a rollback, whether it fails or not, end the unit and
    ///   leave what was visible.
    /// - Without an open unit there is nothing to write to, to append to
    ///   or to commit.
    pub open spec fn performed(self, action: ActionView, succeeds: bool, now: int) -> (
        Storage,
        Event,
    ) {
        match action {
            ActionView::LockedRead { account_id } => if succeeds {
                (
                    Storage { visible: self.visible, pending: self.visible, open: true },
                    if self.visible.accounts.dom().contains(account_id) {
                        Event::Account(self.visible.accounts[account_id])
                    } else {
                        Event::NoAccount
                    },
                )
            } else {
                (self, Event::Failed)
            },
            ActionView::Write { account } => if succeeds && self.open {
                (
                    Storage {
                        pending: LedgerView {
                            accounts: self.pending.accounts.insert(account.id as int, account),
                            log: self.pending.log,
                        },
                        ..self
                    },
                    Event::Done,
                )
            } else {
                (self, Event::Failed)
            },
            ActionView::Append { record } => if succeeds && self.open && self.pending.log.len()
                < i32::MAX {
                (
                    Storage {
                        pending: LedgerView {
                            accounts: self.pending.accounts,
                            log: self.pending.log.push(
                                TransactionView {
                                    id: self.pending.log.len() as int + 1,
                                    client_id: record.client_id,
                                    amount: record.amount,
                                    transaction_type: record.transaction_type,
                                    details: record.details,
                                    created_at: now,
                                },
                            ),
                        },
                        ..self
                    },
                    Event::Done,
                )
            } else {
                (self, Event::Failed)
            },
            ActionView::Commit => if succeeds && self.open {
                (Storage::idle(self.pending), Event::Done)
            } else {
                (self.discarded(), Event::Failed)
            },
            ActionView::Rollback => (
                self.discarded(),
                if succeeds {
                    Event::Done
                } else {
                    Event::Failed
                },
            ),
            ActionView::Respond { .. } => (self, Event::Done),
        }
    }
}

/// The answer of a unit that is run on a storage, and the storage as the
/// unit leaves it. The unit stands at `unit` and has asked for `action`;
/// `luck` says of each action, by its number, whether the storage succeeds
/// at it; `steps` bounds the number of actions.
pub open spec fn run(
    unit: UnitView,
    action: ActionView,
    storage: Storage,
    luck: spec_fn(nat) -> bool,
    now: int,
    steps: nat,
) -> (Result<TransactionResponse, LedgerError>, Storage)
    decreases steps,
{
    match action {
        ActionView::Respond { result } => (result, storage),
        _ => if steps == 0 {
            (Err(LedgerError::InternalFailure), storage)
        } else {
            let done = storage.performed(action, luck(steps), now);
            let next = stepped(unit, done.1);
            run(next.0, next.1, done.0, luck, now, (steps - 1) as nat)
        },
    }
}

/// The answer of the unit of one operation on a storage that holds the
/// ledger, and the storage afterwards.
pub open spec fn unit_on(
    ledger: LedgerView,
    client_id: int,
    p: PayloadView,
    luck: spec_fn(nat) -> bool,
    now: int,
) -> (Result<TransactionResponse, LedgerError>, Storage) {
    let start = begun(client_id, p);
    run(start.0, start.1, Storage::idle(ledger), luck, now, 5)
}

/// A unit is applied as a whole or not at all, whatever fails.
///
/// When the unit answers with success, the answer is the ledger's and the
/// storage shows the ledger with the operation applied. When it answers
/// with an error, the storage shows the ledger as it was: neither a
/// balance nor the log has changed. Either way the unit is closed when the
/// answer is given. An answer other than an internal failure is the
/// ledger's answer.
pub proof fn unit_is_atomic(
    ledger: LedgerView,
    client_id: int,
    p: PayloadView,
    luck: spec_fn(nat) -> bool,
    now: int,
)
    requires
        ledger.sound(),
    ensures
        ({
            let (answer, storage) = unit_on(ledger, client_id, p, luck, now);
            &&& !storage.open
            &&& storage.pending == storage.visible
            &&& answer is Ok ==> answer == ledger.answer(client_id, p) && storage.visible
                == ledger.applied(client_id, p, now)
            &&& answer is Err ==> storage.visible == ledger
            &&& answer != Err::<TransactionResponse, LedgerError>(LedgerError::InternalFailure)
                ==> answer == ledger.answer(client_id, p)
        }),
{
    reveal_with_fuel(run, 6);
}

/// On a storage that does not fail, a unit gives the ledger's answer and
/// leaves the ledger as the operation leaves it.
pub proof fn unit_on_sound_storage(
    ledger: LedgerView,
    client_id: int,
    p: PayloadView,
    luck: spec_fn(nat) -> bool,
    now: int,
)
    requires
        ledger.sound(),
        forall|n: nat| #[trigger] luck(n),
    ensures
        unit_on(ledger, client_id, p, luck, now).0 == ledger.answer(client_id, p),
        unit_on(ledger, client_id, p, luck, now).1.visible == ledger.applied(client_id, p, now),
{
    reveal_with_fuel(run, 6);
    assert(luck(5) && luck(4) && luck(3) && luck(2) && luck(1));
}

} // verus!
