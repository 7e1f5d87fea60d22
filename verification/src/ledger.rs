//! The ledger: the accounts and the log of transactions that justifies
//! their balances, held in memory.
//!
//! A `Ledger` is handed to each operation explicitly. Whoever holds it
//! mutably holds it alone, so each operation is applied as a whole, one
//! after another; an operation that is refused leaves the ledger as it was.

use vstd::prelude::*;
use crate::errors::LedgerError;
use crate::models::{
    Client, GetLastTransactionsResponse, PayloadView, StatementView, Transaction,
    TransactionPayload, TransactionResponse, TransactionView,
};
use crate::operation::{operation_of, valid_payload, Kind, Operation, MAX_DESCRIPTION};
use crate::recent::{chronological, views};
use crate::settlement::{respond, response_for, settle, settled};
use crate::statement::{build_statement, statement_of};
use crate::unit::{begun, stepped, ActionView, Event};

verus! {

/// What a transaction adds to the balance of its account: its amount if it
/// is a credit, the negative of its amount if it is a debit.
pub open spec fn signed_amount(t: TransactionView) -> int {
    if t.transaction_type == Kind::Debit.spec_code() {
        -t.amount
    } else {
        t.amount
    }
}

/// The sum of what the transactions of an account in a log add to its
/// balance.
pub open spec fn net(log: Seq<TransactionView>, client_id: int) -> int
    decreases log.len(),
{
    if log.len() == 0 {
        0
    } else if log.last().client_id == client_id {
        net(log.drop_last(), client_id) + signed_amount(log.last())
    } else {
        net(log.drop_last(), client_id)
    }
}

/// What a [`Ledger`] holds: the accounts by their id, and the log in the
/// order in which the transactions were appended.
pub ghost struct LedgerView {
    pub accounts: Map<int, Client>,
    pub log: Seq<TransactionView>,
}

impl LedgerView {
    /// The `k`-th transaction of the log is numbered `k + 1`, belongs to an
    /// account of the ledger, and is a credit or a debit of a positive
    /// amount with a description of one to ten characters.
    pub open spec fn valid_record(self, k: int) -> bool {
        let t = self.log[k];
        &&& t.id == k + 1
        &&& self.accounts.dom().contains(t.client_id)
        &&& 0 < t.amount
        &&& Kind::of_code(t.transaction_type) is Some
        &&& 1 <= t.details.len() <= MAX_DESCRIPTION
    }

    /// The state is one that the ledger can be in: every account is within
    /// its limit, every balance is the sum of what the account's
    /// transactions add to it, and every transaction of the log is valid.
    pub open spec fn sound(self) -> bool {
        &&& self.log.len() <= i32::MAX
        &&& forall|id: int|
            #![trigger self.accounts.dom().contains(id)]
            #![trigger self.accounts[id]]
            self.accounts.dom().contains(id) ==> {
                &&& self.accounts[id].id == id
                &&& self.accounts[id].within_limit()
                &&& self.accounts[id].balance == net(self.log, id)
            }
        &&& forall|k: int| 0 <= k < self.log.len() ==> #[trigger] self.valid_record(k)
    }

    /// The account as an operation would leave it, or why the operation is
    /// refused: as invalid if the request is not well formed; else as not
    /// found if there is no such account; else for the reason for which the
    /// operation cannot be settled on the account; else as an internal
    /// failure if the log cannot number another transaction.
    pub open spec fn outcome(self, client_id: int, p: PayloadView) -> Result<Client, LedgerError> {
        if !valid_payload(p) {
            Err(LedgerError::InvalidOperation)
        } else if !self.accounts.dom().contains(client_id) {
            Err(LedgerError::NotFound)
        } else {
            match settled(self.accounts[client_id], operation_of(p)) {
                Err(error) => Err(error),
                Ok(after) => if self.log.len() >= i32::MAX {
                    Err(LedgerError::InternalFailure)
                } else {
                    Ok(after)
                },
            }
        }
    }

    /// The answer to an operation: the account's limit and new balance, or
    /// why the operation is refused.
    pub open spec fn answer(self, client_id: int, p: PayloadView) -> Result<
        TransactionResponse,
        LedgerError,
    > {
        match self.outcome(client_id, p) {
            Ok(after) => Ok(response_for(after)),
            Err(error) => Err(error),
        }
    }

    /// The transaction that the log takes for an operation that is applied.
    pub open spec fn record(self, client_id: int, p: PayloadView, now: int) -> TransactionView {
        TransactionView {
            id: self.log.len() as int + 1,
            client_id,
            amount: p.valor,
            transaction_type: p.tipo,
            details: p.descricao->0,
            created_at: now,
        }
    }

    /// The ledger after an operation at the moment `now`. An operation that
    /// is applied changes the balance of its account and appends one
    /// transaction to the log; one that is refused changes nothing.
    pub open spec fn applied(self, client_id: int, p: PayloadView, now: int) -> LedgerView {
        match self.outcome(client_id, p) {
            Ok(after) => LedgerView {
                accounts: self.accounts.insert(client_id, after),
                log: self.log.push(self.record(client_id, p, now)),
            },
            Err(_) => self,
        }
    }

    /// The statement of an account at the moment `now`, or not found if
    /// there is no such account.
    pub open spec fn statement(self, client_id: int, now: int) -> Result<
        StatementView,
        LedgerError,
    > {
        if self.accounts.dom().contains(client_id) {
            Ok(statement_of(self.accounts[client_id], self.log, now))
        } else {
            Err(LedgerError::NotFound)
        }
    }

    /// The ledger with one more account, which has no transactions and a
    /// balance of zero.
    pub open spec fn provisioned(self, client_id: int, account_limit: int) -> LedgerView {
        LedgerView {
            accounts: self.accounts.insert(
                client_id,
                Client {
                    id: client_id as i32,
                    account_limit: account_limit as i64,
                    balance: 0,
                },
            ),
            log: self.log,
        }
    }
}

/// Appending a transaction adds to the net of its account what the
/// transaction adds, and leaves the net of every other account as it was.
pub proof fn net_after_append(log: Seq<TransactionView>, t: TransactionView, client_id: int)
    ensures
        net(log.push(t), client_id) == if t.client_id == client_id {
            net(log, client_id) + signed_amount(t)
        } else {
            net(log, client_id)
        },
{
    assert(log.push(t).drop_last() =~= log);
}

/// An account without transactions in the log has a net of zero.
pub proof fn net_without_transactions(log: Seq<TransactionView>, client_id: int)
    requires
        forall|k: int| 0 <= k < log.len() ==> log[k].client_id != client_id,
    ensures
        net(log, client_id) == 0,
    decreases log.len(),
{
    if log.len() > 0 {
        net_without_transactions(log.drop_last(), client_id);
    }
}

/// An operation leaves a sound ledger sound: in particular, every account
/// is within its limit after every operation.
pub proof fn applied_is_sound(ledger: LedgerView, client_id: int, p: PayloadView, now: int)
    requires
        ledger.sound(),
    ensures
        ledger.applied(client_id, p, now).sound(),
{
    let next = ledger.applied(client_id, p, now);
    if let Ok(after) = ledger.outcome(client_id, p) {
        let t = ledger.record(client_id, p, now);
        let op = operation_of(p);
        assert(signed_amount(t) == op.delta()) by {
            if op.kind == Kind::Credit {
                assert(seq!['c'][0] != seq!['d'][0]);
            }
        }
        assert forall|id: int| next.accounts.dom().contains(id) implies {
            &&& (#[trigger] next.accounts[id]).id == id
            &&& next.accounts[id].within_limit()
            &&& next.accounts[id].balance == net(next.log, id)
        } by {
            net_after_append(ledger.log, t, id);
            assert(ledger.accounts.dom().contains(id));
        }
        assert forall|k: int| 0 <= k < next.log.len() implies #[trigger] next.valid_record(k) by {
            if k < ledger.log.len() {
                assert(ledger.valid_record(k));
            }
        }
    }
}

/// An operation that is refused changes nothing: neither a balance nor the
/// log.
pub proof fn refused_changes_nothing(ledger: LedgerView, client_id: int, p: PayloadView, now: int)
    requires
        ledger.answer(client_id, p) is Err,
    ensures
        ledger.applied(client_id, p, now) == ledger,
{
}

/// An operation that is applied changes the balance of its account by the
/// operation's delta, appends exactly one transaction, and leaves every
/// other account as it was.
pub proof fn applied_changes_one_account(
    ledger: LedgerView,
    client_id: int,
    p: PayloadView,
    now: int,
)
    requires
        ledger.sound(),
        ledger.answer(client_id, p) is Ok,
    ensures
        ledger.applied(client_id, p, now).accounts.dom() == ledger.accounts.dom(),
        ledger.applied(client_id, p, now).accounts[client_id].balance
            == ledger.accounts[client_id].balance + operation_of(p).delta(),
        ledger.applied(client_id, p, now).accounts[client_id].account_limit
            == ledger.accounts[client_id].account_limit,
        forall|other: int|
            other != client_id ==> #[trigger] ledger.applied(client_id, p, now).accounts[other]
                == ledger.accounts[other],
        ledger.applied(client_id, p, now).log.len() == ledger.log.len() + 1,
        ledger.applied(client_id, p, now).log.drop_last() == ledger.log,
{
    let next = ledger.applied(client_id, p, now);
    assert(next.accounts.dom() =~= ledger.accounts.dom());
    assert(next.log.drop_last() =~= ledger.log);
}

/// On an account that does not exist, an operation that is well formed is
/// answered as not found and a statement is not found; neither changes
/// anything.
pub proof fn unknown_account_is_not_found(ledger: LedgerView, client_id: int, p: PayloadView, now: int)
    requires
        !ledger.accounts.dom().contains(client_id),
        valid_payload(p),
    ensures
        ledger.answer(client_id, p) == Err::<TransactionResponse, LedgerError>(
            LedgerError::NotFound,
        ),
        ledger.applied(client_id, p, now) == ledger,
        ledger.statement(client_id, now) == Err::<StatementView, LedgerError>(
            LedgerError::NotFound,
        ),
{
}

/// A request of an unknown kind, without a description, with an empty or
/// an over-long description, or with an amount that is not positive is
/// answered as invalid, whatever the account, and changes nothing.
pub proof fn malformed_request_is_invalid(ledger: LedgerView, client_id: int, p: PayloadView, now: int)
    requires
        Kind::of_code(p.tipo) is None || p.descricao is None || p.descricao->0.len() == 0
            || p.descricao->0.len() > MAX_DESCRIPTION || p.valor <= 0,
    ensures
        ledger.answer(client_id, p) == Err::<TransactionResponse, LedgerError>(
            LedgerError::InvalidOperation,
        ),
        ledger.applied(client_id, p, now) == ledger,
{
}

/// A credit followed by a debit of the same amount on the same account,
/// both applied, leaves the balance of the account as it was before the
/// two.
pub proof fn credit_then_debit_restores_balance(
    ledger: LedgerView,
    client_id: int,
    credit: PayloadView,
    debit: PayloadView,
    now: int,
    later: int,
)
    requires
        ledger.sound(),
        Kind::of_code(credit.tipo) == Some(Kind::Credit),
        Kind::of_code(debit.tipo) == Some(Kind::Debit),
        credit.valor == debit.valor,
        ledger.answer(client_id, credit) is Ok,
        ledger.applied(client_id, credit, now).answer(client_id, debit) is Ok,
    ensures
        ledger.applied(client_id, credit, now).applied(client_id, debit, later).accounts[client_id]
            == ledger.accounts[client_id],
{
}

/// A sound ledger is one whose every account is within its limit.
pub proof fn sound_accounts_are_within_limit(ledger: LedgerView, client_id: int)
    requires
        ledger.sound(),
        ledger.accounts.dom().contains(client_id),
    ensures
        ledger.accounts[client_id].balance + ledger.accounts[client_id].account_limit >= 0,
        ledger.accounts[client_id].balance == net(ledger.log, client_id),
{
}

/// Operations on two different accounts do not affect each other: each
/// gets the answer that it would get without the other, and in either order
/// the two leave the same accounts.
pub proof fn different_accounts_do_not_interfere(
    ledger: LedgerView,
    a: int,
    p: PayloadView,
    b: int,
    q: PayloadView,
    now: int,
    later: int,
)
    requires
        ledger.sound(),
        a != b,
        ledger.log.len() + 2 <= i32::MAX,
    ensures
        ledger.applied(a, p, now).answer(b, q) == ledger.answer(b, q),
        ledger.applied(b, q, now).answer(a, p) == ledger.answer(a, p),
        ledger.applied(a, p, now).applied(b, q, later).accounts == ledger.applied(
            b,
            q,
            now,
        ).applied(a, p, later).accounts,
{
    assert(ledger.applied(a, p, now).applied(b, q, later).accounts =~= ledger.applied(
        b,
        q,
        now,
    ).applied(a, p, later).accounts);
}

/// How a storage that holds the ledger answers a locked read.
pub open spec fn locked_read(ledger: LedgerView, client_id: int) -> Event {
    if ledger.accounts.dom().contains(client_id) {
        Event::Account(ledger.accounts[client_id])
    } else {
        Event::NoAccount
    }
}

/// A unit that is run on a storage which holds the ledger, and which does
/// what it is asked, carries out the operation as the ledger defines it.
/// For an operation that the ledger applies, the unit asks for the locked
/// read, for the write of the account as the ledger has it afterwards, for
/// the append of the record, and for the commit, and then gives the
/// ledger's answer. For one that the ledger refuses, the unit asks for
/// nothing but the rollback, or for nothing at all if the request is not
/// well formed, and gives the ledger's answer.
pub proof fn unit_carries_out_operation(ledger: LedgerView, client_id: int, p: PayloadView)
    requires
        ledger.sound(),
        ledger.log.len() < i32::MAX,
    ensures
        ({
            let start = begun(client_id, p);
            let read = stepped(start.0, locked_read(ledger, client_id));
            let written = stepped(read.0, Event::Done);
            let appended = stepped(written.0, Event::Done);
            let committed = stepped(appended.0, Event::Done);
            let answer = ActionView::Respond { result: ledger.answer(client_id, p) };
            match ledger.outcome(client_id, p) {
                Ok(after) => {
                    &&& start.1 == ActionView::LockedRead { account_id: client_id }
                    &&& read.1 == ActionView::Write { account: after }
                    &&& written.1 == ActionView::Append {
                        record: operation_of(p).record_for(client_id),
                    }
                    &&& appended.1 == ActionView::Commit
                    &&& committed.1 == answer
                },
                Err(_) => if valid_payload(p) {
                    &&& start.1 == ActionView::LockedRead { account_id: client_id }
                    &&& read.1 == ActionView::Rollback
                    &&& written.1 == answer
                } else {
                    start.1 == answer
                },
            }
        }),
{
}

/// A log that is in the order of time stays so when each operation comes
/// with a moment that is not before the last transaction's.
pub proof fn applied_keeps_order_of_time(
    ledger: LedgerView,
    client_id: int,
    p: PayloadView,
    now: int,
)
    requires
        chronological(ledger.log),
        ledger.log.len() > 0 ==> ledger.log.last().created_at <= now,
    ensures
        chronological(ledger.applied(client_id, p, now).log),
{
}

spec fn listed(accounts: Seq<Client>, id: int) -> bool {
    exists|i: int| 0 <= i < accounts.len() && accounts[i].id == id
}

spec fn index_of(accounts: Seq<Client>, id: int) -> int {
    choose|i: int| 0 <= i < accounts.len() && accounts[i].id == id
}

spec fn by_id(accounts: Seq<Client>) -> Map<int, Client> {
    Map::new(|id: int| listed(accounts, id), |id: int| accounts[index_of(accounts, id)])
}

spec fn distinct(accounts: Seq<Client>) -> bool {
    forall|i: int, j: int| 0 <= i < j < accounts.len() ==> accounts[i].id != accounts[j].id
}

proof fn lemma_by_id_at(accounts: Seq<Client>, i: int)
    requires
        distinct(accounts),
        0 <= i < accounts.len(),
    ensures
        by_id(accounts).dom().contains(accounts[i].id as int),
        by_id(accounts)[accounts[i].id as int] == accounts[i],
{
    let id = accounts[i].id as int;
    assert(listed(accounts, id));
    let j = index_of(accounts, id);
    if j < i {
        assert(accounts[j].id != accounts[i].id);
    } else if i < j {
        assert(accounts[i].id != accounts[j].id);
    }
}

proof fn lemma_by_id_after_update(accounts: Seq<Client>, i: int, after: Client)
    requires
        distinct(accounts),
        0 <= i < accounts.len(),
        after.id == accounts[i].id,
    ensures
        distinct(accounts.update(i, after)),
        by_id(accounts.update(i, after)) == by_id(accounts).insert(after.id as int, after),
{
    let changed = accounts.update(i, after);
    assert(distinct(changed)) by {
        assert forall|a: int, b: int| 0 <= a < b < changed.len() implies changed[a].id
            != changed[b].id by {
            assert(changed[a].id == accounts[a].id);
            assert(changed[b].id == accounts[b].id);
        }
    }
    assert forall|id: int| by_id(changed).dom().contains(id) <==> by_id(accounts).insert(
        after.id as int,
        after,
    ).dom().contains(id) by {
        if listed(changed, id) {
            let k = index_of(changed, id);
            assert(accounts[k].id == id);
        }
        if listed(accounts, id) {
            let k = index_of(accounts, id);
            assert(changed[k].id == id);
        }
        if id == after.id {
            assert(changed[i].id == id);
        }
    }
    assert forall|id: int| by_id(changed).dom().contains(id) implies #[trigger] by_id(changed)[id]
        == by_id(accounts).insert(after.id as int, after)[id] by {
        let k = index_of(changed, id);
        lemma_by_id_at(changed, k);
        if k != i {
            assert(accounts[k].id == id);
            lemma_by_id_at(accounts, k);
        }
    }
    assert(by_id(changed) =~= by_id(accounts).insert(after.id as int, after));
}

proof fn lemma_by_id_after_push(accounts: Seq<Client>, account: Client)
    requires
        distinct(accounts),
        !listed(accounts, account.id as int),
    ensures
        distinct(accounts.push(account)),
        by_id(accounts.push(account)) == by_id(accounts).insert(account.id as int, account),
{
    let longer = accounts.push(account);
    assert(distinct(longer)) by {
        assert forall|a: int, b: int| 0 <= a < b < longer.len() implies longer[a].id
            != longer[b].id by {
            if b == accounts.len() {
                assert(accounts[a].id == longer[a].id);
            }
        }
    }
    assert forall|id: int| by_id(longer).dom().contains(id) <==> by_id(accounts).insert(
        account.id as int,
        account,
    ).dom().contains(id) by {
        if listed(longer, id) {
            let k = index_of(longer, id);
            if k < accounts.len() {
                assert(accounts[k].id == id);
            }
        }
        if listed(accounts, id) {
            let k = index_of(accounts, id);
            assert(longer[k].id == id);
        }
        if id == account.id {
            assert(longer[accounts.len() as int].id == id);
        }
    }
    assert forall|id: int| by_id(longer).dom().contains(id) implies #[trigger] by_id(longer)[id]
        == by_id(accounts).insert(account.id as int, account)[id] by {
        let k = index_of(longer, id);
        lemma_by_id_at(longer, k);
        if k < accounts.len() {
            assert(accounts[k].id == id);
            lemma_by_id_at(accounts, k);
        }
    }
    assert(by_id(longer) =~= by_id(accounts).insert(account.id as int, account));
}

/// The accounts and the log of their transactions.
#[derive(Debug)]
pub struct Ledger {
    accounts: Vec<Client>,
    transactions: Vec<Transaction>,
}

impl View for Ledger {
    type V = LedgerView;

    closed spec fn view(&self) -> LedgerView {
        LedgerView { accounts: by_id(self.accounts@), log: views(self.transactions@) }
    }
}

impl Ledger {
    /// No two accounts are kept under one id.
    pub closed spec fn distinct_ids(&self) -> bool {
        distinct(self.accounts@)
    }

    /// The ledger is in a state that it can be in.
    pub open spec fn wf(&self) -> bool {
        &&& self.distinct_ids()
        &&& self@.sound()
    }

    /// A ledger without accounts and without transactions.
    pub fn new() -> (ledger: Ledger)
        ensures
            ledger.wf(),
            ledger@.accounts == Map::<int, Client>::empty(),
            ledger@.log == Seq::<TransactionView>::empty(),
    {
        let ledger = Ledger { accounts: Vec::new(), transactions: Vec::new() };
        assert(ledger@.accounts =~= Map::<int, Client>::empty());
        assert(ledger@.log =~= Seq::<TransactionView>::empty());
        ledger
    }

    /// Where the account of the given id is kept.
    fn position(&self, account_id: i32) -> (found: Option<usize>)
        ensures
            match found {
                Some(i) => i < self.accounts.len() && self.accounts[i as int].id == account_id,
                None => !listed(self.accounts@, account_id as int),
            },
    {
        let mut i: usize = 0;
        while i < self.accounts.len()
            invariant
                i <= self.accounts.len(),
                forall|k: int| 0 <= k < i ==> self.accounts[k].id != account_id,
            decreases self.accounts.len() - i,
        {
            if self.accounts[i].id == account_id {
                return Some(i);
            }
            i += 1;
        }
        None
    }

    /// Adds an account with the given limit and a balance of zero. Gives
    /// `false`, and changes nothing, if the limit is negative or an account
    /// of that id exists.
    pub fn provision(&mut self, account_id: i32, account_limit: i64) -> (created: bool)
        requires
            old(self).wf(),
        ensures
            final(self).wf(),
            created == (account_limit >= 0 && !old(self)@.accounts.dom().contains(
                account_id as int,
            )),
            created ==> final(self)@ == old(self)@.provisioned(
                account_id as int,
                account_limit as int,
            ),
            !created ==> final(self)@ == old(self)@,
    {
        if account_limit < 0 {
            return false;
        }
        if let Some(i) = self.position(account_id) {
            proof {
                lemma_by_id_at(self.accounts@, i as int);
            }
            return false;
        }
        let account = Client { id: account_id, account_limit, balance: 0 };
        proof {
            lemma_by_id_after_push(self.accounts@, account);
            let before = self@;
            let next = before.provisioned(account_id as int, account_limit as int);
            assert forall|k: int| 0 <= k < before.log.len() implies before.log[k].client_id
                != account_id by {
                assert(before.valid_record(k));
            }
            net_without_transactions(before.log, account_id as int);
            assert forall|k: int| 0 <= k < next.log.len() implies #[trigger] next.valid_record(
                k,
            ) by {
                assert(before.valid_record(k));
            }
            assert(next.sound());
        }
        self.accounts.push(account);
        true
    }

    /// Reads an account as it is now.
    pub fn read(&self, account_id: i32) -> (found: Option<Client>)
        requires
            self.wf(),
        ensures
            found == if self@.accounts.dom().contains(account_id as int) {
                Some(self@.accounts[account_id as int])
            } else {
                None
            },
    {
        match self.position(account_id) {
            Some(i) => {
                proof {
                    lemma_by_id_at(self.accounts@, i as int);
                }
                Some(self.accounts[i])
            },
            None => None,
        }
    }

    /// The log, in the order in which the transactions were appended.
    pub fn transactions(&self) -> (log: &Vec<Transaction>)
        ensures
            views(log@) == self@.log,
    {
        &self.transactions
    }

    /// Applies a credit or a debit to an account at the moment `now`, given
    /// in nanoseconds since the Unix epoch, and answers with the account's
    /// limit and new balance.
    ///
    /// The operation is applied as a whole or not at all: when it is
    /// refused, no balance has changed and no transaction was appended.
    pub fn apply(&mut self, account_id: i32, payload: &TransactionPayload, now: i64) -> (r: Result<
        TransactionResponse,
        LedgerError,
    >)
        requires
            old(self).wf(),
        ensures
            final(self).wf(),
            r == old(self)@.answer(account_id as int, payload@),
            final(self)@ == old(self)@.applied(account_id as int, payload@, now as int),
            r is Err ==> final(self)@ == old(self)@,
    {
        let op = match Operation::validate(payload) {
            Ok(op) => op,
            Err(error) => {
                return Err(error);
            },
        };
        let i = match self.position(account_id) {
            Some(i) => i,
            None => {
                return Err(LedgerError::NotFound);
            },
        };
        proof {
            lemma_by_id_at(self.accounts@, i as int);
        }
        let after = match settle(self.accounts[i], &op) {
            Ok(after) => after,
            Err(error) => {
                return Err(error);
            },
        };
        if self.transactions.len() >= i32::MAX as usize {
            return Err(LedgerError::InternalFailure);
        }
        let record = Transaction {
            id: (self.transactions.len() + 1) as i32,
            client_id: account_id,
            amount: op.amount(),
            transaction_type: payload.tipo.clone(),
            details: op.description().clone(),
            created_at: now,
        };
        proof {
            lemma_by_id_after_update(self.accounts@, i as int, after);
            applied_is_sound(old(self)@, account_id as int, payload@, now as int);
            assert(views(self.transactions@.push(record)) =~= views(self.transactions@).push(
                record@,
            ));
        }
        self.accounts.set(i, after);
        self.transactions.push(record);
        Ok(respond(after))
    }

    /// Makes the statement of an account at the moment `now`, given in
    /// nanoseconds since the Unix epoch: the balance and limit from one
    /// reading of the account, and the account's ten most recent
    /// transactions, the newest first. Nothing is changed.
    pub fn get_statement(&self, account_id: i32, now: i64) -> (r: Result<
        GetLastTransactionsResponse,
        LedgerError,
    >)
        requires
            self.wf(),
        ensures
            match r {
                Ok(statement) => self@.statement(account_id as int, now as int) == Ok::<
                    StatementView,
                    LedgerError,
                >(statement@),
                Err(error) => self@.statement(account_id as int, now as int) == Err::<
                    StatementView,
                    LedgerError,
                >(error),
            },
    {
        match self.read(account_id) {
            Some(account) => Ok(build_statement(account, &self.transactions, now)),
            None => Err(LedgerError::NotFound),
        }
    }
}

} // verus!
