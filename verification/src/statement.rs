//! Statements: the balance of an account at one moment, with its most
//! recent transactions.

use vstd::prelude::*;
use crate::models::{
    Balance, BalanceView, Client, GetLastTransactionsResponse, LastTransaction,
    LastTransactionView, StatementView, Transaction, TransactionView,
};
use crate::recent::{most_recent, select_recent, views};
use crate::timefmt::{iso8601, rfc3339_text};

verus! {

/// The line that a statement shows for a transaction.
pub open spec fn line_of(t: TransactionView) -> LastTransactionView {
    LastTransactionView {
        valor: t.amount,
        tipo: t.transaction_type,
        descricao: t.details,
        realizada_em: rfc3339_text(t.created_at),
    }
}

/// The statement of an account at the moment `now`, over a log: the
/// account's balance and limit as they are given, the moment as text, and
/// the lines of the account's ten most recent transactions, the newest
/// first.
pub open spec fn statement_of(account: Client, log: Seq<TransactionView>, now: int) -> StatementView {
    StatementView {
        saldo: BalanceView {
            total: account.balance as int,
            data_extrato: rfc3339_text(now),
            limite: account.account_limit as int,
        },
        ultimas_transacoes: most_recent(log, account.id as int).map_values(
            |t: TransactionView| line_of(t),
        ),
    }
}

/// The line that a statement shows for a transaction.
pub fn render_line(t: &Transaction) -> (row: LastTransaction)
    ensures
        row@ == line_of(t@),
{
    LastTransaction {
        valor: t.amount,
        tipo: t.transaction_type.clone(),
        descricao: t.details.clone(),
        realizada_em: iso8601(t.created_at),
    }
}

/// Builds the statement of an account from one reading of the account, the
/// log, and the moment at which the statement is made, in nanoseconds since
/// the Unix epoch.
///
/// Balance and limit are those of `account`, as it was read. The log may
/// hold transactions of other accounts, in any order: the statement shows
/// the ten most recent of this account.
pub fn build_statement(account: Client, records: &Vec<Transaction>, now: i64) -> (statement:
    GetLastTransactionsResponse)
    ensures
        statement@ == statement_of(account, views(records@), now as int),
        statement@.ultimas_transacoes.len() <= crate::recent::STATEMENT_SIZE,
{
    let top = select_recent(records, account.id);
    let mut rows: Vec<LastTransaction> = Vec::new();
    let mut i: usize = 0;
    let ghost lines = views(top@).map_values(|t: TransactionView| line_of(t));
    while i < top.len()
        invariant
            i <= top.len(),
            rows.len() == i,
            lines == views(top@).map_values(|t: TransactionView| line_of(t)),
            rows@.map_values(|t: LastTransaction| t@) == lines.take(i as int),
        decreases top.len() - i,
    {
        let row = render_line(&top[i]);
        let ghost before = rows@.map_values(|t: LastTransaction| t@);
        rows.push(row);
        assert(rows@.map_values(|t: LastTransaction| t@) =~= before.push(row@));
        assert(lines.take(i + 1) =~= lines.take(i as int).push(line_of(top[i as int]@)));
        i += 1;
    }
    assert(lines.take(i as int) =~= lines);
    proof {
        crate::recent::most_recent_are_the_newest(views(records@), account.id as int);
    }
    GetLastTransactionsResponse {
        saldo: Balance {
            total: account.balance,
            data_extrato: iso8601(now),
            limite: account.account_limit,
        },
        ultimas_transacoes: rows,
    }
}

} // verus!
