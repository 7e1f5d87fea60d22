//! The records that the ledger stores and the shapes of its requests and
//! answers.
//!
//! A type that holds text has a view, a ghost value of the same shape with
//! each string as a sequence of characters and each number as an integer.
//! Contracts speak of views.

use vstd::prelude::*;

verus! {

/// An account: a balance and the credit limit that bounds it from below.
#[derive(Clone, Copy, Debug, PartialEq, Eq, Structural)]
pub struct Client {
    pub id: i32,
    pub account_limit: i64,
    pub balance: i64,
}

impl Client {
    /// The limit is not negative and the balance is not below it.
    pub open spec fn within_limit(&self) -> bool {
        &&& self.account_limit >= 0
        &&& self.balance + self.account_limit >= 0
    }
}

/// A request to credit or debit an account, as it arrives: nothing in it
/// has been checked yet.
#[derive(Debug)]
pub struct TransactionPayload {
    pub valor: i64,
    pub tipo: String,
    pub descricao: Option<String>,
}

/// What a [`TransactionPayload`] holds.
pub ghost struct PayloadView {
    pub valor: int,
    pub tipo: Seq<char>,
    pub descricao: Option<Seq<char>>,
}

impl View for TransactionPayload {
    type V = PayloadView;

    open spec fn view(&self) -> PayloadView {
        PayloadView {
            valor: self.valor as int,
            tipo: self.tipo@,
            descricao: match self.descricao {
                Some(d) => Some(d@),
                None => None,
            },
        }
    }
}

impl Clone for TransactionPayload {
    fn clone(&self) -> (copy: Self)
        ensures
            copy == *self,
    {
        TransactionPayload {
            valor: self.valor,
            tipo: self.tipo.clone(),
            descricao: match &self.descricao {
                Some(text) => Some(text.clone()),
                None => None,
            },
        }
    }
}

/// The answer to an operation that was applied: the account's limit and its
/// balance after the operation.
#[derive(Clone, Copy, Debug, PartialEq, Eq, Structural)]
pub struct TransactionResponse {
    pub limite: i64,
    pub saldo: i64,
}

/// A transaction as the log holds it.
#[derive(Debug)]
pub struct Transaction {
    pub id: i32,
    pub client_id: i32,
    pub amount: i64,
    pub transaction_type: String,
    pub details: String,
    /// Nanoseconds since the Unix epoch.
    pub created_at: i64,
}

/// What a [`Transaction`] holds.
pub ghost struct TransactionView {
    pub id: int,
    pub client_id: int,
    pub amount: int,
    pub transaction_type: Seq<char>,
    pub details: Seq<char>,
    pub created_at: int,
}

impl View for Transaction {
    type V = TransactionView;

    open spec fn view(&self) -> TransactionView {
        TransactionView {
            id: self.id as int,
            client_id: self.client_id as int,
            amount: self.amount as int,
            transaction_type: self.transaction_type@,
            details: self.details@,
            created_at: self.created_at as int,
        }
    }
}

impl Clone for Transaction {
    fn clone(&self) -> (copy: Self)
        ensures
            copy == *self,
    {
        Transaction {
            id: self.id,
            client_id: self.client_id,
            amount: self.amount,
            transaction_type: self.transaction_type.clone(),
            details: self.details.clone(),
            created_at: self.created_at,
        }
    }
}

/// A transaction that is about to be appended to the log: the log gives it
/// its id and its time.
#[derive(Debug)]
pub struct NewTransaction {
    pub client_id: i32,
    pub amount: i64,
    pub transaction_type: String,
    pub details: String,
}

/// What a [`NewTransaction`] holds.
pub ghost struct NewTransactionView {
    pub client_id: int,
    pub amount: int,
    pub transaction_type: Seq<char>,
    pub details: Seq<char>,
}

impl View for NewTransaction {
    type V = NewTransactionView;

    open spec fn view(&self) -> NewTransactionView {
        NewTransactionView {
            client_id: self.client_id as int,
            amount: self.amount as int,
            transaction_type: self.transaction_type@,
            details: self.details@,
        }
    }
}

impl Clone for NewTransaction {
    fn clone(&self) -> (copy: Self)
        ensures
            copy == *self,
    {
        NewTransaction {
            client_id: self.client_id,
            amount: self.amount,
            transaction_type: self.transaction_type.clone(),
            details: self.details.clone(),
        }
    }
}

/// The balance part of a statement.
#[derive(Debug)]
pub struct Balance {
    pub total: i64,
    pub data_extrato: String,
    pub limite: i64,
}

/// What a [`Balance`] holds.
pub ghost struct BalanceView {
    pub total: int,
    pub data_extrato: Seq<char>,
    pub limite: int,
}

impl View for Balance {
    type V = BalanceView;

    open spec fn view(&self) -> BalanceView {
        BalanceView {
            total: self.total as int,
            data_extrato: self.data_extrato@,
            limite: self.limite as int,
        }
    }
}

impl Clone for Balance {
    fn clone(&self) -> (copy: Self)
        ensures
            copy == *self,
    {
        Balance { total: self.total, data_extrato: self.data_extrato.clone(), limite: self.limite }
    }
}

/// One line of a statement.
#[derive(Debug)]
pub struct LastTransaction {
    pub valor: i64,
    pub tipo: String,
    pub descricao: String,
    pub realizada_em: String,
}

/// What a [`LastTransaction`] holds.
pub ghost struct LastTransactionView {
    pub valor: int,
    pub tipo: Seq<char>,
    pub descricao: Seq<char>,
    pub realizada_em: Seq<char>,
}

impl View for LastTransaction {
    type V = LastTransactionView;

    open spec fn view(&self) -> LastTransactionView {
        LastTransactionView {
            valor: self.valor as int,
            tipo: self.tipo@,
            descricao: self.descricao@,
            realizada_em: self.realizada_em@,
        }
    }
}

impl Clone for LastTransaction {
    fn clone(&self) -> (copy: Self)
        ensures
            copy == *self,
    {
        LastTransaction {
            valor: self.valor,
            tipo: self.tipo.clone(),
            descricao: self.descricao.clone(),
            realizada_em: self.realizada_em.clone(),
        }
    }
}

/// A statement: the balance of an account at one moment and its most recent
/// transactions, newest first.
#[derive(Debug)]
pub struct GetLastTransactionsResponse {
    pub saldo: Balance,
    pub ultimas_transacoes: Vec<LastTransaction>,
}

/// What a [`GetLastTransactionsResponse`] holds.
pub ghost struct StatementView {
    pub saldo: BalanceView,
    pub ultimas_transacoes: Seq<LastTransactionView>,
}

impl View for GetLastTransactionsResponse {
    type V = StatementView;

    open spec fn view(&self) -> StatementView {
        StatementView {
            saldo: self.saldo@,
            ultimas_transacoes: self.ultimas_transacoes@.map_values(|t: LastTransaction| t@),
        }
    }
}

} // verus!
