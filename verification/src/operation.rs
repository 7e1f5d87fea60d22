//! Requests, checked: a credit or a debit of a positive amount with a short
//! description.

use vstd::prelude::*;
use vstd::string::*;
use crate::errors::LedgerError;
use crate::models::{NewTransaction, NewTransactionView, PayloadView, TransactionPayload};

verus! {

/// The longest description that is accepted, in characters.
pub const MAX_DESCRIPTION: usize = 10;

/// Whether an operation adds to a balance or takes from it.
#[derive(Clone, Copy, Debug, PartialEq, Eq, Structural)]
pub enum Kind {
    Credit,
    Debit,
}

impl Kind {
    /// The text that stands for this kind in requests and records: `c` for
    /// a credit, `d` for a debit.
    pub open spec fn spec_code(self) -> Seq<char> {
        match self {
            Kind::Credit => seq!['c'],
            Kind::Debit => seq!['d'],
        }
    }

    /// The kind that a text stands for, if any.
    pub open spec fn of_code(code: Seq<char>) -> Option<Kind> {
        if code == seq!['c'] {
            Some(Kind::Credit)
        } else if code == seq!['d'] {
            Some(Kind::Debit)
        } else {
            None
        }
    }

    /// The text that stands for this kind.
    pub fn code(self) -> (text: String)
        ensures
            text@ == self.spec_code(),
    {
        proof {
            reveal_strlit("c");
            reveal_strlit("d");
        }
        match self {
            Kind::Credit => {
                let text = String::from_str("c");
                assert(text@ =~= seq!['c']);
                text
            },
            Kind::Debit => {
                let text = String::from_str("d");
                assert(text@ =~= seq!['d']);
                text
            },
        }
    }

    /// Reads a kind from its text.
    pub fn parse(text: &str) -> (kind: Option<Kind>)
        ensures
            kind == Kind::of_code(text@),
    {
        if text.unicode_len() != 1 {
            return None;
        }
        let c = text.get_char(0);
        if c == 'c' {
            assert(text@ =~= seq!['c']);
            Some(Kind::Credit)
        } else if c == 'd' {
            assert(text@ =~= seq!['d']);
            Some(Kind::Debit)
        } else {
            None
        }
    }
}

/// What an [`Operation`] holds.
pub ghost struct OperationView {
    pub kind: Kind,
    pub amount: int,
    pub description: Seq<char>,
}

impl OperationView {
    /// The amount is positive and fits the balance's type, and the
    /// description has between one and ten characters.
    pub open spec fn valid(self) -> bool {
        &&& 0 < self.amount <= i64::MAX
        &&& 1 <= self.description.len() <= MAX_DESCRIPTION
    }

    /// What the operation adds to a balance: the amount for a credit, its
    /// negative for a debit.
    pub open spec fn delta(self) -> int {
        match self.kind {
            Kind::Credit => self.amount,
            Kind::Debit => -self.amount,
        }
    }

    /// The record that the log takes for this operation on an account.
    pub open spec fn record_for(self, client_id: int) -> NewTransactionView {
        NewTransactionView {
            client_id,
            amount: self.amount,
            transaction_type: self.kind.spec_code(),
            details: self.description,
        }
    }
}

/// A request is well formed: its kind is `c` or `d`, its amount is
/// positive, and its description is there and has between one and ten
/// characters.
pub open spec fn valid_payload(p: PayloadView) -> bool {
    &&& Kind::of_code(p.tipo) is Some
    &&& p.valor > 0
    &&& p.descricao matches Some(d) && 1 <= d.len() <= MAX_DESCRIPTION
}

/// The operation that a well-formed request asks for.
pub open spec fn operation_of(p: PayloadView) -> OperationView {
    OperationView {
        kind: Kind::of_code(p.tipo)->0,
        amount: p.valor,
        description: p.descricao->0,
    }
}

/// A credit or a debit that has passed validation. Its fields are private,
/// so every value of this type is valid.
#[derive(Debug)]
pub struct Operation {
    kind: Kind,
    amount: i64,
    description: String,
}

impl View for Operation {
    type V = OperationView;

    closed spec fn view(&self) -> OperationView {
        OperationView {
            kind: self.kind,
            amount: self.amount as int,
            description: self.description@,
        }
    }
}

impl Operation {
    #[verifier::type_invariant]
    spec fn well_formed(self) -> bool {
        self@.valid()
    }

    /// Checks a request and turns it into an operation. A request that is
    /// not well formed is refused as invalid.
    pub fn validate(payload: &TransactionPayload) -> (r: Result<Operation, LedgerError>)
        ensures
            match r {
                Ok(op) => valid_payload(payload@) && op@ == operation_of(payload@),
                Err(e) => !valid_payload(payload@) && e == LedgerError::InvalidOperation,
            },
    {
        let kind = match Kind::parse(payload.tipo.as_str()) {
            Some(kind) => kind,
            None => {
                return Err(LedgerError::InvalidOperation);
            },
        };
        if payload.valor <= 0 {
            return Err(LedgerError::InvalidOperation);
        }
        match &payload.descricao {
            Some(text) => {
                let n = text.as_str().unicode_len();
                if n == 0 || n > MAX_DESCRIPTION {
                    return Err(LedgerError::InvalidOperation);
                }
                Ok(Operation { kind, amount: payload.valor, description: text.clone() })
            },
            None => Err(LedgerError::InvalidOperation),
        }
    }

    /// Whether this is a credit or a debit.
    pub fn kind(&self) -> (kind: Kind)
        ensures
            kind == self@.kind,
    {
        self.kind
    }

    /// The amount, which is positive.
    pub fn amount(&self) -> (amount: i64)
        ensures
            amount == self@.amount,
            amount > 0,
    {
        proof {
            use_type_invariant(self);
        }
        self.amount
    }

    /// The description, which has between one and ten characters.
    pub fn description(&self) -> (text: &String)
        ensures
            text@ == self@.description,
            1 <= text@.len() <= MAX_DESCRIPTION,
    {
        proof {
            use_type_invariant(self);
        }
        &self.description
    }

    /// The record that the log takes for this operation on an account.
    pub fn record_for(&self, client_id: i32) -> (record: NewTransaction)
        ensures
            record@ == self@.record_for(client_id as int),
    {
        NewTransaction {
            client_id,
            amount: self.amount,
            transaction_type: self.kind.code(),
            details: self.description.clone(),
        }
    }
}

} // verus!
