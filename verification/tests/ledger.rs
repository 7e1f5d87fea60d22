use account_ledger::errors::LedgerError;
use account_ledger::ledger::Ledger;
use account_ledger::models::{Client, TransactionPayload, TransactionResponse};

fn payload(valor: i64, tipo: &str, descricao: &str) -> TransactionPayload {
    TransactionPayload { valor, tipo: tipo.to_string(), descricao: Some(descricao.to_string()) }
}

fn ledger_with(accounts: &[(i32, i64)]) -> Ledger {
    let mut ledger = Ledger::new();
    for (id, limit) in accounts {
        assert!(ledger.provision(*id, *limit));
    }
    ledger
}

#[test]
fn new_ledger_is_empty() {
    let ledger = Ledger::new();
    assert_eq!(ledger.read(1), None);
    assert!(ledger.transactions().is_empty());
}

#[test]
fn provision_creates_account_with_zero_balance() {
    let mut ledger = Ledger::new();
    assert!(ledger.provision(1, 100000));
    assert_eq!(ledger.read(1), Some(Client { id: 1, account_limit: 100000, balance: 0 }));
    assert_eq!(ledger.read(2), None);
}

#[test]
fn provision_refuses_duplicate_id() {
    let mut ledger = ledger_with(&[(1, 1000)]);
    assert!(!ledger.provision(1, 5000));
    assert_eq!(ledger.read(1), Some(Client { id: 1, account_limit: 1000, balance: 0 }));
}

#[test]
fn provision_refuses_negative_limit() {
    let mut ledger = Ledger::new();
    assert!(!ledger.provision(1, -1));
    assert_eq!(ledger.read(1), None);
    assert!(ledger.provision(1, 0));
}

#[test]
fn apply_credit_answers_limit_and_balance() {
    let mut ledger = ledger_with(&[(1, 100000)]);
    let r = ledger.apply(1, &payload(1000, "c", "deposit"), 10);
    assert_eq!(r, Ok(TransactionResponse { limite: 100000, saldo: 1000 }));
    assert_eq!(ledger.read(1).unwrap().balance, 1000);
}

#[test]
fn apply_appends_one_record() {
    let mut ledger = ledger_with(&[(1, 100000), (2, 80000)]);
    ledger.apply(2, &payload(250, "d", "market"), 1234).unwrap();
    let log = ledger.transactions();
    assert_eq!(log.len(), 1);
    assert_eq!(log[0].id, 1);
    assert_eq!(log[0].client_id, 2);
    assert_eq!(log[0].amount, 250);
    assert_eq!(log[0].transaction_type, "d");
    assert_eq!(log[0].details, "market");
    assert_eq!(log[0].created_at, 1234);
}

#[test]
fn records_are_numbered_in_order() {
    let mut ledger = ledger_with(&[(1, 1000), (2, 1000)]);
    ledger.apply(1, &payload(1, "c", "a"), 1).unwrap();
    ledger.apply(2, &payload(2, "c", "b"), 2).unwrap();
    ledger.apply(1, &payload(3, "d", "c"), 3).unwrap();
    let ids: Vec<i32> = ledger.transactions().iter().map(|t| t.id).collect();
    assert_eq!(ids, vec![1, 2, 3]);
}

#[test]
fn debit_to_the_limit_succeeds_and_one_more_fails() {
    let mut ledger = ledger_with(&[(1, 1000)]);
    let r = ledger.apply(1, &payload(1000, "d", "all"), 1);
    assert_eq!(r, Ok(TransactionResponse { limite: 1000, saldo: -1000 }));
    assert_eq!(ledger.read(1).unwrap().balance, -1000);
    let r = ledger.apply(1, &payload(1, "d", "more"), 2);
    assert_eq!(r, Err(LedgerError::LimitExceeded));
    assert_eq!(ledger.read(1).unwrap().balance, -1000);
    assert_eq!(ledger.transactions().len(), 1);
}

#[test]
fn fifty_debits_of_twenty_are_all_applied() {
    let mut ledger = ledger_with(&[(1, 1000)]);
    for n in 0..50 {
        let r = ledger.apply(1, &payload(20, "d", "debit"), n);
        assert_eq!(r, Ok(TransactionResponse { limite: 1000, saldo: -20 * (n + 1) }));
    }
    assert_eq!(ledger.read(1).unwrap().balance, -1000);
    assert_eq!(ledger.transactions().len(), 50);
    let r = ledger.apply(1, &payload(20, "d", "debit"), 50);
    assert_eq!(r, Err(LedgerError::LimitExceeded));
    assert_eq!(ledger.transactions().len(), 50);
}

#[test]
fn apply_on_unknown_account_is_not_found() {
    let mut ledger = ledger_with(&[(1, 1000)]);
    let r = ledger.apply(6, &payload(10, "c", "gift"), 1);
    assert_eq!(r, Err(LedgerError::NotFound));
    assert_eq!(ledger.read(6), None);
    assert_eq!(ledger.read(1), Some(Client { id: 1, account_limit: 1000, balance: 0 }));
    assert!(ledger.transactions().is_empty());
}

#[test]
fn statement_of_unknown_account_is_not_found() {
    let ledger = ledger_with(&[(1, 1000)]);
    let r = ledger.get_statement(6, 0);
    assert_eq!(r.unwrap_err(), LedgerError::NotFound);
    assert!(ledger.transactions().is_empty());
}

#[test]
fn invalid_requests_change_nothing() {
    let mut ledger = ledger_with(&[(1, 1000)]);
    ledger.apply(1, &payload(5, "c", "first"), 1).unwrap();
    let bad = vec![
        payload(10, "x", "kind"),
        payload(10, "c", ""),
        payload(10, "c", "12345678901"),
        payload(0, "c", "zero"),
        payload(-10, "d", "negative"),
        TransactionPayload { valor: 10, tipo: "d".to_string(), descricao: None },
    ];
    for p in bad.iter() {
        assert_eq!(ledger.apply(1, p, 2), Err(LedgerError::InvalidOperation));
        assert_eq!(ledger.read(1).unwrap().balance, 5);
        assert_eq!(ledger.transactions().len(), 1);
    }
}

#[test]
fn invalid_request_on_unknown_account_is_invalid() {
    let mut ledger = ledger_with(&[(1, 1000)]);
    let r = ledger.apply(6, &payload(10, "x", "kind"), 1);
    assert_eq!(r, Err(LedgerError::InvalidOperation));
}

#[test]
fn refused_debit_changes_nothing() {
    let mut ledger = ledger_with(&[(1, 100), (2, 100)]);
    ledger.apply(1, &payload(30, "c", "in"), 1).unwrap();
    ledger.apply(2, &payload(7, "d", "out"), 2).unwrap();
    let r = ledger.apply(1, &payload(131, "d", "too much"), 3);
    assert_eq!(r, Err(LedgerError::LimitExceeded));
    assert_eq!(ledger.read(1).unwrap().balance, 30);
    assert_eq!(ledger.read(2).unwrap().balance, -7);
    assert_eq!(ledger.transactions().len(), 2);
    let r = ledger.apply(1, &payload(130, "d", "just"), 4);
    assert_eq!(r, Ok(TransactionResponse { limite: 100, saldo: -100 }));
}

#[test]
fn credit_that_does_not_fit_is_internal_failure_and_changes_nothing() {
    let mut ledger = ledger_with(&[(1, 0)]);
    ledger.apply(1, &payload(i64::MAX, "c", "huge"), 1).unwrap();
    let r = ledger.apply(1, &payload(1, "c", "more"), 2);
    assert_eq!(r, Err(LedgerError::InternalFailure));
    assert_eq!(ledger.read(1).unwrap().balance, i64::MAX);
    assert_eq!(ledger.transactions().len(), 1);
}

#[test]
fn credit_then_debit_restores_the_balance() {
    let mut ledger = ledger_with(&[(1, 1000)]);
    ledger.apply(1, &payload(123, "d", "before"), 1).unwrap();
    let before = ledger.read(1).unwrap();
    ledger.apply(1, &payload(4567, "c", "in"), 2).unwrap();
    assert_eq!(ledger.read(1).unwrap().balance, before.balance + 4567);
    ledger.apply(1, &payload(4567, "d", "out"), 3).unwrap();
    assert_eq!(ledger.read(1).unwrap(), before);
    assert_eq!(ledger.transactions().len(), 3);
}

#[test]
fn operations_touch_only_their_account() {
    let mut ledger = ledger_with(&[(1, 1000), (2, 2000), (3, 3000)]);
    ledger.apply(2, &payload(500, "d", "two"), 1).unwrap();
    assert_eq!(ledger.read(1), Some(Client { id: 1, account_limit: 1000, balance: 0 }));
    assert_eq!(ledger.read(2), Some(Client { id: 2, account_limit: 2000, balance: -500 }));
    assert_eq!(ledger.read(3), Some(Client { id: 3, account_limit: 3000, balance: 0 }));
}

#[test]
fn every_balance_stays_within_its_limit() {
    let mut ledger = ledger_with(&[(1, 300), (2, 0)]);
    let steps: Vec<(i32, i64, &str)> = vec![
        (1, 200, "d"),
        (1, 200, "d"),
        (2, 1, "d"),
        (2, 50, "c"),
        (2, 51, "d"),
        (1, 100, "d"),
        (1, 1, "d"),
        (2, 50, "d"),
        (1, 1000, "c"),
        (1, 1001, "d"),
        (1, 1000, "d"),
    ];
    let mut applied = 0;
    for (n, (id, valor, tipo)) in steps.iter().enumerate() {
        if ledger.apply(*id, &payload(*valor, tipo, "step"), n as i64).is_ok() {
            applied += 1;
        }
        for id in [1, 2] {
            let account = ledger.read(id).unwrap();
            assert!(account.balance + account.account_limit >= 0);
        }
        assert_eq!(ledger.transactions().len(), applied);
    }
    assert_eq!(applied, 6);
    assert_eq!(ledger.read(1).unwrap().balance, -300);
    assert_eq!(ledger.read(2).unwrap().balance, 0);
}

#[test]
fn balances_are_the_sum_of_their_transactions() {
    let mut ledger = ledger_with(&[(1, 1000), (2, 1000)]);
    let steps: Vec<(i32, i64, &str)> =
        vec![(1, 10, "c"), (2, 5, "d"), (1, 3, "d"), (2, 20, "c"), (1, 2000, "d"), (1, 8, "c")];
    for (n, (id, valor, tipo)) in steps.iter().enumerate() {
        let _ = ledger.apply(*id, &payload(*valor, tipo, "step"), n as i64);
    }
    for id in [1, 2] {
        let mut sum = 0;
        for t in ledger.transactions().iter() {
            if t.client_id == id {
                sum += if t.transaction_type == "d" { -t.amount } else { t.amount };
            }
        }
        assert_eq!(ledger.read(id).unwrap().balance, sum);
    }
    assert_eq!(ledger.read(1).unwrap().balance, 15);
    assert_eq!(ledger.read(2).unwrap().balance, 15);
}
