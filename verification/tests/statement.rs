use account_ledger::ledger::Ledger;
use account_ledger::models::{Client, Transaction, TransactionPayload};
use account_ledger::recent::{select_recent, STATEMENT_SIZE};
use account_ledger::statement::{build_statement, render_line};

fn payload(valor: i64, tipo: &str, descricao: &str) -> TransactionPayload {
    TransactionPayload { valor, tipo: tipo.to_string(), descricao: Some(descricao.to_string()) }
}

fn record(id: i32, client_id: i32, amount: i64, created_at: i64) -> Transaction {
    Transaction {
        id,
        client_id,
        amount,
        transaction_type: "c".to_string(),
        details: "item".to_string(),
        created_at,
    }
}

const SECOND: i64 = 1_000_000_000;

#[test]
fn statement_size_is_ten() {
    assert_eq!(STATEMENT_SIZE, 10);
}

#[test]
fn timestamp_of_the_epoch() {
    let s = build_statement(Client { id: 1, account_limit: 0, balance: 0 }, &vec![], 0);
    assert_eq!(s.saldo.data_extrato, "1970-01-01T00:00:00+00:00");
}

#[test]
fn timestamp_with_milliseconds() {
    let now = 1_700_000_000 * SECOND + 123_000_000;
    let s = build_statement(Client { id: 1, account_limit: 0, balance: 0 }, &vec![], now);
    assert_eq!(s.saldo.data_extrato, "2023-11-14T22:13:20.123+00:00");
}

#[test]
fn timestamp_with_nanoseconds_and_before_the_epoch() {
    let s = build_statement(Client { id: 1, account_limit: 0, balance: 0 }, &vec![], 1);
    assert_eq!(s.saldo.data_extrato, "1970-01-01T00:00:00.000000001+00:00");
    let s = build_statement(Client { id: 1, account_limit: 0, balance: 0 }, &vec![], -SECOND);
    assert_eq!(s.saldo.data_extrato, "1969-12-31T23:59:59+00:00");
}

#[test]
fn timestamps_at_the_ends_of_the_range() {
    let s = build_statement(Client { id: 1, account_limit: 0, balance: 0 }, &vec![], i64::MAX);
    assert_eq!(s.saldo.data_extrato, "2262-04-11T23:47:16.854775807+00:00");
    let s = build_statement(Client { id: 1, account_limit: 0, balance: 0 }, &vec![], i64::MIN);
    assert_eq!(s.saldo.data_extrato, "1677-09-21T00:12:43.145224192+00:00");
}

#[test]
fn line_shows_the_transaction() {
    let t = Transaction {
        id: 12,
        client_id: 3,
        amount: 990,
        transaction_type: "d".to_string(),
        details: "cinema".to_string(),
        created_at: 86_400 * SECOND,
    };
    let row = render_line(&t);
    assert_eq!(row.valor, 990);
    assert_eq!(row.tipo, "d");
    assert_eq!(row.descricao, "cinema");
    assert_eq!(row.realizada_em, "1970-01-02T00:00:00+00:00");
}

#[test]
fn statement_of_account_without_history_is_empty() {
    let mut ledger = Ledger::new();
    assert!(ledger.provision(1, 100000));
    let s = ledger.get_statement(1, 0).unwrap();
    assert_eq!(s.saldo.total, 0);
    assert_eq!(s.saldo.limite, 100000);
    assert!(s.ultimas_transacoes.is_empty());
}

#[test]
fn statement_shows_balance_limit_and_lines() {
    let mut ledger = Ledger::new();
    assert!(ledger.provision(1, 1000));
    ledger.apply(1, &payload(100, "c", "first"), SECOND).unwrap();
    ledger.apply(1, &payload(30, "d", "second"), 2 * SECOND).unwrap();
    let s = ledger.get_statement(1, 3 * SECOND).unwrap();
    assert_eq!(s.saldo.total, 70);
    assert_eq!(s.saldo.limite, 1000);
    assert_eq!(s.saldo.data_extrato, "1970-01-01T00:00:03+00:00");
    assert_eq!(s.ultimas_transacoes.len(), 2);
    assert_eq!(s.ultimas_transacoes[0].valor, 30);
    assert_eq!(s.ultimas_transacoes[0].tipo, "d");
    assert_eq!(s.ultimas_transacoes[0].descricao, "second");
    assert_eq!(s.ultimas_transacoes[0].realizada_em, "1970-01-01T00:00:02+00:00");
    assert_eq!(s.ultimas_transacoes[1].valor, 100);
    assert_eq!(s.ultimas_transacoes[1].tipo, "c");
    assert_eq!(s.ultimas_transacoes[1].descricao, "first");
    assert_eq!(s.ultimas_transacoes[1].realizada_em, "1970-01-01T00:00:01+00:00");
}

#[test]
fn statement_shows_only_the_account() {
    let mut ledger = Ledger::new();
    assert!(ledger.provision(1, 1000));
    assert!(ledger.provision(2, 1000));
    ledger.apply(1, &payload(1, "c", "one"), 1).unwrap();
    ledger.apply(2, &payload(2, "c", "two"), 2).unwrap();
    ledger.apply(1, &payload(3, "c", "three"), 3).unwrap();
    let s = ledger.get_statement(2, 4).unwrap();
    assert_eq!(s.saldo.total, 2);
    assert_eq!(s.ultimas_transacoes.len(), 1);
    assert_eq!(s.ultimas_transacoes[0].descricao, "two");
}

#[test]
fn statement_is_cut_after_ten_newest_first() {
    let mut ledger = Ledger::new();
    assert!(ledger.provision(1, 1000));
    for n in 1..=25 {
        ledger.apply(1, &payload(n, "c", "credit"), n * SECOND).unwrap();
    }
    let s = ledger.get_statement(1, 100 * SECOND).unwrap();
    assert_eq!(s.saldo.total, 325);
    let amounts: Vec<i64> = s.ultimas_transacoes.iter().map(|t| t.valor).collect();
    assert_eq!(amounts, vec![25, 24, 23, 22, 21, 20, 19, 18, 17, 16]);
}

#[test]
fn statement_does_not_change_the_ledger() {
    let mut ledger = Ledger::new();
    assert!(ledger.provision(1, 1000));
    ledger.apply(1, &payload(10, "d", "ten"), 1).unwrap();
    let _ = ledger.get_statement(1, 2).unwrap();
    let _ = ledger.get_statement(1, 3).unwrap();
    assert_eq!(ledger.read(1).unwrap().balance, -10);
    assert_eq!(ledger.transactions().len(), 1);
}

#[test]
fn select_recent_orders_by_time() {
    let log = vec![
        record(1, 1, 10, 50),
        record(2, 1, 20, 10),
        record(3, 1, 30, 40),
        record(4, 1, 40, 20),
        record(5, 1, 50, 30),
    ];
    let top = select_recent(&log, 1);
    let ids: Vec<i32> = top.iter().map(|t| t.id).collect();
    assert_eq!(ids, vec![1, 3, 5, 4, 2]);
}

#[test]
fn select_recent_puts_the_later_of_equal_times_first() {
    let log = vec![record(1, 1, 10, 7), record(2, 1, 20, 7), record(3, 1, 30, 9), record(4, 1, 40, 7)];
    let top = select_recent(&log, 1);
    let ids: Vec<i32> = top.iter().map(|t| t.id).collect();
    assert_eq!(ids, vec![3, 4, 2, 1]);
}

#[test]
fn select_recent_keeps_the_ten_newest_of_an_unordered_log() {
    let mut log = Vec::new();
    let times = [13, 2, 8, 15, 1, 11, 6, 14, 3, 9, 12, 5, 10, 4, 7];
    for (n, time) in times.iter().enumerate() {
        log.push(record(n as i32 + 1, 1, *time, *time));
        log.push(record(100 + n as i32, 2, 1000 + *time, 1000 + *time));
    }
    let top = select_recent(&log, 1);
    let amounts: Vec<i64> = top.iter().map(|t| t.amount).collect();
    assert_eq!(amounts, vec![15, 14, 13, 12, 11, 10, 9, 8, 7, 6]);
    for t in top.iter() {
        assert_eq!(t.client_id, 1);
    }
}

#[test]
fn select_recent_of_a_stranger_is_empty() {
    let log = vec![record(1, 1, 10, 50), record(2, 2, 20, 10)];
    assert!(select_recent(&log, 3).is_empty());
    assert!(select_recent(&Vec::new(), 1).is_empty());
}

#[test]
fn select_recent_copies_whole_records() {
    let log = vec![Transaction {
        id: 77,
        client_id: 5,
        amount: 1234,
        transaction_type: "d".to_string(),
        details: "whole".to_string(),
        created_at: 99,
    }];
    let top = select_recent(&log, 5);
    assert_eq!(top.len(), 1);
    assert_eq!(top[0].id, 77);
    assert_eq!(top[0].client_id, 5);
    assert_eq!(top[0].amount, 1234);
    assert_eq!(top[0].transaction_type, "d");
    assert_eq!(top[0].details, "whole");
    assert_eq!(top[0].created_at, 99);
}

#[test]
fn build_statement_reads_the_account_once() {
    let account = Client { id: 2, account_limit: 80000, balance: -1500 };
    let log = vec![record(1, 2, 10, 5 * SECOND), record(2, 3, 20, 6 * SECOND)];
    let s = build_statement(account, &log, 7 * SECOND);
    assert_eq!(s.saldo.total, -1500);
    assert_eq!(s.saldo.limite, 80000);
    assert_eq!(s.saldo.data_extrato, "1970-01-01T00:00:07+00:00");
    assert_eq!(s.ultimas_transacoes.len(), 1);
    assert_eq!(s.ultimas_transacoes[0].valor, 10);
    assert_eq!(s.ultimas_transacoes[0].realizada_em, "1970-01-01T00:00:05+00:00");
}
