//! The most recent transactions of an account.
//!
//! A log holds the transactions of all accounts in the order in which they
//! were appended. The most recent transactions of one account are those of
//! that account, ordered by their time with the newest first, cut after the
//! tenth. Of two transactions with the same time, the one that was appended
//! later comes first.

use vstd::prelude::*;
use crate::models::{Transaction, TransactionView};

verus! {

/// The number of transactions that a statement shows at most.
pub const STATEMENT_SIZE: usize = 10;

/// How many transactions at the head of `s` are strictly newer than `t`.
pub open spec fn rank(s: Seq<TransactionView>, t: TransactionView) -> int
    decreases s.len(),
{
    if s.len() == 0 || s[0].created_at <= t.created_at {
        0
    } else {
        1 + rank(s.drop_first(), t)
    }
}

/// `s` with `t` put behind the transactions that are strictly newer.
pub open spec fn insert_newest(s: Seq<TransactionView>, t: TransactionView) -> Seq<TransactionView> {
    s.insert(rank(s, t), t)
}

/// The transactions of `s`, the newest first.
pub open spec fn newest_first(s: Seq<TransactionView>) -> Seq<TransactionView>
    decreases s.len(),
{
    if s.len() == 0 {
        Seq::empty()
    } else {
        insert_newest(newest_first(s.drop_last()), s.last())
    }
}

/// The first `n` transactions of `s`, or all of them if there are fewer.
pub open spec fn capped(s: Seq<TransactionView>, n: int) -> Seq<TransactionView> {
    if s.len() <= n {
        s
    } else {
        s.take(n)
    }
}

/// The transactions of one account, in the order of the log.
pub open spec fn of_account(log: Seq<TransactionView>, client_id: int) -> Seq<TransactionView> {
    log.filter(|t: TransactionView| t.client_id == client_id)
}

/// The ten most recent transactions of an account, the newest first.
pub open spec fn most_recent(log: Seq<TransactionView>, client_id: int) -> Seq<TransactionView> {
    capped(newest_first(of_account(log, client_id)), STATEMENT_SIZE as int)
}

/// No transaction of `s` is older than one that follows it.
pub open spec fn descending(s: Seq<TransactionView>) -> bool {
    forall|i: int, j: int| 0 <= i <= j < s.len() ==> s[i].created_at >= s[j].created_at
}

/// The rank is a position in the sequence: all before it are strictly
/// newer, and the one at it, if there is one, is not.
pub proof fn rank_is_first_not_newer(s: Seq<TransactionView>, t: TransactionView)
    ensures
        0 <= rank(s, t) <= s.len(),
        forall|k: int| 0 <= k < rank(s, t) ==> s[k].created_at > t.created_at,
        rank(s, t) < s.len() ==> s[rank(s, t)].created_at <= t.created_at,
    decreases s.len(),
{
    if s.len() == 0 || s[0].created_at <= t.created_at {
    } else {
        let rest = s.drop_first();
        rank_is_first_not_newer(rest, t);
        assert forall|k: int| 0 <= k < rank(s, t) implies s[k].created_at > t.created_at by {
            if k > 0 {
                assert(s[k] == rest[k - 1]);
            }
        }
        if rank(s, t) < s.len() {
            assert(s[rank(s, t)] == rest[rank(rest, t)]);
        }
    }
}

/// A position with all before it strictly newer, and the one at it not, is
/// the rank.
pub proof fn first_not_newer_is_rank(s: Seq<TransactionView>, t: TransactionView, p: int)
    requires
        0 <= p <= s.len(),
        forall|k: int| 0 <= k < p ==> s[k].created_at > t.created_at,
        p < s.len() ==> s[p].created_at <= t.created_at,
    ensures
        rank(s, t) == p,
    decreases s.len(),
{
    if p == 0 {
    } else {
        assert(s[0].created_at > t.created_at);
        let rest = s.drop_first();
        assert forall|k: int| 0 <= k < p - 1 implies rest[k].created_at > t.created_at by {
            assert(rest[k] == s[k + 1]);
        }
        if p - 1 < rest.len() {
            assert(rest[p - 1] == s[p]);
        }
        first_not_newer_is_rank(rest, t, p - 1);
    }
}

/// Putting a transaction into a sequence and cutting the result gives the
/// same as cutting first, putting it in, and cutting again.
pub proof fn insert_into_capped(s: Seq<TransactionView>, t: TransactionView, n: int)
    requires
        0 <= n,
    ensures
        capped(insert_newest(s, t), n) == capped(insert_newest(capped(s, n), t), n),
{
    if s.len() > n {
        let head = s.take(n);
        let p = rank(s, t);
        rank_is_first_not_newer(s, t);
        let q = if p < n { p } else { n };
        first_not_newer_is_rank(head, t, q);
        assert(capped(insert_newest(s, t), n) =~= capped(insert_newest(head, t), n));
    }
}

/// Ordering keeps the length.
pub proof fn newest_first_keeps_length(s: Seq<TransactionView>)
    ensures
        newest_first(s).len() == s.len(),
    decreases s.len(),
{
    if s.len() > 0 {
        newest_first_keeps_length(s.drop_last());
        rank_is_first_not_newer(newest_first(s.drop_last()), s.last());
    }
}

/// Ordering keeps the transactions: what is in the result was in the
/// sequence, and the other way round.
pub proof fn newest_first_keeps_members(s: Seq<TransactionView>)
    ensures
        forall|t: TransactionView| newest_first(s).contains(t) <==> s.contains(t),
    decreases s.len(),
{
    if s.len() > 0 {
        let init = s.drop_last();
        let sorted = newest_first(init);
        let p = rank(sorted, s.last());
        newest_first_keeps_members(init);
        rank_is_first_not_newer(sorted, s.last());
        sorted.insert_ensures(p, s.last());
        let out = newest_first(s);
        assert forall|t: TransactionView| out.contains(t) implies s.contains(t) by {
            let k = choose|k: int| 0 <= k < out.len() && out[k] == t;
            if k == p {
                assert(s[s.len() - 1] == t);
            } else {
                if k < p {
                    assert(sorted[k] == t);
                } else {
                    assert(out[(k - 1) + 1] == sorted[k - 1]);
                }
                assert(sorted.contains(t));
                assert(init.contains(t));
                let i = choose|i: int| 0 <= i < init.len() && init[i] == t;
                assert(s[i] == t);
            }
        }
        assert forall|t: TransactionView| s.contains(t) implies out.contains(t) by {
            let i = choose|i: int| 0 <= i < s.len() && s[i] == t;
            if i == s.len() - 1 {
                assert(out[p] == t);
            } else {
                assert(init[i] == t);
                assert(init.contains(t));
                assert(sorted.contains(t));
                let k = choose|k: int| 0 <= k < sorted.len() && sorted[k] == t;
                if k < p {
                    assert(out[k] == t);
                } else {
                    assert(out[k + 1] == t);
                }
            }
        }
    }
}

/// The result of ordering is in descending order of time.
pub proof fn newest_first_is_descending(s: Seq<TransactionView>)
    ensures
        descending(newest_first(s)),
    decreases s.len(),
{
    if s.len() > 0 {
        let sorted = newest_first(s.drop_last());
        let t = s.last();
        let p = rank(sorted, t);
        newest_first_is_descending(s.drop_last());
        rank_is_first_not_newer(sorted, t);
        sorted.insert_ensures(p, t);
        let out = newest_first(s);
        assert forall|i: int, j: int| 0 <= i <= j < out.len() implies out[i].created_at
            >= out[j].created_at by {
            if j > p {
                assert(out[(j - 1) + 1] == sorted[j - 1]);
            }
            if i > p {
                assert(out[(i - 1) + 1] == sorted[i - 1]);
            }
        }
    }
}

/// The ten most recent transactions of an account are what a statement
/// shows: at most ten, as many as the account has if it has fewer, all of
/// them transactions of that account from the log, in descending order of
/// time, and none of the account's other transactions is newer than the
/// last of them.
pub proof fn most_recent_are_the_newest(log: Seq<TransactionView>, client_id: int)
    ensures
        most_recent(log, client_id).len() <= STATEMENT_SIZE,
        most_recent(log, client_id).len() == if of_account(log, client_id).len()
            <= STATEMENT_SIZE {
            of_account(log, client_id).len()
        } else {
            STATEMENT_SIZE as nat
        },
        descending(most_recent(log, client_id)),
        forall|t: TransactionView| #[trigger]
            most_recent(log, client_id).contains(t) ==> log.contains(t) && t.client_id
                == client_id,
        forall|t: TransactionView|
            #![trigger most_recent(log, client_id).contains(t)]
            log.contains(t) && t.client_id == client_id ==> most_recent(log, client_id).contains(t)
                || (most_recent(log, client_id).len() == STATEMENT_SIZE && t.created_at
                <= most_recent(log, client_id).last().created_at),
{
    let own = |t: TransactionView| t.client_id == client_id;
    let all = of_account(log, client_id);
    let sorted = newest_first(all);
    let top = most_recent(log, client_id);
    newest_first_keeps_length(all);
    newest_first_keeps_members(all);
    newest_first_is_descending(all);
    assert forall|t: TransactionView| #[trigger] top.contains(t) implies log.contains(t)
        && t.client_id == client_id by {
        let k = choose|k: int| 0 <= k < top.len() && top[k] == t;
        assert(sorted[k] == t);
        assert(sorted.contains(t));
        assert(all.contains(t));
        log.lemma_filter_contains_rev(own, t);
        let i = choose|i: int| 0 <= i < all.len() && all[i] == t;
        log.lemma_filter_pred(own, i);
    }
    assert forall|t: TransactionView|
        #![trigger top.contains(t)]
        log.contains(t) && t.client_id == client_id implies top.contains(t) || (top.len()
            == STATEMENT_SIZE && t.created_at <= top.last().created_at) by {
        let i = choose|i: int| 0 <= i < log.len() && log[i] == t;
        log.lemma_filter_contains(own, i);
        assert(all.contains(t));
        assert(sorted.contains(t));
        let k = choose|k: int| 0 <= k < sorted.len() && sorted[k] == t;
        if k < top.len() {
            assert(top[k] == t);
        } else {
            assert(top.last() == sorted[STATEMENT_SIZE - 1]);
        }
    }
}

/// No transaction of the log is older than one that was appended before
/// it.
pub open spec fn chronological(log: Seq<TransactionView>) -> bool {
    forall|i: int, j: int| 0 <= i <= j < log.len() ==> log[i].created_at <= log[j].created_at
}

/// In a log that is in the order of time, the most recent transactions of
/// an account are the last ten that were appended for it, the last one
/// first.
pub proof fn most_recent_are_the_last_appended(log: Seq<TransactionView>, client_id: int)
    requires
        chronological(log),
    ensures
        most_recent(log, client_id) == capped(
            of_account(log, client_id).reverse(),
            STATEMENT_SIZE as int,
        ),
{
    newest_first_of_chronological(log, client_id);
}

proof fn newest_first_of_chronological(log: Seq<TransactionView>, client_id: int)
    requires
        chronological(log),
    ensures
        newest_first(of_account(log, client_id)) == of_account(log, client_id).reverse(),
    decreases log.len(),
{
    let own = |t: TransactionView| t.client_id == client_id;
    if log.len() == 0 {
        log.lemma_filter_len(own);
        assert(newest_first(of_account(log, client_id)) =~= of_account(log, client_id).reverse());
    } else {
        let init = log.drop_last();
        let t = log.last();
        let before = of_account(init, client_id);
        assert(init.push(t) =~= log);
        init.lemma_filter_push(t, own);
        assert(chronological(init)) by {
            assert forall|i: int, j: int| 0 <= i <= j < init.len() implies init[i].created_at
                <= init[j].created_at by {
                assert(init[i] == log[i] && init[j] == log[j]);
            }
        }
        newest_first_of_chronological(init, client_id);
        if t.client_id == client_id {
            let turned = before.reverse();
            assert(before.push(t).drop_last() =~= before);
            if before.len() > 0 {
                assert(before.contains(before.last()));
                init.lemma_filter_contains_rev(own, before.last());
                let k = choose|k: int| 0 <= k < init.len() && init[k] == before.last();
                assert(log[k] == init[k]);
                assert(turned[0] == before.last());
            }
            first_not_newer_is_rank(turned, t, 0);
            assert(turned.insert(0, t) =~= before.push(t).reverse());
        }
    }
}

/// What a vector of transactions holds.
pub open spec fn views(records: Seq<Transaction>) -> Seq<TransactionView> {
    records.map_values(|t: Transaction| t@)
}

/// Where a transaction of the given time goes among those selected so far:
/// behind all that are strictly newer.
fn position(top: &Vec<Transaction>, created_at: i64) -> (p: usize)
    ensures
        p <= top.len(),
        forall|k: int| 0 <= k < p ==> top[k].created_at > created_at,
        p < top.len() ==> top[p as int].created_at <= created_at,
{
    let mut p: usize = 0;
    while p < top.len() && top[p].created_at > created_at
        invariant
            p <= top.len(),
            forall|k: int| 0 <= k < p ==> top[k].created_at > created_at,
        decreases top.len() - p,
    {
        p += 1;
    }
    p
}

/// Selects the ten most recent transactions of an account from a log, the
/// newest first.
pub fn select_recent(records: &Vec<Transaction>, client_id: i32) -> (top: Vec<Transaction>)
    ensures
        views(top@) == most_recent(views(records@), client_id as int),
{
    let mut top: Vec<Transaction> = Vec::new();
    let mut i: usize = 0;
    assert(views(records@.take(0)) =~= Seq::empty());
    assert(of_account(Seq::empty(), client_id as int) =~= Seq::empty()) by {
        Seq::<TransactionView>::empty().lemma_filter_len(
            |t: TransactionView| t.client_id == client_id as int,
        );
    }
    assert(views(top@) =~= Seq::empty());
    while i < records.len()
        invariant
            i <= records.len(),
            views(top@) == most_recent(views(records@.take(i as int)), client_id as int),
        decreases records.len() - i,
    {
        let record = &records[i];
        let ghost log = views(records@.take(i as int));
        let ghost own = |t: TransactionView| t.client_id == client_id as int;
        let ghost sorted = newest_first(of_account(log, client_id as int));
        let ghost before = views(top@);
        proof {
            assert(views(records@.take(i + 1)) =~= log.push(record@));
            log.lemma_filter_push(record@, own);
        }
        if record.client_id == client_id {
            let p = position(&top, record.created_at);
            proof {
                let all = of_account(log, client_id as int);
                assert(all.push(record@).drop_last() =~= all);
                insert_into_capped(sorted, record@, STATEMENT_SIZE as int);
                assert forall|k: int| 0 <= k < p implies before[k].created_at
                    > record@.created_at by {
                    assert(before[k] == top[k]@);
                }
                first_not_newer_is_rank(before, record@, p as int);
                newest_first_keeps_length(all);
            }
            if p < STATEMENT_SIZE {
                top.insert(p, record.clone());
                assert(views(top@) =~= before.insert(p as int, record@));
                if top.len() > STATEMENT_SIZE {
                    let ghost longer = top@;
                    top.truncate(STATEMENT_SIZE);
                    assert(views(top@) =~= views(longer).take(STATEMENT_SIZE as int));
                }
            } else {
                assert(capped(before.insert(p as int, record@), STATEMENT_SIZE as int)
                    =~= before);
            }
        }
        i += 1;
    }
    assert(records@.take(i as int) =~= records@);
    top
}

} // verus!
