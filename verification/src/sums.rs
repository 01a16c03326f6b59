//! Aggregate accounting over the bet table: the all-time wagered total and
//! the still-active wagered total of one lobby, with the lemmas that track
//! how each sum moves when a bet is recorded or settled.

use vstd::prelude::*;

use crate::records::AccountRecord;
use crate::records::Bet;
use crate::records::BetStatus;
use crate::records::Escrow;

verus! {

/// Sum of every party's spendable balance.
pub open spec fn sum_balances(accounts: Seq<AccountRecord>) -> int
    decreases accounts.len(),
{
    if accounts.len() == 0 {
        0
    } else {
        sum_balances(accounts.drop_last()) + accounts.last().balance as int
    }
}

/// Sum of everything the custody pools hold.
pub open spec fn sum_escrows(escrows: Seq<Escrow>) -> int
    decreases escrows.len(),
{
    if escrows.len() == 0 {
        0
    } else {
        sum_escrows(escrows.drop_last()) + escrows.last().balance as int
    }
}

/// Rewriting one balance record moves the grand total of balances by
/// exactly the difference between the new balance and the old.
pub proof fn lemma_sum_balances_update(accounts: Seq<AccountRecord>, a: int, rec: AccountRecord)
    requires
        0 <= a < accounts.len(),
    ensures
        sum_balances(accounts.update(a, rec)) == sum_balances(accounts) - accounts[a].balance
            as int + rec.balance as int,
    decreases accounts.len(),
{
    let upd = accounts.update(a, rec);
    if a == accounts.len() - 1 {
        assert(upd.drop_last() =~= accounts.drop_last());
    } else {
        assert(upd.drop_last() =~= accounts.drop_last().update(a, rec));
        assert(upd.last() == accounts.last());
        lemma_sum_balances_update(accounts.drop_last(), a, rec);
    }
}

/// Appending a balance record raises the grand total of balances by
/// exactly the new record's balance.
pub proof fn lemma_sum_balances_push(accounts: Seq<AccountRecord>, rec: AccountRecord)
    ensures
        sum_balances(accounts.push(rec)) == sum_balances(accounts) + rec.balance as int,
{
    assert(accounts.push(rec).drop_last() =~= accounts);
}

/// Rewriting one custody pool moves the grand total held in custody by
/// exactly the difference between the new holding and the old.
pub proof fn lemma_sum_escrows_update(escrows: Seq<Escrow>, i: int, e: Escrow)
    requires
        0 <= i < escrows.len(),
    ensures
        sum_escrows(escrows.update(i, e)) == sum_escrows(escrows) - escrows[i].balance as int
            + e.balance as int,
    decreases escrows.len(),
{
    let upd = escrows.update(i, e);
    if i == escrows.len() - 1 {
        assert(upd.drop_last() =~= escrows.drop_last());
    } else {
        assert(upd.drop_last() =~= escrows.drop_last().update(i, e));
        assert(upd.last() == escrows.last());
        lemma_sum_escrows_update(escrows.drop_last(), i, e);
    }
}

/// Appending a custody pool raises the grand total held in custody by
/// exactly the new pool's holding.
pub proof fn lemma_sum_escrows_push(escrows: Seq<Escrow>, e: Escrow)
    ensures
        sum_escrows(escrows.push(e)) == sum_escrows(escrows) + e.balance as int,
{
    assert(escrows.push(e).drop_last() =~= escrows);
}

/// Sum of `amount` over every bet record referencing the lobby at index
/// `lobby`, settled or not.
pub open spec fn total_wagered(bets: Seq<Bet>, lobby: int) -> int
    decreases bets.len(),
{
    if bets.len() == 0 {
        0
    } else {
        total_wagered(bets.drop_last(), lobby) + if bets.last().lobby as int == lobby {
            bets.last().amount as int
        } else {
            0
        }
    }
}

/// Sum of `amount` over the still-Active bet records referencing the lobby
/// at index `lobby`: the part of the custody pool still owed to bettors.
pub open spec fn active_wagered(bets: Seq<Bet>, lobby: int) -> int
    decreases bets.len(),
{
    if bets.len() == 0 {
        0
    } else {
        active_wagered(bets.drop_last(), lobby) + if bets.last().lobby as int == lobby
            && bets.last().status == BetStatus::Active {
            bets.last().amount as int
        } else {
            0
        }
    }
}

/// Recording one more bet raises `total_wagered` of its own lobby by its
/// amount and leaves every other lobby's total unchanged.
pub proof fn lemma_total_wagered_push(bets: Seq<Bet>, b: Bet, lobby: int)
    ensures
        total_wagered(bets.push(b), lobby) == total_wagered(bets, lobby) + if b.lobby as int
            == lobby {
            b.amount as int
        } else {
            0
        },
{
    assert(bets.push(b).drop_last() =~= bets);
}

/// Recording one more Active bet raises `active_wagered` of its own lobby by
/// its amount and leaves every other lobby's active total unchanged.
pub proof fn lemma_active_wagered_push(bets: Seq<Bet>, b: Bet, lobby: int)
    ensures
        active_wagered(bets.push(b), lobby) == active_wagered(bets, lobby) + if b.lobby as int
            == lobby && b.status == BetStatus::Active {
            b.amount as int
        } else {
            0
        },
{
    assert(bets.push(b).drop_last() =~= bets);
}

/// Rewriting one bet record without touching its lobby or amount leaves
/// `total_wagered` of every lobby unchanged.
pub proof fn lemma_total_wagered_update(bets: Seq<Bet>, k: int, b: Bet, lobby: int)
    requires
        0 <= k < bets.len(),
        b.lobby == bets[k].lobby,
        b.amount == bets[k].amount,
    ensures
        total_wagered(bets.update(k, b), lobby) == total_wagered(bets, lobby),
    decreases bets.len(),
{
    let upd = bets.update(k, b);
    if k == bets.len() - 1 {
        assert(upd.drop_last() =~= bets.drop_last());
    } else {
        assert(upd.drop_last() =~= bets.drop_last().update(k, b));
        assert(upd.last() == bets.last());
        lemma_total_wagered_update(bets.drop_last(), k, b, lobby);
    }
}

/// Settling one Active bet (rewriting its status to anything non-Active,
/// lobby and amount kept) lowers `active_wagered` of its own lobby by its
/// amount and leaves every other lobby's active total unchanged.
pub proof fn lemma_active_wagered_settle(bets: Seq<Bet>, k: int, b: Bet, lobby: int)
    requires
        0 <= k < bets.len(),
        b.lobby == bets[k].lobby,
        b.amount == bets[k].amount,
        bets[k].status == BetStatus::Active,
        b.status != BetStatus::Active,
    ensures
        active_wagered(bets.update(k, b), lobby) == active_wagered(bets, lobby) - if bets[k].lobby
            as int == lobby {
            bets[k].amount as int
        } else {
            0
        },
    decreases bets.len(),
{
    let upd = bets.update(k, b);
    if k == bets.len() - 1 {
        assert(upd.drop_last() =~= bets.drop_last());
    } else {
        assert(upd.drop_last() =~= bets.drop_last().update(k, b));
        assert(upd.last() == bets.last());
        lemma_active_wagered_settle(bets.drop_last(), k, b, lobby);
    }
}

/// A lobby no bet references has an all-time wagered total of zero.
pub proof fn lemma_total_wagered_unreferenced(bets: Seq<Bet>, lobby: int)
    requires
        forall|k: int| 0 <= k < bets.len() ==> (#[trigger] bets[k]).lobby as int != lobby,
    ensures
        total_wagered(bets, lobby) == 0,
    decreases bets.len(),
{
    if bets.len() > 0 {
        lemma_total_wagered_unreferenced(bets.drop_last(), lobby);
    }
}

/// A lobby no bet references has an active wagered total of zero.
pub proof fn lemma_active_wagered_unreferenced(bets: Seq<Bet>, lobby: int)
    requires
        forall|k: int| 0 <= k < bets.len() ==> (#[trigger] bets[k]).lobby as int != lobby,
    ensures
        active_wagered(bets, lobby) == 0,
    decreases bets.len(),
{
    if bets.len() > 0 {
        lemma_active_wagered_unreferenced(bets.drop_last(), lobby);
    }
}

/// The active wagered total is never negative.
pub proof fn lemma_active_wagered_nonneg(bets: Seq<Bet>, lobby: int)
    ensures
        active_wagered(bets, lobby) >= 0,
    decreases bets.len(),
{
    if bets.len() > 0 {
        lemma_active_wagered_nonneg(bets.drop_last(), lobby);
    }
}

/// Each single Active bet is covered by its lobby's active wagered total: the
/// custody pool always holds enough to pay any one active bet out.
pub proof fn lemma_active_wagered_at_least(bets: Seq<Bet>, k: int, lobby: int)
    requires
        0 <= k < bets.len(),
        bets[k].lobby as int == lobby,
        bets[k].status == BetStatus::Active,
    ensures
        active_wagered(bets, lobby) >= bets[k].amount as int,
    decreases bets.len(),
{
    if k == bets.len() - 1 {
        lemma_active_wagered_nonneg(bets.drop_last(), lobby);
    } else {
        assert(bets.drop_last()[k] == bets[k]);
        lemma_active_wagered_at_least(bets.drop_last(), k, lobby);
    }
}

} // verus!
