//! The ledger's stated laws, proved once and for all states.

use vstd::prelude::*;

use crate::ledger::Ledger;
use crate::ledger::has_bet;
use crate::ledger::has_lobby;
use crate::ledger::lobby_index_of;
use crate::ledger::name_listed;
use crate::records::BetStatus;
use crate::records::BettingError;
use crate::records::DistributeSingleWinning;
use crate::records::LedgerError;
use crate::records::LobbyStatus;
use crate::records::PlaceBet;
use crate::records::lobby_open;
use crate::sums::active_wagered;
use crate::sums::lemma_active_wagered_at_least;
use crate::sums::lemma_active_wagered_nonneg;
use crate::sums::total_wagered;

verus! {

/// Funds conservation: in every well-formed ledger state, each lobby's
/// `total_bets` equals the sum of `amount` over all bet records referencing
/// that lobby. Every operation keeps the ledger well-formed, so this holds
/// after every committed operation — in particular after every committed
/// `place_bet`.
pub proof fn lemma_total_bets_conservation(l: Ledger, i: int)
    requires
        l.wf(),
        0 <= i < l.lobbies@.len(),
    ensures
        l.lobbies@[i].total_bets as int == total_wagered(l.bets@, i),
{
}

/// Custody safety: in every well-formed ledger state, each lobby's custody
/// pool holds exactly its bootstrap reserve plus every still-active wager —
/// in particular enough to pay any one active bet out in full.
pub proof fn lemma_custody_covers_active_bets(l: Ledger, i: int, k: int)
    requires
        l.wf(),
        0 <= i < l.lobbies@.len(),
        0 <= k < l.bets@.len(),
        l.bets@[k].lobby as int == i,
        l.bets@[k].status == BetStatus::Active,
    ensures
        l.escrows@[i].balance as int == l.escrows@[i].reserve as int + active_wagered(l.bets@, i),
        l.escrows@[i].balance as int >= l.escrows@[i].reserve as int + l.bets@[k].amount as int,
{
    lemma_active_wagered_nonneg(l.bets@, i);
    lemma_active_wagered_at_least(l.bets@, k, i);
}

/// Settlement is one-shot: a settlement attempt naming a bet that is no
/// longer Active never commits, whatever else the request says.
pub proof fn lemma_settled_bet_cannot_settle(l: Ledger, call: DistributeSingleWinning)
    requires
        (call.bet as int) < l.bets@.len(),
        l.bets@[call.bet as int].status != BetStatus::Active,
    ensures
        l.distribute_check(call) is Err,
{
}

/// Settlement is one-shot, exactly: when a repeated settlement attempt
/// names an existing lobby and bet and passes every earlier check — right
/// owner, Finished lobby, matching bet, bettor and winner — it fails with
/// precisely `BetAlreadyProcessed` once the bet is no longer Active.
pub proof fn lemma_repeat_settlement_fails(l: Ledger, call: DistributeSingleWinning)
    requires
        has_lobby(l.lobbies@, call.lobby_game_id@),
        (call.bet as int) < l.bets@.len(),
        ({
            let i = lobby_index_of(l.lobbies@, call.lobby_game_id@);
            &&& l.lobbies@[i].owner == call.owner
            &&& l.lobbies@[i].status == LobbyStatus::Finished
            &&& l.bets@[call.bet as int].lobby as int == i
            &&& l.bets@[call.bet as int].bettor == call.bettor
            &&& l.bets@[call.bet as int].player_name@ == call.winner_name@
        }),
        l.bets@[call.bet as int].status != BetStatus::Active,
    ensures
        l.distribute_check(call) == Err::<(), LedgerError>(
            LedgerError::Betting(BettingError::BetAlreadyProcessed),
        ),
{
}

/// A zero wager never commits; and when the request passes every earlier
/// check — existing lobby, no duplicate bet, open lobby, listed outcome —
/// it fails with precisely `BetAmountMustBePositive`. Since `place_bet`
/// leaves the ledger untouched on every failure, no record is created.
pub proof fn lemma_zero_amount_rejected(l: Ledger, call: PlaceBet)
    requires
        call.amount == 0,
    ensures
        l.place_bet_check(call) is Err,
        ({
            let i = lobby_index_of(l.lobbies@, call.lobby_game_id@);
            has_lobby(l.lobbies@, call.lobby_game_id@) && !has_bet(l.bets@, i, call.bettor)
                && lobby_open(l.lobbies@[i].status) && name_listed(
                l.lobbies@[i].model_names@,
                call.player_name@,
            )
        }) ==> l.place_bet_check(call) == Err::<(), LedgerError>(
            LedgerError::Betting(BettingError::BetAmountMustBePositive),
        ),
{
}

/// Settlement demands a Finished lobby: while the named lobby's status is
/// anything else — including a lobby toggled back out of Finished, which
/// `update_lobby_status` permits — no settlement attempt against it ever
/// commits.
pub proof fn lemma_no_settlement_unless_finished(l: Ledger, call: DistributeSingleWinning)
    requires
        has_lobby(l.lobbies@, call.lobby_game_id@) ==> l.lobbies@[lobby_index_of(
            l.lobbies@,
            call.lobby_game_id@,
        )].status != LobbyStatus::Finished,
    ensures
        l.distribute_check(call) is Err,
{
}

} // verus!
