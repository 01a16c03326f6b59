//! End-to-end scenarios driving the ledger through whole lifecycles.

use poker_betting::ledger::Ledger;
use poker_betting::records::BetStatus;
use poker_betting::records::BettingError;
use poker_betting::records::CreateLobby;
use poker_betting::records::DistributeSingleWinning;
use poker_betting::records::LedgerError;
use poker_betting::records::LobbyStatus;
use poker_betting::records::PlaceBet;
use poker_betting::records::UpdateLobbyStatus;

const OWNER: u64 = 1;
const B1: u64 = 11;
const B2: u64 = 12;

fn lobby_request(game_id: &str, outcomes: &[&str]) -> CreateLobby {
    CreateLobby {
        owner: OWNER,
        game_id: String::from(game_id),
        model_names: outcomes.iter().map(|s| String::from(*s)).collect(),
        starting_chips: 1000,
        small_blind: 10,
        big_blind: 20,
        max_hands: 50,
    }
}

fn bet_request(bettor: u64, game_id: &str, player: &str, amount: u64) -> PlaceBet {
    PlaceBet {
        bettor,
        lobby_game_id: String::from(game_id),
        player_name: String::from(player),
        amount,
    }
}

fn status_request(owner: u64, game_id: &str, status: LobbyStatus) -> UpdateLobbyStatus {
    UpdateLobbyStatus { owner, lobby_game_id: String::from(game_id), status }
}

fn settle_request(owner: u64, game_id: &str, bet: usize, bettor: u64, winner: &str) -> DistributeSingleWinning {
    DistributeSingleWinning {
        owner,
        lobby_game_id: String::from(game_id),
        bet,
        bettor,
        winner_name: String::from(winner),
    }
}

#[test]
fn two_bets_then_single_winner_paid_once() {
    let mut l = Ledger::new();
    l.deposit(B1, 1000).unwrap();
    l.deposit(B2, 500).unwrap();
    l.create_lobby(lobby_request("g1", &["alice", "bob"]), 100, 0).unwrap();

    l.place_bet(bet_request(B1, "g1", "alice", 100), 101).unwrap();
    l.place_bet(bet_request(B2, "g1", "bob", 50), 102).unwrap();
    assert_eq!(l.lobbies[0].total_bets, 150);
    assert_eq!(l.escrows[0].balance, 150);
    assert_eq!(l.balance(B1), 900);
    assert_eq!(l.balance(B2), 450);

    l.update_lobby_status(status_request(OWNER, "g1", LobbyStatus::Finished), 103).unwrap();
    l.distribute_single_winning(settle_request(OWNER, "g1", 0, B1, "alice"), 104).unwrap();
    assert_eq!(l.balance(B1), 1000);
    assert_eq!(l.bets[0].status, BetStatus::Paid);
    assert_eq!(l.escrows[0].balance, 50);
    // the all-time wagered total is not a live balance and stays put
    assert_eq!(l.lobbies[0].total_bets, 150);

    let repeat = l.distribute_single_winning(settle_request(OWNER, "g1", 0, B1, "alice"), 105);
    assert_eq!(repeat, Err(LedgerError::Betting(BettingError::BetAlreadyProcessed)));
    assert_eq!(l.balance(B1), 1000);
    assert_eq!(l.bets[0].status, BetStatus::Paid);
}

#[test]
fn unlisted_outcome_rejected_and_no_funds_move() {
    let mut l = Ledger::new();
    l.deposit(B1, 1000).unwrap();
    l.create_lobby(lobby_request("g1", &["alice", "bob"]), 100, 0).unwrap();

    let r = l.place_bet(bet_request(B1, "g1", "carol", 100), 101);
    assert_eq!(r, Err(LedgerError::Betting(BettingError::InvalidPlayerName)));
    assert_eq!(l.balance(B1), 1000);
    assert_eq!(l.lobbies[0].total_bets, 0);
    assert_eq!(l.escrows[0].balance, 0);
    assert_eq!(l.bets.len(), 0);
}

#[test]
fn non_owner_cannot_update_status() {
    let mut l = Ledger::new();
    l.create_lobby(lobby_request("g1", &["alice", "bob"]), 100, 0).unwrap();

    let r = l.update_lobby_status(status_request(B1, "g1", LobbyStatus::Running), 101);
    assert_eq!(r, Err(LedgerError::Betting(BettingError::Unauthorized)));
    assert_eq!(l.lobbies[0].status, LobbyStatus::Waiting);
    assert_eq!(l.lobbies[0].updated_at, 100);
}

#[test]
fn settlement_while_waiting_fails() {
    let mut l = Ledger::new();
    l.deposit(B1, 1000).unwrap();
    l.create_lobby(lobby_request("g1", &["alice", "bob"]), 100, 0).unwrap();
    l.place_bet(bet_request(B1, "g1", "alice", 100), 101).unwrap();

    let r = l.distribute_single_winning(settle_request(OWNER, "g1", 0, B1, "alice"), 102);
    assert_eq!(r, Err(LedgerError::Betting(BettingError::LobbyNotFinished)));
    assert_eq!(l.bets[0].status, BetStatus::Active);
    assert_eq!(l.balance(B1), 900);
}

#[test]
fn zero_amount_bet_rejected_and_no_record_created() {
    let mut l = Ledger::new();
    l.deposit(B1, 1000).unwrap();
    l.create_lobby(lobby_request("g1", &["alice", "bob"]), 100, 0).unwrap();

    let r = l.place_bet(bet_request(B1, "g1", "alice", 0), 101);
    assert_eq!(r, Err(LedgerError::Betting(BettingError::BetAmountMustBePositive)));
    assert_eq!(l.bets.len(), 0);
    assert_eq!(l.balance(B1), 1000);
    assert_eq!(l.lobbies[0].total_bets, 0);
}

#[test]
fn toggling_out_of_finished_blocks_settlement_again() {
    let mut l = Ledger::new();
    l.deposit(B1, 1000).unwrap();
    l.create_lobby(lobby_request("g1", &["alice", "bob"]), 100, 0).unwrap();
    l.place_bet(bet_request(B1, "g1", "alice", 100), 101).unwrap();
    l.update_lobby_status(status_request(OWNER, "g1", LobbyStatus::Finished), 102).unwrap();

    // the ledger imposes no terminality: the owner may leave Finished again,
    // and settlement is then refused exactly as before Finished
    l.update_lobby_status(status_request(OWNER, "g1", LobbyStatus::Running), 103).unwrap();
    assert_eq!(l.lobbies[0].status, LobbyStatus::Running);
    let r = l.distribute_single_winning(settle_request(OWNER, "g1", 0, B1, "alice"), 104);
    assert_eq!(r, Err(LedgerError::Betting(BettingError::LobbyNotFinished)));
    assert_eq!(l.bets[0].status, BetStatus::Active);

    // back to Finished, settlement commits
    l.update_lobby_status(status_request(OWNER, "g1", LobbyStatus::Finished), 105).unwrap();
    l.distribute_single_winning(settle_request(OWNER, "g1", 0, B1, "alice"), 106).unwrap();
    assert_eq!(l.balance(B1), 1000);
}

#[test]
fn lobby_accepts_bets_while_waiting_and_running_only() {
    let mut l = Ledger::new();
    l.deposit(B1, 1000).unwrap();
    l.deposit(B2, 1000).unwrap();
    l.create_lobby(lobby_request("g1", &["alice", "bob"]), 100, 0).unwrap();

    // Waiting accepts
    l.place_bet(bet_request(B1, "g1", "alice", 10), 101).unwrap();
    // Running accepts
    l.update_lobby_status(status_request(OWNER, "g1", LobbyStatus::Running), 102).unwrap();
    l.place_bet(bet_request(B2, "g1", "bob", 20), 103).unwrap();
    assert_eq!(l.lobbies[0].total_bets, 30);

    // Finished refuses
    l.update_lobby_status(status_request(OWNER, "g1", LobbyStatus::Finished), 104).unwrap();
    let late = l.place_bet(bet_request(21, "g1", "alice", 5), 105);
    assert_eq!(late, Err(LedgerError::Betting(BettingError::LobbyNotOpenForBets)));
    assert_eq!(l.lobbies[0].total_bets, 30);
}

#[test]
fn custody_bootstrap_reserve_funded_by_owner() {
    let mut l = Ledger::new();
    l.deposit(OWNER, 1000).unwrap();
    l.create_lobby(lobby_request("g1", &["alice", "bob"]), 100, 300).unwrap();
    assert_eq!(l.balance(OWNER), 700);
    assert_eq!(l.escrows[0].balance, 300);
    assert_eq!(l.escrows[0].reserve, 300);

    // the reserve is never eligible for payout: a full settlement leaves it
    l.deposit(B1, 100).unwrap();
    l.place_bet(bet_request(B1, "g1", "alice", 100), 101).unwrap();
    l.update_lobby_status(status_request(OWNER, "g1", LobbyStatus::Finished), 102).unwrap();
    l.distribute_single_winning(settle_request(OWNER, "g1", 0, B1, "alice"), 103).unwrap();
    assert_eq!(l.escrows[0].balance, 300);
    assert_eq!(l.balance(B1), 100);
}

#[test]
fn owner_who_cannot_fund_reserve_creates_no_lobby() {
    let mut l = Ledger::new();
    l.deposit(OWNER, 100).unwrap();
    let r = l.create_lobby(lobby_request("g1", &["alice", "bob"]), 100, 300);
    assert_eq!(r, Err(LedgerError::InsufficientFunds));
    assert_eq!(l.lobbies.len(), 0);
    assert_eq!(l.balance(OWNER), 100);
}
