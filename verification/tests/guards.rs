//! One test per guard: each error variant is reachable, each on the exact
//! input the contracts name, and each failure leaves the ledger untouched.

use poker_betting::ledger::Ledger;
use poker_betting::records::BetStatus;
use poker_betting::records::BettingError;
use poker_betting::records::CreateLobby;
use poker_betting::records::DistributeSingleWinning;
use poker_betting::records::LedgerError;
use poker_betting::records::LobbyStatus;
use poker_betting::records::PlaceBet;
use poker_betting::records::UpdateLobbyStatus;

const OWNER: u64 = 1;
const B1: u64 = 11;
const B2: u64 = 12;

fn lobby_request(game_id: &str, outcomes: &[&str]) -> CreateLobby {
    CreateLobby {
        owner: OWNER,
        game_id: String::from(game_id),
        model_names: outcomes.iter().map(|s| String::from(*s)).collect(),
        starting_chips: 1000,
        small_blind: 10,
        big_blind: 20,
        max_hands: 50,
    }
}

fn bet_request(bettor: u64, game_id: &str, player: &str, amount: u64) -> PlaceBet {
    PlaceBet {
        bettor,
        lobby_game_id: String::from(game_id),
        player_name: String::from(player),
        amount,
    }
}

fn status_request(owner: u64, game_id: &str, status: LobbyStatus) -> UpdateLobbyStatus {
    UpdateLobbyStatus { owner, lobby_game_id: String::from(game_id), status }
}

fn settle_request(
    owner: u64,
    game_id: &str,
    bet: usize,
    bettor: u64,
    winner: &str,
) -> DistributeSingleWinning {
    DistributeSingleWinning {
        owner,
        lobby_game_id: String::from(game_id),
        bet,
        bettor,
        winner_name: String::from(winner),
    }
}

#[test]
fn duplicate_game_id_rejected() {
    let mut l = Ledger::new();
    l.create_lobby(lobby_request("g1", &["alice"]), 100, 0).unwrap();
    let r = l.create_lobby(lobby_request("g1", &["carol"]), 101, 0);
    assert_eq!(r, Err(LedgerError::DuplicateLobby));
    assert_eq!(l.lobbies.len(), 1);
    assert_eq!(l.lobbies[0].model_names, vec![String::from("alice")]);
}

#[test]
fn second_bet_by_same_bettor_on_same_lobby_rejected() {
    let mut l = Ledger::new();
    l.deposit(B1, 1000).unwrap();
    l.create_lobby(lobby_request("g1", &["alice", "bob"]), 100, 0).unwrap();
    l.place_bet(bet_request(B1, "g1", "alice", 100), 101).unwrap();
    let r = l.place_bet(bet_request(B1, "g1", "bob", 50), 102);
    assert_eq!(r, Err(LedgerError::DuplicateBet));
    assert_eq!(l.bets.len(), 1);
    assert_eq!(l.lobbies[0].total_bets, 100);
    assert_eq!(l.balance(B1), 900);
}

#[test]
fn unknown_lobby_rejected_everywhere() {
    let mut l = Ledger::new();
    l.deposit(B1, 1000).unwrap();
    assert_eq!(
        l.place_bet(bet_request(B1, "nope", "alice", 100), 101),
        Err(LedgerError::UnknownLobby)
    );
    assert_eq!(
        l.update_lobby_status(status_request(OWNER, "nope", LobbyStatus::Running), 102),
        Err(LedgerError::UnknownLobby)
    );
    assert_eq!(
        l.distribute_single_winning(settle_request(OWNER, "nope", 0, B1, "alice"), 103),
        Err(LedgerError::UnknownLobby)
    );
}

#[test]
fn unknown_bet_index_rejected() {
    let mut l = Ledger::new();
    l.create_lobby(lobby_request("g1", &["alice"]), 100, 0).unwrap();
    l.update_lobby_status(status_request(OWNER, "g1", LobbyStatus::Finished), 101).unwrap();
    let r = l.distribute_single_winning(settle_request(OWNER, "g1", 5, B1, "alice"), 102);
    assert_eq!(r, Err(LedgerError::UnknownBet));
}

#[test]
fn bettor_without_cover_places_no_bet() {
    let mut l = Ledger::new();
    l.deposit(B1, 10).unwrap();
    l.create_lobby(lobby_request("g1", &["alice"]), 100, 0).unwrap();
    // a funded bettor short of the amount
    let r = l.place_bet(bet_request(B1, "g1", "alice", 100), 101);
    assert_eq!(r, Err(LedgerError::InsufficientFunds));
    // a bettor the ledger has never seen
    let r2 = l.place_bet(bet_request(B2, "g1", "alice", 100), 102);
    assert_eq!(r2, Err(LedgerError::InsufficientFunds));
    assert_eq!(l.bets.len(), 0);
    assert_eq!(l.balance(B1), 10);
}

#[test]
fn total_bets_overflow_rejected() {
    let mut l = Ledger::new();
    l.deposit(B1, u64::MAX).unwrap();
    l.deposit(B2, 1).unwrap();
    l.create_lobby(lobby_request("g1", &["alice"]), 100, 0).unwrap();
    l.place_bet(bet_request(B1, "g1", "alice", u64::MAX), 101).unwrap();
    assert_eq!(l.lobbies[0].total_bets, u64::MAX);
    let r = l.place_bet(bet_request(B2, "g1", "alice", 1), 102);
    assert_eq!(r, Err(LedgerError::Betting(BettingError::Overflow)));
    assert_eq!(l.lobbies[0].total_bets, u64::MAX);
    assert_eq!(l.balance(B2), 1);
    assert_eq!(l.bets.len(), 1);
}

#[test]
fn payout_overflowing_bettor_balance_rejected() {
    let mut l = Ledger::new();
    l.deposit(B1, 1000).unwrap();
    l.create_lobby(lobby_request("g1", &["alice"]), 100, 0).unwrap();
    l.place_bet(bet_request(B1, "g1", "alice", 100), 101).unwrap();
    // fill the bettor's balance back to the brim
    l.deposit(B1, u64::MAX - 900).unwrap();
    assert_eq!(l.balance(B1), u64::MAX);
    l.update_lobby_status(status_request(OWNER, "g1", LobbyStatus::Finished), 102).unwrap();
    let r = l.distribute_single_winning(settle_request(OWNER, "g1", 0, B1, "alice"), 103);
    assert_eq!(r, Err(LedgerError::Betting(BettingError::Overflow)));
    assert_eq!(l.bets[0].status, BetStatus::Active);
    assert_eq!(l.escrows[0].balance, 100);
}

#[test]
fn deposit_overflow_rejected() {
    let mut l = Ledger::new();
    l.deposit(B1, u64::MAX).unwrap();
    let r = l.deposit(B1, 1);
    assert_eq!(r, Err(LedgerError::Betting(BettingError::Overflow)));
    assert_eq!(l.balance(B1), u64::MAX);
}

#[test]
fn settlement_checks_lobby_bettor_and_winner_in_order() {
    let mut l = Ledger::new();
    l.deposit(B1, 1000).unwrap();
    l.deposit(B2, 1000).unwrap();
    l.create_lobby(lobby_request("g1", &["alice", "bob"]), 100, 0).unwrap();
    l.create_lobby(lobby_request("g2", &["alice", "bob"]), 100, 0).unwrap();
    l.place_bet(bet_request(B1, "g1", "alice", 100), 101).unwrap();
    l.place_bet(bet_request(B2, "g2", "bob", 50), 102).unwrap();
    l.update_lobby_status(status_request(OWNER, "g1", LobbyStatus::Finished), 103).unwrap();
    l.update_lobby_status(status_request(OWNER, "g2", LobbyStatus::Finished), 104).unwrap();

    // a non-owner may not settle
    assert_eq!(
        l.distribute_single_winning(settle_request(B2, "g1", 0, B1, "alice"), 105),
        Err(LedgerError::Betting(BettingError::Unauthorized))
    );
    // a bet of another lobby is refused
    assert_eq!(
        l.distribute_single_winning(settle_request(OWNER, "g1", 1, B2, "bob"), 106),
        Err(LedgerError::Betting(BettingError::InvalidBetAccount))
    );
    // a bettor not matching the bet record is refused
    assert_eq!(
        l.distribute_single_winning(settle_request(OWNER, "g1", 0, B2, "alice"), 107),
        Err(LedgerError::Betting(BettingError::InvalidBettor))
    );
    // a declared winner the bet was not on is refused
    assert_eq!(
        l.distribute_single_winning(settle_request(OWNER, "g1", 0, B1, "bob"), 108),
        Err(LedgerError::Betting(BettingError::BetOnWrongPlayer))
    );
    // nothing moved
    assert_eq!(l.bets[0].status, BetStatus::Active);
    assert_eq!(l.bets[1].status, BetStatus::Active);
    assert_eq!(l.balance(B1), 900);
    assert_eq!(l.balance(B2), 950);
}

#[test]
fn oversize_requests_rejected() {
    let mut l = Ledger::new();
    // a 33-byte game_id
    let long = "x".repeat(33);
    assert_eq!(
        l.create_lobby(lobby_request(&long, &["alice"]), 100, 0),
        Err(LedgerError::CapacityExceeded)
    );
    // an 11-entry outcome list
    let many: Vec<&str> = vec!["a", "b", "c", "d", "e", "f", "g", "h", "i", "j", "k"];
    assert_eq!(
        l.create_lobby(lobby_request("g1", &many), 101, 0),
        Err(LedgerError::CapacityExceeded)
    );
    // a 33-byte outcome name
    assert_eq!(
        l.create_lobby(lobby_request("g1", &[long.as_str()]), 102, 0),
        Err(LedgerError::CapacityExceeded)
    );
    assert_eq!(l.lobbies.len(), 0);
    // the documented bounds themselves are fine
    let edge = "y".repeat(32);
    let full: Vec<&str> = vec!["a", "b", "c", "d", "e", "f", "g", "h", "i", &edge];
    l.create_lobby(lobby_request(&edge, &full), 103, 0).unwrap();
    assert_eq!(l.lobbies.len(), 1);
}

#[test]
fn update_status_stamps_updated_at() {
    let mut l = Ledger::new();
    l.create_lobby(lobby_request("g1", &["alice"]), 100, 0).unwrap();
    assert_eq!(l.lobbies[0].created_at, 100);
    l.update_lobby_status(status_request(OWNER, "g1", LobbyStatus::Running), 250).unwrap();
    assert_eq!(l.lobbies[0].status, LobbyStatus::Running);
    assert_eq!(l.lobbies[0].updated_at, 250);
    assert_eq!(l.lobbies[0].created_at, 100);
}

#[test]
fn placed_bet_records_every_field() {
    let mut l = Ledger::new();
    l.deposit(B1, 1000).unwrap();
    l.create_lobby(lobby_request("g1", &["alice", "bob"]), 100, 0).unwrap();
    l.place_bet(bet_request(B1, "g1", "bob", 77), 123).unwrap();
    assert_eq!(l.bets.len(), 1);
    assert_eq!(l.bets[0].bettor, B1);
    assert_eq!(l.bets[0].lobby, 0);
    assert_eq!(l.bets[0].player_name, String::from("bob"));
    assert_eq!(l.bets[0].amount, 77);
    assert_eq!(l.bets[0].placed_at, 123);
    assert_eq!(l.bets[0].status, BetStatus::Active);
    assert_eq!(l.lobbies[0].updated_at, 123);
}
