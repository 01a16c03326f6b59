//! The passive ledger entities: lobbies, bets, custody accounts, balance
//! records, and the request shapes of the four surface operations.

use vstd::prelude::*;

verus! {

/// Where a lobby stands in its lifecycle. Waiting and Running both accept
/// bets; Finished accepts settlement only.
#[derive(Clone, Copy, Debug, PartialEq, Eq, Structural)]
pub enum LobbyStatus {
    Waiting,
    Running,
    Finished,
}

/// Where a bet stands. A bet is created Active and is settled at most once.
#[derive(Clone, Copy, Debug, PartialEq, Eq, Structural)]
pub enum BetStatus {
    Active,
    Paid,
    Refunded,
}

/// The business-rule failures of the four surface operations.
#[derive(Clone, Copy, Debug, PartialEq, Eq, Structural)]
pub enum BettingError {
    /// A bet was placed while the lobby status was not Waiting or Running.
    LobbyNotOpenForBets,
    /// The wager target is not in the lobby's registered outcome set.
    InvalidPlayerName,
    /// The wager amount was zero.
    BetAmountMustBePositive,
    /// The caller is not the lobby owner, on an owner-only operation.
    Unauthorized,
    /// Settlement was attempted before the lobby reached Finished.
    LobbyNotFinished,
    /// The bet record does not belong to the given lobby.
    InvalidBetAccount,
    /// The bet record's bettor does not match the supplied bettor.
    InvalidBettor,
    /// The declared winner does not match the bet's wagered outcome.
    BetOnWrongPlayer,
    /// Settlement was attempted on a bet that is no longer Active.
    BetAlreadyProcessed,
    /// Aggregate accounting would exceed the representable range.
    Overflow,
}

/// Every way an operation against the ledger can fail: a business-rule
/// failure, or a failure of the keyed-lookup / funds layer that the hosting
/// environment would otherwise enforce.
#[derive(Clone, Copy, Debug, PartialEq, Eq, Structural)]
pub enum LedgerError {
    /// One of the business-rule failures.
    Betting(BettingError),
    /// A lobby with the given `game_id` already exists.
    DuplicateLobby,
    /// The named bettor already holds a bet on this lobby.
    DuplicateBet,
    /// No lobby with the given `game_id` exists.
    UnknownLobby,
    /// The given bet index names no bet record.
    UnknownBet,
    /// A `game_id` or outcome name is over the size limit, or too many
    /// outcome names were given.
    CapacityExceeded,
    /// The paying party's balance does not cover the transfer.
    InsufficientFunds,
}

/// One contest's betting pool and configuration record.
#[derive(Debug)]
pub struct Lobby {
    /// Identity authorized to administer this lobby. Set once at creation.
    pub owner: u64,
    /// Unique human-readable contest identifier; the lobby's lookup key.
    pub game_id: String,
    /// The valid wager targets, fixed at creation.
    pub model_names: Vec<String>,
    /// Contest parameter, informational to this ledger.
    pub starting_chips: u64,
    /// Contest parameter, informational to this ledger.
    pub small_blind: u64,
    /// Contest parameter, informational to this ledger.
    pub big_blind: u64,
    /// Contest parameter, informational to this ledger.
    pub max_hands: u64,
    /// Drives all permission checks.
    pub status: LobbyStatus,
    /// Running sum of all amounts ever wagered on this lobby.
    pub total_bets: u64,
    /// When the lobby was created.
    pub created_at: i64,
    /// Refreshed on every mutation of the lobby.
    pub updated_at: i64,
}

/// One party's wager record against one lobby.
#[derive(Debug)]
pub struct Bet {
    /// Identity that funded this wager.
    pub bettor: u64,
    /// Index of the owning lobby in the ledger's lobby table.
    pub lobby: usize,
    /// The outcome wagered on; a member of the owning lobby's `model_names`.
    pub player_name: String,
    /// Wagered quantity, strictly positive.
    pub amount: u64,
    /// When the bet was placed.
    pub placed_at: i64,
    /// A bet is settled at most once.
    pub status: BetStatus,
}

/// The custody fund pool of one lobby: created with a one-time bootstrap
/// reserve, topped up by wagers, drawn down only by settlement.
#[derive(Clone, Copy, Debug, PartialEq, Eq, Structural)]
pub struct Escrow {
    /// Everything the pool currently holds, reserve included.
    pub balance: u64,
    /// The one-time bootstrap funding, never eligible for payout.
    pub reserve: u64,
}

/// One party's spendable balance, keyed by identity.
#[derive(Clone, Copy, Debug, PartialEq, Eq, Structural)]
pub struct AccountRecord {
    /// The identity this balance belongs to.
    pub id: u64,
    /// The spendable balance.
    pub balance: u64,
}

/// Request shape of `create_lobby`: the signing owner and the new lobby's
/// configuration.
#[derive(Debug)]
pub struct CreateLobby {
    /// The signing identity; becomes the lobby's owner.
    pub owner: u64,
    /// The new lobby's lookup key.
    pub game_id: String,
    /// The valid wager targets.
    pub model_names: Vec<String>,
    /// Contest parameter.
    pub starting_chips: u64,
    /// Contest parameter.
    pub small_blind: u64,
    /// Contest parameter.
    pub big_blind: u64,
    /// Contest parameter.
    pub max_hands: u64,
}

/// Request shape of `place_bet`: the signing bettor, the lobby wagered
/// against, and the wager itself.
#[derive(Debug)]
pub struct PlaceBet {
    /// The signing identity; funds and owns the new bet.
    pub bettor: u64,
    /// `game_id` of the lobby wagered against.
    pub lobby_game_id: String,
    /// The outcome wagered on.
    pub player_name: String,
    /// The wagered quantity.
    pub amount: u64,
}

/// Request shape of `update_lobby_status`: the signing caller, the lobby,
/// and the status to set.
#[derive(Debug)]
pub struct UpdateLobbyStatus {
    /// The signing identity; must be the lobby's owner.
    pub owner: u64,
    /// `game_id` of the lobby to administer.
    pub lobby_game_id: String,
    /// The status to set.
    pub status: LobbyStatus,
}

/// Request shape of `distribute_single_winning`: the signing caller, the
/// lobby, the bet record to settle, and the declared winner.
#[derive(Debug)]
pub struct DistributeSingleWinning {
    /// The signing identity; must be the lobby's owner.
    pub owner: u64,
    /// `game_id` of the lobby being settled.
    pub lobby_game_id: String,
    /// Index of the bet record to settle, in the ledger's bet table.
    pub bet: usize,
    /// The identity to pay; must match the bet record's bettor.
    pub bettor: u64,
    /// The declared winning outcome.
    pub winner_name: String,
}

/// A lobby accepts bets exactly while it is Waiting or Running.
pub open spec fn lobby_open(s: LobbyStatus) -> bool {
    s == LobbyStatus::Waiting || s == LobbyStatus::Running
}

} // verus!
