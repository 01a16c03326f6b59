//! An escrow-backed wagering ledger.
//!
//! Parties deposit funds into a pooled custody account tied to a named
//! contest (a lobby), place named-outcome wagers against that pool, and —
//! once the contest is declared finished by its owner — receive payouts for
//! winning wagers drawn from the same custody account.
//!
//! The ledger is a pure keyed-lookup table: lobbies are addressed by their
//! `game_id`, bets by their position in the bet table, and account balances
//! by a numeric identity. Every operation either commits fully or returns
//! exactly one error and leaves the ledger untouched.

pub mod laws;
pub mod ledger;
pub mod records;
pub mod sums;
