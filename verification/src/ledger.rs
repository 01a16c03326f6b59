//! The ledger itself: the keyed-lookup tables holding every lobby, bet,
//! custody pool and party balance, the well-formedness invariant tying them
//! together, and the four surface operations. Every operation either commits
//! fully or returns exactly one error and leaves the ledger untouched.

use vstd::prelude::*;
use vstd::utf8::encode_utf8;

use crate::records::AccountRecord;
use crate::records::Bet;
use crate::records::BetStatus;
use crate::records::BettingError;
use crate::records::CreateLobby;
use crate::records::DistributeSingleWinning;
use crate::records::Escrow;
use crate::records::LedgerError;
use crate::records::Lobby;
use crate::records::LobbyStatus;
use crate::records::PlaceBet;
use crate::records::UpdateLobbyStatus;
use crate::records::lobby_open;
use crate::sums::active_wagered;
use crate::sums::lemma_active_wagered_at_least;
use crate::sums::lemma_active_wagered_push;
use crate::sums::lemma_active_wagered_settle;
use crate::sums::lemma_active_wagered_unreferenced;
use crate::sums::lemma_sum_balances_push;
use crate::sums::lemma_sum_balances_update;
use crate::sums::lemma_sum_escrows_push;
use crate::sums::lemma_sum_escrows_update;
use crate::sums::lemma_total_wagered_push;
use crate::sums::lemma_total_wagered_unreferenced;
use crate::sums::lemma_total_wagered_update;
use crate::sums::sum_balances;
use crate::sums::sum_escrows;
use crate::sums::total_wagered;

verus! {

/// Most entries the outcome list of one lobby may hold.
pub const MAX_MODEL_NAMES: usize = 10;

/// Longest `game_id` or outcome name, in encoded bytes.
pub const MAX_NAME_BYTES: usize = 32;

/// Whether some lobby in the table is keyed by `game_id`.
pub open spec fn has_lobby(lobbies: Seq<Lobby>, game_id: Seq<char>) -> bool {
    exists|i: int| 0 <= i < lobbies.len() && lobbies[i].game_id@ == game_id
}

/// The index of the lobby keyed by `game_id`; meaningful only when
/// `has_lobby` holds and the keys are distinct.
pub open spec fn lobby_index_of(lobbies: Seq<Lobby>, game_id: Seq<char>) -> int {
    choose|i: int| 0 <= i < lobbies.len() && lobbies[i].game_id@ == game_id
}

/// Whether the bet table already holds a bet by `bettor` on the lobby at
/// index `lobby`.
pub open spec fn has_bet(bets: Seq<Bet>, lobby: int, bettor: u64) -> bool {
    exists|k: int| 0 <= k < bets.len() && bets[k].lobby as int == lobby && bets[k].bettor == bettor
}

/// Whether some balance record is keyed by `id`.
pub open spec fn has_account(accounts: Seq<AccountRecord>, id: u64) -> bool {
    exists|a: int| 0 <= a < accounts.len() && accounts[a].id == id
}

/// The index of the balance record keyed by `id`; meaningful only when
/// `has_account` holds and the keys are distinct.
pub open spec fn account_index_of(accounts: Seq<AccountRecord>, id: u64) -> int {
    choose|a: int| 0 <= a < accounts.len() && accounts[a].id == id
}

/// The spendable balance of identity `id`: a party without a record holds
/// nothing.
pub open spec fn balance_of(accounts: Seq<AccountRecord>, id: u64) -> u64 {
    if has_account(accounts, id) {
        accounts[account_index_of(accounts, id)].balance
    } else {
        0
    }
}

/// Whether `name` is one of the listed outcome names.
pub open spec fn name_listed(names: Seq<String>, name: Seq<char>) -> bool {
    exists|j: int| 0 <= j < names.len() && names[j]@ == name
}

/// The balance-record keys are pairwise distinct.
pub open spec fn accounts_distinct(accounts: Seq<AccountRecord>) -> bool {
    forall|a: int, b: int|
        0 <= a < b < accounts.len() ==> accounts[a].id != accounts[b].id
}

/// In a table with distinct keys, any index whose record matches `id` is the
/// index the lookup names.
pub proof fn lemma_account_index_is(accounts: Seq<AccountRecord>, id: u64, a: int)
    requires
        accounts_distinct(accounts),
        0 <= a < accounts.len(),
        accounts[a].id == id,
    ensures
        has_account(accounts, id),
        account_index_of(accounts, id) == a,
{
    assert(has_account(accounts, id));
    let b = account_index_of(accounts, id);
    if a < b {
        assert(accounts[a].id != accounts[b].id);
    } else if b < a {
        assert(accounts[b].id != accounts[a].id);
    }
}

/// In a lobby table with distinct keys, any index whose lobby matches
/// `game_id` is the index the lookup names.
pub proof fn lemma_lobby_index_is(lobbies: Seq<Lobby>, game_id: Seq<char>, i: int)
    requires
        forall|a: int, b: int|
            0 <= a < b < lobbies.len() ==> lobbies[a].game_id@ != lobbies[b].game_id@,
        0 <= i < lobbies.len(),
        lobbies[i].game_id@ == game_id,
    ensures
        has_lobby(lobbies, game_id),
        lobby_index_of(lobbies, game_id) == i,
{
    assert(has_lobby(lobbies, game_id));
    let j = lobby_index_of(lobbies, game_id);
    if i < j {
        assert(lobbies[i].game_id@ != lobbies[j].game_id@);
    } else if j < i {
        assert(lobbies[j].game_id@ != lobbies[i].game_id@);
    }
}

/// Rewriting one balance record in place (same key) moves that key's balance
/// to the new record's and no other key's.
pub proof fn lemma_balance_after_update(
    accounts: Seq<AccountRecord>,
    a: int,
    rec: AccountRecord,
    x: u64,
)
    requires
        accounts_distinct(accounts),
        0 <= a < accounts.len(),
        accounts[a].id == rec.id,
    ensures
        balance_of(accounts.update(a, rec), x) == if x == rec.id {
            rec.balance
        } else {
            balance_of(accounts, x)
        },
        has_account(accounts.update(a, rec), x) == has_account(accounts, x),
        accounts_distinct(accounts.update(a, rec)),
{
    let upd = accounts.update(a, rec);
    assert(forall|t: int| 0 <= t < accounts.len() ==> upd[t].id == accounts[t].id);
    assert(has_account(upd, x) == has_account(accounts, x)) by {
        if has_account(accounts, x) {
            let w = account_index_of(accounts, x);
            assert(upd[w].id == x);
        }
        if has_account(upd, x) {
            let w = choose|t: int| 0 <= t < upd.len() && upd[t].id == x;
            assert(accounts[w].id == x);
        }
    }
    if x == rec.id {
        lemma_account_index_is(upd, x, a);
    } else if has_account(accounts, x) {
        let w = account_index_of(accounts, x);
        lemma_account_index_is(accounts, x, w);
        lemma_account_index_is(upd, x, w);
    }
}

/// Appending a balance record under a fresh key gives that key the new
/// record's balance and moves no other key's.
pub proof fn lemma_balance_after_push(accounts: Seq<AccountRecord>, rec: AccountRecord, x: u64)
    requires
        accounts_distinct(accounts),
        !has_account(accounts, rec.id),
    ensures
        balance_of(accounts.push(rec), x) == if x == rec.id {
            rec.balance
        } else {
            balance_of(accounts, x)
        },
        has_account(accounts.push(rec), x) == (has_account(accounts, x) || x == rec.id),
        accounts_distinct(accounts.push(rec)),
{
    let upd = accounts.push(rec);
    let n = accounts.len() as int;
    assert(forall|t: int| 0 <= t < n ==> upd[t] == accounts[t]);
    assert(upd[n] == rec);
    assert(accounts_distinct(upd)) by {
        assert forall|a: int, b: int| 0 <= a < b < upd.len() implies upd[a].id != upd[b].id by {
            if b == n {
                assert(upd[a].id == accounts[a].id);
                if upd[a].id == rec.id {
                    assert(has_account(accounts, rec.id));
                }
            }
        }
    }
    if x == rec.id {
        lemma_account_index_is(upd, x, n);
    } else {
        if has_account(accounts, x) {
            let w = account_index_of(accounts, x);
            lemma_account_index_is(accounts, x, w);
            lemma_account_index_is(upd, x, w);
        } else {
            if has_account(upd, x) {
                let w = choose|t: int| 0 <= t < upd.len() && upd[t].id == x;
                assert(w == n || accounts[w].id == x);
            }
        }
    }
}

/// The whole wagering ledger: every lobby, its custody pool at the same
/// index, every bet ever placed, and every party's spendable balance.
#[derive(Debug)]
pub struct Ledger {
    /// The lobby table, keyed by `game_id`.
    pub lobbies: Vec<Lobby>,
    /// The custody pool of the lobby at the same index.
    pub escrows: Vec<Escrow>,
    /// Every bet ever placed; bets are never removed.
    pub bets: Vec<Bet>,
    /// The spendable balance of each known identity.
    pub accounts: Vec<AccountRecord>,
}

impl Ledger {
    /// The creation-time bounds on one lobby record.
    pub open spec fn lobby_bounded(l: Lobby) -> bool {
        &&& encode_utf8(l.game_id@).len() <= MAX_NAME_BYTES
        &&& l.model_names@.len() <= MAX_MODEL_NAMES
        &&& forall|j: int|
            0 <= j < l.model_names@.len() ==> encode_utf8(
                (#[trigger] l.model_names@[j])@,
            ).len() <= MAX_NAME_BYTES
    }

    /// Well-formedness: what every committed state of the ledger satisfies.
    ///
    /// The two accounting clauses are the funds-conservation rules: each
    /// lobby's `total_bets` equals the sum of all wagers recorded against
    /// it, and each custody pool holds exactly its bootstrap reserve plus
    /// every still-active wager.
    pub open spec fn wf(self) -> bool {
        &&& self.escrows@.len() == self.lobbies@.len()
        &&& forall|i: int, j: int|
            0 <= i < j < self.lobbies@.len() ==> self.lobbies@[i].game_id@
                != self.lobbies@[j].game_id@
        &&& forall|i: int|
            0 <= i < self.lobbies@.len() ==> Self::lobby_bounded(#[trigger] self.lobbies@[i])
        &&& forall|k: int|
            0 <= k < self.bets@.len() ==> (#[trigger] self.bets@[k]).lobby < self.lobbies@.len()
        &&& forall|k: int, l: int|
            0 <= k < l < self.bets@.len() ==> !(self.bets@[k].lobby == self.bets@[l].lobby
                && self.bets@[k].bettor == self.bets@[l].bettor)
        &&& forall|k: int| 0 <= k < self.bets@.len() ==> (#[trigger] self.bets@[k]).amount > 0
        &&& forall|k: int|
            0 <= k < self.bets@.len() ==> has_account(
                self.accounts@,
                (#[trigger] self.bets@[k]).bettor,
            )
        &&& forall|k: int|
            0 <= k < self.bets@.len() ==> name_listed(
                self.lobbies@[(#[trigger] self.bets@[k]).lobby as int].model_names@,
                self.bets@[k].player_name@,
            )
        &&& forall|i: int|
            0 <= i < self.lobbies@.len() ==> (#[trigger] self.lobbies@[i]).total_bets as int
                == total_wagered(self.bets@, i)
        &&& forall|i: int|
            0 <= i < self.escrows@.len() ==> (#[trigger] self.escrows@[i]).balance as int
                == self.escrows@[i].reserve as int + active_wagered(self.bets@, i)
        &&& accounts_distinct(self.accounts@)
    }

    /// An empty ledger: no lobbies, no bets, no balances.
    pub fn new() -> (r: Ledger)
        ensures
            r.wf(),
            r.lobbies@.len() == 0,
            r.escrows@.len() == 0,
            r.bets@.len() == 0,
            r.accounts@.len() == 0,
    {
        Ledger { lobbies: Vec::new(), escrows: Vec::new(), bets: Vec::new(), accounts: Vec::new() }
    }

    /// Find the index of the lobby keyed by `game_id`, if any.
    pub fn lookup_lobby(&self, game_id: &String) -> (r: Option<usize>)
        requires
            self.wf(),
        ensures
            match r {
                Some(i) => has_lobby(self.lobbies@, game_id@) && lobby_index_of(
                    self.lobbies@,
                    game_id@,
                ) == i as int && i < self.lobbies@.len(),
                None => !has_lobby(self.lobbies@, game_id@),
            },
    {
        let n = self.lobbies.len();
        let mut j: usize = 0;
        while j < n
            invariant
                self.wf(),
                n == self.lobbies@.len(),
                j <= n,
                forall|t: int| 0 <= t < j ==> self.lobbies@[t].game_id@ != game_id@,
            decreases n - j,
        {
            if self.lobbies[j].game_id == *game_id {
                proof {
                    lemma_lobby_index_is(self.lobbies@, game_id@, j as int);
                }
                return Some(j);
            }
            j += 1;
        }
        None
    }

    /// Find the index of the balance record keyed by `id`, if any.
    fn lookup_account(&self, id: u64) -> (r: Option<usize>)
        requires
            accounts_distinct(self.accounts@),
        ensures
            match r {
                Some(a) => has_account(self.accounts@, id) && account_index_of(self.accounts@, id)
                    == a as int && a < self.accounts@.len() && self.accounts@[a as int].id == id,
                None => !has_account(self.accounts@, id),
            },
    {
        let n = self.accounts.len();
        let mut j: usize = 0;
        while j < n
            invariant
                accounts_distinct(self.accounts@),
                n == self.accounts@.len(),
                j <= n,
                forall|t: int| 0 <= t < j ==> self.accounts@[t].id != id,
            decreases n - j,
        {
            if self.accounts[j].id == id {
                proof {
                    lemma_account_index_is(self.accounts@, id, j as int);
                }
                return Some(j);
            }
            j += 1;
        }
        None
    }

    /// The spendable balance of identity `id`.
    pub fn balance(&self, id: u64) -> (r: u64)
        requires
            self.wf(),
        ensures
            r == balance_of(self.accounts@, id),
    {
        match self.lookup_account(id) {
            Some(a) => self.accounts[a].balance,
            None => 0,
        }
    }

    /// When `update_lobby_status` commits and when it refuses: the lobby
    /// must exist and the caller must be its owner. The status itself is set
    /// unconditionally — the ledger imposes no ordering between statuses,
    /// and Finished is not terminal.
    pub open spec fn update_status_check(self, call: UpdateLobbyStatus) -> Result<
        (),
        LedgerError,
    > {
        if !has_lobby(self.lobbies@, call.lobby_game_id@) {
            Err(LedgerError::UnknownLobby)
        } else if self.lobbies@[lobby_index_of(self.lobbies@, call.lobby_game_id@)].owner
            != call.owner {
            Err(LedgerError::Betting(BettingError::Unauthorized))
        } else {
            Ok(())
        }
    }

    /// Owner-only administrative control of a lobby's lifecycle: set the
    /// lobby's status and refresh `updated_at`. Fails `Unauthorized` unless
    /// the caller is the lobby's owner; on failure nothing changes.
    pub fn update_lobby_status(&mut self, call: UpdateLobbyStatus, now: i64) -> (r: Result<
        (),
        LedgerError,
    >)
        requires
            old(self).wf(),
        ensures
            final(self).wf(),
            r == old(self).update_status_check(call),
            r is Err ==> *final(self) == *old(self),
            r is Ok ==> ({
                let i = lobby_index_of(old(self).lobbies@, call.lobby_game_id@);
                &&& 0 <= i < old(self).lobbies@.len()
                &&& final(self).lobbies@ == old(self).lobbies@.update(
                    i,
                    (Lobby { status: call.status, updated_at: now, ..old(self).lobbies@[i] }),
                )
                &&& final(self).escrows@ == old(self).escrows@
                &&& final(self).bets@ == old(self).bets@
                &&& final(self).accounts@ == old(self).accounts@
            }),
    {
        let i = match self.lookup_lobby(&call.lobby_game_id) {
            Some(i) => i,
            None => {
                return Err(LedgerError::UnknownLobby);
            },
        };
        if self.lobbies[i].owner != call.owner {
            return Err(LedgerError::Betting(BettingError::Unauthorized));
        }
        let ghost pre = *self;
        let lob = &mut self.lobbies[i];
        lob.status = call.status;
        lob.updated_at = now;
        proof {
            let gi = i as int;
            assert(self.lobbies@ =~= pre.lobbies@.update(
                gi,
                (Lobby { status: call.status, updated_at: now, ..pre.lobbies@[gi] }),
            ));
            assert forall|t: int|
                0 <= t < self.lobbies@.len() implies (#[trigger] self.lobbies@[t]).total_bets
                as int == total_wagered(self.bets@, t) by {
                assert(self.lobbies@[t].total_bets == pre.lobbies@[t].total_bets);
            }
            assert forall|k: int| 0 <= k < self.bets@.len() implies name_listed(
                self.lobbies@[(#[trigger] self.bets@[k]).lobby as int].model_names@,
                self.bets@[k].player_name@,
            ) by {
                assert(self.lobbies@[self.bets@[k].lobby as int].model_names@
                    == pre.lobbies@[self.bets@[k].lobby as int].model_names@);
            }
        }
        Ok(())
    }

    /// Whether the bet table already holds a bet by `bettor` on the lobby
    /// at index `lobby`.
    fn bet_exists(&self, lobby: usize, bettor: u64) -> (r: bool)
        ensures
            r == has_bet(self.bets@, lobby as int, bettor),
    {
        let n = self.bets.len();
        let mut j: usize = 0;
        while j < n
            invariant
                n == self.bets@.len(),
                j <= n,
                forall|t: int|
                    0 <= t < j ==> !((#[trigger] self.bets@[t]).lobby == lobby
                        && self.bets@[t].bettor == bettor),
            decreases n - j,
        {
            if self.bets[j].lobby == lobby && self.bets[j].bettor == bettor {
                return true;
            }
            j += 1;
        }
        false
    }

    /// Whether `name` is in the outcome list of the lobby at index `i`.
    fn name_listed_exec(&self, i: usize, name: &String) -> (r: bool)
        requires
            i < self.lobbies@.len(),
        ensures
            r == name_listed(self.lobbies@[i as int].model_names@, name@),
    {
        let n = self.lobbies[i].model_names.len();
        let mut j: usize = 0;
        while j < n
            invariant
                i < self.lobbies@.len(),
                n == self.lobbies@[i as int].model_names@.len(),
                j <= n,
                forall|t: int|
                    0 <= t < j ==> (#[trigger] self.lobbies@[i as int].model_names@[t])@ != name@,
            decreases n - j,
        {
            if self.lobbies[i].model_names[j] == *name {
                return true;
            }
            j += 1;
        }
        false
    }

    /// When `place_bet` commits and which error it refuses with, checked in
    /// this order: the lobby must exist and not already hold a bet by this
    /// bettor (the keyed-lookup layer), the lobby must be open, the outcome
    /// must be listed, the amount strictly positive, the bettor's balance
    /// sufficient, and neither the lobby's all-time total nor the custody
    /// pool may overflow.
    pub open spec fn place_bet_check(self, call: PlaceBet) -> Result<(), LedgerError> {
        if !has_lobby(self.lobbies@, call.lobby_game_id@) {
            Err(LedgerError::UnknownLobby)
        } else {
            let i = lobby_index_of(self.lobbies@, call.lobby_game_id@);
            if has_bet(self.bets@, i, call.bettor) {
                Err(LedgerError::DuplicateBet)
            } else if !lobby_open(self.lobbies@[i].status) {
                Err(LedgerError::Betting(BettingError::LobbyNotOpenForBets))
            } else if !name_listed(self.lobbies@[i].model_names@, call.player_name@) {
                Err(LedgerError::Betting(BettingError::InvalidPlayerName))
            } else if call.amount == 0 {
                Err(LedgerError::Betting(BettingError::BetAmountMustBePositive))
            } else if balance_of(self.accounts@, call.bettor) < call.amount {
                Err(LedgerError::InsufficientFunds)
            } else if self.lobbies@[i].total_bets as int + call.amount as int > u64::MAX as int {
                Err(LedgerError::Betting(BettingError::Overflow))
            } else if self.escrows@[i].balance as int + call.amount as int > u64::MAX as int {
                Err(LedgerError::Betting(BettingError::Overflow))
            } else {
                Ok(())
            }
        }
    }

    /// Place a wager: atomically move `amount` from the bettor's balance
    /// into the lobby's custody pool, record the new Active bet, and raise
    /// the lobby's all-time total. On any failure nothing changes.
    pub fn place_bet(&mut self, call: PlaceBet, now: i64) -> (r: Result<(), LedgerError>)
        requires
            old(self).wf(),
        ensures
            final(self).wf(),
            r == old(self).place_bet_check(call),
            r is Err ==> *final(self) == *old(self),
            r is Ok ==> ({
                let i = lobby_index_of(old(self).lobbies@, call.lobby_game_id@);
                let a = account_index_of(old(self).accounts@, call.bettor);
                &&& 0 <= i < old(self).lobbies@.len()
                &&& final(self).lobbies@ == old(self).lobbies@.update(
                    i,
                    (Lobby {
                        total_bets: (old(self).lobbies@[i].total_bets + call.amount) as u64,
                        updated_at: now,
                        ..old(self).lobbies@[i]
                    }),
                )
                &&& final(self).escrows@ == old(self).escrows@.update(
                    i,
                    (Escrow {
                        balance: (old(self).escrows@[i].balance + call.amount) as u64,
                        reserve: old(self).escrows@[i].reserve,
                    }),
                )
                &&& final(self).bets@ == old(self).bets@.push(
                    (Bet {
                        bettor: call.bettor,
                        lobby: i as usize,
                        player_name: call.player_name,
                        amount: call.amount,
                        placed_at: now,
                        status: BetStatus::Active,
                    }),
                )
                &&& final(self).accounts@ == old(self).accounts@.update(
                    a,
                    (AccountRecord {
                        id: call.bettor,
                        balance: (balance_of(old(self).accounts@, call.bettor)
                            - call.amount) as u64,
                    }),
                )
                &&& balance_of(final(self).accounts@, call.bettor) == balance_of(
                    old(self).accounts@,
                    call.bettor,
                ) - call.amount
                &&& forall|x: u64|
                    x != call.bettor ==> balance_of(final(self).accounts@, x) == balance_of(
                        old(self).accounts@,
                        x,
                    )
                &&& sum_balances(final(self).accounts@) + sum_escrows(final(self).escrows@)
                    == sum_balances(old(self).accounts@) + sum_escrows(old(self).escrows@)
            }),
    {
        let i = match self.lookup_lobby(&call.lobby_game_id) {
            Some(i) => i,
            None => {
                return Err(LedgerError::UnknownLobby);
            },
        };
        if self.bet_exists(i, call.bettor) {
            return Err(LedgerError::DuplicateBet);
        }
        if !(self.lobbies[i].status == LobbyStatus::Waiting || self.lobbies[i].status
            == LobbyStatus::Running) {
            return Err(LedgerError::Betting(BettingError::LobbyNotOpenForBets));
        }
        if !self.name_listed_exec(i, &call.player_name) {
            return Err(LedgerError::Betting(BettingError::InvalidPlayerName));
        }
        if call.amount == 0 {
            return Err(LedgerError::Betting(BettingError::BetAmountMustBePositive));
        }
        let a = match self.lookup_account(call.bettor) {
            Some(a) => a,
            None => {
                return Err(LedgerError::InsufficientFunds);
            },
        };
        if self.accounts[a].balance < call.amount {
            return Err(LedgerError::InsufficientFunds);
        }
        if self.lobbies[i].total_bets > u64::MAX - call.amount {
            return Err(LedgerError::Betting(BettingError::Overflow));
        }
        if self.escrows[i].balance > u64::MAX - call.amount {
            return Err(LedgerError::Betting(BettingError::Overflow));
        }
        let ghost pre = *self;
        let ghost gi = i as int;
        let ghost ga = a as int;
        let amount: u64 = call.amount;

        // debit the bettor
        let ob: u64 = self.accounts[a].balance;
        self.accounts[a] = AccountRecord { id: call.bettor, balance: ob - amount };
        // credit the custody pool
        let eb: Escrow = self.escrows[i];
        self.escrows[i] = Escrow { balance: eb.balance + amount, reserve: eb.reserve };
        // record the wager
        let bet = Bet {
            bettor: call.bettor,
            lobby: i,
            player_name: call.player_name,
            amount,
            placed_at: now,
            status: BetStatus::Active,
        };
        let ghost nb = bet;
        self.bets.push(bet);
        // raise the lobby's all-time total
        let lob = &mut self.lobbies[i];
        let lt: u64 = lob.total_bets;
        lob.total_bets = lt + amount;
        lob.updated_at = now;

        proof {
            let rec = AccountRecord { id: call.bettor, balance: (ob - amount) as u64 };
            assert(self.accounts@ == pre.accounts@.update(ga, rec));
            assert(self.escrows@ == pre.escrows@.update(
                gi,
                (Escrow { balance: (eb.balance + amount) as u64, reserve: eb.reserve }),
            ));
            assert(self.bets@ == pre.bets@.push(nb));
            assert(self.lobbies@ =~= pre.lobbies@.update(
                gi,
                (Lobby {
                    total_bets: (pre.lobbies@[gi].total_bets + amount) as u64,
                    updated_at: now,
                    ..pre.lobbies@[gi]
                }),
            ));
            // no money appears or vanishes: the debit and the credit cancel
            lemma_sum_balances_update(pre.accounts@, ga, rec);
            lemma_sum_escrows_update(
                pre.escrows@,
                gi,
                (Escrow { balance: (eb.balance + amount) as u64, reserve: eb.reserve }),
            );
            // the bettor's balance moves by exactly the amount, no other's
            lemma_balance_after_update(pre.accounts@, ga, rec, call.bettor);
            assert(forall|x: u64|
                x != call.bettor ==> balance_of(self.accounts@, x) == balance_of(
                    pre.accounts@,
                    x,
                )) by {
                assert forall|x: u64| x != call.bettor implies balance_of(self.accounts@, x)
                    == balance_of(pre.accounts@, x) by {
                    lemma_balance_after_update(pre.accounts@, ga, rec, x);
                }
            }
            // lobby keys, bounds and outcome lists are untouched
            assert(forall|t: int|
                0 <= t < self.lobbies@.len() ==> (#[trigger] self.lobbies@[t]).game_id@
                    == pre.lobbies@[t].game_id@ && self.lobbies@[t].model_names@
                    == pre.lobbies@[t].model_names@);
            assert forall|p: int, q: int|
                0 <= p < q < self.lobbies@.len() implies self.lobbies@[p].game_id@
                != self.lobbies@[q].game_id@ by {
                assert(pre.lobbies@[p].game_id@ != pre.lobbies@[q].game_id@);
            }
            assert forall|t: int| 0 <= t < self.lobbies@.len() implies Self::lobby_bounded(
                #[trigger] self.lobbies@[t],
            ) by {
                assert(Self::lobby_bounded(pre.lobbies@[t]));
            }
            // one bet was appended; the new (lobby, bettor) key is fresh
            assert forall|p: int, q: int|
                0 <= p < q < self.bets@.len() implies !(self.bets@[p].lobby == self.bets@[q].lobby
                && self.bets@[p].bettor == self.bets@[q].bettor) by {
                if q == pre.bets@.len() {
                    if self.bets@[p].lobby == nb.lobby && self.bets@[p].bettor == nb.bettor {
                        assert(pre.bets@[p].lobby as int == gi && pre.bets@[p].bettor
                            == call.bettor);
                        assert(has_bet(pre.bets@, gi, call.bettor));
                    }
                }
            }
            assert forall|k: int| 0 <= k < self.bets@.len() implies has_account(
                self.accounts@,
                (#[trigger] self.bets@[k]).bettor,
            ) by {
                lemma_balance_after_update(pre.accounts@, ga, rec, self.bets@[k].bettor);
                if k < pre.bets@.len() {
                    assert(has_account(pre.accounts@, pre.bets@[k].bettor));
                } else {
                    assert(pre.accounts@[ga].id == call.bettor);
                }
            }
            assert forall|k: int| 0 <= k < self.bets@.len() implies name_listed(
                self.lobbies@[(#[trigger] self.bets@[k]).lobby as int].model_names@,
                self.bets@[k].player_name@,
            ) by {
                if k < pre.bets@.len() {
                    assert(name_listed(
                        pre.lobbies@[pre.bets@[k].lobby as int].model_names@,
                        pre.bets@[k].player_name@,
                    ));
                } else {
                    assert(name_listed(pre.lobbies@[gi].model_names@, nb.player_name@));
                }
            }
            // the two conservation sums move by exactly the new amount
            assert forall|t: int|
                0 <= t < self.lobbies@.len() implies (#[trigger] self.lobbies@[t]).total_bets
                as int == total_wagered(self.bets@, t) by {
                lemma_total_wagered_push(pre.bets@, nb, t);
            }
            assert forall|t: int|
                0 <= t < self.escrows@.len() implies (#[trigger] self.escrows@[t]).balance as int
                == self.escrows@[t].reserve as int + active_wagered(self.bets@, t) by {
                lemma_active_wagered_push(pre.bets@, nb, t);
            }
        }
        Ok(())
    }

    /// The size bounds a lobby-creation request must meet: the documented
    /// limits on the contest identifier and the outcome list.
    pub open spec fn request_bounded(call: CreateLobby) -> bool {
        &&& encode_utf8(call.game_id@).len() <= MAX_NAME_BYTES
        &&& call.model_names@.len() <= MAX_MODEL_NAMES
        &&& forall|j: int|
            0 <= j < call.model_names@.len() ==> encode_utf8(
                (#[trigger] call.model_names@[j])@,
            ).len() <= MAX_NAME_BYTES
    }

    /// When `create_lobby` commits and which error it refuses with, checked
    /// in this order: the `game_id` must be free (the keyed-lookup layer's
    /// uniqueness rule), the request must fit the documented size limits,
    /// and the owner must be able to fund the custody pool's one-time
    /// bootstrap reserve of `rent_floor`.
    pub open spec fn create_lobby_check(self, call: CreateLobby, rent_floor: u64) -> Result<
        (),
        LedgerError,
    > {
        if has_lobby(self.lobbies@, call.game_id@) {
            Err(LedgerError::DuplicateLobby)
        } else if !Self::request_bounded(call) {
            Err(LedgerError::CapacityExceeded)
        } else if balance_of(self.accounts@, call.owner) < rent_floor {
            Err(LedgerError::InsufficientFunds)
        } else {
            Ok(())
        }
    }

    /// Create a new lobby keyed by its `game_id`: status Waiting, no bets,
    /// timestamps set to `now`, and a fresh custody pool bootstrapped with
    /// `rent_floor` drawn from the owner — the environment-specific minimum
    /// a pool must hold, never eligible for payout. On any failure nothing
    /// changes.
    pub fn create_lobby(&mut self, call: CreateLobby, now: i64, rent_floor: u64) -> (r: Result<
        (),
        LedgerError,
    >)
        requires
            old(self).wf(),
        ensures
            final(self).wf(),
            r == old(self).create_lobby_check(call, rent_floor),
            r is Err ==> *final(self) == *old(self),
            r is Ok ==> ({
                let i = old(self).lobbies@.len() as int;
                &&& final(self).lobbies@ == old(self).lobbies@.push(
                    (Lobby {
                        owner: call.owner,
                        game_id: call.game_id,
                        model_names: call.model_names,
                        starting_chips: call.starting_chips,
                        small_blind: call.small_blind,
                        big_blind: call.big_blind,
                        max_hands: call.max_hands,
                        status: LobbyStatus::Waiting,
                        total_bets: 0,
                        created_at: now,
                        updated_at: now,
                    }),
                )
                &&& final(self).escrows@ == old(self).escrows@.push(
                    (Escrow { balance: rent_floor, reserve: rent_floor }),
                )
                &&& final(self).bets@ == old(self).bets@
                &&& has_lobby(final(self).lobbies@, call.game_id@)
                &&& lobby_index_of(final(self).lobbies@, call.game_id@) == i
                &&& balance_of(final(self).accounts@, call.owner) == balance_of(
                    old(self).accounts@,
                    call.owner,
                ) - rent_floor
                &&& forall|x: u64|
                    x != call.owner ==> balance_of(final(self).accounts@, x) == balance_of(
                        old(self).accounts@,
                        x,
                    )
                &&& sum_balances(final(self).accounts@) + sum_escrows(final(self).escrows@)
                    == sum_balances(old(self).accounts@) + sum_escrows(old(self).escrows@)
            }),
    {
        match self.lookup_lobby(&call.game_id) {
            Some(_) => {
                return Err(LedgerError::DuplicateLobby);
            },
            None => {},
        };
        if call.game_id.as_str().as_bytes().len() > MAX_NAME_BYTES {
            return Err(LedgerError::CapacityExceeded);
        }
        if call.model_names.len() > MAX_MODEL_NAMES {
            return Err(LedgerError::CapacityExceeded);
        }
        let n = call.model_names.len();
        let mut j: usize = 0;
        while j < n
            invariant
                *self == *old(self),
                old(self).wf(),
                !has_lobby(old(self).lobbies@, call.game_id@),
                encode_utf8(call.game_id@).len() <= MAX_NAME_BYTES,
                call.model_names@.len() <= MAX_MODEL_NAMES,
                n == call.model_names@.len(),
                j <= n,
                forall|t: int|
                    0 <= t < j ==> encode_utf8((#[trigger] call.model_names@[t])@).len()
                        <= MAX_NAME_BYTES,
            decreases n - j,
        {
            if call.model_names[j].as_str().as_bytes().len() > MAX_NAME_BYTES {
                return Err(LedgerError::CapacityExceeded);
            }
            j += 1;
        }
        let ghost pre = *self;
        if rent_floor > 0 {
            // fund the custody pool's bootstrap reserve from the owner
            let a = match self.lookup_account(call.owner) {
                Some(a) => a,
                None => {
                    return Err(LedgerError::InsufficientFunds);
                },
            };
            if self.accounts[a].balance < rent_floor {
                return Err(LedgerError::InsufficientFunds);
            }
            let ob: u64 = self.accounts[a].balance;
            self.accounts[a] = AccountRecord { id: call.owner, balance: ob - rent_floor };
            proof {
                let rec = AccountRecord { id: call.owner, balance: (ob - rent_floor) as u64 };
                lemma_sum_balances_update(pre.accounts@, a as int, rec);
                assert(sum_balances(self.accounts@) == sum_balances(pre.accounts@) - rent_floor
                    as int);
                lemma_balance_after_update(pre.accounts@, a as int, rec, call.owner);
                assert forall|x: u64| x != call.owner implies balance_of(self.accounts@, x)
                    == balance_of(pre.accounts@, x) by {
                    lemma_balance_after_update(pre.accounts@, a as int, rec, x);
                }
                assert forall|k: int| 0 <= k < self.bets@.len() implies has_account(
                    self.accounts@,
                    (#[trigger] self.bets@[k]).bettor,
                ) by {
                    lemma_balance_after_update(pre.accounts@, a as int, rec, self.bets@[k].bettor);
                    assert(has_account(pre.accounts@, pre.bets@[k].bettor));
                }
            }
        }
        let ghost mid = *self;
        let ghost gi = self.lobbies@.len() as int;
        let lobby = Lobby {
            owner: call.owner,
            game_id: call.game_id,
            model_names: call.model_names,
            starting_chips: call.starting_chips,
            small_blind: call.small_blind,
            big_blind: call.big_blind,
            max_hands: call.max_hands,
            status: LobbyStatus::Waiting,
            total_bets: 0,
            created_at: now,
            updated_at: now,
        };
        let ghost nl = lobby;
        self.lobbies.push(lobby);
        self.escrows.push(Escrow { balance: rent_floor, reserve: rent_floor });

        proof {
            assert(self.lobbies@ == mid.lobbies@.push(nl));
            assert(self.escrows@ == mid.escrows@.push(
                (Escrow { balance: rent_floor, reserve: rent_floor }),
            ));
            // the pool's bootstrap holding is exactly what left the owner
            lemma_sum_escrows_push(mid.escrows@, Escrow { balance: rent_floor, reserve: rent_floor });
            assert(sum_balances(mid.accounts@) == sum_balances(pre.accounts@) - rent_floor
                as int) by {
                if rent_floor == 0 {
                    assert(mid.accounts@ == pre.accounts@);
                }
            }
            assert(forall|t: int| 0 <= t < gi ==> self.lobbies@[t] == pre.lobbies@[t]);
            assert forall|p: int, q: int|
                0 <= p < q < self.lobbies@.len() implies self.lobbies@[p].game_id@
                != self.lobbies@[q].game_id@ by {
                if q == gi {
                    if self.lobbies@[p].game_id@ == nl.game_id@ {
                        assert(pre.lobbies@[p].game_id@ == call.game_id@);
                        assert(has_lobby(pre.lobbies@, call.game_id@));
                    }
                } else {
                    assert(pre.lobbies@[p].game_id@ != pre.lobbies@[q].game_id@);
                }
            }
            lemma_lobby_index_is(self.lobbies@, call.game_id@, gi);
            assert forall|t: int| 0 <= t < self.lobbies@.len() implies Self::lobby_bounded(
                #[trigger] self.lobbies@[t],
            ) by {
                if t < gi {
                    assert(Self::lobby_bounded(pre.lobbies@[t]));
                }
            }
            assert forall|k: int| 0 <= k < self.bets@.len() implies name_listed(
                self.lobbies@[(#[trigger] self.bets@[k]).lobby as int].model_names@,
                self.bets@[k].player_name@,
            ) by {
                assert(pre.bets@[k].lobby < gi);
                assert(name_listed(
                    pre.lobbies@[pre.bets@[k].lobby as int].model_names@,
                    pre.bets@[k].player_name@,
                ));
            }
            // no existing bet references the new lobby index, so both of
            // its conservation sums start at zero
            assert forall|t: int|
                0 <= t < self.lobbies@.len() implies (#[trigger] self.lobbies@[t]).total_bets
                as int == total_wagered(self.bets@, t) by {
                if t == gi {
                    lemma_total_wagered_unreferenced(self.bets@, gi);
                }
            }
            assert forall|t: int|
                0 <= t < self.escrows@.len() implies (#[trigger] self.escrows@[t]).balance as int
                == self.escrows@[t].reserve as int + active_wagered(self.bets@, t) by {
                if t == gi {
                    lemma_active_wagered_unreferenced(self.bets@, gi);
                }
            }
        }
        Ok(())
    }

    /// Host-layer funding: credit `amount` to identity `id`, creating its
    /// balance record if it has none. This models value entering the ledger
    /// from outside; it is how owners and bettors come to hold funds, and it
    /// touches no lobby, bet or custody pool.
    pub fn deposit(&mut self, id: u64, amount: u64) -> (r: Result<(), LedgerError>)
        requires
            old(self).wf(),
        ensures
            final(self).wf(),
            r is Ok <==> balance_of(old(self).accounts@, id) as int + amount as int <= u64::MAX
                as int,
            r is Err ==> *final(self) == *old(self) && r == Err::<(), LedgerError>(
                LedgerError::Betting(BettingError::Overflow),
            ),
            r is Ok ==> ({
                &&& final(self).lobbies@ == old(self).lobbies@
                &&& final(self).escrows@ == old(self).escrows@
                &&& final(self).bets@ == old(self).bets@
                &&& balance_of(final(self).accounts@, id) == balance_of(old(self).accounts@, id)
                    + amount
                &&& forall|x: u64|
                    x != id ==> balance_of(final(self).accounts@, x) == balance_of(
                        old(self).accounts@,
                        x,
                    )
                &&& sum_balances(final(self).accounts@) == sum_balances(old(self).accounts@)
                    + amount
            }),
    {
        let ghost pre = *self;
        match self.lookup_account(id) {
            Some(a) => {
                let ob: u64 = self.accounts[a].balance;
                if ob > u64::MAX - amount {
                    return Err(LedgerError::Betting(BettingError::Overflow));
                }
                self.accounts[a] = AccountRecord { id, balance: ob + amount };
                proof {
                    let rec = AccountRecord { id, balance: (ob + amount) as u64 };
                    lemma_sum_balances_update(pre.accounts@, a as int, rec);
                    lemma_balance_after_update(pre.accounts@, a as int, rec, id);
                    assert forall|x: u64| x != id implies balance_of(self.accounts@, x)
                        == balance_of(pre.accounts@, x) by {
                        lemma_balance_after_update(pre.accounts@, a as int, rec, x);
                    }
                    assert forall|k: int| 0 <= k < self.bets@.len() implies has_account(
                        self.accounts@,
                        (#[trigger] self.bets@[k]).bettor,
                    ) by {
                        lemma_balance_after_update(pre.accounts@, a as int, rec, self.bets@[k].bettor);
                        assert(has_account(pre.accounts@, pre.bets@[k].bettor));
                    }
                }
                Ok(())
            },
            None => {
                self.accounts.push(AccountRecord { id, balance: amount });
                proof {
                    let rec = AccountRecord { id, balance: amount };
                    lemma_sum_balances_push(pre.accounts@, rec);
                    lemma_balance_after_push(pre.accounts@, rec, id);
                    assert forall|x: u64| x != id implies balance_of(self.accounts@, x)
                        == balance_of(pre.accounts@, x) by {
                        lemma_balance_after_push(pre.accounts@, rec, x);
                    }
                    assert forall|k: int| 0 <= k < self.bets@.len() implies has_account(
                        self.accounts@,
                        (#[trigger] self.bets@[k]).bettor,
                    ) by {
                        lemma_balance_after_push(pre.accounts@, rec, self.bets@[k].bettor);
                        assert(has_account(pre.accounts@, pre.bets@[k].bettor));
                    }
                }
                Ok(())
            },
        }
    }

    /// When `distribute_single_winning` commits and which error it refuses
    /// with, checked in this order: the lobby and the bet record must exist
    /// (the keyed-lookup layer), the caller must be the lobby's owner, the
    /// lobby must be Finished, the bet must belong to this lobby and this
    /// bettor and be on the declared winner, the bet must still be Active,
    /// and the payout must not overflow the bettor's balance.
    pub open spec fn distribute_check(self, call: DistributeSingleWinning) -> Result<
        (),
        LedgerError,
    > {
        if !has_lobby(self.lobbies@, call.lobby_game_id@) {
            Err(LedgerError::UnknownLobby)
        } else {
            let i = lobby_index_of(self.lobbies@, call.lobby_game_id@);
            if call.bet >= self.bets@.len() {
                Err(LedgerError::UnknownBet)
            } else if self.lobbies@[i].owner != call.owner {
                Err(LedgerError::Betting(BettingError::Unauthorized))
            } else if self.lobbies@[i].status != LobbyStatus::Finished {
                Err(LedgerError::Betting(BettingError::LobbyNotFinished))
            } else if self.bets@[call.bet as int].lobby as int != i {
                Err(LedgerError::Betting(BettingError::InvalidBetAccount))
            } else if self.bets@[call.bet as int].bettor != call.bettor {
                Err(LedgerError::Betting(BettingError::InvalidBettor))
            } else if self.bets@[call.bet as int].player_name@ != call.winner_name@ {
                Err(LedgerError::Betting(BettingError::BetOnWrongPlayer))
            } else if self.bets@[call.bet as int].status != BetStatus::Active {
                Err(LedgerError::Betting(BettingError::BetAlreadyProcessed))
            } else if balance_of(self.accounts@, call.bettor) as int + self.bets@[call.bet
                as int].amount as int > u64::MAX as int {
                Err(LedgerError::Betting(BettingError::Overflow))
            } else {
                Ok(())
            }
        }
    }

    /// Settle one winning bet: pay `amount` from the lobby's custody pool
    /// to the bettor and mark the bet Paid. Only the lobby's owner may
    /// settle, only once the lobby is Finished, and each bet is settled at
    /// most once. `total_bets` is not touched: it remains the all-time
    /// wagered total, not a live balance. On any failure nothing changes.
    pub fn distribute_single_winning(&mut self, call: DistributeSingleWinning, now: i64) -> (r:
        Result<(), LedgerError>)
        requires
            old(self).wf(),
        ensures
            final(self).wf(),
            r == old(self).distribute_check(call),
            r is Err ==> *final(self) == *old(self),
            r is Ok ==> ({
                let i = lobby_index_of(old(self).lobbies@, call.lobby_game_id@);
                let k = call.bet as int;
                let a = account_index_of(old(self).accounts@, call.bettor);
                let amt = old(self).bets@[k].amount;
                &&& 0 <= i < old(self).lobbies@.len()
                &&& final(self).lobbies@ == old(self).lobbies@.update(
                    i,
                    (Lobby { updated_at: now, ..old(self).lobbies@[i] }),
                )
                &&& final(self).bets@ == old(self).bets@.update(
                    k,
                    (Bet { status: BetStatus::Paid, ..old(self).bets@[k] }),
                )
                &&& final(self).escrows@ == old(self).escrows@.update(
                    i,
                    (Escrow {
                        balance: (old(self).escrows@[i].balance - amt) as u64,
                        reserve: old(self).escrows@[i].reserve,
                    }),
                )
                &&& final(self).accounts@ == old(self).accounts@.update(
                    a,
                    (AccountRecord {
                        id: call.bettor,
                        balance: (balance_of(old(self).accounts@, call.bettor) + amt) as u64,
                    }),
                )
                &&& balance_of(final(self).accounts@, call.bettor) == balance_of(
                    old(self).accounts@,
                    call.bettor,
                ) + amt
                &&& forall|x: u64|
                    x != call.bettor ==> balance_of(final(self).accounts@, x) == balance_of(
                        old(self).accounts@,
                        x,
                    )
                &&& sum_balances(final(self).accounts@) + sum_escrows(final(self).escrows@)
                    == sum_balances(old(self).accounts@) + sum_escrows(old(self).escrows@)
            }),
    {
        let i = match self.lookup_lobby(&call.lobby_game_id) {
            Some(i) => i,
            None => {
                return Err(LedgerError::UnknownLobby);
            },
        };
        if call.bet >= self.bets.len() {
            return Err(LedgerError::UnknownBet);
        }
        if self.lobbies[i].owner != call.owner {
            return Err(LedgerError::Betting(BettingError::Unauthorized));
        }
        if !(self.lobbies[i].status == LobbyStatus::Finished) {
            return Err(LedgerError::Betting(BettingError::LobbyNotFinished));
        }
        if !(self.bets[call.bet].lobby == i) {
            return Err(LedgerError::Betting(BettingError::InvalidBetAccount));
        }
        if self.bets[call.bet].bettor != call.bettor {
            return Err(LedgerError::Betting(BettingError::InvalidBettor));
        }
        if !(self.bets[call.bet].player_name == call.winner_name) {
            return Err(LedgerError::Betting(BettingError::BetOnWrongPlayer));
        }
        if !(self.bets[call.bet].status == BetStatus::Active) {
            return Err(LedgerError::Betting(BettingError::BetAlreadyProcessed));
        }
        let a = match self.lookup_account(call.bettor) {
            Some(a) => a,
            None => {
                // never reached: every recorded bet's bettor holds a
                // balance record, and this bettor matches the bet's
                proof {
                    assert(has_account(self.accounts@, self.bets@[call.bet as int].bettor));
                }
                return Err(LedgerError::InsufficientFunds);
            },
        };
        let amt: u64 = self.bets[call.bet].amount;
        if self.accounts[a].balance > u64::MAX - amt {
            return Err(LedgerError::Betting(BettingError::Overflow));
        }
        let ghost pre = *self;
        let ghost gi = i as int;
        let ghost gk = call.bet as int;
        let ghost ga = a as int;
        proof {
            // the custody pool covers every single active bet, this one too
            lemma_active_wagered_at_least(pre.bets@, gk, gi);
        }

        // pay the bettor from the custody pool
        let ab: u64 = self.accounts[a].balance;
        self.accounts[a] = AccountRecord { id: call.bettor, balance: ab + amt };
        let eb: Escrow = self.escrows[i];
        self.escrows[i] = Escrow { balance: eb.balance - amt, reserve: eb.reserve };
        // mark the bet settled
        let bet = &mut self.bets[call.bet];
        bet.status = BetStatus::Paid;
        // refresh the lobby's mutation stamp
        let lob = &mut self.lobbies[i];
        lob.updated_at = now;

        proof {
            let rec = AccountRecord { id: call.bettor, balance: (ab + amt) as u64 };
            let nb = (Bet { status: BetStatus::Paid, ..pre.bets@[gk] });
            assert(self.accounts@ == pre.accounts@.update(ga, rec));
            assert(self.escrows@ == pre.escrows@.update(
                gi,
                (Escrow { balance: (eb.balance - amt) as u64, reserve: eb.reserve }),
            ));
            assert(self.bets@ =~= pre.bets@.update(gk, nb));
            assert(self.lobbies@ =~= pre.lobbies@.update(
                gi,
                (Lobby { updated_at: now, ..pre.lobbies@[gi] }),
            ));
            // no money appears or vanishes: the debit and the credit cancel
            lemma_sum_balances_update(pre.accounts@, ga, rec);
            lemma_sum_escrows_update(
                pre.escrows@,
                gi,
                (Escrow { balance: (eb.balance - amt) as u64, reserve: eb.reserve }),
            );
            // the bettor's balance moves by exactly the amount, no other's
            lemma_balance_after_update(pre.accounts@, ga, rec, call.bettor);
            assert forall|x: u64| x != call.bettor implies balance_of(self.accounts@, x)
                == balance_of(pre.accounts@, x) by {
                lemma_balance_after_update(pre.accounts@, ga, rec, x);
            }
            // lobby keys, bounds and outcome lists are untouched
            assert(forall|t: int|
                0 <= t < self.lobbies@.len() ==> (#[trigger] self.lobbies@[t]).game_id@
                    == pre.lobbies@[t].game_id@ && self.lobbies@[t].model_names@
                    == pre.lobbies@[t].model_names@);
            assert forall|p: int, q: int|
                0 <= p < q < self.lobbies@.len() implies self.lobbies@[p].game_id@
                != self.lobbies@[q].game_id@ by {
                assert(pre.lobbies@[p].game_id@ != pre.lobbies@[q].game_id@);
            }
            assert forall|t: int| 0 <= t < self.lobbies@.len() implies Self::lobby_bounded(
                #[trigger] self.lobbies@[t],
            ) by {
                assert(Self::lobby_bounded(pre.lobbies@[t]));
            }
            // every bet's key fields are untouched; only one status changed
            assert(forall|t: int|
                0 <= t < self.bets@.len() ==> (#[trigger] self.bets@[t]).lobby
                    == pre.bets@[t].lobby && self.bets@[t].bettor == pre.bets@[t].bettor
                    && self.bets@[t].amount == pre.bets@[t].amount && self.bets@[t].player_name@
                    == pre.bets@[t].player_name@);
            assert forall|p: int, q: int|
                0 <= p < q < self.bets@.len() implies !(self.bets@[p].lobby == self.bets@[q].lobby
                && self.bets@[p].bettor == self.bets@[q].bettor) by {
                assert(!(pre.bets@[p].lobby == pre.bets@[q].lobby && pre.bets@[p].bettor
                    == pre.bets@[q].bettor));
            }
            assert forall|k: int| 0 <= k < self.bets@.len() implies has_account(
                self.accounts@,
                (#[trigger] self.bets@[k]).bettor,
            ) by {
                lemma_balance_after_update(pre.accounts@, ga, rec, self.bets@[k].bettor);
                assert(has_account(pre.accounts@, pre.bets@[k].bettor));
            }
            assert forall|k: int| 0 <= k < self.bets@.len() implies name_listed(
                self.lobbies@[(#[trigger] self.bets@[k]).lobby as int].model_names@,
                self.bets@[k].player_name@,
            ) by {
                assert(name_listed(
                    pre.lobbies@[pre.bets@[k].lobby as int].model_names@,
                    pre.bets@[k].player_name@,
                ));
            }
            // the all-time totals are untouched; each custody pool drops by
            // exactly the settled amount of its own lobby
            assert forall|t: int|
                0 <= t < self.lobbies@.len() implies (#[trigger] self.lobbies@[t]).total_bets
                as int == total_wagered(self.bets@, t) by {
                lemma_total_wagered_update(pre.bets@, gk, nb, t);
            }
            assert forall|t: int|
                0 <= t < self.escrows@.len() implies (#[trigger] self.escrows@[t]).balance as int
                == self.escrows@[t].reserve as int + active_wagered(self.bets@, t) by {
                lemma_active_wagered_settle(pre.bets@, gk, nb, t);
            }
        }
        Ok(())
    }
}

} // verus!
