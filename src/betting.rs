use vstd::prelude::*;
use crate::chips::{Bet, Chip, IntoChips, chip_value, chips_total, greedy_chips};
use crate::table::{Player, Table};

verus! {

/// A player's action while placing a bet.
#[derive(Debug, Clone, Copy, PartialEq, Eq, Structural)]
pub enum BetAction {
    /// Adds one chip of the given denomination.
    Place(Chip),
    /// Bets the whole balance.
    AllIn,
    /// Accepts the bet as it stands.
    Confirm,
}

/// What a betting action did.
#[derive(Debug, Clone, Copy, PartialEq, Eq, Structural)]
pub enum BetStep {
    /// The bet was raised and betting goes on.
    Continue,
    /// The chip would have taken the bet over the balance: the bet is now the
    /// whole balance, and betting goes on.
    Clamped,
    /// The bet is placed.
    Done,
    /// An empty bet cannot be confirmed; nothing changed.
    Refused,
}

/// Applies one betting action to `current_bet`, for a player whose balance is
/// `balance`. A chip is added; when that takes the bet over the balance, the
/// bet becomes the greedy chips of the balance instead, and when it meets the
/// balance exactly, betting is done. All-in bets the greedy chips of the
/// balance. Confirming an empty bet is refused. The bet never exceeds the
/// balance.
pub fn bet_step(current_bet: &mut Bet, balance: u32, action: BetAction) -> (r: BetStep)
    requires
        chips_total(old(current_bet).0@) <= balance,
    ensures
        chips_total(final(current_bet).0@) <= balance,
        action is AllIn ==> r == BetStep::Done && final(current_bet).0@ == greedy_chips(
            balance as nat,
            0,
        ),
        action is Confirm && chips_total(old(current_bet).0@) == 0 ==> r == BetStep::Refused
            && final(current_bet).0@ == old(current_bet).0@,
        action is Confirm && chips_total(old(current_bet).0@) > 0 ==> r == BetStep::Done
            && final(current_bet).0@ == old(current_bet).0@,
        ({
            let c = action->Place_0;
            let raised = chips_total(old(current_bet).0@) + chip_value(c);
            &&& action is Place && raised > balance ==> r == BetStep::Clamped
                && final(current_bet).0@ == greedy_chips(balance as nat, 0)
            &&& action is Place && raised == balance ==> r == BetStep::Done
                && final(current_bet).0@ == old(current_bet).0@.push(c)
            &&& action is Place && raised < balance ==> r == BetStep::Continue
                && final(current_bet).0@ == old(current_bet).0@.push(c)
        }),
{
    let placed = current_bet.sum();
    match action {
        BetAction::Place(chip) => {
            let raised: u64 = placed as u64 + chip.value() as u64;
            if raised > balance as u64 {
                current_bet.0 = balance.into_chips();
                BetStep::Clamped
            } else {
                proof {
                    crate::chips::lemma_chips_total_push(current_bet.0@, chip);
                }
                current_bet.0.push(chip);
                if raised == balance as u64 {
                    BetStep::Done
                } else {
                    BetStep::Continue
                }
            }
        },
        BetAction::AllIn => {
            current_bet.0 = balance.into_chips();
            BetStep::Done
        },
        BetAction::Confirm => {
            if placed == 0 {
                BetStep::Refused
            } else {
                BetStep::Done
            }
        },
    }
}

/// Opens a betting phase: when every player is out of the game, reports
/// that the game is over and changes nothing; otherwise clears every
/// player's bet.
pub fn begin_betting(players: &mut Table) -> (r: bool)
    ensures
        r == crate::table::all_inactive(old(players).0@),
        final(players).0@.len() == old(players).0@.len(),
        forall|i: int|
            0 <= i < old(players).0@.len() ==> {
                let p = #[trigger] old(players).0@[i];
                let q = final(players).0@[i];
                &&& r ==> q == p
                &&& !r ==> q.0 == p.0 && q.1 == p.1 && q.3 == p.3 && q.2.0@.len() == 0
            },
{
    if crate::table::game_over(&players.0) {
        return true;
    }
    let mut i: usize = 0;
    while i < players.0.len()
        invariant
            i <= players.0@.len(),
            players.0@.len() == old(players).0@.len(),
            forall|k: int| i <= k < old(players).0@.len() ==> #[trigger] players.0@[k] == old(
                players,
            ).0@[k],
            forall|k: int|
                0 <= k < i ==> {
                    let p = #[trigger] old(players).0@[k];
                    let q = players.0@[k];
                    q.0 == p.0 && q.1 == p.1 && q.3 == p.3 && q.2.0@.len() == 0
                },
        decreases old(players).0@.len() - i,
    {
        players.0[i].clear_bet();
        i += 1;
    }
    false
}

/// Whether a balance holds no value.
pub open spec fn broke(p: Player) -> bool {
    chips_total(p.1.0@) == 0
}

/// A sequence of chips is worth nothing exactly when it is empty.
pub proof fn lemma_chips_total_zero(s: Seq<Chip>)
    ensures
        (chips_total(s) == 0) == (s.len() == 0),
{
}

/// Takes every active player whose balance is worth nothing out of the game,
/// and returns their seats in order. Nothing else changes.
pub fn mark_bankruptcies(players: &mut Table) -> (r: Vec<usize>)
    ensures
        final(players).0@.len() == old(players).0@.len(),
        forall|i: int|
            0 <= i < old(players).0@.len() ==> {
                let p = #[trigger] old(players).0@[i];
                let q = final(players).0@[i];
                &&& q.0 == p.0 && q.1 == p.1 && q.2 == p.2
                &&& q.3 == (p.3 && !broke(p))
            },
        forall|k: int| 0 <= k < r@.len() ==> (#[trigger] r@[k]) < old(players).0@.len(),
        forall|k: int|
            0 <= k < r@.len() ==> old(players).0@[#[trigger] r@[k] as int].3 && broke(
                old(players).0@[r@[k] as int],
            ),
        forall|i: int|
            0 <= i < old(players).0@.len() && (#[trigger] old(players).0@[i]).3 && broke(
                old(players).0@[i],
            ) ==> exists|k: int| 0 <= k < r@.len() && r@[k] == i,
        forall|a: int, b: int| 0 <= a < b < r@.len() ==> r@[a] < r@[b],
{
    let mut newly: Vec<usize> = Vec::new();
    let mut i: usize = 0;
    while i < players.0.len()
        invariant
            i <= players.0@.len(),
            players.0@.len() == old(players).0@.len(),
            forall|k: int| i <= k < old(players).0@.len() ==> #[trigger] players.0@[k] == old(
                players,
            ).0@[k],
            forall|k: int|
                0 <= k < i ==> {
                    let p = #[trigger] old(players).0@[k];
                    let q = players.0@[k];
                    &&& q.0 == p.0 && q.1 == p.1 && q.2 == p.2
                    &&& q.3 == (p.3 && !broke(p))
                },
            forall|k: int| 0 <= k < newly@.len() ==> (#[trigger] newly@[k]) < i,
            forall|k: int|
                0 <= k < newly@.len() ==> old(players).0@[#[trigger] newly@[k] as int].3 && broke(
                    old(players).0@[newly@[k] as int],
                ),
            forall|j: int|
                0 <= j < i && (#[trigger] old(players).0@[j]).3 && broke(old(players).0@[j])
                    ==> exists|k: int| 0 <= k < newly@.len() && newly@[k] == j,
            forall|a: int, b: int| 0 <= a < b < newly@.len() ==> newly@[a] < newly@[b],
        decreases old(players).0@.len() - i,
    {
        proof {
            lemma_chips_total_zero(players.0@[i as int].1.0@);
        }
        if players.0[i].is_active() && players.0[i].1.0.len() == 0 {
            players.0[i].bankrupt();
            let ghost before = newly@;
            newly.push(i);
            assert forall|j: int|
                0 <= j < i + 1 && (#[trigger] old(players).0@[j]).3 && broke(
                    old(players).0@[j],
                ) implies exists|k: int| 0 <= k < newly@.len() && newly@[k] == j by {
                if j < i {
                    let k = choose|k: int| 0 <= k < before.len() && before[k] == j;
                    assert(newly@[k] == j);
                } else {
                    assert(newly@[before.len() as int] == j);
                }
            }
        }
        i += 1;
    }
    newly
}

} // verus!
