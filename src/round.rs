use vstd::prelude::*;
use crate::card::{Card, Rank, shown};
use crate::chips::{Balance, IntoChips, chips_total, greedy_chips};
use crate::deck::Deck;
use crate::hand::{Hand, blackjack, face_up, hard_total, has_rank, order_of, total_fits};
use crate::table::{Player, Table};
use crate::DeckError;

verus! {

/// A soft hand: it holds an Ace, its hard total is at most 21, and ten less
/// than that total lies in 1 to 21.
pub open spec fn soft(cards: Seq<Card>) -> bool {
    has_rank(cards, Rank::Ace) && hard_total(cards) <= 21 && 1 <= hard_total(cards) - 10 <= 21
}

/// Whether the dealer stops drawing on these cards: a hard total over 17
/// (a bust included), or exactly 17 unless the hand is soft and soft 17 is
/// hit.
pub open spec fn dealer_stops(cards: Seq<Card>, hit_on_soft_17: bool) -> bool {
    hard_total(cards) > 17 || (hard_total(cards) == 17 && !(hit_on_soft_17 && soft(cards)))
}

/// The dealer's turn from hand `h` and deck `d`: the final hand, the deck
/// left, and whether the dealer came to a stop before the deck ran out. Each
/// card drawn joins the hand face up.
pub open spec fn dealer_play(h: Seq<Card>, d: Seq<Card>, hit_on_soft_17: bool) -> (Seq<Card>, Seq<Card>, bool)
    decreases d.len(),
{
    if dealer_stops(h, hit_on_soft_17) {
        (h, d, true)
    } else if d.len() == 0 {
        (h, d, false)
    } else {
        dealer_play(h.push(shown(d.last())), d.drop_last(), hit_on_soft_17)
    }
}

/// The dealer stands on every 17 without an Ace, whatever the setting and
/// the deck.
pub proof fn lemma_dealer_stands_on_hard_17(cards: Seq<Card>, deck: Seq<Card>, hit_on_soft_17: bool)
    requires
        hard_total(cards) == 17,
        !has_rank(cards, Rank::Ace),
    ensures
        dealer_stops(cards, hit_on_soft_17),
        dealer_play(cards, deck, hit_on_soft_17) == (cards, deck, true),
{
}

/// On a soft 17 the dealer draws again when soft 17 is hit, and stands when
/// it is not.
pub proof fn lemma_dealer_on_soft_17(cards: Seq<Card>, deck: Seq<Card>)
    requires
        hard_total(cards) == 17,
        has_rank(cards, Rank::Ace),
    ensures
        soft(cards),
        !dealer_stops(cards, true),
        deck.len() > 0 ==> dealer_play(cards, deck, true) == dealer_play(
            cards.push(shown(deck.last())),
            deck.drop_last(),
            true,
        ),
        dealer_stops(cards, false),
        dealer_play(cards, deck, false) == (cards, deck, true),
{
}

/// Plays the dealer's hand: turns the hole card (every card of the hand)
/// face up, then draws from `deck` until the policy says stop, and marks the
/// hand busted when it stops over 21. Fails with `EmptyDeck` when the deck
/// runs out first; the cards drawn until then stay drawn.
pub fn dealer_logic(deck: &mut Deck, dealer_hand: &mut Hand, hit_on_soft_17: bool) -> (r: Result<(), DeckError>)
    requires
        total_fits(old(dealer_hand).0@),
    ensures
        ({
            let (h, d, stopped) = dealer_play(
                face_up(old(dealer_hand).0@),
                old(deck)@,
                hit_on_soft_17,
            );
            &&& final(dealer_hand).0@ == h
            &&& final(deck)@ == d
            &&& r == (if stopped { Ok::<(), DeckError>(()) } else { Err(DeckError::EmptyDeck) })
            &&& final(dealer_hand).1 == (old(dealer_hand).1 || (stopped && hard_total(h) > 21))
        }),
        forall|i: int|
            0 <= i < final(dealer_hand).0@.len() ==> !(#[trigger] final(dealer_hand).0@[i]).hidden,
{
    dealer_hand.unveil_all();
    proof {
        crate::hand::lemma_face_up_total(old(dealer_hand).0@);
    }
    loop
        invariant_except_break
            dealer_hand.1 == old(dealer_hand).1,
        invariant
            total_fits(dealer_hand.0@),
            forall|i: int| 0 <= i < dealer_hand.0@.len() ==> !(#[trigger] dealer_hand.0@[i]).hidden,
            dealer_play(dealer_hand.0@, deck@, hit_on_soft_17) == dealer_play(
                face_up(old(dealer_hand).0@),
                old(deck)@,
                hit_on_soft_17,
            ),
        ensures
            dealer_stops(dealer_hand.0@, hit_on_soft_17),
            dealer_hand.1 == (old(dealer_hand).1 || hard_total(dealer_hand.0@) > 21),
        decreases deck@.len(),
    {
        let total: u32 = dealer_hand.sum();
        proof {
            if has_rank(dealer_hand.0@, Rank::Ace) {
                let i = choose|i: int|
                    0 <= i < dealer_hand.0@.len() && dealer_hand.0@[i].rank == Rank::Ace;
                crate::hand::lemma_total_covers_card(dealer_hand.0@, i);
            }
        }
        let is_soft: bool = dealer_hand.contains(Rank::Ace) && total <= 21 && total - 10 > 0 && total
            - 10 <= 21;
        if total > 21 {
            dealer_hand.1 = true;
            break ;
        }
        if total > 17 || (total == 17 && !(hit_on_soft_17 && is_soft)) {
            break ;
        }
        let ghost h = dealer_hand.0@;
        let ghost d = deck@;
        match dealer_hand.draw_from(deck) {
            Err(e) => {
                return Err(e);
            },
            Ok(_) => {},
        }
        proof {
            assert(hard_total(dealer_hand.0@) == hard_total(h) + crate::card::rank_value(d.last().rank))
                by {
                assert(dealer_hand.0@.drop_last() =~= h);
            }
            assert(dealer_hand.0@ == h.push(shown(d.last())));
        }
    }
    Ok(())
}

/// How a player's hand fared against the dealer's.
#[derive(Debug, Clone, Copy, PartialEq, Eq, Structural)]
pub enum Outcome {
    /// The player's hand busted: the bet is lost.
    Busted,
    /// The dealer busted: the player wins twice the bet.
    DealerBusted,
    /// The player holds a blackjack: twice the bet is paid.
    Blackjack,
    /// The player's hard total beats the dealer's: twice the bet is won.
    Win,
    /// The dealer's hard total beats the player's: the bet is lost.
    Loss,
    /// Equal hard totals: the balance stays as it is.
    Push,
}

/// The outcome for a player whose hand holds `pc` (busted: `pb`) against a
/// dealer whose hand holds `dc` (busted: `db`). Hands are compared by hard
/// totals.
pub open spec fn outcome_of(pc: Seq<Card>, pb: bool, dc: Seq<Card>, db: bool) -> Outcome {
    if pb {
        Outcome::Busted
    } else if db {
        Outcome::DealerBusted
    } else if blackjack(pc) {
        Outcome::Blackjack
    } else {
        match order_of(hard_total(dc), hard_total(pc)) {
            core::cmp::Ordering::Greater => Outcome::Loss,
            core::cmp::Ordering::Less => Outcome::Win,
            core::cmp::Ordering::Equal => Outcome::Push,
        }
    }
}

/// The balance after an outcome, from the balance and the bet before it.
pub open spec fn settled_balance(balance: int, bet: int, o: Outcome) -> int {
    match o {
        Outcome::Busted | Outcome::Loss => balance - bet,
        Outcome::DealerBusted | Outcome::Blackjack | Outcome::Win => balance + 2 * bet,
        Outcome::Push => balance,
    }
}

/// A player's bet can be settled: it is covered by the balance, and the
/// balance after a win fits a `u32`.
pub open spec fn settleable(p: Player) -> bool {
    chips_total(p.2.0@) <= chips_total(p.1.0@) && chips_total(p.1.0@) + 2 * chips_total(p.2.0@)
        <= u32::MAX
}

/// How a settlement moves a balance: a busted hand loses the bet; otherwise
/// a busted dealer or a blackjack pays twice the bet; otherwise equal hard
/// totals leave the balance as it was, a higher dealer total loses the bet
/// and a lower one wins twice the bet.
pub proof fn lemma_payouts(pc: Seq<Card>, pb: bool, dc: Seq<Card>, db: bool, balance: int, bet: int)
    ensures
        ({
            let after = settled_balance(balance, bet, outcome_of(pc, pb, dc, db));
            &&& pb ==> after == balance - bet
            &&& !pb && db ==> after == balance + 2 * bet
            &&& !pb && !db && blackjack(pc) ==> after == balance + 2 * bet
            &&& !pb && !db && !blackjack(pc) && hard_total(dc) == hard_total(pc) ==> after
                == balance
            &&& !pb && !db && !blackjack(pc) && hard_total(dc) > hard_total(pc) ==> after
                == balance - bet
            &&& !pb && !db && !blackjack(pc) && hard_total(dc) < hard_total(pc) ==> after
                == balance + 2 * bet
        }),
{
}

/// The outcome of `player_hand` against the final `dealer_hand`.
pub fn round_outcome(player_hand: &Hand, dealer_hand: &Hand) -> (r: Outcome)
    requires
        total_fits(player_hand.0@),
        total_fits(dealer_hand.0@),
    ensures
        r == outcome_of(player_hand.0@, player_hand.1, dealer_hand.0@, dealer_hand.1),
{
    if player_hand.busted() {
        return Outcome::Busted;
    }
    if dealer_hand.busted() {
        return Outcome::DealerBusted;
    }
    if player_hand.is_blackjack() {
        return Outcome::Blackjack;
    }
    match dealer_hand.compare_to(player_hand) {
        Ok(core::cmp::Ordering::Greater) => Outcome::Loss,
        Ok(core::cmp::Ordering::Less) => Outcome::Win,
        _ => Outcome::Push,
    }
}

/// Settles one player's bet against the dealer: the balance becomes the
/// greedy chips of the settled amount; the id, bet and activity stay.
pub fn settle_player(player: &mut Player, player_hand: &Hand, dealer_hand: &Hand) -> (r: Outcome)
    requires
        total_fits(player_hand.0@),
        total_fits(dealer_hand.0@),
        settleable(*old(player)),
    ensures
        r == outcome_of(player_hand.0@, player_hand.1, dealer_hand.0@, dealer_hand.1),
        chips_total(final(player).1.0@) == settled_balance(
            chips_total(old(player).1.0@) as int,
            chips_total(old(player).2.0@) as int,
            r,
        ),
        final(player).1.0@ == greedy_chips(chips_total(final(player).1.0@), 0),
        final(player).0 == old(player).0,
        final(player).2 == old(player).2,
        final(player).3 == old(player).3,
{
    let outcome = round_outcome(player_hand, dealer_hand);
    let balance = player.1.sum();
    let bet = player.2.sum();
    let amount: u32 = match outcome {
        Outcome::Busted | Outcome::Loss => balance - bet,
        Outcome::DealerBusted | Outcome::Blackjack | Outcome::Win => balance + 2 * bet,
        Outcome::Push => balance,
    };
    player.1 = Balance(amount.into_chips());
    outcome
}

/// Settles every active player's bet against the final dealer hand; the
/// hand at position `i` belongs to the player in seat `i`. The result holds,
/// seat by seat, the outcome of each active player and `None` for the
/// inactive ones, whose seats are left as they were.
pub fn settle_results(players: &mut Table, player_hands: &Vec<Hand>, dealer_hand: &Hand) -> (r: Vec<Option<Outcome>>)
    requires
        player_hands@.len() <= old(players).0@.len(),
        total_fits(dealer_hand.0@),
        forall|i: int|
            0 <= i < player_hands@.len() && (#[trigger] old(players).0@[i]).3 ==> total_fits(
                player_hands@[i].0@,
            ) && settleable(old(players).0@[i]),
    ensures
        r@.len() == player_hands@.len(),
        final(players).0@.len() == old(players).0@.len(),
        forall|i: int|
            player_hands@.len() <= i < old(players).0@.len() ==> #[trigger] final(players).0@[i]
                == old(players).0@[i],
        forall|i: int|
            0 <= i < player_hands@.len() && !(#[trigger] old(players).0@[i]).3 ==> r@[i] is None
                && final(players).0@[i] == old(players).0@[i],
        forall|i: int|
            0 <= i < player_hands@.len() && (#[trigger] old(players).0@[i]).3 ==> {
                let o = outcome_of(
                    player_hands@[i].0@,
                    player_hands@[i].1,
                    dealer_hand.0@,
                    dealer_hand.1,
                );
                &&& r@[i] == Some(o)
                &&& chips_total(final(players).0@[i].1.0@) == settled_balance(
                    chips_total(old(players).0@[i].1.0@) as int,
                    chips_total(old(players).0@[i].2.0@) as int,
                    o,
                )
                &&& final(players).0@[i].0 == old(players).0@[i].0
                &&& final(players).0@[i].2 == old(players).0@[i].2
                &&& final(players).0@[i].3
            },
{
    let mut results: Vec<Option<Outcome>> = Vec::new();
    let mut i: usize = 0;
    while i < player_hands.len()
        invariant
            i <= player_hands@.len(),
            player_hands@.len() <= old(players).0@.len(),
            players.0@.len() == old(players).0@.len(),
            results@.len() == i,
            total_fits(dealer_hand.0@),
            forall|k: int|
                0 <= k < player_hands@.len() && (#[trigger] old(players).0@[k]).3 ==> total_fits(
                    player_hands@[k].0@,
                ) && settleable(old(players).0@[k]),
            forall|k: int| i <= k < old(players).0@.len() ==> #[trigger] players.0@[k] == old(
                players,
            ).0@[k],
            forall|k: int|
                0 <= k < i && !(#[trigger] old(players).0@[k]).3 ==> results@[k] is None
                    && players.0@[k] == old(players).0@[k],
            forall|k: int|
                0 <= k < i && (#[trigger] old(players).0@[k]).3 ==> {
                    let o = outcome_of(
                        player_hands@[k].0@,
                        player_hands@[k].1,
                        dealer_hand.0@,
                        dealer_hand.1,
                    );
                    &&& results@[k] == Some(o)
                    &&& chips_total(players.0@[k].1.0@) == settled_balance(
                        chips_total(old(players).0@[k].1.0@) as int,
                        chips_total(old(players).0@[k].2.0@) as int,
                        o,
                    )
                    &&& players.0@[k].0 == old(players).0@[k].0
                    &&& players.0@[k].2 == old(players).0@[k].2
                    &&& players.0@[k].3
                },
        decreases player_hands@.len() - i,
    {
        if !players.0[i].is_active() {
            results.push(None);
        } else {
            let outcome = settle_player(&mut players.0[i], &player_hands[i], dealer_hand);
            results.push(Some(outcome));
        }
        i += 1;
    }
    results
}

/// Ends a round: settles every active player's bet against the final
/// dealer hand (as `settle_results` does), then takes out of the game every
/// active player whose balance is left worth nothing (as `mark_bankruptcies`
/// does). Returns the outcomes by seat and the seats newly out of the game.
/// A seat already out of the game is left exactly as it was.
pub fn finish_round(players: &mut Table, player_hands: &Vec<Hand>, dealer_hand: &Hand) -> (r: (Vec<Option<Outcome>>, Vec<usize>))
    requires
        player_hands@.len() <= old(players).0@.len(),
        total_fits(dealer_hand.0@),
        forall|i: int|
            0 <= i < player_hands@.len() && (#[trigger] old(players).0@[i]).3 ==> total_fits(
                player_hands@[i].0@,
            ) && settleable(old(players).0@[i]),
    ensures
        r.0@.len() == player_hands@.len(),
        final(players).0@.len() == old(players).0@.len(),
        forall|i: int|
            0 <= i < old(players).0@.len() && !(#[trigger] old(players).0@[i]).3
                ==> final(players).0@[i] == old(players).0@[i]
                && (i < player_hands@.len() ==> r.0@[i] is None),
        forall|i: int|
            player_hands@.len() <= i < old(players).0@.len() ==> {
                let p = #[trigger] old(players).0@[i];
                let q = final(players).0@[i];
                q.0 == p.0 && q.1 == p.1 && q.2 == p.2 && q.3 == (p.3 && chips_total(p.1.0@) > 0)
            },
        forall|i: int|
            0 <= i < player_hands@.len() && (#[trigger] old(players).0@[i]).3 ==> {
                let o = outcome_of(
                    player_hands@[i].0@,
                    player_hands@[i].1,
                    dealer_hand.0@,
                    dealer_hand.1,
                );
                let after = settled_balance(
                    chips_total(old(players).0@[i].1.0@) as int,
                    chips_total(old(players).0@[i].2.0@) as int,
                    o,
                );
                &&& r.0@[i] == Some(o)
                &&& chips_total(final(players).0@[i].1.0@) == after
                &&& final(players).0@[i].0 == old(players).0@[i].0
                &&& final(players).0@[i].2 == old(players).0@[i].2
                &&& final(players).0@[i].3 == (after > 0)
            },
        forall|k: int| 0 <= k < r.1@.len() ==> (#[trigger] r.1@[k]) < old(players).0@.len(),
        forall|a: int, b: int| 0 <= a < b < r.1@.len() ==> r.1@[a] < r.1@[b],
{
    let outcomes = settle_results(players, player_hands, dealer_hand);
    let ghost mid = players.0@;
    let out = crate::betting::mark_bankruptcies(players);
    assert forall|i: int| 0 <= i < old(players).0@.len() implies {
        let p = #[trigger] old(players).0@[i];
        let q = players.0@[i];
        (i >= player_hands@.len() || !p.3) ==> (q.0 == p.0 && q.1 == p.1 && q.2 == p.2 && q.3 == (
        p.3 && chips_total(p.1.0@) > 0))
    } by {
        assert(mid[i] == old(players).0@[i] || (i < player_hands@.len() && old(players).0@[i].3));
    }
    (outcomes, out)
}

/// A player's choice on their turn.
#[derive(Debug, Clone, Copy, PartialEq, Eq, Structural)]
pub enum Move {
    Hit,
    DoubleDown,
    Stand,
}

/// What a move did to the player's turn.
#[derive(Debug, Clone, Copy, PartialEq, Eq, Structural)]
pub enum MoveOutcome {
    /// The turn goes on.
    Continue,
    /// The turn is over.
    TurnOver,
    /// The move is not allowed now; nothing changed.
    Refused,
}

/// Whether `cards` resolve the hand: a blackjack, or a leveled total over 21.
pub open spec fn resolves(cards: Seq<Card>) -> bool {
    blackjack(cards) || crate::hand::leveled_total(cards) > 21
}

/// Applies a player's move; `moves` counts the moves of this turn so far,
/// this one included. A hit draws a card and ends the turn when the hand
/// resolves; a double-down is allowed as the first move only, draws one card
/// and ends the turn; a stand ends the turn. A hand that resolves over 21 is
/// marked busted. A draw from an empty deck fails with `EmptyDeck` and
/// changes nothing.
pub fn apply_move(hand: &mut Hand, deck: &mut Deck, mv: Move, moves: u32) -> (r: Result<MoveOutcome, DeckError>)
    requires
        hard_total(old(hand).0@) + 11 <= u32::MAX,
    ensures
        ({
            let draws = mv == Move::Hit || (mv == Move::DoubleDown && moves <= 1);
            let cards = old(hand).0@.push(shown(old(deck)@.last()));
            &&& mv == Move::Stand ==> r == Ok::<MoveOutcome, DeckError>(MoveOutcome::TurnOver)
                && *final(hand) == *old(hand) && final(deck)@ == old(deck)@
            &&& mv == Move::DoubleDown && moves > 1 ==> r == Ok::<MoveOutcome, DeckError>(
                MoveOutcome::Refused,
            ) && *final(hand) == *old(hand) && final(deck)@ == old(deck)@
            &&& draws && old(deck)@.len() == 0 ==> r == Err::<MoveOutcome, DeckError>(
                DeckError::EmptyDeck,
            ) && *final(hand) == *old(hand) && final(deck)@ == old(deck)@
            &&& draws && old(deck)@.len() > 0 ==> {
                &&& final(deck)@ == old(deck)@.drop_last()
                &&& final(hand).0@ == cards
                &&& final(hand).1 == (old(hand).1 || (!blackjack(cards)
                    && crate::hand::leveled_total(cards) > 21))
                &&& r == Ok::<MoveOutcome, DeckError>(
                    if mv == Move::DoubleDown || resolves(cards) {
                        MoveOutcome::TurnOver
                    } else {
                        MoveOutcome::Continue
                    },
                )
            }
        }),
{
    match mv {
        Move::Stand => Ok(MoveOutcome::TurnOver),
        Move::DoubleDown if moves > 1 => Ok(MoveOutcome::Refused),
        _ => {
            let ghost d = deck@;
            let ghost h = hand.0@;
            let drawn = hand.draw_from(deck);
            if drawn.is_err() {
                return Err(DeckError::EmptyDeck);
            }
            proof {
                assert(hard_total(hand.0@) == hard_total(h) + crate::card::rank_value(d.last().rank))
                    by {
                    assert(hand.0@.drop_last() =~= h);
                }
            }
            let resolved = hand.check();
            if mv == Move::DoubleDown || resolved {
                Ok(MoveOutcome::TurnOver)
            } else {
                Ok(MoveOutcome::Continue)
            }
        },
    }
}

/// The number of active players among the first `n` of the sequence.
pub open spec fn active_count(players: Seq<Player>, n: int) -> nat
    decreases n,
{
    if n <= 0 {
        0
    } else {
        active_count(players, n - 1) + if players[n - 1].3 {
            1nat
        } else {
            0nat
        }
    }
}

/// The active players before seat `n` are never more than `n`.
pub proof fn lemma_active_count_bound(players: Seq<Player>, n: int)
    requires
        0 <= n,
    ensures
        active_count(players, n) <= n,
    decreases n,
{
    if n > 0 {
        lemma_active_count_bound(players, n - 1);
    }
}

/// Deals a round from `deck`: the dealer gets the top card face up and the
/// next face down; then each active player, in seat order, gets the next two
/// cards in the order drawn, and each inactive player an empty hand. Fails
/// with `EmptyDeck` exactly when the deck holds fewer cards than that.
pub fn deal_round(deck: &mut Deck, players: &Vec<Player>) -> (r: Result<(Hand, Vec<Hand>), DeckError>)
    ensures
        ({
            let d = old(deck)@;
            let needed = 2 + 2 * active_count(players@, players@.len() as int);
            &&& r is Err <==> d.len() < needed
            &&& r is Err ==> r == Err::<(Hand, Vec<Hand>), DeckError>(DeckError::EmptyDeck)
            &&& r is Ok ==> {
                let (dealer, hands) = r->Ok_0;
                &&& dealer.0@ == seq![shown(d[d.len() - 1]), Card { hidden: true, ..d[d.len() - 2] }]
                &&& !dealer.1
                &&& hands@.len() == players@.len()
                &&& final(deck)@ == d.subrange(0, d.len() - needed)
                &&& forall|i: int|
                    0 <= i < players@.len() ==> {
                        let rest = d.subrange(0, d.len() - 2 - 2 * active_count(players@, i));
                        &&& !(#[trigger] hands@[i]).1
                        &&& players@[i].3 ==> hands@[i].0@ == crate::deck::top_cards(rest, 2)
                        &&& !players@[i].3 ==> hands@[i].0@.len() == 0
                    }
            }
        }),
{
    let ghost d = deck@;
    let ghost needed: int = 2 + 2 * active_count(players@, players@.len() as int) as int;
    proof {
        lemma_active_count_bound(players@, players@.len() as int);
    }
    let mut dealer = Hand::new();
    if dealer.draw_from(deck).is_err() {
        return Err(DeckError::EmptyDeck);
    }
    if dealer.draw_from_hidden(deck).is_err() {
        return Err(DeckError::EmptyDeck);
    }
    assert(dealer.0@ =~= seq![shown(d[d.len() - 1]), Card { hidden: true, ..d[d.len() - 2] }]);
    let mut hands: Vec<Hand> = Vec::new();
    let mut i: usize = 0;
    while i < players.len()
        invariant
            i <= players@.len(),
            needed == 2 + 2 * active_count(players@, players@.len() as int),
            d == old(deck)@,
            d.len() >= 2,
            dealer.0@ == seq![shown(d[d.len() - 1]), Card { hidden: true, ..d[d.len() - 2] }],
            !dealer.1,
            hands@.len() == i,
            d.len() >= 2 + 2 * active_count(players@, i as int),
            deck@ == d.subrange(0, d.len() - 2 - 2 * active_count(players@, i as int)),
            forall|k: int|
                0 <= k < i ==> {
                    let rest = d.subrange(0, d.len() - 2 - 2 * active_count(players@, k));
                    &&& !(#[trigger] hands@[k]).1
                    &&& players@[k].3 ==> hands@[k].0@ == crate::deck::top_cards(rest, 2)
                    &&& !players@[k].3 ==> hands@[k].0@.len() == 0
                },
        decreases players@.len() - i,
    {
        if players[i].is_active() {
            let ghost left = deck@.len();
            assert(left == d.len() - 2 - 2 * active_count(players@, i as int));
            match deck.deal_hand(2) {
                Ok(hand) => {
                    hands.push(hand);
                },
                Err(e) => {
                    proof {
                        assert(left < 2);
                        assert(active_count(players@, i + 1) == active_count(players@, i as int) + 1);
                        lemma_active_count_monotone(players@, i + 1, players@.len() as int);
                    }
                    return Err(e);
                },
            }
        } else {
            hands.push(Hand::new());
        }
        proof {
            assert(active_count(players@, i + 1) == active_count(players@, i as int) + if players@[i as int].3 {
                1nat
            } else {
                0nat
            });
        }
        i += 1;
        assert(deck@ =~= d.subrange(0, d.len() - 2 - 2 * active_count(players@, i as int)));
    }
    Ok((dealer, hands))
}

/// Counting more seats never lowers the count of active players.
pub proof fn lemma_active_count_monotone(players: Seq<Player>, a: int, b: int)
    requires
        0 <= a <= b,
    ensures
        active_count(players, a) <= active_count(players, b),
    decreases b - a,
{
    if a < b {
        lemma_active_count_monotone(players, a, b - 1);
    }
}

/// The number of cards of `deck` that would take `hand` over 21: each card
/// is added to the leveled total, less ten again when the hand holds an Ace
/// and the sum is over 21. A hand whose leveled total is already over 21
/// gives `None`: every draw busts it.
pub fn busting_cards(deck: &Deck, hand: &Hand) -> (r: Option<u32>)
    requires
        total_fits(hand.0@),
        deck@.len() <= u32::MAX,
    ensures
        crate::hand::leveled_total(hand.0@) > 21 <==> r is None,
        r is Some ==> r->Some_0 == busting_count(deck@, hand.0@, deck@.len() as int),
{
    let hand_value: u32 = hand.level_off_ace();
    if hand_value > 21 {
        return None;
    }
    let has_ace = hand.contains(Rank::Ace);
    let cards = deck.cards();
    let mut count: u32 = 0;
    let mut i: usize = 0;
    while i < cards.len()
        invariant
            i <= cards@.len(),
            cards@ == deck@,
            cards@.len() <= u32::MAX,
            hand_value == crate::hand::leveled_total(hand.0@),
            hand_value <= 21,
            has_ace == has_rank(hand.0@, Rank::Ace),
            count == busting_count(deck@, hand.0@, i as int),
            count <= i,
        decreases cards@.len() - i,
    {
        let potential_sum: u32 = hand_value + cards[i].value();
        let adjusted_sum: u32 = if has_ace && potential_sum > 21 {
            potential_sum - 10
        } else {
            potential_sum
        };
        if adjusted_sum > 21 {
            count += 1;
        }
        i += 1;
    }
    Some(count)
}

/// Whether drawing `c` onto a hand with leveled total `t` (holding an Ace:
/// `ace`) takes it over 21.
pub open spec fn busts_with(t: nat, ace: bool, c: Card) -> bool {
    let s = t + crate::card::rank_value(c.rank);
    if ace && s > 21 {
        s - 10 > 21
    } else {
        s > 21
    }
}

/// How many of the first `n` cards of `deck` bust `hand`.
pub open spec fn busting_count(deck: Seq<Card>, hand: Seq<Card>, n: int) -> nat
    decreases n,
{
    if n <= 0 {
        0
    } else {
        busting_count(deck, hand, n - 1) + if busts_with(
            crate::hand::leveled_total(hand),
            has_rank(hand, Rank::Ace),
            deck[n - 1],
        ) {
            1nat
        } else {
            0nat
        }
    }
}

} // verus!
