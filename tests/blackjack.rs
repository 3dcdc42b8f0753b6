use deckbuilder::betting::{begin_betting, bet_step, mark_bankruptcies, BetAction, BetStep};
use deckbuilder::card::{Card, Rank, Suit};
use deckbuilder::chips::{Balance, Bet, Chip, IntoChips, Loadout};
use deckbuilder::deck::Deck;
use deckbuilder::hand::Hand;
use deckbuilder::round::{
    apply_move, busting_cards, deal_round, dealer_logic, finish_round, round_outcome, settle_player,
    settle_results, Move, MoveOutcome, Outcome,
};
use deckbuilder::table::{game_over, Player, Table};
use deckbuilder::DeckError;

fn card(rank: Rank) -> Card {
    Card::new(Suit::Clubs, rank, false)
}

fn hand_of(ranks: &[Rank]) -> Hand {
    Hand(ranks.iter().map(|r| card(*r)).collect(), false)
}

fn chips_sum(chips: &[Chip]) -> u32 {
    chips.iter().map(|c| c.value()).sum()
}

fn player_with(id: u32, balance: u32, bet: u32) -> Player {
    Player(id, Balance(balance.into_chips()), Bet(bet.into_chips()), true)
}

#[test]
fn build_deck_test() {
    let knack_deck: Deck = Deck::build(1);
    let poker_deck: Deck = Deck::build(2);
    println!("{:?}", knack_deck);
    println!("{:?}", poker_deck);
    assert_eq!(knack_deck.total_cards(), 52);
    assert_eq!(poker_deck.total_cards(), 104);
}

#[test]
fn shuffle_deck_test() {
    let mut deck: Deck = Deck::build(1);
    deck.shuffle();
    println!("{:?}", deck);
    assert_eq!(deck.total_cards(), 52);
}

#[test]
fn test_hiding() {
    let mut card: Card = Card { suit: Suit::Clubs, rank: Rank::Ace, hidden: false };
    card.conceal();
    assert!(card.is_hidden());
    let shown = card.unveil();
    assert!(!card.is_hidden());
    assert_eq!(shown, card);
    assert_eq!(card.value(), 11);
}

#[test]
fn build_gives_full_distinct_visible_blocks() {
    for m in 1..4u32 {
        let deck = Deck::build(m);
        let cards = deck.cards();
        assert_eq!(cards.len(), 52 * m as usize);
        assert!(cards.iter().all(|c| !c.is_hidden()));
        for block in cards.chunks(52) {
            let mut keys: Vec<(Suit, Rank)> = block.iter().map(|c| (c.suit(), c.rank())).collect();
            keys.sort();
            keys.dedup();
            assert_eq!(keys.len(), 52);
        }
    }
    assert_eq!(Deck::build(0).total_cards(), 0);
}

#[test]
fn build_order_is_fixed() {
    let deck = Deck::build(1);
    let cards = deck.cards();
    assert_eq!(cards[0], Card::new(Suit::Hearts, Rank::Two, false));
    assert_eq!(cards[13], Card::new(Suit::Diamonds, Rank::Two, false));
    assert_eq!(cards[51], Card::new(Suit::Spades, Rank::Ace, false));
}

#[test]
fn shuffle_keeps_the_cards() {
    let mut deck = Deck::build(2);
    let mut before: Vec<Card> = deck.cards().clone();
    deck.shuffle();
    let mut after: Vec<Card> = deck.cards().clone();
    before.sort();
    after.sort();
    assert_eq!(before, after);
}

#[test]
fn shuffle_with_given_draws() {
    let fresh = Deck::build(1).cards().clone();
    let identity: Vec<usize> = (0..52).map(|k| 51 - k).collect();
    let mut same = Deck::build(1);
    same.shuffle_with(&identity);
    assert_eq!(*same.cards(), fresh);
    let mut first_swapped = identity.clone();
    first_swapped[0] = 0;
    let mut deck = Deck::build(1);
    deck.shuffle_with(&first_swapped);
    assert_eq!(deck.cards()[51], Card::new(Suit::Hearts, Rank::Two, false));
    assert_eq!(deck.cards()[0], Card::new(Suit::Spades, Rank::Ace, false));
    assert_eq!(deck.cards()[1..51], fresh[1..51]);
    // All zeros: each step brings the bottom card up to the position handled.
    let zeros: Vec<usize> = vec![0; 52];
    let mut rotated = Deck::build(1);
    rotated.shuffle_with(&zeros);
    assert_eq!(rotated.cards()[51], fresh[0]);
    assert_eq!(rotated.cards()[50], fresh[51]);
}

#[test]
fn shuffles_vary() {
    let fresh = Deck::build(1).cards().clone();
    let mut orders: Vec<Vec<Card>> = Vec::new();
    for _ in 0..5 {
        let mut deck = Deck::build(1);
        deck.shuffle();
        orders.push(deck.cards().clone());
    }
    assert!(orders.iter().any(|o| *o != fresh));
    assert!(orders.iter().any(|o| *o != orders[0]));
}

#[test]
fn reshuffle_rebuilds() {
    let mut deck = Deck::build(1);
    let mut hand = Hand::new();
    hand.draw_from(&mut deck).unwrap();
    deck.reshuffle(2);
    assert_eq!(deck.total_cards(), 104);
}

#[test]
fn ace_king_is_blackjack() {
    let hand = hand_of(&[Rank::Ace, Rank::King]);
    assert_eq!(hand.sum(), 21);
    assert!(hand.is_blackjack());
}

#[test]
fn ace_king_two_levels_to_thirteen() {
    let hand = hand_of(&[Rank::Ace, Rank::King, Rank::Two]);
    assert_eq!(hand.sum(), 23);
    assert_eq!(hand.level_off_ace(), 13);
    assert!(!hand.is_blackjack());
}

#[test]
fn two_aces_level_once() {
    let hand = hand_of(&[Rank::Ace, Rank::Ace, Rank::King]);
    assert_eq!(hand.level_off_ace(), 22);
}

#[test]
fn bust_threshold() {
    let hand = Hand::new();
    assert!(hand.is_bust(22));
    assert!(!hand.is_bust(21));
}

#[test]
fn check_marks_bust() {
    let mut hand = hand_of(&[Rank::King, Rank::Queen, Rank::Five]);
    assert!(hand.check());
    assert!(hand.busted());
    let mut soft = hand_of(&[Rank::Ace, Rank::King, Rank::Five]);
    assert!(!soft.check());
    assert!(!soft.busted());
    let mut natural = hand_of(&[Rank::Ace, Rank::Jack]);
    assert!(natural.check());
    assert!(!natural.busted());
}

#[test]
fn contains_and_last() {
    let hand = hand_of(&[Rank::Two, Rank::Nine]);
    assert!(hand.contains(Rank::Nine));
    assert!(!hand.contains(Rank::Ace));
    assert_eq!(hand.last().unwrap().rank(), Rank::Nine);
    assert_eq!(hand.last_index(), 1);
    assert_eq!(Hand::new().last().unwrap_err(), DeckError::EmptyDeck);
}

#[test]
fn compare_uses_hard_totals() {
    let soft = hand_of(&[Rank::Ace, Rank::Ace]);
    let twenty = hand_of(&[Rank::King, Rank::Queen]);
    assert_eq!(soft.compare_to(&twenty).unwrap(), std::cmp::Ordering::Greater);
    assert_eq!(twenty.compare_to(&soft).unwrap(), std::cmp::Ordering::Less);
    assert_eq!(twenty.compare_to(&twenty).unwrap(), std::cmp::Ordering::Equal);
}

#[test]
fn draw_from_empty_deck_fails() {
    let mut deck = Deck::build(0);
    let mut hand = Hand::new();
    assert_eq!(hand.draw_from(&mut deck).unwrap_err(), DeckError::EmptyDeck);
    assert_eq!(hand.draw_from_hidden(&mut deck).unwrap_err(), DeckError::EmptyDeck);
    assert_eq!(hand.0.len(), 0);
}

#[test]
fn draws_take_the_top() {
    let mut deck = Deck::build(1);
    let mut hand = Hand::new();
    let first = hand.draw_from(&mut deck).unwrap();
    assert_eq!(first, Card::new(Suit::Spades, Rank::Ace, false));
    let second = hand.draw_from_hidden(&mut deck).unwrap();
    assert_eq!(second, Card::new(Suit::Spades, Rank::King, true));
    assert_eq!(hand.0, vec![first, second]);
    assert_eq!(deck.total_cards(), 50);
}

#[test]
fn deal_hand_in_draw_order() {
    let mut deck = Deck::build(1);
    let hand = deck.deal_hand(2).unwrap();
    assert_eq!(hand.0[0].rank(), Rank::Ace);
    assert_eq!(hand.0[1].rank(), Rank::King);
    assert!(!hand.busted());
    assert_eq!(deck.total_cards(), 50);
    let mut small = Deck::build(1);
    assert_eq!(small.deal_hand(53).unwrap_err(), DeckError::EmptyDeck);
    assert_eq!(small.total_cards(), 0);
}

#[test]
fn dealer_stands_on_hard_17_when_soft_17_not_hit() {
    let mut deck = Deck::build(1);
    let mut hand = hand_of(&[Rank::Ten, Rank::Seven]);
    dealer_logic(&mut deck, &mut hand, false).unwrap();
    assert_eq!(hand.0.len(), 2);
    assert_eq!(deck.total_cards(), 52);
}

#[test]
fn dealer_stands_on_soft_17_when_not_hit() {
    let mut deck = Deck::build(1);
    let mut hand = hand_of(&[Rank::Ace, Rank::Six]);
    dealer_logic(&mut deck, &mut hand, false).unwrap();
    assert_eq!(hand.0.len(), 2);
    assert!(!hand.busted());
}

#[test]
fn dealer_with_soft_17_flag_set() {
    let mut deck = Deck::build(1);
    let mut hard = hand_of(&[Rank::Ten, Rank::Seven]);
    dealer_logic(&mut deck, &mut hard, true).unwrap();
    assert_eq!(hard.0.len(), 2);
    assert!(!hard.busted());
    assert_eq!(deck.total_cards(), 52);
    let mut soft = hand_of(&[Rank::Ace, Rank::Six]);
    dealer_logic(&mut deck, &mut soft, true).unwrap();
    // Draws the Ace of spades: hard 28, which the dealer's hard total busts.
    assert_eq!(soft.0.len(), 3);
    assert_eq!(soft.0[2], Card::new(Suit::Spades, Rank::Ace, false));
    assert!(soft.busted());
}

#[test]
fn dealer_stands_on_hard_17_with_empty_deck() {
    let mut deck = Deck::build(0);
    let mut hard = hand_of(&[Rank::Ten, Rank::Seven]);
    assert_eq!(dealer_logic(&mut deck, &mut hard, true), Ok(()));
    let mut soft = hand_of(&[Rank::Ace, Rank::Six]);
    assert_eq!(dealer_logic(&mut deck, &mut soft, true), Err(DeckError::EmptyDeck));
}

#[test]
fn dealer_turns_hole_card_up() {
    let mut deck = Deck::build(1);
    let mut dealer = Hand::new();
    dealer.draw_from(&mut deck).unwrap();
    dealer.draw_from_hidden(&mut deck).unwrap();
    assert!(dealer.0[1].is_hidden());
    dealer_logic(&mut deck, &mut dealer, false).unwrap();
    assert!(dealer.0.iter().all(|c| !c.is_hidden()));
    assert_eq!(dealer.0[1], Card::new(Suit::Spades, Rank::King, false));
}

#[test]
fn dealer_draws_below_17() {
    let mut deck = Deck::build(1);
    let mut hand = hand_of(&[Rank::Two, Rank::Three]);
    dealer_logic(&mut deck, &mut hand, false).unwrap();
    // Ace of spades (16), then King of spades (26): bust.
    assert_eq!(hand.0.len(), 4);
    assert_eq!(hand.sum(), 26);
    assert!(hand.busted());
    let mut empty = Deck::build(0);
    let mut short = hand_of(&[Rank::Two]);
    assert_eq!(dealer_logic(&mut empty, &mut short, false).unwrap_err(), DeckError::EmptyDeck);
}

#[test]
fn into_chips_round_trip() {
    for v in [0u32, 1, 4, 5, 17, 99, 100, 499, 500, 1234, 99999, 1_000_003] {
        assert_eq!(chips_sum(&v.into_chips()), v);
    }
}

#[test]
fn into_chips_is_greedy() {
    let chips = 1666u32.into_chips();
    assert_eq!(
        chips,
        vec![Chip::C1000, Chip::C500, Chip::C100, Chip::C25, Chip::C25, Chip::C10, Chip::C5, Chip::C1]
    );
    assert_eq!(0u32.into_chips(), vec![]);
}

#[test]
fn loadouts_and_sums() {
    let euro = Chip::from_loadout(Loadout::Euro5);
    assert_eq!(euro.sum(), 500);
    assert_eq!(euro.0.len(), 18);
    let custom = Chip::from_loadout(Loadout::CustomLoadout(vec![Chip::C25, Chip::C1000]));
    assert_eq!(custom.sum(), 1025);
    assert_eq!(Bet(vec![Chip::C5, Chip::C10]).sum(), 15);
    assert_eq!(Chip::all_chips().len(), 7);
    assert_eq!(Chip::C500.value(), 500);
}

#[test]
fn payout_player_busts() {
    let mut p = player_with(0, 500, 100);
    let mut hand = hand_of(&[Rank::King, Rank::Queen, Rank::Five]);
    hand.1 = true;
    let dealer = hand_of(&[Rank::Ten, Rank::Nine]);
    assert_eq!(settle_player(&mut p, &hand, &dealer), Outcome::Busted);
    assert_eq!(p.get_balance(), 400);
}

#[test]
fn payout_dealer_busts() {
    let mut p = player_with(0, 500, 100);
    let hand = hand_of(&[Rank::Ten, Rank::Two]);
    let mut dealer = hand_of(&[Rank::King, Rank::Queen, Rank::Five]);
    dealer.1 = true;
    assert_eq!(settle_player(&mut p, &hand, &dealer), Outcome::DealerBusted);
    assert_eq!(p.get_balance(), 700);
}

#[test]
fn payout_blackjack() {
    let mut p = player_with(0, 500, 100);
    let hand = hand_of(&[Rank::Ace, Rank::King]);
    let dealer = hand_of(&[Rank::Ace, Rank::Queen]);
    assert_eq!(settle_player(&mut p, &hand, &dealer), Outcome::Blackjack);
    assert_eq!(p.get_balance(), 700);
}

#[test]
fn payout_push_and_compare() {
    let mut p = player_with(0, 500, 100);
    let hand = hand_of(&[Rank::Ten, Rank::Eight]);
    let dealer = hand_of(&[Rank::Nine, Rank::Nine]);
    assert_eq!(settle_player(&mut p, &hand, &dealer), Outcome::Push);
    assert_eq!(p.get_balance(), 500);
    let low = hand_of(&[Rank::Ten, Rank::Seven]);
    assert_eq!(round_outcome(&low, &dealer), Outcome::Loss);
    assert_eq!(round_outcome(&hand, &low), Outcome::Win);
}

#[test]
fn settle_results_skips_inactive() {
    let mut table = Table(vec![player_with(0, 500, 100), player_with(1, 300, 50)]);
    table.0[1].bankrupt();
    let hands = vec![hand_of(&[Rank::Ten, Rank::Nine]), hand_of(&[Rank::Ten, Rank::Nine])];
    let dealer = hand_of(&[Rank::Ten, Rank::Eight]);
    let results = settle_results(&mut table, &hands, &dealer);
    assert_eq!(results, vec![Some(Outcome::Win), None]);
    assert_eq!(table.0[0].get_balance(), 700);
    assert_eq!(table.0[1].get_balance(), 300);
}

#[test]
fn moves_follow_the_rules() {
    let mut deck = Deck::build(1);
    let mut hand = hand_of(&[Rank::Two, Rank::Three]);
    assert_eq!(apply_move(&mut hand, &mut deck, Move::DoubleDown, 2), Ok(MoveOutcome::Refused));
    assert_eq!(hand.0.len(), 2);
    assert_eq!(apply_move(&mut hand, &mut deck, Move::Hit, 1), Ok(MoveOutcome::Continue));
    assert_eq!(hand.sum(), 16);
    // King of spades: hard 26, leveled 16 with the Ace.
    assert_eq!(apply_move(&mut hand, &mut deck, Move::Hit, 2), Ok(MoveOutcome::Continue));
    assert_eq!(hand.level_off_ace(), 16);
    // Queen of spades: hard 36, leveled 26.
    assert_eq!(apply_move(&mut hand, &mut deck, Move::Hit, 3), Ok(MoveOutcome::TurnOver));
    assert!(hand.busted());
    let mut other = hand_of(&[Rank::Two, Rank::Three]);
    assert_eq!(apply_move(&mut other, &mut deck, Move::DoubleDown, 1), Ok(MoveOutcome::TurnOver));
    assert_eq!(other.0.len(), 3);
    assert_eq!(apply_move(&mut other, &mut deck, Move::Stand, 2), Ok(MoveOutcome::TurnOver));
    let mut empty = Deck::build(0);
    assert_eq!(apply_move(&mut other, &mut empty, Move::Hit, 3), Err(DeckError::EmptyDeck));
}

#[test]
fn betting_steps() {
    let mut bet = Bet(vec![]);
    assert_eq!(bet_step(&mut bet, 30, BetAction::Confirm), BetStep::Refused);
    assert_eq!(bet_step(&mut bet, 30, BetAction::Place(Chip::C10)), BetStep::Continue);
    assert_eq!(bet_step(&mut bet, 30, BetAction::Place(Chip::C25)), BetStep::Clamped);
    assert_eq!(bet.sum(), 30);
    let mut exact = Bet(vec![Chip::C5]);
    assert_eq!(bet_step(&mut exact, 10, BetAction::Place(Chip::C5)), BetStep::Done);
    let mut all = Bet(vec![]);
    assert_eq!(bet_step(&mut all, 137, BetAction::AllIn), BetStep::Done);
    assert_eq!(all.sum(), 137);
    assert_eq!(bet_step(&mut all, 137, BetAction::Confirm), BetStep::Done);
}

#[test]
fn busting_cards_counts() {
    let deck = Deck::build(1);
    // 12: a card worth 10 or 11 busts (16 tens, 4 aces); nothing softens it.
    assert_eq!(busting_cards(&deck, &hand_of(&[Rank::Ten, Rank::Two])), Some(20));
    assert_eq!(busting_cards(&deck, &hand_of(&[Rank::Ten, Rank::Nine, Rank::Five])), None);
    assert_eq!(busting_cards(&deck, &hand_of(&[Rank::Ace, Rank::Two])), Some(0));
}

#[test]
fn table_lookup() {
    let mut table = Table::seat_players(3, &Loadout::Euro5);
    assert_eq!(table.get_player_by_id(2).unwrap().0, 2);
    assert!(table.get_player_by_id(7).is_none());
    table.get_mut_player_by_id(1).unwrap().bankrupt();
    assert!(!table.0[1].is_active());
    assert!(table.get_mut_player_by_id(9).is_none());
    assert_eq!(DeckError::ErrorWhileBetting.to_string(), "error while betting");
}

#[test]
fn two_player_game_with_bankruptcy() {
    let mut table = Table::seat_players(2, &Loadout::Euro5);
    assert!(!begin_betting(&mut table));
    // Player 1 goes all in and busts; player 2 bets 100 and pushes.
    let mut all_in = Bet(vec![]);
    assert_eq!(bet_step(&mut all_in, table.0[0].get_balance(), BetAction::AllIn), BetStep::Done);
    table.0[0].2 = all_in;
    table.0[1].2 = Bet(vec![Chip::C100]);
    let mut busted = hand_of(&[Rank::King, Rank::Queen, Rank::Five]);
    busted.1 = true;
    let hands = vec![busted, hand_of(&[Rank::Ten, Rank::Eight])];
    let dealer = hand_of(&[Rank::Nine, Rank::Nine]);
    settle_results(&mut table, &hands, &dealer);
    assert_eq!(table.0[0].get_balance(), 0);
    assert_eq!(table.0[1].get_balance(), 500);
    assert_eq!(mark_bankruptcies(&mut table), vec![0]);
    assert!(!table.0[0].is_active());
    assert!(!game_over(&table.0));

    // Next round: player 1 is skipped when dealing and settling.
    assert!(!begin_betting(&mut table));
    let mut deck = Deck::build(2);
    let (dealer, hands) = deal_round(&mut deck, &table.0).unwrap();
    assert_eq!(dealer.0.len(), 2);
    assert!(dealer.0[1].is_hidden());
    assert_eq!(hands[0].0.len(), 0);
    assert_eq!(hands[1].0.len(), 2);
    assert_eq!(deck.total_cards(), 100);
    let results = settle_results(&mut table, &hands, &dealer);
    assert_eq!(results[0], None);

    // Once player 2 is out too, the game is over.
    table.0[1].1 = Balance(vec![]);
    assert_eq!(mark_bankruptcies(&mut table), vec![1]);
    assert!(game_over(&table.0));
    assert!(begin_betting(&mut table));
}

#[test]
fn finish_round_settles_and_retires() {
    let mut table = Table(vec![player_with(0, 100, 100), player_with(1, 300, 50), player_with(2, 40, 10)]);
    table.0[2].bankrupt();
    let mut busted = hand_of(&[Rank::King, Rank::Queen, Rank::Five]);
    busted.1 = true;
    let hands = vec![busted, hand_of(&[Rank::Ten, Rank::Nine]), hand_of(&[Rank::Ten, Rank::Nine])];
    let dealer = hand_of(&[Rank::Ten, Rank::Eight]);
    let (outcomes, out) = finish_round(&mut table, &hands, &dealer);
    assert_eq!(outcomes, vec![Some(Outcome::Busted), Some(Outcome::Win), None]);
    assert_eq!(out, vec![0]);
    assert!(!table.0[0].is_active());
    assert_eq!(table.0[1].get_balance(), 400);
    assert!(table.0[1].is_active());
    assert_eq!(table.0[2].get_balance(), 40);
    assert!(!table.0[2].is_active());
}

#[test]
fn deal_round_needs_enough_cards() {
    let table = Table::seat_players(30, &Loadout::Euro5);
    let mut deck = Deck::build(1);
    assert_eq!(deal_round(&mut deck, &table.0).unwrap_err(), DeckError::EmptyDeck);
}
