use mana_sim::color::Color;
use mana_sim::deck::Card;
use mana_sim::game::{count_fast_mana, count_lands, keeps, GameState};

fn land(name: &str, color: Color) -> Card {
    Card::Land { name: name.to_string(), produces: vec![color], fetch: false, fetches: vec![], count: 1 }
}

fn spell(name: &str) -> Card {
    Card::Spell {
        name: name.to_string(),
        generic: 1,
        pips: vec![Color::Red],
        features: vec![],
        kind: "Creature".to_string(),
        count: 1,
    }
}

fn ramp(name: &str, generic: u8) -> Card {
    Card::Ramp {
        name: name.to_string(),
        generic,
        produces: vec![Color::Colorless],
        features: vec![],
        count: 1,
    }
}

fn chief() -> Card {
    Card::Commander { name: "Chief".to_string(), generic: 0, pips: vec![], features: vec![] }
}

fn table_of(n: usize, make: fn(&str) -> Card) -> Vec<Card> {
    let mut cards: Vec<Card> = (0..n).map(|i| make(&format!("card {}", i))).collect();
    cards.push(chief());
    cards
}

fn forest(name: &str) -> Card {
    land(name, Color::Green)
}

fn signet(name: &str) -> Card {
    ramp(name, 2)
}

fn state(hand: Vec<usize>, library: Vec<usize>) -> GameState {
    GameState {
        hand,
        battlefield: vec![],
        graveyard: vec![],
        library,
        commander: None,
        recasts: 0,
        lands_played: 0,
        seed: 0,
        shuffles: 0,
    }
}

fn sorted(mut v: Vec<usize>) -> Vec<usize> {
    v.sort();
    v
}

#[test]
fn opening_hand_of_lands_is_mulliganed_to_five() {
    let cards = table_of(99, forest);
    let game = GameState::new(&cards, 7);
    assert_eq!(game.hand.len(), 5);
    assert_eq!(game.library.len(), 94);
    assert_eq!(game.shuffles, 3);
}

#[test]
fn opening_hand_without_mana_stops_at_four() {
    let cards = table_of(99, spell);
    for seed in 0..20 {
        let game = GameState::new(&cards, seed);
        assert_eq!(game.hand.len(), 4);
        assert_eq!(game.library.len(), 95);
        assert_eq!(game.shuffles, 4);
    }
}

#[test]
fn opening_hand_of_fast_mana_is_kept_at_seven() {
    let cards = table_of(99, signet);
    let game = GameState::new(&cards, 3);
    assert_eq!(game.hand.len(), 7);
    assert_eq!(game.library.len(), 92);
    assert_eq!(game.shuffles, 1);
}

#[test]
fn mulligan_never_goes_below_four_or_above_four_shuffles() {
    let mut cards: Vec<Card> = Vec::new();
    for i in 0..99 {
        if i % 3 == 0 {
            cards.push(forest("Forest"));
        } else {
            cards.push(spell("Bolt"));
        }
    }
    cards.push(chief());
    for seed in 0..200 {
        let game = GameState::new(&cards, seed);
        assert!(game.hand.len() >= 4 && game.hand.len() <= 7);
        assert!(game.shuffles >= 1 && game.shuffles <= 4);
        assert_eq!(game.hand.len() as u64 + game.shuffles, 8);
        assert_eq!(game.hand.len() + game.library.len(), 99);
        if game.hand.len() > 4 {
            assert!(keeps(&cards, &game.hand));
        }
    }
}

#[test]
fn small_library_gives_what_it_has() {
    let cards = table_of(3, spell);
    let game = GameState::new(&cards, 1);
    assert_eq!(game.hand.len(), 3);
    assert_eq!(game.library.len(), 0);
    assert_eq!(game.shuffles, 4);
    assert_eq!(sorted(game.hand.clone()), vec![0, 1, 2]);
}

#[test]
fn table_of_a_lone_commander_has_an_empty_library() {
    let cards = vec![chief()];
    let game = GameState::new(&cards, 1);
    assert!(game.hand.is_empty());
    assert!(game.library.is_empty());
    assert_eq!(game.commander, Some(0));
}

#[test]
fn new_game_holds_every_card_once() {
    let cards = table_of(99, spell);
    let game = GameState::new(&cards, 42);
    let mut all = game.hand.clone();
    all.extend(game.library.iter().copied());
    assert_eq!(sorted(all), (0..99).collect::<Vec<usize>>());
    assert_eq!(game.commander, Some(99));
    assert!(game.battlefield.is_empty());
    assert!(game.graveyard.is_empty());
    assert_eq!(game.recasts, 0);
    assert_eq!(game.seed, 42);
}

#[test]
fn new_game_shuffles_the_library() {
    let cards = table_of(99, spell);
    let game = GameState::new(&cards, 42);
    let mut order = game.library.clone();
    order.extend(game.hand.iter().rev().copied());
    assert_ne!(order, (0..99).collect::<Vec<usize>>());
}

#[test]
fn same_seed_gives_the_same_opening() {
    let cards = table_of(99, spell);
    let a = GameState::new(&cards, 5);
    let b = GameState::new(&cards, 5);
    assert_eq!(a.hand, b.hand);
    assert_eq!(a.library, b.library);
    let c = GameState::new(&cards, 6);
    assert_ne!(a.library, c.library);
}

#[test]
fn shuffle_library_keeps_the_cards_and_counts_the_shuffle() {
    let mut game = state(vec![50], (0..40).collect());
    game.seed = 9;
    game.shuffle_library();
    assert_eq!(game.shuffles, 1);
    assert_ne!(game.library, (0..40).collect::<Vec<usize>>());
    assert_eq!(sorted(game.library.clone()), (0..40).collect::<Vec<usize>>());
    assert_eq!(game.hand, vec![50]);
    let first = game.library.clone();
    let mut again = state(vec![50], (0..40).collect());
    again.seed = 9;
    again.shuffle_library();
    assert_eq!(again.library, first);
}

#[test]
fn successive_shuffles_use_different_seeds() {
    let mut once = state(vec![], (0..40).collect());
    once.shuffle_library();
    let mut twice = state(vec![], (0..40).collect());
    twice.shuffles = 1;
    twice.shuffle_library();
    assert_ne!(once.library, twice.library);
    assert_eq!(twice.shuffles, 2);
    let mut shifted = state(vec![], (0..40).collect());
    shifted.seed = 1;
    shifted.shuffle_library();
    assert_eq!(shifted.library, twice.library);
}

#[test]
fn shuffle_counter_wraps_around() {
    let mut game = state(vec![], vec![0, 1, 2]);
    game.seed = u64::MAX;
    game.shuffles = u64::MAX;
    game.shuffle_library();
    assert_eq!(game.shuffles, 0);
    assert_eq!(sorted(game.library.clone()), vec![0, 1, 2]);
}

#[test]
fn draw_takes_from_the_end_of_the_library() {
    let mut game = state(vec![9], vec![1, 2, 3, 4]);
    game.draw(2);
    assert_eq!(game.hand, vec![9, 4, 3]);
    assert_eq!(game.library, vec![1, 2]);
}

#[test]
fn draw_from_a_short_library_gives_what_is_left() {
    let mut game = state(vec![], vec![1, 2]);
    game.draw(5);
    assert_eq!(game.hand, vec![2, 1]);
    assert!(game.library.is_empty());
    game.draw(1);
    assert_eq!(game.hand, vec![2, 1]);
    game.draw(usize::MAX);
    assert_eq!(game.hand, vec![2, 1]);
}

#[test]
fn draw_of_nothing_changes_nothing() {
    let mut game = state(vec![7], vec![1, 2]);
    game.draw(0);
    assert_eq!(game.hand, vec![7]);
    assert_eq!(game.library, vec![1, 2]);
}

#[test]
fn return_hand_puts_the_hand_on_top_in_hand_order() {
    let mut game = state(vec![7, 8], vec![1, 2]);
    game.return_hand();
    assert!(game.hand.is_empty());
    assert_eq!(game.library, vec![1, 2, 7, 8]);
}

#[test]
fn discard_takes_from_the_end_of_the_hand() {
    let mut game = state((0..10).collect(), vec![]);
    game.graveyard = vec![20];
    game.discard_to(7);
    assert_eq!(game.hand, (0..7).collect::<Vec<usize>>());
    assert_eq!(game.graveyard, vec![20, 9, 8, 7]);
}

#[test]
fn discard_leaves_a_small_hand_alone() {
    let mut game = state((0..7).collect(), vec![]);
    game.discard_to(7);
    assert_eq!(game.hand.len(), 7);
    assert!(game.graveyard.is_empty());
    game.discard_to(0);
    assert!(game.hand.is_empty());
    assert_eq!(game.graveyard, vec![6, 5, 4, 3, 2, 1, 0]);
}

#[test]
fn keep_rule_counts_lands_and_fast_mana() {
    let cards = vec![
        forest("a"),
        forest("b"),
        forest("c"),
        forest("d"),
        forest("e"),
        forest("f"),
        signet("g"),
        ramp("h", 3),
        spell("i"),
        spell("j"),
    ];
    assert_eq!(count_lands(&cards, &vec![0, 6, 8, 1]), 2);
    assert_eq!(count_fast_mana(&cards, &vec![0, 6, 7, 6]), 2);
    assert!(keeps(&cards, &vec![0, 1, 2, 8, 9, 8, 9]));
    assert!(keeps(&cards, &vec![0, 1, 6, 8, 9, 8, 9]));
    assert!(keeps(&cards, &vec![6, 6, 6, 8, 9, 8, 9]));
    assert!(!keeps(&cards, &vec![0, 1, 7, 8, 9, 8, 9]));
    assert!(!keeps(&cards, &vec![0, 1, 8, 9, 8, 9, 8]));
    assert!(keeps(&cards, &vec![0, 1, 2, 3, 4, 8, 9]));
    assert!(!keeps(&cards, &vec![0, 1, 2, 3, 4, 5, 9]));
    assert!(!keeps(&cards, &vec![0, 1, 2, 3, 4, 5, 6]));
    assert!(!keeps(&cards, &vec![]));
}
