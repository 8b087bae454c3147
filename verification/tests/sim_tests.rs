use mana_sim::cast::Greedy;
use mana_sim::color::Color;
use mana_sim::deck::{Card, DeckFile, Feature};
use mana_sim::sim::{build_table, run, run_with_seeds, simulate_game};
use mana_sim::stats::{most_frequent, take_sample, total_turn, Stats};
use mana_sim::turn::{Outcome, TurnSnapshot};

fn forests(count: u8) -> Card {
    Card::Land {
        name: "Forest".to_string(),
        produces: vec![Color::Green],
        fetch: false,
        fetches: vec![],
        count,
    }
}

fn bolts(count: u8) -> Card {
    Card::Spell {
        name: "Bolt".to_string(),
        generic: 1,
        pips: vec![Color::Red],
        features: vec![],
        kind: "Instant".to_string(),
        count,
    }
}

fn bears(count: u8) -> Card {
    Card::Spell {
        name: "Bear".to_string(),
        generic: 1,
        pips: vec![Color::Green],
        features: vec![Feature::Draw { cards: 1 }],
        kind: "Creature".to_string(),
        count,
    }
}

fn chief(generic: u8) -> Card {
    Card::Commander { name: "Chief".to_string(), generic, pips: vec![], features: vec![] }
}

fn deck(cards: Vec<Card>) -> DeckFile {
    DeckFile { name: "test".to_string(), cards }
}

fn snapshot(status: Outcome, available: u32, spent: u32, cast: u32, hand: usize) -> TurnSnapshot {
    TurnSnapshot {
        turn: 0,
        hand: (0..hand).collect(),
        battlefield: vec![],
        played_cards: vec![],
        mana_available: available,
        mana_spent: spent,
        cards_cast: cast,
        status,
    }
}

fn copy(s: &TurnSnapshot) -> TurnSnapshot {
    TurnSnapshot {
        turn: s.turn,
        hand: s.hand.clone(),
        battlefield: s.battlefield.clone(),
        played_cards: s.played_cards.clone(),
        mana_available: s.mana_available,
        mana_spent: s.mana_spent,
        cards_cast: s.cards_cast,
        status: s.status,
    }
}

fn same_turn(a: &TurnSnapshot, b: &TurnSnapshot) -> bool {
    a.turn == b.turn
        && a.hand == b.hand
        && a.battlefield == b.battlefield
        && a.played_cards == b.played_cards
        && a.mana_available == b.mana_available
        && a.mana_spent == b.mana_spent
        && a.cards_cast == b.cards_cast
        && a.status == b.status
}

fn sample_logs() -> Vec<Vec<TurnSnapshot>> {
    vec![
        vec![snapshot(Outcome::Screw, 0, 0, 0, 7), snapshot(Outcome::Normal, 2, 2, 1, 6)],
        vec![snapshot(Outcome::Flood, 1, 0, 0, 5), snapshot(Outcome::Flood, 6, 1, 1, 4)],
        vec![snapshot(Outcome::Screw, 0, 0, 0, 4), snapshot(Outcome::Screw, 0, 0, 0, 5)],
        vec![snapshot(Outcome::Normal, 1, 1, 1, 6), snapshot(Outcome::Normal, 2, 2, 2, 3)],
    ]
}

fn copy_logs(logs: &Vec<Vec<TurnSnapshot>>) -> Vec<Vec<TurnSnapshot>> {
    logs.iter().map(|log| log.iter().map(copy).collect()).collect()
}

#[test]
fn table_is_the_deck_followed_by_the_commander() {
    let d = deck(vec![forests(40), chief(3), bolts(59)]);
    let cards = build_table(&d);
    assert_eq!(cards.len(), 100);
    assert!(cards[..40].iter().all(|c| c.is_land()));
    assert!(cards[40..99].iter().all(|c| c.is_spell()));
    assert!(cards[99].is_commander());
}

#[test]
fn deck_of_lands_floods_after_the_commander_is_cast() {
    let d = deck(vec![chief(0), forests(99)]);
    assert_eq!(d.validate(), Ok(()));
    let cards = build_table(&d);
    for seed in 0..10 {
        let log = simulate_game(&Greedy, &cards, seed, 12);
        assert_eq!(log.len(), 12);
        assert_eq!(log[0].status, Outcome::Normal);
        assert_eq!(log[0].cards_cast, 1);
        assert_eq!(log[0].played_cards.len(), 2);
        assert_eq!(log[0].played_cards[1], 99);
        for (t, turn) in log.iter().enumerate() {
            assert_eq!(turn.turn, t + 1);
            assert_eq!(turn.mana_available, t as u32 + 1);
            assert_eq!(turn.mana_spent, 0);
            assert!(turn.status == Outcome::Flood || turn.status == Outcome::Normal);
            if t > 0 {
                assert_eq!(turn.status, Outcome::Flood);
                assert_eq!(turn.cards_cast, 0);
            }
        }
    }
}

#[test]
fn deck_of_lands_has_full_flood_rate_after_turn_one() {
    let d = deck(vec![chief(0), forests(99)]);
    let stats = run(&d, 50, 6);
    assert_eq!(stats.games, 50);
    assert_eq!(stats.ok, vec![50, 0, 0, 0, 0, 0]);
    assert_eq!(stats.flood, vec![0, 50, 50, 50, 50, 50]);
    assert_eq!(stats.screw, vec![0; 6]);
    assert_eq!(stats.cards_cast, vec![50, 0, 0, 0, 0, 0]);
    assert_eq!(stats.mana_available, vec![50, 100, 150, 200, 250, 300]);
    assert_eq!(stats.mana_spent, vec![0; 6]);
    assert_eq!(stats.hand_size, vec![250, 250, 250, 250, 250, 250]);
}

#[test]
fn deck_without_lands_is_always_screwed() {
    let d = deck(vec![bolts(99), chief(0)]);
    assert_eq!(d.validate(), Ok(()));
    let stats = run(&d, 40, 10);
    assert_eq!(stats.screw, vec![40; 10]);
    assert_eq!(stats.flood, vec![0; 10]);
    assert_eq!(stats.ok, vec![0; 10]);
    assert_eq!(stats.cards_cast, vec![0; 10]);
    assert_eq!(stats.mana_available, vec![0; 10]);
    assert_eq!(stats.mana_spent, vec![0; 10]);
    assert_eq!(stats.hand_size, vec![200, 240, 280, 280, 280, 280, 280, 280, 280, 280]);
}

#[test]
fn same_seed_replays_the_same_game() {
    let d = deck(vec![forests(36), bears(40), bolts(23), chief(4)]);
    let cards = build_table(&d);
    for seed in [0, 1, 77, u64::MAX] {
        let a = simulate_game(&Greedy, &cards, seed, 15);
        let b = simulate_game(&Greedy, &cards, seed, 15);
        assert_eq!(a.len(), 15);
        assert!(a.iter().zip(b.iter()).all(|(x, y)| same_turn(x, y)));
    }
}

#[test]
fn different_seeds_give_different_games() {
    let d = deck(vec![forests(36), bears(40), bolts(23), chief(4)]);
    let cards = build_table(&d);
    let a = simulate_game(&Greedy, &cards, 1, 10);
    let b = simulate_game(&Greedy, &cards, 2, 10);
    assert!(!a.iter().zip(b.iter()).all(|(x, y)| same_turn(x, y)));
}

#[test]
fn game_of_no_turns_has_an_empty_record() {
    let d = deck(vec![forests(99), chief(4)]);
    let cards = build_table(&d);
    assert!(simulate_game(&Greedy, &cards, 1, 0).is_empty());
}

#[test]
fn game_keeps_its_numbers_in_bounds() {
    let d = deck(vec![forests(36), bears(40), bolts(23), chief(4)]);
    let cards = build_table(&d);
    for seed in 0..30 {
        for turn in simulate_game(&Greedy, &cards, seed, 20) {
            assert!(turn.mana_spent <= turn.mana_available);
            assert!(turn.hand.len() <= 7);
            assert!(turn.battlefield.len() <= 100);
            assert!(turn.cards_cast as usize <= turn.played_cards.len());
            assert!(turn.played_cards.len() <= turn.cards_cast as usize + 1);
            assert!(turn.hand.iter().all(|&i| i < 100));
        }
    }
}

#[test]
fn run_with_seeds_plays_one_game_for_each_seed_in_order() {
    let d = deck(vec![forests(36), bears(40), bolts(23), chief(4)]);
    let cards = build_table(&d);
    let seeds: Vec<u64> = vec![5, 9, 5, 1000, 2, 3, 4];
    let stats = run_with_seeds(&d, &seeds, 8);
    assert_eq!(stats.games, 7);
    assert_eq!(stats.example_traces.len(), 5);
    for (i, trace) in stats.example_traces.iter().enumerate() {
        let log = simulate_game(&Greedy, &cards, seeds[i], 8);
        assert_eq!(trace.turns.len(), 8);
        assert!(trace.turns.iter().zip(log.iter()).all(|(x, y)| same_turn(x, y)));
        assert_eq!(trace.final_status, most_frequent(&log));
    }
    let logs: Vec<Vec<TurnSnapshot>> = seeds.iter().map(|s| simulate_game(&Greedy, &cards, *s, 8)).collect();
    let expected = Stats::collect(logs, 8);
    assert_eq!(stats.screw, expected.screw);
    assert_eq!(stats.flood, expected.flood);
    assert_eq!(stats.ok, expected.ok);
    assert_eq!(stats.mana_available, expected.mana_available);
    assert_eq!(stats.mana_spent, expected.mana_spent);
    assert_eq!(stats.cards_cast, expected.cards_cast);
    assert_eq!(stats.hand_size, expected.hand_size);
}

#[test]
fn run_with_seeds_is_the_same_every_time() {
    let d = deck(vec![forests(36), bears(40), bolts(23), chief(4)]);
    let seeds: Vec<u64> = (100..160).collect();
    let a = run_with_seeds(&d, &seeds, 10);
    let b = run_with_seeds(&d, &seeds, 10);
    assert_eq!(a.screw, b.screw);
    assert_eq!(a.flood, b.flood);
    assert_eq!(a.ok, b.ok);
    assert_eq!(a.mana_spent, b.mana_spent);
    assert_eq!(a.hand_size, b.hand_size);
}

#[test]
fn run_counts_every_game_at_every_turn() {
    let d = deck(vec![forests(36), bears(40), bolts(23), chief(4)]);
    let stats = run(&d, 64, 9);
    assert_eq!(stats.games, 64);
    assert_eq!(stats.screw.len(), 9);
    for t in 0..9 {
        assert_eq!(stats.screw[t] + stats.flood[t] + stats.ok[t], 64);
        assert!(stats.mana_spent[t] <= stats.mana_available[t]);
        assert!(stats.hand_size[t] <= 7 * 64);
    }
    assert_eq!(stats.example_traces.len(), 5);
}

#[test]
fn run_of_no_games_or_no_turns_is_empty() {
    let d = deck(vec![forests(99), chief(4)]);
    let none = run(&d, 0, 3);
    assert_eq!(none.games, 0);
    assert_eq!(none.screw, vec![0, 0, 0]);
    assert_eq!(none.hand_size, vec![0, 0, 0]);
    assert!(none.example_traces.is_empty());
    let short = run(&d, 3, 0);
    assert_eq!(short.games, 3);
    assert!(short.screw.is_empty());
    assert_eq!(short.example_traces.len(), 3);
    assert!(short.example_traces.iter().all(|t| t.turns.is_empty()));
}

#[test]
fn new_stats_are_all_zero() {
    let stats = Stats::new(4);
    assert_eq!(stats.games, 0);
    assert_eq!(stats.screw, vec![0; 4]);
    assert_eq!(stats.flood, vec![0; 4]);
    assert_eq!(stats.ok, vec![0; 4]);
    assert_eq!(stats.mana_available, vec![0; 4]);
    assert_eq!(stats.mana_spent, vec![0; 4]);
    assert_eq!(stats.cards_cast, vec![0; 4]);
    assert_eq!(stats.hand_size, vec![0; 4]);
    assert!(stats.example_traces.is_empty());
    assert!(Stats::new(0).screw.is_empty());
}

#[test]
fn collect_adds_up_each_turn() {
    let stats = Stats::collect(sample_logs(), 2);
    assert_eq!(stats.games, 4);
    assert_eq!(stats.screw, vec![2, 1]);
    assert_eq!(stats.flood, vec![1, 1]);
    assert_eq!(stats.ok, vec![1, 2]);
    assert_eq!(stats.mana_available, vec![2, 10]);
    assert_eq!(stats.mana_spent, vec![1, 5]);
    assert_eq!(stats.cards_cast, vec![1, 4]);
    assert_eq!(stats.hand_size, vec![22, 18]);
    assert_eq!(stats.example_traces.len(), 4);
}

#[test]
fn total_turn_adds_up_one_turn() {
    let sum = total_turn(&sample_logs(), 1);
    assert_eq!((sum.screw, sum.flood, sum.ok), (1, 1, 2));
    assert_eq!(sum.mana_available, 10);
    assert_eq!(sum.mana_spent, 5);
    assert_eq!(sum.cards_cast, 4);
    assert_eq!(sum.hand_size, 18);
}

#[test]
fn collect_does_not_depend_on_the_order_of_the_games() {
    let logs = sample_logs();
    let straight = Stats::collect(copy_logs(&logs), 2);
    let orders: [[usize; 4]; 4] = [[3, 2, 1, 0], [1, 0, 3, 2], [2, 0, 3, 1], [0, 3, 1, 2]];
    for order in orders {
        let shuffled: Vec<Vec<TurnSnapshot>> =
            order.iter().map(|&i| logs[i].iter().map(copy).collect()).collect();
        let stats = Stats::collect(shuffled, 2);
        assert_eq!(stats.games, straight.games);
        assert_eq!(stats.screw, straight.screw);
        assert_eq!(stats.flood, straight.flood);
        assert_eq!(stats.ok, straight.ok);
        assert_eq!(stats.mana_available, straight.mana_available);
        assert_eq!(stats.mana_spent, straight.mana_spent);
        assert_eq!(stats.cards_cast, straight.cards_cast);
        assert_eq!(stats.hand_size, straight.hand_size);
    }
}

#[test]
fn collect_takes_the_largest_values_without_overflow() {
    let logs: Vec<Vec<TurnSnapshot>> = (0..3)
        .map(|_| vec![snapshot(Outcome::Flood, u32::MAX, u32::MAX, u32::MAX, 0)])
        .collect();
    let stats = Stats::collect(logs, 1);
    assert_eq!(stats.mana_available, vec![3 * u32::MAX as u128]);
    assert_eq!(stats.cards_cast, vec![3 * u32::MAX as u128]);
    assert_eq!(stats.flood, vec![3]);
}

#[test]
fn most_frequent_is_the_mode() {
    let log = vec![
        snapshot(Outcome::Flood, 0, 0, 0, 0),
        snapshot(Outcome::Normal, 0, 0, 0, 0),
        snapshot(Outcome::Flood, 0, 0, 0, 0),
        snapshot(Outcome::Screw, 0, 0, 0, 0),
    ];
    assert_eq!(most_frequent(&log), Outcome::Flood);
    let normal = vec![snapshot(Outcome::Normal, 0, 0, 0, 0)];
    assert_eq!(most_frequent(&normal), Outcome::Normal);
}

#[test]
fn most_frequent_breaks_ties_towards_screw_then_flood() {
    let all = vec![
        snapshot(Outcome::Normal, 0, 0, 0, 0),
        snapshot(Outcome::Flood, 0, 0, 0, 0),
        snapshot(Outcome::Screw, 0, 0, 0, 0),
    ];
    assert_eq!(most_frequent(&all), Outcome::Screw);
    let two = vec![snapshot(Outcome::Normal, 0, 0, 0, 0), snapshot(Outcome::Flood, 0, 0, 0, 0)];
    assert_eq!(most_frequent(&two), Outcome::Flood);
    assert_eq!(most_frequent(&vec![]), Outcome::Screw);
}

#[test]
fn sample_keeps_the_first_five_games() {
    let mut logs: Vec<Vec<TurnSnapshot>> = Vec::new();
    for i in 0..8 {
        logs.push(vec![snapshot(
            if i % 2 == 0 { Outcome::Flood } else { Outcome::Normal },
            i,
            0,
            0,
            0,
        )]);
    }
    let traces = take_sample(logs);
    assert_eq!(traces.len(), 5);
    for (i, trace) in traces.iter().enumerate() {
        assert_eq!(trace.turns.len(), 1);
        assert_eq!(trace.turns[0].mana_available, i as u32);
        assert_eq!(
            trace.final_status,
            if i % 2 == 0 { Outcome::Flood } else { Outcome::Normal }
        );
    }
    assert!(take_sample(Vec::new()).is_empty());
}
