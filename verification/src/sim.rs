//! The driver: many games of one deck, and their totals.

use vstd::prelude::*;
use rayon::iter::IntoParallelRefIterator;
use rayon::iter::ParallelIterator;
use crate::deck::{commander_at, expansion, valid_deck, Card, CardView, DeckFile, DECK_SIZE};
use crate::cast::{Greedy, Policy};
use crate::game::{GameState, GameView};
use crate::shuffle::fresh_seed;
use crate::stats::{sample_of, tally_of, Stats};
use crate::turn::{after_turn, play_turn, record_of, TurnRecord, TurnSnapshot};

verus! {

/// The state of the game on `table` with `seed` after `turns` turns, cast
/// by `policy`.
pub open spec fn state_after<P: Policy>(policy: P, table: Seq<CardView>, seed: u64, turns: nat)
    -> GameView
    decreases turns,
{
    if turns == 0 {
        GameView::opening(table, seed)
    } else {
        after_turn(policy, table, state_after(policy, table, seed, (turns - 1) as nat))
    }
}

/// The record of the game on `table` with `seed` over `turns` turns, cast by
/// `policy`. Turns are numbered from one.
pub open spec fn game_log<P: Policy>(policy: P, table: Seq<CardView>, seed: u64, turns: nat)
    -> Seq<TurnRecord> {
    Seq::new(
        turns,
        |t: int|
            record_of(policy, table, state_after(policy, table, seed, t as nat), (t + 1) as usize),
    )
}

/// The records of the games on `table` with each of `seeds`, cast by the
/// greedy policy, in the order of the seeds.
pub open spec fn logs_for(table: Seq<CardView>, seeds: Seq<u64>, turns: nat) -> Seq<
    Seq<TurnRecord>,
> {
    Seq::new(seeds.len(), |i: int| game_log(Greedy, table, seeds[i], turns))
}

/// The table of a deck list: its 99 cards, then its commander.
pub open spec fn table_of(entries: Seq<CardView>) -> Seq<CardView> {
    expansion(entries).push(entries[commander_at(entries).unwrap()])
}

/// A game's record does not depend on how long the game goes on: the record
/// of a shorter game is the beginning of the record of a longer one.
pub proof fn lemma_log_prefix<P: Policy>(
    policy: P,
    table: Seq<CardView>,
    seed: u64,
    short: nat,
    long: nat,
)
    requires
        short <= long,
    ensures
        game_log(policy, table, seed, long).take(short as int) == game_log(
            policy,
            table,
            seed,
            short,
        ),
{
    assert(game_log(policy, table, seed, long).take(short as int) =~= game_log(
        policy,
        table,
        seed,
        short,
    ));
}

/// Plays one game over `turns` turns and records every turn.
///
/// The game is decided by the policy, the table and the seed: the record is
/// the same whenever they are.
pub fn simulate_game<P: Policy>(policy: &P, cards: &Vec<Card>, seed: u64, turns: usize) -> (log:
    Vec<TurnSnapshot>)
    requires
        1 <= cards@.len() <= u32::MAX,
    ensures
        log.deep_view() == game_log(*policy, cards.deep_view(), seed, turns as nat),
        log@.len() == turns,
{
    let ghost table = cards.deep_view();
    let mut game: GameState = GameState::new(cards, seed);
    let mut log: Vec<TurnSnapshot> = Vec::new();
    let mut t: usize = 0;
    while t < turns
        invariant
            table == cards.deep_view(),
            t <= turns,
            game@.fits(cards@.len()),
            game@ == state_after(*policy, table, seed, t as nat),
            log@.len() == t,
            forall|k: int|
                0 <= k < t ==> (#[trigger] log@[k])@ == record_of(
                    *policy,
                    table,
                    state_after(*policy, table, seed, k as nat),
                    (k + 1) as usize,
                ),
        decreases turns - t,
    {
        let snapshot: TurnSnapshot = play_turn(policy, cards, &mut game, t + 1);
        log.push(snapshot);
        t = t + 1;
    }
    assert(log.deep_view() =~= game_log(*policy, table, seed, turns as nat));
    log
}

/// Plays one game for each seed, the games spread over rayon's thread pool
/// by `par_iter`, `map` and `collect`.
///
/// Trusted: rayon hands each seed to the closure once and collects the
/// results in the order of the seeds, so that the list holds, seed by seed,
/// what `simulate_game` returns for it with the greedy policy.
#[verifier::external_body]
fn simulate_all(cards: &Vec<Card>, seeds: &Vec<u64>, turns: usize) -> (logs: Vec<
    Vec<TurnSnapshot>,
>)
    requires
        1 <= cards@.len() <= u32::MAX,
    ensures
        logs.deep_view() == logs_for(cards.deep_view(), seeds@, turns as nat),
{
    seeds.par_iter().map(|seed| simulate_game(&Greedy, cards, *seed, turns)).collect()
}

/// Builds the table of a valid deck list.
pub fn build_table(deck_file: &DeckFile) -> (cards: Vec<Card>)
    requires
        valid_deck(deck_file.entries()),
    ensures
        cards.deep_view() == table_of(deck_file.entries()),
        cards@.len() == DECK_SIZE + 1,
{
    let mut cards: Vec<Card> = deck_file.expand();
    let ghost deck = cards.deep_view();
    let commander: Card = deck_file.commander();
    cards.push(commander);
    assert(cards.deep_view() =~= deck.push(commander@));
    cards
}

/// Runs one game for each seed and adds the games up.
///
/// The totals are those of the games that the seeds decide, over `turns`
/// turns; the examples are the first five of them.
pub fn run_with_seeds(deck_file: &DeckFile, seeds: &Vec<u64>, turns: usize) -> (stats: Stats)
    requires
        valid_deck(deck_file.entries()),
    ensures
        stats.tally() == tally_of(
            logs_for(table_of(deck_file.entries()), seeds@, turns as nat),
            turns as nat,
        ),
        stats.example_traces.deep_view() == sample_of(
            logs_for(table_of(deck_file.entries()), seeds@, turns as nat),
        ),
        stats.games == seeds@.len(),
        forall|t: int|
            0 <= t < turns ==> (#[trigger] stats.screw@[t]) + stats.flood@[t] + stats.ok@[t]
                == seeds@.len(),
{
    let cards: Vec<Card> = build_table(deck_file);
    let logs: Vec<Vec<TurnSnapshot>> = simulate_all(&cards, seeds, turns);
    assert(logs@.len() == logs.deep_view().len());
    Stats::collect(logs, turns)
}

/// Runs `sims` games of a deck over `turns` turns, each with a seed of its
/// own from the thread's generator, and adds them up.
///
/// Whatever seeds were drawn, the result is what [`run_with_seeds`] gives
/// for them.
pub fn run(deck_file: &DeckFile, sims: usize, turns: usize) -> (stats: Stats)
    requires
        valid_deck(deck_file.entries()),
    ensures
        exists|seeds: Seq<u64>|
            {
                &&& seeds.len() == sims
                &&& stats.tally() == tally_of(
                    #[trigger] logs_for(table_of(deck_file.entries()), seeds, turns as nat),
                    turns as nat,
                )
                &&& stats.example_traces.deep_view() == sample_of(
                    logs_for(table_of(deck_file.entries()), seeds, turns as nat),
                )
            },
        stats.games == sims,
        forall|t: int|
            0 <= t < turns ==> (#[trigger] stats.screw@[t]) + stats.flood@[t] + stats.ok@[t]
                == sims,
{
    let mut seeds: Vec<u64> = Vec::new();
    let mut i: usize = 0;
    while i < sims
        invariant
            i <= sims,
            seeds@.len() == i,
        decreases sims - i,
    {
        seeds.push(fresh_seed());
        i = i + 1;
    }
    let stats: Stats = run_with_seeds(deck_file, &seeds, turns);
    assert(stats.tally() == tally_of(
        logs_for(table_of(deck_file.entries()), seeds@, turns as nat),
        turns as nat,
    ));
    stats
}

} // verus!
