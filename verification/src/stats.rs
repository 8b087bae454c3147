//! Totals over many games, turn by turn.
//!
//! The totals are whole numbers: how many games had a screw, a flood or a
//! normal turn at each turn, and the sums of the turn's numbers over all
//! games. A rate is a count divided by the number of games, an average a sum
//! divided by it; the division is left to the caller.

use vstd::prelude::*;
use vstd::seq_lib::*;
use crate::turn::{Outcome, TurnRecord, TurnSnapshot};

verus! {

/// Games whose full record is kept as an example.
pub const TRACE_SAMPLE: usize = 5;

/// The full record of one game, with the verdict that most of its turns got.
#[derive(Debug)]
pub struct GameTrace {
    pub turns: Vec<TurnSnapshot>,
    pub final_status: Outcome,
}

/// A game's trace as a mathematical value.
pub struct TraceView {
    pub turns: Seq<TurnRecord>,
    pub final_status: Outcome,
}

impl View for GameTrace {
    type V = TraceView;

    open spec fn view(&self) -> TraceView {
        TraceView { turns: self.turns.deep_view(), final_status: self.final_status }
    }
}

impl DeepView for GameTrace {
    type V = TraceView;

    open spec fn deep_view(&self) -> TraceView {
        self@
    }
}

/// Totals per turn over a number of games.
#[derive(Debug)]
pub struct Stats {
    /// Games counted.
    pub games: u64,
    /// Per turn, games in which the turn was a screw.
    pub screw: Vec<u64>,
    /// Per turn, games in which the turn was a flood.
    pub flood: Vec<u64>,
    /// Per turn, games in which the turn was normal.
    pub ok: Vec<u64>,
    /// Per turn, mana available, summed over the games.
    pub mana_available: Vec<u128>,
    /// Per turn, mana spent, summed over the games.
    pub mana_spent: Vec<u128>,
    /// Per turn, cards cast, summed over the games.
    pub cards_cast: Vec<u128>,
    /// Per turn, cards in hand at the end of the turn, summed over the games.
    pub hand_size: Vec<u128>,
    /// The full records of the first few games.
    pub example_traces: Vec<GameTrace>,
}

/// The totals as mathematical values.
pub struct Tally {
    pub games: nat,
    pub screw: Seq<nat>,
    pub flood: Seq<nat>,
    pub ok: Seq<nat>,
    pub mana_available: Seq<nat>,
    pub mana_spent: Seq<nat>,
    pub cards_cast: Seq<nat>,
    pub hand_size: Seq<nat>,
}

/// The sum of a measure over the records of some games.
pub open spec fn sum_over(logs: Seq<Seq<TurnRecord>>, measure: spec_fn(Seq<TurnRecord>) -> nat)
    -> nat
    decreases logs.len(),
{
    if logs.len() == 0 {
        0
    } else {
        sum_over(logs.drop_last(), measure) + measure(logs.last())
    }
}

/// One for a game whose turn `turn` got `status`, zero for any other.
pub open spec fn status_at(turn: int, status: Outcome) -> spec_fn(Seq<TurnRecord>) -> nat {
    |log: Seq<TurnRecord>|
        if log[turn].status == status {
            1nat
        } else {
            0nat
        }
}

/// The mana available in a game's turn `turn`.
pub open spec fn mana_available_at(turn: int) -> spec_fn(Seq<TurnRecord>) -> nat {
    |log: Seq<TurnRecord>| log[turn].mana_available as nat
}

/// The mana spent in a game's turn `turn`.
pub open spec fn mana_spent_at(turn: int) -> spec_fn(Seq<TurnRecord>) -> nat {
    |log: Seq<TurnRecord>| log[turn].mana_spent as nat
}

/// The cards cast in a game's turn `turn`.
pub open spec fn cards_cast_at(turn: int) -> spec_fn(Seq<TurnRecord>) -> nat {
    |log: Seq<TurnRecord>| log[turn].cards_cast as nat
}

/// The cards in hand at the end of a game's turn `turn`.
pub open spec fn hand_size_at(turn: int) -> spec_fn(Seq<TurnRecord>) -> nat {
    |log: Seq<TurnRecord>| log[turn].hand.len()
}

/// A measure for each turn.
pub type MeasureAt = spec_fn(int) -> spec_fn(Seq<TurnRecord>) -> nat;

/// For each of `turns` turns, the sum of that turn's measure over the games.
pub open spec fn column(logs: Seq<Seq<TurnRecord>>, turns: nat, measure: MeasureAt) -> Seq<nat> {
    Seq::new(turns, |t: int| sum_over(logs, measure(t)))
}

/// The totals of some games over `turns` turns.
pub open spec fn tally_of(logs: Seq<Seq<TurnRecord>>, turns: nat) -> Tally {
    Tally {
        games: logs.len(),
        screw: column(logs, turns, |t: int| status_at(t, Outcome::Screw)),
        flood: column(logs, turns, |t: int| status_at(t, Outcome::Flood)),
        ok: column(logs, turns, |t: int| status_at(t, Outcome::Normal)),
        mana_available: column(logs, turns, |t: int| mana_available_at(t)),
        mana_spent: column(logs, turns, |t: int| mana_spent_at(t)),
        cards_cast: column(logs, turns, |t: int| cards_cast_at(t)),
        hand_size: column(logs, turns, |t: int| hand_size_at(t)),
    }
}

/// Turns of a game that got `status`.
pub open spec fn occurrences(log: Seq<TurnRecord>, status: Outcome) -> nat
    decreases log.len(),
{
    if log.len() == 0 {
        0
    } else {
        occurrences(log.drop_last(), status) + if log.last().status == status {
            1nat
        } else {
            0nat
        }
    }
}

/// The verdict that most turns of a game got. Of verdicts that are level,
/// screw comes before flood and flood before normal.
pub open spec fn mode_of(log: Seq<TurnRecord>) -> Outcome {
    let screw = occurrences(log, Outcome::Screw);
    let flood = occurrences(log, Outcome::Flood);
    let normal = occurrences(log, Outcome::Normal);
    if screw >= flood && screw >= normal {
        Outcome::Screw
    } else if flood >= normal {
        Outcome::Flood
    } else {
        Outcome::Normal
    }
}

/// The traces of the first games of a list, up to the size of the sample.
pub open spec fn sample_of(logs: Seq<Seq<TurnRecord>>) -> Seq<TraceView> {
    Seq::new(
        if logs.len() <= TRACE_SAMPLE {
            logs.len()
        } else {
            TRACE_SAMPLE as nat
        },
        |i: int| TraceView { turns: logs[i], final_status: mode_of(logs[i]) },
    )
}

/// Taking one game out of a list takes its measure out of the sum.
pub proof fn lemma_sum_without(
    logs: Seq<Seq<TurnRecord>>,
    measure: spec_fn(Seq<TurnRecord>) -> nat,
    at: int,
)
    requires
        0 <= at < logs.len(),
    ensures
        sum_over(logs, measure) == sum_over(logs.remove(at), measure) + measure(logs[at]),
    decreases logs.len(),
{
    if at == logs.len() - 1 {
        assert(logs.remove(at) =~= logs.drop_last());
    } else {
        lemma_sum_without(logs.drop_last(), measure, at);
        assert(logs.drop_last().remove(at) =~= logs.remove(at).drop_last());
        assert(logs.remove(at).last() == logs.last());
    }
}

/// A sum over games does not depend on the order of the games.
pub proof fn lemma_sum_any_order(
    a: Seq<Seq<TurnRecord>>,
    b: Seq<Seq<TurnRecord>>,
    measure: spec_fn(Seq<TurnRecord>) -> nat,
)
    requires
        a.to_multiset() == b.to_multiset(),
    ensures
        sum_over(a, measure) == sum_over(b, measure),
    decreases a.len(),
{
    broadcast use group_to_multiset_ensures;

    to_multiset_len(a);
    to_multiset_len(b);
    if a.len() > 0 {
        let last = a.last();
        assert(a.contains(last));
        assert(b.to_multiset().count(last) > 0);
        assert(b.contains(last));
        let at = b.index_of(last);
        to_multiset_remove(a, a.len() - 1);
        to_multiset_remove(b, at);
        assert(a.remove(a.len() - 1) =~= a.drop_last());
        lemma_sum_any_order(a.drop_last(), b.remove(at), measure);
        lemma_sum_without(b, measure, at);
    }
}

/// A column of sums does not depend on the order of the games.
pub proof fn lemma_column_any_order(
    a: Seq<Seq<TurnRecord>>,
    b: Seq<Seq<TurnRecord>>,
    turns: nat,
    measure: MeasureAt,
)
    requires
        a.to_multiset() == b.to_multiset(),
    ensures
        column(a, turns, measure) == column(b, turns, measure),
{
    assert forall|t: int| 0 <= t < turns implies #[trigger] column(a, turns, measure)[t] == column(
        b,
        turns,
        measure,
    )[t] by {
        lemma_sum_any_order(a, b, measure(t));
    }
    assert(column(a, turns, measure) =~= column(b, turns, measure));
}

/// The totals do not depend on the order in which the games are counted:
/// two lists that hold the same games, each as often as the other, have the
/// same totals.
pub proof fn lemma_tally_any_order(a: Seq<Seq<TurnRecord>>, b: Seq<Seq<TurnRecord>>, turns: nat)
    requires
        a.to_multiset() == b.to_multiset(),
    ensures
        tally_of(a, turns) == tally_of(b, turns),
{
    to_multiset_len(a);
    to_multiset_len(b);
    lemma_column_any_order(a, b, turns, |t: int| status_at(t, Outcome::Screw));
    lemma_column_any_order(a, b, turns, |t: int| status_at(t, Outcome::Flood));
    lemma_column_any_order(a, b, turns, |t: int| status_at(t, Outcome::Normal));
    lemma_column_any_order(a, b, turns, |t: int| mana_available_at(t));
    lemma_column_any_order(a, b, turns, |t: int| mana_spent_at(t));
    lemma_column_any_order(a, b, turns, |t: int| cards_cast_at(t));
    lemma_column_any_order(a, b, turns, |t: int| hand_size_at(t));
}

/// Each turn of each game gets exactly one verdict, so at every turn the
/// three counts add up to the number of games.
pub proof fn lemma_counts_add_up(logs: Seq<Seq<TurnRecord>>, turn: int)
    ensures
        sum_over(logs, status_at(turn, Outcome::Screw)) + sum_over(
            logs,
            status_at(turn, Outcome::Flood),
        ) + sum_over(logs, status_at(turn, Outcome::Normal)) == logs.len(),
    decreases logs.len(),
{
    if logs.len() > 0 {
        lemma_counts_add_up(logs.drop_last(), turn);
    }
}

/// The totals of one turn.
pub struct TurnTotals {
    pub screw: u64,
    pub flood: u64,
    pub ok: u64,
    pub mana_available: u128,
    pub mana_spent: u128,
    pub cards_cast: u128,
    pub hand_size: u128,
}

impl TurnTotals {
    /// These are the totals of turn `turn` over `logs`.
    pub open spec fn totals(&self, logs: Seq<Seq<TurnRecord>>, turn: int) -> bool {
        &&& self.screw == sum_over(logs, status_at(turn, Outcome::Screw))
        &&& self.flood == sum_over(logs, status_at(turn, Outcome::Flood))
        &&& self.ok == sum_over(logs, status_at(turn, Outcome::Normal))
        &&& self.mana_available == sum_over(logs, mana_available_at(turn))
        &&& self.mana_spent == sum_over(logs, mana_spent_at(turn))
        &&& self.cards_cast == sum_over(logs, cards_cast_at(turn))
        &&& self.hand_size == sum_over(logs, hand_size_at(turn))
    }
}

/// Every game of a list ran for `turns` turns.
pub open spec fn all_of_length(logs: Seq<Seq<TurnRecord>>, turns: nat) -> bool {
    forall|i: int| 0 <= i < logs.len() ==> (#[trigger] logs[i]).len() == turns
}

/// Adds up one turn over all games.
pub fn total_turn(logs: &Vec<Vec<TurnSnapshot>>, turn: usize) -> (sum: TurnTotals)
    requires
        forall|i: int| 0 <= i < logs@.len() ==> turn < (#[trigger] logs@[i])@.len(),
    ensures
        sum.totals(logs.deep_view(), turn as int),
{
    let ghost all = logs.deep_view();
    let mut sum = TurnTotals {
        screw: 0,
        flood: 0,
        ok: 0,
        mana_available: 0,
        mana_spent: 0,
        cards_cast: 0,
        hand_size: 0,
    };
    let mut i: usize = 0;
    while i < logs.len()
        invariant
            all == logs.deep_view(),
            i <= logs@.len(),
            forall|i: int| 0 <= i < logs@.len() ==> turn < (#[trigger] logs@[i])@.len(),
            sum.totals(all.take(i as int), turn as int),
            sum.screw <= i,
            sum.flood <= i,
            sum.ok <= i,
            sum.mana_available <= i * 0xFFFF_FFFF,
            sum.mana_spent <= i * 0xFFFF_FFFF,
            sum.cards_cast <= i * 0xFFFF_FFFF,
            sum.hand_size <= i * 0xFFFF_FFFF_FFFF_FFFF,
        decreases logs@.len() - i,
    {
        assert(all.take(i + 1).drop_last() =~= all.take(i as int));
        assert(all.take(i + 1).last() == logs@[i as int].deep_view());
        assert(logs@[i as int].deep_view()[turn as int] == logs@[i as int]@[turn as int]@);
        let snapshot: &TurnSnapshot = &logs[i][turn];
        match snapshot.status {
            Outcome::Screw => {
                sum.screw = sum.screw + 1;
            },
            Outcome::Flood => {
                sum.flood = sum.flood + 1;
            },
            Outcome::Normal => {
                sum.ok = sum.ok + 1;
            },
        }
        sum.mana_available = sum.mana_available + snapshot.mana_available as u128;
        sum.mana_spent = sum.mana_spent + snapshot.mana_spent as u128;
        sum.cards_cast = sum.cards_cast + snapshot.cards_cast as u128;
        sum.hand_size = sum.hand_size + snapshot.hand.len() as u128;
        i = i + 1;
    }
    assert(all.take(i as int) =~= all);
    sum
}

/// Finds the verdict that most turns of a game got.
pub fn most_frequent(log: &Vec<TurnSnapshot>) -> (status: Outcome)
    ensures
        status == mode_of(log.deep_view()),
        forall|other: Outcome|
            occurrences(log.deep_view(), status) >= #[trigger] occurrences(log.deep_view(), other),
{
    let ghost turns = log.deep_view();
    let mut screw: usize = 0;
    let mut flood: usize = 0;
    let mut normal: usize = 0;
    let mut i: usize = 0;
    while i < log.len()
        invariant
            turns == log.deep_view(),
            i <= log@.len(),
            screw == occurrences(turns.take(i as int), Outcome::Screw),
            flood == occurrences(turns.take(i as int), Outcome::Flood),
            normal == occurrences(turns.take(i as int), Outcome::Normal),
            screw + flood + normal == i,
        decreases log@.len() - i,
    {
        assert(turns.take(i + 1).drop_last() =~= turns.take(i as int));
        assert(turns.take(i + 1).last() == log@[i as int]@);
        match log[i].status {
            Outcome::Screw => {
                screw = screw + 1;
            },
            Outcome::Flood => {
                flood = flood + 1;
            },
            Outcome::Normal => {
                normal = normal + 1;
            },
        }
        i = i + 1;
    }
    assert(turns.take(i as int) =~= turns);
    if screw >= flood && screw >= normal {
        Outcome::Screw
    } else if flood >= normal {
        Outcome::Flood
    } else {
        Outcome::Normal
    }
}

/// Keeps the first games of a list as examples, each with the verdict that
/// most of its turns got.
pub fn take_sample(logs: Vec<Vec<TurnSnapshot>>) -> (traces: Vec<GameTrace>)
    ensures
        traces.deep_view() == sample_of(logs.deep_view()),
{
    let ghost all = logs.deep_view();
    let ghost sample = sample_of(all);
    let mut rest: Vec<Vec<TurnSnapshot>> = logs;
    rest.truncate(TRACE_SAMPLE);
    let mut traces: Vec<GameTrace> = Vec::new();
    while rest.len() > 0
        invariant
            sample == sample_of(all),
            traces@.len() + rest@.len() == sample.len(),
            forall|k: int| 0 <= k < traces@.len() ==> (#[trigger] traces@[k])@ == sample[k],
            forall|k: int|
                0 <= k < rest@.len() ==> (#[trigger] rest@[k]).deep_view() == all[traces@.len()
                    + k],
        decreases rest@.len(),
    {
        let log: Vec<TurnSnapshot> = rest.remove(0);
        let final_status: Outcome = most_frequent(&log);
        traces.push(GameTrace { turns: log, final_status });
    }
    assert(traces.deep_view() =~= sample);
    traces
}

impl Stats {
    /// The totals as mathematical values.
    pub open spec fn tally(&self) -> Tally {
        Tally {
            games: self.games as nat,
            screw: self.screw@.map_values(|n: u64| n as nat),
            flood: self.flood@.map_values(|n: u64| n as nat),
            ok: self.ok@.map_values(|n: u64| n as nat),
            mana_available: self.mana_available@.map_values(|n: u128| n as nat),
            mana_spent: self.mana_spent@.map_values(|n: u128| n as nat),
            cards_cast: self.cards_cast@.map_values(|n: u128| n as nat),
            hand_size: self.hand_size@.map_values(|n: u128| n as nat),
        }
    }

    /// The totals of no games over `n` turns: every entry zero, no examples.
    pub fn new(n: usize) -> (stats: Stats)
        ensures
            stats.tally() == tally_of(Seq::empty(), n as nat),
            stats.example_traces@.len() == 0,
    {
        let stats = Stats {
            games: 0,
            screw: vec![0u64; n],
            flood: vec![0u64; n],
            ok: vec![0u64; n],
            mana_available: vec![0u128; n],
            mana_spent: vec![0u128; n],
            cards_cast: vec![0u128; n],
            hand_size: vec![0u128; n],
            example_traces: Vec::new(),
        };
        proof {
            let none = tally_of(Seq::empty(), n as nat);
            assert(stats.tally().screw =~= none.screw);
            assert(stats.tally().flood =~= none.flood);
            assert(stats.tally().ok =~= none.ok);
            assert(stats.tally().mana_available =~= none.mana_available);
            assert(stats.tally().mana_spent =~= none.mana_spent);
            assert(stats.tally().cards_cast =~= none.cards_cast);
            assert(stats.tally().hand_size =~= none.hand_size);
        }
        stats
    }

    /// Adds up the games of a list, turn by turn, and keeps the first few
    /// games as examples. The totals do not depend on the order of the list;
    /// at every turn the three counts add up to the number of games.
    pub fn collect(logs: Vec<Vec<TurnSnapshot>>, turns: usize) -> (stats: Stats)
        requires
            all_of_length(logs.deep_view(), turns as nat),
        ensures
            stats.tally() == tally_of(logs.deep_view(), turns as nat),
            stats.example_traces.deep_view() == sample_of(logs.deep_view()),
            forall|t: int|
                0 <= t < turns ==> (#[trigger] stats.screw@[t]) + stats.flood@[t] + stats.ok@[t]
                    == logs@.len(),
    {
        let ghost all = logs.deep_view();
        let mut stats = Stats {
            games: logs.len() as u64,
            screw: Vec::new(),
            flood: Vec::new(),
            ok: Vec::new(),
            mana_available: Vec::new(),
            mana_spent: Vec::new(),
            cards_cast: Vec::new(),
            hand_size: Vec::new(),
            example_traces: Vec::new(),
        };
        assert forall|i: int| 0 <= i < logs@.len() implies (#[trigger] logs@[i])@.len()
            == turns by {
            assert(all[i].len() == turns);
            assert(all[i] == logs@[i].deep_view());
        }
        let mut t: usize = 0;
        while t < turns
            invariant
                all == logs.deep_view(),
                t <= turns,
                forall|i: int| 0 <= i < logs@.len() ==> (#[trigger] logs@[i])@.len() == turns,
                stats.games == logs@.len(),
                stats.example_traces@.len() == 0,
                stats.screw@.len() == t,
                stats.flood@.len() == t,
                stats.ok@.len() == t,
                stats.mana_available@.len() == t,
                stats.mana_spent@.len() == t,
                stats.cards_cast@.len() == t,
                stats.hand_size@.len() == t,
                forall|k: int|
                    0 <= k < t ==> #[trigger] stats.screw@[k] == sum_over(
                        all,
                        status_at(k, Outcome::Screw),
                    ),
                forall|k: int|
                    0 <= k < t ==> #[trigger] stats.flood@[k] == sum_over(
                        all,
                        status_at(k, Outcome::Flood),
                    ),
                forall|k: int|
                    0 <= k < t ==> #[trigger] stats.ok@[k] == sum_over(
                        all,
                        status_at(k, Outcome::Normal),
                    ),
                forall|k: int|
                    0 <= k < t ==> #[trigger] stats.mana_available@[k] == sum_over(
                        all,
                        mana_available_at(k),
                    ),
                forall|k: int|
                    0 <= k < t ==> #[trigger] stats.mana_spent@[k] == sum_over(
                        all,
                        mana_spent_at(k),
                    ),
                forall|k: int|
                    0 <= k < t ==> #[trigger] stats.cards_cast@[k] == sum_over(
                        all,
                        cards_cast_at(k),
                    ),
                forall|k: int|
                    0 <= k < t ==> #[trigger] stats.hand_size@[k] == sum_over(
                        all,
                        hand_size_at(k),
                    ),
            decreases turns - t,
        {
            let sum: TurnTotals = total_turn(&logs, t);
            stats.screw.push(sum.screw);
            stats.flood.push(sum.flood);
            stats.ok.push(sum.ok);
            stats.mana_available.push(sum.mana_available);
            stats.mana_spent.push(sum.mana_spent);
            stats.cards_cast.push(sum.cards_cast);
            stats.hand_size.push(sum.hand_size);
            t = t + 1;
        }
        proof {
            let whole = tally_of(all, turns as nat);
            assert(stats.tally().screw =~= whole.screw);
            assert(stats.tally().flood =~= whole.flood);
            assert(stats.tally().ok =~= whole.ok);
            assert(stats.tally().mana_available =~= whole.mana_available);
            assert(stats.tally().mana_spent =~= whole.mana_spent);
            assert(stats.tally().cards_cast =~= whole.cards_cast);
            assert(stats.tally().hand_size =~= whole.hand_size);
            assert forall|t: int| 0 <= t < turns implies (#[trigger] stats.screw@[t])
                + stats.flood@[t] + stats.ok@[t] == logs@.len() by {
                lemma_counts_add_up(all, t);
            }
        }
        stats.example_traces = take_sample(logs);
        stats
    }
}

} // verus!
