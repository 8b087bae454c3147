//! The casting loop: what is cast with the turn's mana, and in what order.
//!
//! What to cast next is decided by a [`Policy`]. The loop asks the policy for
//! one play at a time and carries it out with [`make_play`], until the policy
//! has no play left. [`Greedy`] is the policy that the simulation uses: ramp
//! comes first, then the commander, then spells, a spell that draws cards
//! before one that does not. Lands and converters are never cast.

use vstd::prelude::*;
use crate::color::Color;
use crate::deck::{capped, Card, CardView};
use crate::first::{
    first_match, is_first, lemma_first_absent, lemma_first_found, lemma_first_match,
};
use crate::game::{in_table, GameState, GameView};
use crate::land::same_place;
use crate::mana::ManaPool;

verus! {

/// One play of the casting loop.
#[derive(Clone, Copy, Debug, PartialEq, Eq, Structural)]
pub enum Play {
    /// Cast the ramp card at this position of the hand.
    Ramp { at: usize },
    /// Cast the commander from the command zone.
    Commander,
    /// Cast the spell at this position of the hand.
    Spell { at: usize },
}

/// What the casting loop has done so far this turn.
#[derive(Debug)]
pub struct Progress {
    /// The mana that is left.
    pub pool: ManaPool,
    /// Cards cast.
    pub cast: u32,
    /// Cards to draw once casting is over.
    pub draws: u64,
    /// The cards played, in order.
    pub played: Vec<usize>,
}

/// The casting loop's state as a mathematical value.
pub struct Casting {
    pub game: GameView,
    pub pool: ManaPool,
    pub cast: nat,
    pub draws: nat,
    pub played: Seq<usize>,
}

impl Progress {
    /// The loop's state: this record together with the game it belongs to.
    pub open spec fn with(&self, game: GameView) -> Casting {
        Casting {
            game,
            pool: self.pool,
            cast: self.cast as nat,
            draws: self.draws as nat,
            played: self.played@,
        }
    }
}

/// The pool can pay for a card whose generic cost is raised by `tax`.
pub open spec fn can_cast(pool: ManaPool, card: CardView, tax: nat) -> bool {
    pool.affordable(card.generic_cost() + tax, card.pips())
}

/// The tax on the commander: two for each time it has been cast.
pub open spec fn commander_tax(g: GameView) -> nat {
    2 * g.recasts as nat
}

/// The card at a hand position is ramp that the pool can pay for.
pub open spec fn ramp_ready(table: Seq<CardView>, hand: Seq<usize>, pool: ManaPool) -> spec_fn(
    int,
) -> bool {
    |at: int| table[hand[at] as int] is Ramp && can_cast(pool, table[hand[at] as int], 0)
}

/// The card at a hand position is a spell that the pool can pay for.
pub open spec fn spell_ready(table: Seq<CardView>, hand: Seq<usize>, pool: ManaPool) -> spec_fn(
    int,
) -> bool {
    |at: int| table[hand[at] as int] is Spell && can_cast(pool, table[hand[at] as int], 0)
}

/// The card at a hand position is a spell with a draw effect that the pool
/// can pay for.
pub open spec fn draw_spell_ready(table: Seq<CardView>, hand: Seq<usize>, pool: ManaPool)
    -> spec_fn(int) -> bool {
    |at: int|
        table[hand[at] as int] is Spell && can_cast(pool, table[hand[at] as int], 0)
            && table[hand[at] as int].has_draw()
}

/// The commander waits in the command zone, the pool holds some mana, and it
/// can pay the commander's cost with the tax. An empty pool does not cast
/// the commander, not even one that costs nothing.
pub open spec fn commander_ready(table: Seq<CardView>, g: GameView, pool: ManaPool) -> bool {
    &&& g.commander.is_some()
    &&& pool.total() > 0
    &&& can_cast(pool, table[g.commander.unwrap() as int], commander_tax(g))
}

/// A play that the rules allow in this state: the card is where the play
/// says, is of the kind the play says, and the pool can pay for it.
pub open spec fn legal(table: Seq<CardView>, g: GameView, pool: ManaPool, play: Play) -> bool {
    match play {
        Play::Ramp { at } => at < g.hand.len() && ramp_ready(table, g.hand, pool)(at as int),
        Play::Commander => commander_ready(table, g, pool),
        Play::Spell { at } => at < g.hand.len() && spell_ready(table, g.hand, pool)(at as int),
    }
}

/// Position in hand of the first ramp card that the pool can pay for.
pub open spec fn first_ramp(table: Seq<CardView>, hand: Seq<usize>, pool: ManaPool) -> Option<int> {
    first_match(hand.len() as int, ramp_ready(table, hand, pool))
}

/// Position in hand of the spell to cast: the first spell with a draw
/// effect that the pool can pay for, or else the first spell that it can pay
/// for.
pub open spec fn first_spell(table: Seq<CardView>, hand: Seq<usize>, pool: ManaPool) -> Option<
    int,
> {
    let drawing = first_match(hand.len() as int, draw_spell_ready(table, hand, pool));
    if drawing.is_some() {
        drawing
    } else {
        first_match(hand.len() as int, spell_ready(table, hand, pool))
    }
}

/// The play that the greedy policy makes next, if it makes one: the first
/// ramp card that can be paid for; else the commander; else the first spell
/// with a draw effect that can be paid for; else the first spell that can be
/// paid for.
pub open spec fn next_play(table: Seq<CardView>, g: GameView, pool: ManaPool) -> Option<Play> {
    match first_ramp(table, g.hand, pool) {
        Some(at) => Some(Play::Ramp { at: at as usize }),
        None => if commander_ready(table, g, pool) {
            Some(Play::Commander)
        } else {
            match first_spell(table, g.hand, pool) {
                Some(at) => Some(Play::Spell { at: at as usize }),
                None => None,
            }
        },
    }
}

/// The state after a play. The cost is paid and the card counts as cast and
/// as played. Ramp and the commander go to the battlefield, and so does a
/// spell unless it is a one-shot, which goes to the graveyard. Ramp and
/// spells add their draw effects to the cards to draw, a count that is kept
/// in 64 bits and stays at the largest number once it is reached.
pub open spec fn after_play(table: Seq<CardView>, c: Casting, play: Play) -> Casting {
    let g = c.game;
    match play {
        Play::Ramp { at } => {
            let card = g.hand[at as int];
            Casting {
                game: GameView {
                    hand: g.hand.remove(at as int),
                    battlefield: g.battlefield.push(card),
                    ..g
                },
                pool: c.pool.after_spend(
                    table[card as int].generic_cost(),
                    table[card as int].pips(),
                ),
                cast: c.cast + 1,
                draws: capped(c.draws + table[card as int].draw_count()),
                played: c.played.push(card),
            }
        },
        Play::Commander => {
            let card = g.commander.unwrap();
            Casting {
                game: GameView {
                    commander: None,
                    battlefield: g.battlefield.push(card),
                    recasts: (g.recasts + 1) as u32,
                    ..g
                },
                pool: c.pool.after_spend(
                    table[card as int].generic_cost() + commander_tax(g),
                    table[card as int].pips(),
                ),
                cast: c.cast + 1,
                draws: c.draws,
                played: c.played.push(card),
            }
        },
        Play::Spell { at } => {
            let card = g.hand[at as int];
            Casting {
                game: if table[card as int].one_shot() {
                    GameView {
                        hand: g.hand.remove(at as int),
                        graveyard: g.graveyard.push(card),
                        ..g
                    }
                } else {
                    GameView {
                        hand: g.hand.remove(at as int),
                        battlefield: g.battlefield.push(card),
                        ..g
                    }
                },
                pool: c.pool.after_spend(
                    table[card as int].generic_cost(),
                    table[card as int].pips(),
                ),
                cast: c.cast + 1,
                draws: capped(c.draws + table[card as int].draw_count()),
                played: c.played.push(card),
            }
        },
    }
}

/// Cards that can still be cast from: the hand and the command zone.
pub open spec fn castable(g: GameView) -> nat {
    g.hand.len() + if g.commander.is_some() {
        1nat
    } else {
        0nat
    }
}

/// What the policy chooses is legal.
pub proof fn lemma_next_play_legal(table: Seq<CardView>, g: GameView, pool: ManaPool)
    requires
        g.hand.len() <= usize::MAX,
    ensures
        next_play(table, g, pool).is_some() ==> legal(
            table,
            g,
            pool,
            next_play(table, g, pool).unwrap(),
        ),
{
    let size = g.hand.len() as int;
    lemma_first_match(size, ramp_ready(table, g.hand, pool));
    lemma_first_match(size, draw_spell_ready(table, g.hand, pool));
    lemma_first_match(size, spell_ready(table, g.hand, pool));
}

/// A legal play leaves one card fewer to cast from.
pub proof fn lemma_play_shrinks(table: Seq<CardView>, c: Casting, play: Play)
    requires
        legal(table, c.game, c.pool, play),
    ensures
        castable(after_play(table, c, play).game) + 1 == castable(c.game),
{
}

/// A casting policy: given the hand, the battlefield and the mana that is
/// left, it names the next play, or none.
pub trait Policy {
    /// The play that the policy makes next in a state, if it makes one.
    spec fn choice(&self, table: Seq<CardView>, g: GameView, pool: ManaPool) -> Option<Play>;

    /// Chooses the next play. A policy may only choose legal plays.
    fn pick(&self, cards: &Vec<Card>, game: &GameState, pool: &ManaPool) -> (play: Option<Play>)
        requires
            game@.fits(cards@.len()),
        ensures
            play == self.choice(cards.deep_view(), game@, *pool),
            play.is_some() ==> legal(cards.deep_view(), game@, *pool, play.unwrap()),
    ;
}

/// The policy of the simulation: the first ramp card that can be paid for;
/// else the commander; else the first spell with a draw effect that can be
/// paid for; else the first spell that can be paid for.
#[derive(Clone, Copy, Debug)]
pub struct Greedy;

/// The state when the policy has nothing left to play: plays are made one
/// after another for as long as the policy chooses a legal one.
pub open spec fn cast_all<P: Policy>(policy: P, table: Seq<CardView>, c: Casting) -> Casting
    decreases castable(c.game),
    via cast_all_ends::<P>
{
    match policy.choice(table, c.game, c.pool) {
        None => c,
        Some(play) => if legal(table, c.game, c.pool, play) {
            cast_all(policy, table, after_play(table, c, play))
        } else {
            c
        },
    }
}

/// Each play that the loop makes leaves one card fewer to cast from.
#[via_fn]
proof fn cast_all_ends<P: Policy>(policy: P, table: Seq<CardView>, c: Casting) {
    let chosen = policy.choice(table, c.game, c.pool);
    if chosen.is_some() && legal(table, c.game, c.pool, chosen.unwrap()) {
        lemma_play_shrinks(table, c, chosen.unwrap());
    }
}

/// Whether the pool can pay for a card with `tax` added to its generic
/// cost.
pub fn affords(pool: &ManaPool, card: &Card, tax: u64) -> (r: bool)
    requires
        tax <= u64::MAX - 255,
    ensures
        r == can_cast(*pool, card@, tax as nat),
{
    let cost: u64 = card.generic_cost() as u64 + tax;
    match card.pips() {
        Some(pips) => pool.can_pay(cost, pips.as_slice()),
        None => {
            let none: Vec<Color> = Vec::new();
            pool.can_pay(cost, none.as_slice())
        },
    }
}

/// Pays for a card with `tax` added to its generic cost, if the pool can.
pub fn pay_for(pool: &mut ManaPool, card: &Card, tax: u64) -> (paid: bool)
    requires
        tax <= u64::MAX - 255,
    ensures
        paid == can_cast(*old(pool), card@, tax as nat),
        paid ==> *final(pool) == old(pool).after_spend(
            card@.generic_cost() + tax as nat,
            card@.pips(),
        ),
        !paid ==> *final(pool) == *old(pool),
        final(pool).total() <= old(pool).total(),
{
    let cost: u64 = card.generic_cost() as u64 + tax;
    match card.pips() {
        Some(pips) => pool.spend(cost, pips.as_slice()),
        None => {
            let none: Vec<Color> = Vec::new();
            pool.spend(cost, none.as_slice())
        },
    }
}

/// Finds the first ramp card in hand that the pool can pay for.
pub fn find_ramp(cards: &Vec<Card>, hand: &Vec<usize>, pool: &ManaPool) -> (found: Option<usize>)
    requires
        in_table(hand@, cards@.len()),
    ensures
        same_place(found, first_ramp(cards.deep_view(), hand@, *pool)),
{
    let ghost holds = ramp_ready(cards.deep_view(), hand@, *pool);
    let mut at: usize = 0;
    while at < hand.len()
        invariant
            at <= hand@.len(),
            in_table(hand@, cards@.len()),
            holds == ramp_ready(cards.deep_view(), hand@, *pool),
            forall|k: int| 0 <= k < at ==> !#[trigger] holds(k),
        decreases hand@.len() - at,
    {
        let card: &Card = &cards[hand[at]];
        if card.is_ramp() && affords(pool, card, 0) {
            proof {
                assert(holds(at as int));
                lemma_first_found(hand@.len() as int, holds, at as int);
            }
            return Some(at);
        }
        at = at + 1;
    }
    proof {
        lemma_first_absent(hand@.len() as int, holds);
    }
    None
}

/// Finds the spell to cast: the first spell in hand with a draw effect that
/// the pool can pay for, or else the first spell that it can pay for.
pub fn find_spell(cards: &Vec<Card>, hand: &Vec<usize>, pool: &ManaPool) -> (found: Option<usize>)
    requires
        in_table(hand@, cards@.len()),
    ensures
        same_place(found, first_spell(cards.deep_view(), hand@, *pool)),
{
    let ghost ready = spell_ready(cards.deep_view(), hand@, *pool);
    let ghost draws = draw_spell_ready(cards.deep_view(), hand@, *pool);
    let mut plain: Option<usize> = None;
    let mut at: usize = 0;
    while at < hand.len()
        invariant
            at <= hand@.len(),
            in_table(hand@, cards@.len()),
            ready == spell_ready(cards.deep_view(), hand@, *pool),
            draws == draw_spell_ready(cards.deep_view(), hand@, *pool),
            forall|k: int| 0 <= k < at ==> !#[trigger] draws(k),
            match plain {
                Some(first) => first < at && is_first(hand@.len() as int, ready, first as int),
                None => forall|k: int| 0 <= k < at ==> !#[trigger] ready(k),
            },
        decreases hand@.len() - at,
    {
        let card: &Card = &cards[hand[at]];
        if card.is_spell() && affords(pool, card, 0) {
            assert(ready(at as int));
            if card.has_draw() {
                proof {
                    assert(draws(at as int));
                    lemma_first_found(hand@.len() as int, draws, at as int);
                }
                return Some(at);
            }
            if plain.is_none() {
                plain = Some(at);
            }
        }
        at = at + 1;
    }
    proof {
        lemma_first_absent(hand@.len() as int, draws);
        match plain {
            Some(first) => {
                lemma_first_found(hand@.len() as int, ready, first as int);
            },
            None => {
                lemma_first_absent(hand@.len() as int, ready);
            },
        }
    }
    plain
}

/// Whether the commander can be cast now.
pub fn commander_castable(cards: &Vec<Card>, game: &GameState, pool: &ManaPool) -> (r: bool)
    requires
        game@.fits(cards@.len()),
    ensures
        r == commander_ready(cards.deep_view(), game@, *pool),
{
    match game.commander {
        Some(position) => {
            pool.sum() > 0 && affords(pool, &cards[position], 2 * (game.recasts as u64))
        },
        None => false,
    }
}

/// Chooses the next play of the greedy policy, if there is one. The play is
/// legal.
pub fn choose_play(cards: &Vec<Card>, game: &GameState, pool: &ManaPool) -> (play: Option<Play>)
    requires
        game@.fits(cards@.len()),
    ensures
        play == next_play(cards.deep_view(), game@, *pool),
        play.is_some() ==> legal(cards.deep_view(), game@, *pool, play.unwrap()),
{
    proof {
        lemma_next_play_legal(cards.deep_view(), game@, *pool);
    }
    match find_ramp(cards, &game.hand, pool) {
        Some(at) => {
            return Some(Play::Ramp { at });
        },
        None => {},
    }
    if commander_castable(cards, game, pool) {
        return Some(Play::Commander);
    }
    match find_spell(cards, &game.hand, pool) {
        Some(at) => Some(Play::Spell { at }),
        None => None,
    }
}

/// Carries out a legal play: pays for the card, moves it to where it goes,
/// and notes it in the turn's progress.
pub fn make_play(cards: &Vec<Card>, game: &mut GameState, progress: &mut Progress, play: Play)
    requires
        old(game)@.fits(cards@.len()),
        legal(cards.deep_view(), old(game)@, old(progress).pool, play),
        old(progress).cast < u32::MAX,
    ensures
        final(progress).with(final(game)@) == after_play(
            cards.deep_view(),
            old(progress).with(old(game)@),
            play,
        ),
        final(game)@.fits(cards@.len()),
        castable(final(game)@) + 1 == castable(old(game)@),
        final(progress).cast == old(progress).cast + 1,
        final(progress).pool.total() <= old(progress).pool.total(),
{
    match play {
        Play::Ramp { at } => {
            let position: usize = game.hand.remove(at);
            let card: &Card = &cards[position];
            let paid: bool = pay_for(&mut progress.pool, card, 0);
            game.battlefield.push(position);
            progress.draws = progress.draws.saturating_add(card.draw_count());
            progress.played.push(position);
        },
        Play::Commander => {
            match game.commander {
                Some(position) => {
                    let card: &Card = &cards[position];
                    let paid: bool = pay_for(&mut progress.pool, card, 2 * (game.recasts as u64));
                    game.commander = None;
                    game.battlefield.push(position);
                    game.recasts = game.recasts + 1;
                    progress.played.push(position);
                },
                None => {},
            }
        },
        Play::Spell { at } => {
            let position: usize = game.hand.remove(at);
            let card: &Card = &cards[position];
            let paid: bool = pay_for(&mut progress.pool, card, 0);
            if card.one_shot() {
                game.graveyard.push(position);
            } else {
                game.battlefield.push(position);
            }
            progress.draws = progress.draws.saturating_add(card.draw_count());
            progress.played.push(position);
        },
    }
    progress.cast = progress.cast + 1;
}

impl Policy for Greedy {
    open spec fn choice(&self, table: Seq<CardView>, g: GameView, pool: ManaPool) -> Option<Play> {
        next_play(table, g, pool)
    }

    fn pick(&self, cards: &Vec<Card>, game: &GameState, pool: &ManaPool) -> (play: Option<Play>) {
        choose_play(cards, game, pool)
    }
}

/// Runs the casting loop: makes the policy's plays one after another until
/// it has none left.
pub fn cast_cards<P: Policy>(
    policy: &P,
    cards: &Vec<Card>,
    game: &mut GameState,
    progress: &mut Progress,
)
    requires
        old(game)@.fits(cards@.len()),
        old(progress).cast + castable(old(game)@) <= u32::MAX,
    ensures
        final(progress).with(final(game)@) == cast_all(
            *policy,
            cards.deep_view(),
            old(progress).with(old(game)@),
        ),
        final(game)@.fits(cards@.len()),
        final(progress).pool.total() <= old(progress).pool.total(),
        final(progress).cast + castable(final(game)@) == old(progress).cast + castable(
            old(game)@,
        ),
{
    let ghost table = cards.deep_view();
    let ghost start = progress.with(game@);
    loop
        invariant
            table == cards.deep_view(),
            game@.fits(cards@.len()),
            progress.cast + castable(game@) == old(progress).cast + castable(old(game)@),
            old(progress).cast + castable(old(game)@) <= u32::MAX,
            progress.pool.total() <= old(progress).pool.total(),
            cast_all(*policy, table, progress.with(game@)) == cast_all(*policy, table, start),
        ensures
            progress.with(game@) == cast_all(*policy, table, start),
        decreases castable(game@),
    {
        match policy.pick(cards, game, &progress.pool) {
            None => {
                break ;
            },
            Some(play) => {
                make_play(cards, game, progress, play);
            },
        }
    }
}

} // verus!
