//! One turn of one game, from the draw to the verdict on the turn.

use vstd::prelude::*;
use crate::cast::{cast_all, cast_cards, Casting, Policy, Progress};
use crate::deck::{Card, CardView};
use crate::game::{
    count_lands, in_table, lands_in, lemma_discard_fits, lemma_draw_fits, GameState, GameView,
    HAND_LIMIT,
};
use crate::land::{generate_mana, land_drop, land_to_play, mana_from, play_land};
use crate::mana::ManaPool;

verus! {

/// Mana left over at which a turn with casts counts as a flood.
pub const FLOOD_MANA: u64 = 4;

/// The verdict on a turn.
#[derive(Clone, Copy, Debug, PartialEq, Eq, Structural)]
pub enum Outcome {
    /// Nothing was cast, and not for want of spells.
    Screw,
    /// Nothing was cast from a hand of lands, or mana was left unused.
    Flood,
    /// Cards were cast and little mana was left.
    Normal,
}

/// At least four fifths of a hand, which is not empty, are lands.
pub open spec fn land_heavy(lands: nat, hand: nat) -> bool {
    hand > 0 && 5 * lands >= 4 * hand
}

/// The verdict on a turn in which `cast` cards were cast and `left` mana was
/// left over, and after which the hand holds `lands` lands among `hand`
/// cards. Nothing cast is a flood from a land-heavy hand and a screw
/// otherwise; something cast is a flood with four or more mana left and a
/// normal turn otherwise.
pub open spec fn verdict_on(cast: nat, left: nat, lands: nat, hand: nat) -> Outcome {
    if cast == 0 {
        if land_heavy(lands, hand) {
            Outcome::Flood
        } else {
            Outcome::Screw
        }
    } else if left >= FLOOD_MANA {
        Outcome::Flood
    } else {
        Outcome::Normal
    }
}

/// Gives the verdict on a turn.
pub fn classify(cast: u32, left: u64, lands: usize, hand: usize) -> (status: Outcome)
    ensures
        status == verdict_on(cast as nat, left as nat, lands as nat, hand as nat),
{
    if cast == 0 {
        if hand > 0 && 5 * (lands as u128) >= 4 * (hand as u128) {
            Outcome::Flood
        } else {
            Outcome::Screw
        }
    } else if left >= FLOOD_MANA {
        Outcome::Flood
    } else {
        Outcome::Normal
    }
}

impl Outcome {
    /// The verdict's name in lower case.
    pub fn label(self) -> (r: &'static str)
        ensures
            r@ == match self {
                Outcome::Screw => "screw"@,
                Outcome::Flood => "flood"@,
                Outcome::Normal => "ok"@,
            },
    {
        match self {
            Outcome::Screw => "screw",
            Outcome::Flood => "flood",
            Outcome::Normal => "ok",
        }
    }
}

/// What is kept of one turn: the hand and the battlefield at its end, the
/// cards played in it, and its numbers. Cards are named by their position in
/// the table.
#[derive(Debug)]
pub struct TurnSnapshot {
    pub turn: usize,
    pub hand: Vec<usize>,
    pub battlefield: Vec<usize>,
    pub played_cards: Vec<usize>,
    pub mana_available: u32,
    pub mana_spent: u32,
    pub cards_cast: u32,
    pub status: Outcome,
}

/// A turn's snapshot as a mathematical value.
pub struct TurnRecord {
    pub turn: usize,
    pub hand: Seq<usize>,
    pub battlefield: Seq<usize>,
    pub played_cards: Seq<usize>,
    pub mana_available: u32,
    pub mana_spent: u32,
    pub cards_cast: u32,
    pub status: Outcome,
}

impl View for TurnSnapshot {
    type V = TurnRecord;

    open spec fn view(&self) -> TurnRecord {
        TurnRecord {
            turn: self.turn,
            hand: self.hand@,
            battlefield: self.battlefield@,
            played_cards: self.played_cards@,
            mana_available: self.mana_available,
            mana_spent: self.mana_spent,
            cards_cast: self.cards_cast,
            status: self.status,
        }
    }
}

impl DeepView for TurnSnapshot {
    type V = TurnRecord;

    open spec fn deep_view(&self) -> TurnRecord {
        self@
    }
}

/// The state after the turn's draw: no land played yet, one card drawn.
pub open spec fn turn_start(g: GameView) -> GameView {
    GameView { lands_played: 0, ..g }.draw(1)
}

/// The casting loop's state as the loop begins: the land drop is done, the
/// pool holds what the battlefield makes, and the land, if one was played,
/// is the only card played so far.
pub open spec fn casting_start(table: Seq<CardView>, g: GameView) -> Casting {
    let dropped = land_drop(table, g);
    Casting {
        game: dropped,
        pool: mana_from(table, dropped.battlefield),
        cast: 0,
        draws: 0,
        played: match land_to_play(table, g) {
            Some(land) => seq![land],
            None => Seq::empty(),
        },
    }
}

/// The casting loop's state when the turn's casting is over.
pub open spec fn casting_end<P: Policy>(policy: P, table: Seq<CardView>, g: GameView) -> Casting {
    cast_all(policy, table, casting_start(table, turn_start(g)))
}

/// The state after a whole turn: draw, land drop, casting, the draws that
/// the cast cards earned, and the discard down to seven.
#[verifier::opaque]
pub open spec fn after_turn<P: Policy>(policy: P, table: Seq<CardView>, g: GameView) -> GameView {
    let done = casting_end(policy, table, g);
    done.game.draw(done.draws).discard_to(HAND_LIMIT as nat)
}

/// What is kept of the turn that starts in state `g`. Mana available is what
/// the battlefield made; mana spent is that less what was left after
/// casting. The verdict looks at the hand as it is after the discard.
#[verifier::opaque]
pub open spec fn record_of<P: Policy>(
    policy: P,
    table: Seq<CardView>,
    g: GameView,
    turn: usize,
) -> TurnRecord {
    let begun = casting_start(table, turn_start(g));
    let done = casting_end(policy, table, g);
    let end = after_turn(policy, table, g);
    TurnRecord {
        turn,
        hand: end.hand,
        battlefield: end.battlefield,
        played_cards: done.played,
        mana_available: begun.pool.total() as u32,
        mana_spent: (begun.pool.total() - done.pool.total()) as u32,
        cards_cast: done.cast as u32,
        status: verdict_on(
            done.cast,
            done.pool.total(),
            lands_in(table, end.hand),
            end.hand.len(),
        ),
    }
}

/// A copy of a zone.
pub fn copy_zone(zone: &Vec<usize>) -> (copy: Vec<usize>)
    ensures
        copy@ == zone@,
{
    let mut copy: Vec<usize> = Vec::new();
    let mut i: usize = 0;
    while i < zone.len()
        invariant
            i <= zone@.len(),
            copy@ == zone@.take(i as int),
        decreases zone@.len() - i,
    {
        copy.push(zone[i]);
        assert(zone@.take(i + 1) =~= zone@.take(i as int).push(zone@[i as int]));
        i = i + 1;
    }
    assert(zone@.take(i as int) =~= zone@);
    copy
}

/// The names of the cards of a zone, in the order of the zone.
pub fn card_names(cards: &Vec<Card>, zone: &Vec<usize>) -> (names: Vec<String>)
    requires
        in_table(zone@, cards@.len()),
    ensures
        names@.len() == zone@.len(),
        forall|i: int|
            0 <= i < zone@.len() ==> (#[trigger] names@[i])@ == cards@[zone@[i] as int]@.name(),
{
    let mut names: Vec<String> = Vec::new();
    let mut i: usize = 0;
    while i < zone.len()
        invariant
            i <= zone@.len(),
            in_table(zone@, cards@.len()),
            names@.len() == i,
            forall|k: int|
                0 <= k < i ==> (#[trigger] names@[k])@ == cards@[zone@[k] as int]@.name(),
        decreases zone@.len() - i,
    {
        names.push(cards[zone[i]].name().clone());
        i = i + 1;
    }
    names
}

/// Plays one turn and reports on it.
///
/// The turn draws a card, plays a land if the hand holds one, fills the pool
/// from the battlefield, casts what the policy chooses, draws the cards that
/// the cast cards earned, discards down to seven, and is then classified.
pub fn play_turn<P: Policy>(
    policy: &P,
    cards: &Vec<Card>,
    game: &mut GameState,
    turn: usize,
) -> (snapshot: TurnSnapshot)
    requires
        old(game)@.fits(cards@.len()),
    ensures
        final(game)@ == after_turn(*policy, cards.deep_view(), old(game)@),
        snapshot@ == record_of(*policy, cards.deep_view(), old(game)@, turn),
        final(game)@.fits(cards@.len()),
        snapshot.hand@ == final(game)@.hand,
        snapshot.hand@.len() <= HAND_LIMIT,
        snapshot.mana_spent <= snapshot.mana_available,
        snapshot.mana_available <= cards@.len(),
        snapshot.cards_cast <= cards@.len(),
{
    reveal(after_turn);
    reveal(record_of);
    let ghost table = cards.deep_view();
    let ghost size = cards@.len() as nat;
    game.lands_played = 0;
    proof {
        lemma_draw_fits(game@, 1, size);
    }
    game.draw(1);
    let land: Option<usize> = play_land(cards, game);
    let pool: ManaPool = generate_mana(cards, &game.battlefield);
    let available: u64 = pool.sum();
    let mut played_cards: Vec<usize> = Vec::new();
    match land {
        Some(position) => {
            played_cards.push(position);
        },
        None => {},
    }
    let mut progress = Progress { pool, cast: 0, draws: 0, played: played_cards };
    assert(progress.with(game@) == casting_start(table, turn_start(old(game)@)));
    cast_cards(policy, cards, game, &mut progress);
    let left: u64 = progress.pool.sum();
    let draws: usize = if progress.draws > usize::MAX as u64 {
        usize::MAX
    } else {
        progress.draws as usize
    };
    let in_library: usize = game.library.len();
    proof {
        lemma_draw_fits(game@, draws as nat, size);
        assert(game@.draw(draws as nat) == game@.draw(progress.draws as nat));
        lemma_discard_fits(game@.draw(draws as nat), HAND_LIMIT as nat, size);
    }
    game.draw(draws);
    game.discard_to(HAND_LIMIT);
    let lands: usize = count_lands(cards, &game.hand);
    let status: Outcome = classify(progress.cast, left, lands, game.hand.len());
    TurnSnapshot {
        turn,
        hand: copy_zone(&game.hand),
        battlefield: copy_zone(&game.battlefield),
        played_cards: progress.played,
        mana_available: available as u32,
        mana_spent: (available - left) as u32,
        cards_cast: progress.cast,
        status,
    }
}

} // verus!
