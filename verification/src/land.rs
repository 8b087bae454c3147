//! The land drop and the mana that the battlefield makes.

use vstd::prelude::*;
use crate::color::Color;
use crate::deck::{Card, CardView, Yield};
use crate::first::{first_match, lemma_first_absent, lemma_first_found};
use crate::game::{in_table, lands_in, GameState, GameView};
use crate::mana::ManaPool;

verus! {

/// The pool with what one permanent yields added to it.
pub open spec fn with_yield(pool: ManaPool, produced: Yield) -> ManaPool {
    match produced {
        Yield::Nothing => pool,
        Yield::Generic => ManaPool { generic: (pool.generic + 1) as u32, ..pool },
        Yield::Colored(color) => pool.plus(color, 1),
    }
}

/// The mana that a battlefield makes in one turn: what each of its
/// permanents yields, added up from an empty pool.
pub open spec fn mana_from(table: Seq<CardView>, battlefield: Seq<usize>) -> ManaPool
    decreases battlefield.len(),
{
    if battlefield.len() == 0 {
        ManaPool::empty()
    } else {
        with_yield(
            mana_from(table, battlefield.drop_last()),
            table[battlefield.last() as int].yields(),
        )
    }
}

/// Fills a fresh pool with the mana that the battlefield makes.
pub fn generate_mana(cards: &Vec<Card>, battlefield: &Vec<usize>) -> (pool: ManaPool)
    requires
        in_table(battlefield@, cards@.len()),
        battlefield@.len() <= u32::MAX,
    ensures
        pool == mana_from(cards.deep_view(), battlefield@),
        pool.total() <= battlefield@.len(),
{
    let ghost table = cards.deep_view();
    let mut pool: ManaPool = ManaPool::new();
    let mut i: usize = 0;
    while i < battlefield.len()
        invariant
            table == cards.deep_view(),
            i <= battlefield@.len(),
            battlefield@.len() <= u32::MAX,
            in_table(battlefield@, cards@.len()),
            pool == mana_from(table, battlefield@.take(i as int)),
            pool.total() <= i,
        decreases battlefield@.len() - i,
    {
        assert(battlefield@.take(i + 1).drop_last() =~= battlefield@.take(i as int));
        match cards[battlefield[i]].yields() {
            Yield::Nothing => {},
            Yield::Generic => {
                pool.generic = pool.generic + 1;
            },
            Yield::Colored(color) => {
                pool.add_color(color, 1);
            },
        }
        i = i + 1;
    }
    assert(battlefield@.take(i as int) =~= battlefield@);
    pool
}

/// An exec position and a position of the model name the same place, or
/// both name none.
pub open spec fn same_place(found: Option<usize>, position: Option<int>) -> bool {
    match found {
        Some(at) => position == Some(at as int),
        None => position.is_none(),
    }
}

/// The card at a hand position is a land.
pub open spec fn land_at(table: Seq<CardView>, hand: Seq<usize>) -> spec_fn(int) -> bool {
    |at: int| table[hand[at] as int] is Land
}

/// Position in hand of the first land, in hand order.
pub open spec fn first_land(table: Seq<CardView>, hand: Seq<usize>) -> Option<int> {
    first_match(hand.len() as int, land_at(table, hand))
}

/// The card at a library position is a land that a search for `targets` may
/// take.
pub open spec fn target_at(table: Seq<CardView>, library: Seq<usize>, targets: Seq<Color>)
    -> spec_fn(int) -> bool {
    |at: int| table[library[at] as int].found_by(targets)
}

/// Position in the library of the first land that a search for `targets`
/// takes, counted from the bottom of the library.
pub open spec fn first_target(table: Seq<CardView>, library: Seq<usize>, targets: Seq<Color>)
    -> Option<int> {
    first_match(library.len() as int, target_at(table, library, targets))
}

/// The land that the land drop plays: the first land in hand, unless a land
/// was played already this turn.
pub open spec fn land_to_play(table: Seq<CardView>, g: GameView) -> Option<usize> {
    if g.lands_played > 0 {
        None
    } else {
        match first_land(table, g.hand) {
            Some(at) => Some(g.hand[at]),
            None => None,
        }
    }
}

/// The state after a search for `targets`: the first land that the search
/// takes goes from the library to the battlefield, and the library is
/// shuffled, whether anything was found or not.
pub open spec fn search(table: Seq<CardView>, g: GameView, targets: Seq<Color>) -> GameView {
    match first_target(table, g.library, targets) {
        Some(at) => GameView {
            library: g.library.remove(at),
            battlefield: g.battlefield.push(g.library[at]),
            ..g
        }.reshuffled(),
        None => g.reshuffled(),
    }
}

/// The state after the land drop. The first land in hand leaves the hand. A
/// fetch land searches the library and then goes to the graveyard; any other
/// land goes to the battlefield. With no land in hand, or a land played
/// already this turn, nothing changes.
pub open spec fn land_drop(table: Seq<CardView>, g: GameView) -> GameView {
    if g.lands_played > 0 {
        g
    } else {
        match first_land(table, g.hand) {
            None => g,
            Some(at) => {
                let land = g.hand[at];
                let played = GameView { hand: g.hand.remove(at), lands_played: 1, ..g };
                if table[land as int].fetch_land() {
                    let searched = search(table, played, table[land as int].targets());
                    GameView { graveyard: searched.graveyard.push(land), ..searched }
                } else {
                    GameView { battlefield: played.battlefield.push(land), ..played }
                }
            },
        }
    }
}

/// One more land at the end of a zone is one more land in the zone.
pub proof fn lemma_lands_push(table: Seq<CardView>, zone: Seq<usize>, card: usize)
    ensures
        lands_in(table, zone.push(card)) == lands_in(table, zone) + if table[card as int] is Land {
            1nat
        } else {
            0nat
        },
{
    assert(zone.push(card).drop_last() =~= zone);
}

/// Finds the first land in a hand.
pub fn find_land(cards: &Vec<Card>, hand: &Vec<usize>) -> (found: Option<usize>)
    requires
        in_table(hand@, cards@.len()),
    ensures
        same_place(found, first_land(cards.deep_view(), hand@)),
        found.is_some() ==> found.unwrap() < hand@.len(),
        found.is_some() ==> cards@[hand@[found.unwrap() as int] as int]@ is Land,
{
    let ghost holds = land_at(cards.deep_view(), hand@);
    let mut at: usize = 0;
    while at < hand.len()
        invariant
            at <= hand@.len(),
            in_table(hand@, cards@.len()),
            holds == land_at(cards.deep_view(), hand@),
            forall|k: int| 0 <= k < at ==> !#[trigger] holds(k),
        decreases hand@.len() - at,
    {
        if cards[hand[at]].is_land() {
            proof {
                assert(holds(at as int));
                lemma_first_found(hand@.len() as int, holds, at as int);
            }
            return Some(at);
        }
        at = at + 1;
    }
    proof {
        lemma_first_absent(hand@.len() as int, holds);
    }
    None
}

/// Finds the first land in a library that a search for `targets` takes.
pub fn find_target(cards: &Vec<Card>, library: &Vec<usize>, targets: &Vec<Color>) -> (found:
    Option<usize>)
    requires
        in_table(library@, cards@.len()),
    ensures
        same_place(found, first_target(cards.deep_view(), library@, targets@)),
        found.is_some() ==> found.unwrap() < library@.len(),
        found.is_some() ==> cards@[library@[found.unwrap() as int] as int]@ is Land,
{
    let ghost holds = target_at(cards.deep_view(), library@, targets@);
    let mut at: usize = 0;
    while at < library.len()
        invariant
            at <= library@.len(),
            in_table(library@, cards@.len()),
            holds == target_at(cards.deep_view(), library@, targets@),
            forall|k: int| 0 <= k < at ==> !#[trigger] holds(k),
        decreases library@.len() - at,
    {
        if cards[library[at]].found_by(targets) {
            proof {
                assert(holds(at as int));
                lemma_first_found(library@.len() as int, holds, at as int);
            }
            return Some(at);
        }
        at = at + 1;
    }
    proof {
        lemma_first_absent(library@.len() as int, holds);
    }
    None
}

/// Searches the library for a land of one of the `targets` colors, puts the
/// first one found onto the battlefield, and shuffles the library.
pub fn search_library(cards: &Vec<Card>, game: &mut GameState, targets: &Vec<Color>) -> (found:
    Option<usize>)
    requires
        in_table(old(game)@.library, cards@.len()),
        in_table(old(game)@.battlefield, cards@.len()),
    ensures
        final(game)@ == search(cards.deep_view(), old(game)@, targets@),
        same_place(found, first_target(cards.deep_view(), old(game)@.library, targets@)),
        in_table(final(game)@.library, cards@.len()),
        in_table(final(game)@.battlefield, cards@.len()),
        match found {
            Some(at) => {
                &&& at < old(game)@.library.len()
                &&& cards@[old(game)@.library[at as int] as int]@ is Land
                &&& final(game)@.battlefield == old(game)@.battlefield.push(
                    old(game)@.library[at as int],
                )
                &&& final(game)@.library.len() == old(game)@.library.len() - 1
            },
            None => {
                &&& final(game)@.battlefield == old(game)@.battlefield
                &&& final(game)@.library.len() == old(game)@.library.len()
            },
        },
{
    let found: Option<usize> = find_target(cards, &game.library, targets);
    match found {
        Some(at) => {
            let card: usize = game.library.remove(at);
            game.battlefield.push(card);
        },
        None => {},
    }
    game.shuffle_library();
    found
}

/// Plays the turn's land, if the hand holds one, and says which card it was.
///
/// When the land is a fetch land and the library holds a land of one of its
/// colors, the battlefield gains that land and so holds one land more, the
/// library holds one card fewer, and the fetch land itself ends in the
/// graveyard.
pub fn play_land(cards: &Vec<Card>, game: &mut GameState) -> (played: Option<usize>)
    requires
        old(game)@.fits(cards@.len()),
    ensures
        final(game)@ == land_drop(cards.deep_view(), old(game)@),
        played == land_to_play(cards.deep_view(), old(game)@),
        final(game)@.fits(cards@.len()),
        played.is_some() ==> played.unwrap() < cards@.len(),
        played.is_some() ==> cards@[played.unwrap() as int]@ is Land,
        played.is_some() && cards@[played.unwrap() as int]@.fetch_land() ==> {
            let target = first_target(
                cards.deep_view(),
                old(game)@.library,
                cards@[played.unwrap() as int]@.targets(),
            );
            &&& final(game)@.graveyard == old(game)@.graveyard.push(played.unwrap())
            &&& target.is_some() ==> {
                &&& final(game)@.battlefield == old(game)@.battlefield.push(
                    old(game)@.library[target.unwrap()],
                )
                &&& lands_in(cards.deep_view(), final(game)@.battlefield) == lands_in(
                    cards.deep_view(),
                    old(game)@.battlefield,
                ) + 1
                &&& final(game)@.library.len() == old(game)@.library.len() - 1
            }
            &&& target.is_none() ==> {
                &&& final(game)@.battlefield == old(game)@.battlefield
                &&& final(game)@.library.len() == old(game)@.library.len()
            }
        },
{
    if game.lands_played > 0 {
        return None;
    }
    let spot: Option<usize> = find_land(cards, &game.hand);
    match spot {
        None => None,
        Some(at) => {
            let land: usize = game.hand.remove(at);
            game.lands_played = 1;
            match &cards[land] {
                Card::Land { fetch, fetches, .. } => {
                    if *fetch {
                        let ghost battlefield = game.battlefield@;
                        let found: Option<usize> = search_library(cards, game, fetches);
                        game.graveyard.push(land);
                        proof {
                            if found.is_some() {
                                lemma_lands_push(
                                    cards.deep_view(),
                                    battlefield,
                                    old(game)@.library[found.unwrap() as int],
                                );
                            }
                        }
                    } else {
                        game.battlefield.push(land);
                    }
                },
                _ => {
                    game.battlefield.push(land);
                },
            }
            Some(land)
        },
    }
}

} // verus!
