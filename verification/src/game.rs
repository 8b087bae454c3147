//! One game in progress: where every card is.
//!
//! The cards of a game form a table: the cards of the library, followed by
//! the commander. A zone (hand, battlefield, graveyard, library) is a list of
//! positions in that table. The end of the library list is the top of the
//! library.

use vstd::prelude::*;
use vstd::seq_lib::*;
use crate::deck::{Card, CardView};
use crate::mana::least;
use crate::shuffle::{shuffle_with_seed, shuffled};

verus! {

/// Largest hand that is kept at the end of a turn, and the size of the first
/// opening hand.
pub const HAND_LIMIT: usize = 7;

/// Size of the opening hand that is kept whatever it holds.
pub const HAND_FLOOR: usize = 4;

/// The state of one game.
#[derive(Debug)]
pub struct GameState {
    pub hand: Vec<usize>,
    pub battlefield: Vec<usize>,
    pub graveyard: Vec<usize>,
    pub library: Vec<usize>,
    /// The commander's position in the table while it waits to be cast.
    pub commander: Option<usize>,
    /// Times the commander has been cast; each adds two to its cost.
    pub recasts: u32,
    /// Lands played this turn.
    pub lands_played: u32,
    /// The seed that this game's shuffles are derived from.
    pub seed: u64,
    /// Shuffles made so far.
    pub shuffles: u64,
}

/// A game state as a mathematical value.
pub struct GameView {
    pub hand: Seq<usize>,
    pub battlefield: Seq<usize>,
    pub graveyard: Seq<usize>,
    pub library: Seq<usize>,
    pub commander: Option<usize>,
    pub recasts: u32,
    pub lands_played: u32,
    pub seed: u64,
    pub shuffles: u64,
}

impl View for GameState {
    type V = GameView;

    open spec fn view(&self) -> GameView {
        GameView {
            hand: self.hand@,
            battlefield: self.battlefield@,
            graveyard: self.graveyard@,
            library: self.library@,
            commander: self.commander,
            recasts: self.recasts,
            lands_played: self.lands_played,
            seed: self.seed,
            shuffles: self.shuffles,
        }
    }
}

/// Every position of a zone lies in a table of `size` cards.
pub open spec fn in_table(zone: Seq<usize>, size: nat) -> bool {
    forall|i: int| 0 <= i < zone.len() ==> #[trigger] zone[i] < size
}

/// The top `n` cards of a library, the topmost first.
pub open spec fn top_cards(library: Seq<usize>, n: nat) -> Seq<usize> {
    Seq::new(n, |i: int| library[library.len() - 1 - i])
}

/// Lands among the cards of a zone.
pub open spec fn lands_in(table: Seq<CardView>, zone: Seq<usize>) -> nat
    decreases zone.len(),
{
    if zone.len() == 0 {
        0
    } else {
        lands_in(table, zone.drop_last()) + if table[zone.last() as int] is Land {
            1nat
        } else {
            0nat
        }
    }
}

/// Cheap ramp among the cards of a zone.
pub open spec fn fast_mana_in(table: Seq<CardView>, zone: Seq<usize>) -> nat
    decreases zone.len(),
{
    if zone.len() == 0 {
        0
    } else {
        fast_mana_in(table, zone.drop_last()) + if table[zone.last() as int].fast_mana() {
            1nat
        } else {
            0nat
        }
    }
}

/// An opening hand is kept when it holds at least three mana sources, lands
/// and cheap ramp together, and at most five lands.
pub open spec fn keepable(table: Seq<CardView>, hand: Seq<usize>) -> bool {
    lands_in(table, hand) + fast_mana_in(table, hand) >= 3 && lands_in(table, hand) <= 5
}

impl GameView {
    /// Number of cards in the game, wherever they are.
    pub open spec fn cards(self) -> nat {
        let waiting: nat = if self.commander.is_some() {
            1
        } else {
            0
        };
        self.hand.len() + self.battlefield.len() + self.graveyard.len() + self.library.len()
            + waiting
    }

    /// The state belongs to a table of `size` cards: every position lies in
    /// the table, the zones and the command zone together hold `size` cards,
    /// and the counters have room.
    pub open spec fn fits(self, size: nat) -> bool {
        &&& size <= u32::MAX
        &&& in_table(self.hand, size)
        &&& in_table(self.battlefield, size)
        &&& in_table(self.graveyard, size)
        &&& in_table(self.library, size)
        &&& self.commander.is_some() ==> self.commander.unwrap() < size
        &&& self.cards() == size
        &&& self.commander.is_some() ==> self.recasts < u32::MAX
    }

    /// The state before the first shuffle of a game on a table of `size`
    /// cards: every card but the last in the library, the last one waiting as
    /// the commander.
    pub open spec fn fresh(size: nat, seed: u64) -> GameView {
        GameView {
            hand: Seq::empty(),
            battlefield: Seq::empty(),
            graveyard: Seq::empty(),
            library: Seq::new((size - 1) as nat, |i: int| i as usize),
            commander: Some((size - 1) as usize),
            recasts: 0,
            lands_played: 0,
            seed,
            shuffles: 0,
        }
    }

    /// The state after drawing `n` cards: the top cards of the library go to
    /// the end of the hand, the topmost first. A library that holds fewer
    /// gives what it has.
    pub open spec fn draw(self, n: nat) -> GameView {
        let taken = least(n, self.library.len());
        GameView {
            hand: self.hand + top_cards(self.library, taken),
            library: self.library.take(self.library.len() - taken),
            ..self
        }
    }

    /// The state after the hand has gone back onto the library, in hand
    /// order.
    pub open spec fn return_hand(self) -> GameView {
        GameView { hand: Seq::empty(), library: self.library + self.hand, ..self }
    }

    /// The seed of the next shuffle.
    pub open spec fn next_seed(self) -> u64 {
        self.seed.wrapping_add(self.shuffles)
    }

    /// The state after the library has been shuffled.
    pub open spec fn reshuffled(self) -> GameView {
        GameView {
            library: shuffled(self.library, self.next_seed()),
            shuffles: self.shuffles.wrapping_add(1),
            ..self
        }
    }

    /// The state after discarding down to `limit` cards: the cards beyond
    /// the limit go to the graveyard, the last card of the hand first.
    pub open spec fn discard_to(self, limit: nat) -> GameView {
        if self.hand.len() <= limit {
            self
        } else {
            GameView {
                hand: self.hand.take(limit as int),
                graveyard: self.graveyard + top_cards(
                    self.hand,
                    (self.hand.len() - limit) as nat,
                ),
                ..self
            }
        }
    }

    /// The opening hand of `size` cards and, while it is not kept, the
    /// smaller ones after it: shuffle, draw, keep if the hand is keepable or
    /// has reached the floor, else put the hand back and deal one card fewer.
    pub open spec fn deal(self, table: Seq<CardView>, size: nat) -> GameView
        decreases size,
    {
        let dealt = self.reshuffled().draw(size);
        if size <= HAND_FLOOR || keepable(table, dealt.hand) {
            dealt
        } else {
            dealt.return_hand().deal(table, (size - 1) as nat)
        }
    }

    /// The state at the start of a game on `table` with `seed`.
    pub open spec fn opening(table: Seq<CardView>, seed: u64) -> GameView {
        GameView::fresh(table.len(), seed).deal(table, HAND_LIMIT as nat)
    }
}

/// Drawing keeps a state in its table.
pub proof fn lemma_draw_fits(g: GameView, n: nat, size: nat)
    requires
        g.fits(size),
    ensures
        g.draw(n).fits(size),
        g.draw(n).hand.len() == g.hand.len() + least(n, g.library.len()),
        g.draw(n).library.len() == g.library.len() - least(n, g.library.len()),
{
}

/// Discarding keeps a state in its table and leaves at most `limit` cards in
/// hand.
pub proof fn lemma_discard_fits(g: GameView, limit: nat, size: nat)
    requires
        g.fits(size),
    ensures
        g.discard_to(limit).fits(size),
        g.discard_to(limit).hand.len() == least(g.hand.len(), limit),
{
}

/// Counts the lands among the cards of a zone.
pub fn count_lands(cards: &Vec<Card>, zone: &Vec<usize>) -> (n: usize)
    requires
        in_table(zone@, cards@.len()),
    ensures
        n == lands_in(cards.deep_view(), zone@),
        n <= zone@.len(),
{
    let mut n: usize = 0;
    let mut i: usize = 0;
    while i < zone.len()
        invariant
            i <= zone@.len(),
            in_table(zone@, cards@.len()),
            n <= i,
            n == lands_in(cards.deep_view(), zone@.take(i as int)),
        decreases zone@.len() - i,
    {
        assert(zone@.take(i + 1).drop_last() =~= zone@.take(i as int));
        if cards[zone[i]].is_land() {
            n = n + 1;
        }
        i = i + 1;
    }
    assert(zone@.take(i as int) =~= zone@);
    n
}

/// Counts the cheap ramp among the cards of a zone.
pub fn count_fast_mana(cards: &Vec<Card>, zone: &Vec<usize>) -> (n: usize)
    requires
        in_table(zone@, cards@.len()),
    ensures
        n == fast_mana_in(cards.deep_view(), zone@),
        n <= zone@.len(),
{
    let mut n: usize = 0;
    let mut i: usize = 0;
    while i < zone.len()
        invariant
            i <= zone@.len(),
            in_table(zone@, cards@.len()),
            n <= i,
            n == fast_mana_in(cards.deep_view(), zone@.take(i as int)),
        decreases zone@.len() - i,
    {
        assert(zone@.take(i + 1).drop_last() =~= zone@.take(i as int));
        if cards[zone[i]].fast_mana() {
            n = n + 1;
        }
        i = i + 1;
    }
    assert(zone@.take(i as int) =~= zone@);
    n
}

/// Whether a hand is kept as an opening hand.
pub fn keeps(cards: &Vec<Card>, hand: &Vec<usize>) -> (r: bool)
    requires
        in_table(hand@, cards@.len()),
    ensures
        r == keepable(cards.deep_view(), hand@),
{
    let lands: usize = count_lands(cards, hand);
    let fast: usize = count_fast_mana(cards, hand);
    lands <= 5 && (lands >= 3 || fast >= 3 - lands)
}

impl GameState {
    /// Draws up to `n` cards from the top of the library.
    pub fn draw(&mut self, n: usize)
        ensures
            final(self)@ == old(self)@.draw(n as nat),
    {
        let ghost start = self@;
        let mut i: usize = 0;
        assert(start.hand + top_cards(start.library, 0) =~= start.hand);
        assert(start.library.take(start.library.len() - 0) =~= start.library);
        while i < n && self.library.len() > 0
            invariant
                i <= n,
                i <= start.library.len(),
                self@ == (GameView {
                    hand: start.hand + top_cards(start.library, i as nat),
                    library: start.library.take(start.library.len() - i),
                    ..start
                }),
            decreases n - i,
        {
            let ghost hand = self.hand@;
            let card: Option<usize> = self.library.pop();
            match card {
                Some(position) => {
                    self.hand.push(position);
                },
                None => {},
            }
            assert(self.hand@ =~= start.hand + top_cards(start.library, (i + 1) as nat));
            assert(self.library@ =~= start.library.take(start.library.len() - (i + 1)));
            i = i + 1;
        }
    }

    /// Puts the hand back onto the library, in hand order.
    pub fn return_hand(&mut self)
        ensures
            final(self)@ == old(self)@.return_hand(),
    {
        self.library.append(&mut self.hand);
    }

    /// Shuffles the library. The library holds the same cards afterwards.
    pub fn shuffle_library(&mut self)
        ensures
            final(self)@ == old(self)@.reshuffled(),
            final(self)@.library.to_multiset() == old(self)@.library.to_multiset(),
            final(self)@.library.len() == old(self)@.library.len(),
            forall|size: nat|
                in_table(old(self)@.library, size) ==> in_table(
                    #[trigger] final(self)@.library,
                    size,
                ),
    {
        broadcast use group_to_multiset_ensures;

        let ghost before = self.library@;
        shuffle_with_seed(&mut self.library, self.seed.wrapping_add(self.shuffles));
        self.shuffles = self.shuffles.wrapping_add(1);
        proof {
            let after = self.library@;
            to_multiset_len(before);
            to_multiset_len(after);
            assert forall|size: nat| in_table(before, size) implies in_table(after, size) by {
                assert forall|i: int| 0 <= i < after.len() implies #[trigger] after[i] < size by {
                    assert(after.contains(after[i]));
                    assert(before.to_multiset().count(after[i]) > 0);
                    assert(before.contains(after[i]));
                }
            }
        }
    }

    /// Discards from the end of the hand until at most `limit` cards are
    /// left.
    pub fn discard_to(&mut self, limit: usize)
        ensures
            final(self)@ == old(self)@.discard_to(limit as nat),
    {
        let ghost start = self@;
        if self.hand.len() <= limit {
            return ;
        }
        let mut done: usize = 0;
        assert(start.hand.take(start.hand.len() - 0) =~= start.hand);
        assert(start.graveyard + top_cards(start.hand, 0) =~= start.graveyard);
        while self.hand.len() > limit
            invariant
                start.hand.len() > limit,
                done <= start.hand.len() - limit,
                start.hand.len() <= usize::MAX,
                self.hand@.len() == start.hand.len() - done,
                self@ == (GameView {
                    hand: start.hand.take(start.hand.len() - done),
                    graveyard: start.graveyard + top_cards(start.hand, done as nat),
                    ..start
                }),
            decreases self.hand@.len(),
        {
            let card: Option<usize> = self.hand.pop();
            match card {
                Some(position) => {
                    self.graveyard.push(position);
                },
                None => {},
            }
            assert(self.hand@ =~= start.hand.take(start.hand.len() - (done + 1)));
            assert(self.graveyard@ =~= start.graveyard + top_cards(
                start.hand,
                (done + 1) as nat,
            ));
            done = done + 1;
        }
    }

    /// Starts a game: shuffles the library and settles the opening hand.
    ///
    /// The table is the library's cards followed by the commander. Seven
    /// cards are dealt; a hand that is not keepable goes back and one card
    /// fewer is dealt, down to four, which are kept whatever they are. So the
    /// library is shuffled at most four times, and the hand holds between
    /// four and seven cards, or the whole library if that is smaller.
    pub fn new(cards: &Vec<Card>, seed: u64) -> (game: GameState)
        requires
            1 <= cards@.len() <= u32::MAX,
        ensures
            game@ == GameView::opening(cards.deep_view(), seed),
            game@.fits(cards@.len()),
            1 <= game@.shuffles <= 4,
            game@.hand.len() <= HAND_LIMIT,
            game@.hand.len() >= least(HAND_FLOOR as nat, (cards@.len() - 1) as nat),
            game@.hand.len() + game@.library.len() == cards@.len() - 1,
            game@.battlefield.len() == 0,
            game@.graveyard.len() == 0,
            game@.commander == Some((cards@.len() - 1) as usize),
    {
        let ghost table = cards.deep_view();
        let count: usize = cards.len() - 1;
        let mut library: Vec<usize> = Vec::new();
        let mut i: usize = 0;
        while i < count
            invariant
                i <= count,
                library@ =~= Seq::new(i as nat, |k: int| k as usize),
            decreases count - i,
        {
            library.push(i);
            i = i + 1;
        }
        let mut game = GameState {
            hand: Vec::new(),
            battlefield: Vec::new(),
            graveyard: Vec::new(),
            library,
            commander: Some(count),
            recasts: 0,
            lands_played: 0,
            seed,
            shuffles: 0,
        };
        assert(game@ == GameView::fresh(table.len(), seed));
        let mut size: usize = HAND_LIMIT;
        loop
            invariant_except_break
                game@.hand.len() == 0,
                game@.library.len() == count,
                game@.shuffles == HAND_LIMIT - size,
                game@.deal(table, size as nat) == GameView::opening(table, seed),
            invariant
                table == cards.deep_view(),
                count == cards@.len() - 1,
                HAND_FLOOR <= size <= HAND_LIMIT,
                game@.fits(cards@.len()),
                game@.battlefield.len() == 0,
                game@.graveyard.len() == 0,
                game@.commander == Some(count),
            ensures
                game@ == GameView::opening(cards.deep_view(), seed),
                game@.fits(cards@.len()),
                1 <= game@.shuffles <= 4,
                game@.hand.len() <= HAND_LIMIT,
                game@.hand.len() >= least(HAND_FLOOR as nat, (cards@.len() - 1) as nat),
                game@.hand.len() + game@.library.len() == cards@.len() - 1,
                game@.battlefield.len() == 0,
                game@.graveyard.len() == 0,
                game@.commander == Some((cards@.len() - 1) as usize),
            decreases size,
        {
            game.shuffle_library();
            proof {
                lemma_draw_fits(game@, size as nat, cards@.len() as nat);
            }
            game.draw(size);
            if size <= HAND_FLOOR || keeps(cards, &game.hand) {
                break ;
            }
            game.return_hand();
            size = size - 1;
        }
        game
    }
}

} // verus!
