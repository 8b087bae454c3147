//! The mana pool: what a player may spend during one turn.
//!
//! Colored requirements ("pips") are hard: only mana of that color pays them.
//! The generic part of a cost is paid from whatever is left, the generic
//! counter first and then the colors in the fixed order W, U, B, R, G, C.

use vstd::prelude::*;
use crate::color::Color;
use crate::deck::{capped, Card, CardView};

verus! {

/// Number of times `color` occurs in `pips`.
pub open spec fn pip_count(pips: Seq<Color>, color: Color) -> nat
    decreases pips.len(),
{
    if pips.len() == 0 {
        0
    } else {
        pip_count(pips.drop_last(), color) + if pips.last() == color {
            1nat
        } else {
            0nat
        }
    }
}

/// Every pip is counted under exactly one of the six symbols.
pub proof fn lemma_pip_counts_sum(pips: Seq<Color>)
    ensures
        pip_count(pips, Color::White) + pip_count(pips, Color::Blue) + pip_count(
            pips,
            Color::Black,
        ) + pip_count(pips, Color::Red) + pip_count(pips, Color::Green) + pip_count(
            pips,
            Color::Colorless,
        ) == pips.len(),
    decreases pips.len(),
{
    if pips.len() > 0 {
        lemma_pip_counts_sum(pips.drop_last());
    }
}

/// Counts the occurrences of one symbol in a pip list.
pub fn count_pips(pips: &[Color], color: Color) -> (n: usize)
    ensures
        n == pip_count(pips@, color),
        n <= pips@.len(),
{
    let mut n: usize = 0;
    let mut i: usize = 0;
    while i < pips.len()
        invariant
            i <= pips@.len(),
            n <= i,
            n == pip_count(pips@.take(i as int), color),
        decreases pips@.len() - i,
    {
        assert(pips@.take(i + 1).drop_last() =~= pips@.take(i as int));
        if pips[i] == color {
            n = n + 1;
        }
        i = i + 1;
    }
    assert(pips@.take(i as int) =~= pips@);
    n
}

/// Generic mana plus one counter for each of the six symbols.
#[derive(Clone, Copy, Debug, PartialEq, Eq, Structural)]
pub struct ManaPool {
    pub generic: u32,
    pub white: u32,
    pub blue: u32,
    pub black: u32,
    pub red: u32,
    pub green: u32,
    pub colorless: u32,
}

/// The smaller of two natural numbers.
pub open spec fn least(a: nat, b: nat) -> nat {
    if a <= b {
        a
    } else {
        b
    }
}

impl ManaPool {
    /// The counter of one symbol.
    pub open spec fn amount(self, color: Color) -> nat {
        match color {
            Color::White => self.white as nat,
            Color::Blue => self.blue as nat,
            Color::Black => self.black as nat,
            Color::Red => self.red as nat,
            Color::Green => self.green as nat,
            Color::Colorless => self.colorless as nat,
        }
    }

    /// All the mana in the pool, of whatever kind.
    pub open spec fn total(self) -> nat {
        (self.generic + self.white + self.blue + self.black + self.red + self.green
            + self.colorless) as nat
    }

    /// The pool with nothing in it.
    pub open spec fn empty() -> ManaPool {
        ManaPool { generic: 0, white: 0, blue: 0, black: 0, red: 0, green: 0, colorless: 0 }
    }

    /// The pool with `n` more mana of `color`.
    pub open spec fn plus(self, color: Color, n: nat) -> ManaPool {
        match color {
            Color::White => ManaPool { white: (self.white + n) as u32, ..self },
            Color::Blue => ManaPool { blue: (self.blue + n) as u32, ..self },
            Color::Black => ManaPool { black: (self.black + n) as u32, ..self },
            Color::Red => ManaPool { red: (self.red + n) as u32, ..self },
            Color::Green => ManaPool { green: (self.green + n) as u32, ..self },
            Color::Colorless => ManaPool { colorless: (self.colorless + n) as u32, ..self },
        }
    }

    /// The pool holds, color by color, at least what the pips ask for.
    pub open spec fn covers(self, pips: Seq<Color>) -> bool {
        &&& pip_count(pips, Color::White) <= self.white
        &&& pip_count(pips, Color::Blue) <= self.blue
        &&& pip_count(pips, Color::Black) <= self.black
        &&& pip_count(pips, Color::Red) <= self.red
        &&& pip_count(pips, Color::Green) <= self.green
        &&& pip_count(pips, Color::Colorless) <= self.colorless
    }

    /// What is left of one color once its own pips are paid.
    pub open spec fn surplus(self, pips: Seq<Color>, color: Color) -> nat {
        (self.amount(color) - pip_count(pips, color)) as nat
    }

    /// Mana that may go towards a generic cost once the pips are paid: the
    /// generic counter and the surplus of every color.
    pub open spec fn spare(self, pips: Seq<Color>) -> nat {
        self.generic as nat + self.surplus(pips, Color::White) + self.surplus(pips, Color::Blue)
            + self.surplus(pips, Color::Black) + self.surplus(pips, Color::Red) + self.surplus(
            pips,
            Color::Green,
        ) + self.surplus(pips, Color::Colorless)
    }

    /// The pool can pay every pip with its own color and still has `generic`
    /// mana to spare.
    pub open spec fn affordable(self, generic: nat, pips: Seq<Color>) -> bool {
        self.covers(pips) && self.spare(pips) >= generic
    }

    /// The pool once every pip has been taken from its color.
    pub open spec fn less_pips(self, pips: Seq<Color>) -> ManaPool {
        ManaPool {
            generic: self.generic,
            white: self.surplus(pips, Color::White) as u32,
            blue: self.surplus(pips, Color::Blue) as u32,
            black: self.surplus(pips, Color::Black) as u32,
            red: self.surplus(pips, Color::Red) as u32,
            green: self.surplus(pips, Color::Green) as u32,
            colorless: self.surplus(pips, Color::Colorless) as u32,
        }
    }

    /// The pool once `owed` generic mana has been taken from it: from the
    /// generic counter first, then from each color in the order W, U, B, R,
    /// G, C, each giving as much as it has until nothing is owed.
    pub open spec fn less_generic(self, owed: nat) -> ManaPool {
        let from_generic = least(owed, self.generic as nat);
        let owed1 = (owed - from_generic) as nat;
        let from_white = least(owed1, self.white as nat);
        let owed2 = (owed1 - from_white) as nat;
        let from_blue = least(owed2, self.blue as nat);
        let owed3 = (owed2 - from_blue) as nat;
        let from_black = least(owed3, self.black as nat);
        let owed4 = (owed3 - from_black) as nat;
        let from_red = least(owed4, self.red as nat);
        let owed5 = (owed4 - from_red) as nat;
        let from_green = least(owed5, self.green as nat);
        let owed6 = (owed5 - from_green) as nat;
        let from_colorless = least(owed6, self.colorless as nat);
        ManaPool {
            generic: (self.generic - from_generic) as u32,
            white: (self.white - from_white) as u32,
            blue: (self.blue - from_blue) as u32,
            black: (self.black - from_black) as u32,
            red: (self.red - from_red) as u32,
            green: (self.green - from_green) as u32,
            colorless: (self.colorless - from_colorless) as u32,
        }
    }

    /// The pool after a payment that it can afford: pips first, then the
    /// generic part.
    pub open spec fn after_spend(self, generic: nat, pips: Seq<Color>) -> ManaPool {
        self.less_pips(pips).less_generic(generic)
    }

    /// An empty pool: every counter present, every counter zero.
    pub fn new() -> (pool: ManaPool)
        ensures
            pool == ManaPool::empty(),
            pool.total() == 0,
    {
        ManaPool { generic: 0, white: 0, blue: 0, black: 0, red: 0, green: 0, colorless: 0 }
    }

    /// Reads the counter of one symbol.
    pub fn amount_of(&self, color: Color) -> (n: u32)
        ensures
            n == self.amount(color),
    {
        match color {
            Color::White => self.white,
            Color::Blue => self.blue,
            Color::Black => self.black,
            Color::Red => self.red,
            Color::Green => self.green,
            Color::Colorless => self.colorless,
        }
    }

    /// Adds up every counter.
    pub fn sum(&self) -> (n: u64)
        ensures
            n == self.total(),
    {
        self.generic as u64 + self.white as u64 + self.blue as u64 + self.black as u64
            + self.red as u64 + self.green as u64 + self.colorless as u64
    }

    /// Adds `n` mana of one color. The counter must have room for it.
    pub fn add_color(&mut self, color: Color, n: u32)
        requires
            old(self).amount(color) + n <= u32::MAX,
        ensures
            *final(self) == old(self).plus(color, n as nat),
            final(self).amount(color) == old(self).amount(color) + n,
            final(self).total() == old(self).total() + n,
    {
        match color {
            Color::White => {
                self.white = self.white + n;
            },
            Color::Blue => {
                self.blue = self.blue + n;
            },
            Color::Black => {
                self.black = self.black + n;
            },
            Color::Red => {
                self.red = self.red + n;
            },
            Color::Green => {
                self.green = self.green + n;
            },
            Color::Colorless => {
                self.colorless = self.colorless + n;
            },
        }
    }

    /// Whether the pool can pay `pips` and `generic` together. The pool is
    /// not changed.
    pub fn can_pay(&self, generic: u64, pips: &[Color]) -> (ok: bool)
        ensures
            ok == self.affordable(generic as nat, pips@),
    {
        let white: usize = count_pips(pips, Color::White);
        let blue: usize = count_pips(pips, Color::Blue);
        let black: usize = count_pips(pips, Color::Black);
        let red: usize = count_pips(pips, Color::Red);
        let green: usize = count_pips(pips, Color::Green);
        let colorless: usize = count_pips(pips, Color::Colorless);
        if white > self.white as usize || blue > self.blue as usize || black > self.black as usize
            || red > self.red as usize || green > self.green as usize || colorless
            > self.colorless as usize {
            return false;
        }
        let spare: u64 = self.generic as u64
            + (self.white as u64 - white as u64)
            + (self.blue as u64 - blue as u64)
            + (self.black as u64 - black as u64)
            + (self.red as u64 - red as u64)
            + (self.green as u64 - green as u64)
            + (self.colorless as u64 - colorless as u64);
        spare >= generic
    }

    /// Pays `pips` and `generic` if the pool can afford both, and says
    /// whether it did. A payment that cannot be afforded changes nothing.
    pub fn spend(&mut self, generic: u64, pips: &[Color]) -> (paid: bool)
        ensures
            paid == old(self).affordable(generic as nat, pips@),
            paid ==> *final(self) == old(self).after_spend(generic as nat, pips@),
            !paid ==> *final(self) == *old(self),
            paid ==> final(self).total() + generic + pips@.len() == old(self).total(),
    {
        if !self.can_pay(generic, pips) {
            return false;
        }
        proof {
            lemma_pip_counts_sum(pips@);
        }
        self.white = self.white - count_pips(pips, Color::White) as u32;
        self.blue = self.blue - count_pips(pips, Color::Blue) as u32;
        self.black = self.black - count_pips(pips, Color::Black) as u32;
        self.red = self.red - count_pips(pips, Color::Red) as u32;
        self.green = self.green - count_pips(pips, Color::Green) as u32;
        self.colorless = self.colorless - count_pips(pips, Color::Colorless) as u32;
        assert(*self == old(self).less_pips(pips@));
        let mut owed: u64 = generic;
        owed = owed - take_from(&mut self.generic, owed) as u64;
        owed = owed - take_from(&mut self.white, owed) as u64;
        owed = owed - take_from(&mut self.blue, owed) as u64;
        owed = owed - take_from(&mut self.black, owed) as u64;
        owed = owed - take_from(&mut self.red, owed) as u64;
        owed = owed - take_from(&mut self.green, owed) as u64;
        owed = owed - take_from(&mut self.colorless, owed) as u64;
        assert(owed == 0);
        true
    }
}

/// A pool can afford a cost exactly when it covers the pips and holds at
/// least as much mana as the cost asks for in all.
pub proof fn lemma_affordable_total(pool: ManaPool, generic: nat, pips: Seq<Color>)
    ensures
        pool.affordable(generic, pips) <==> pool.covers(pips) && pool.total() >= generic
            + pips.len(),
{
    lemma_pip_counts_sum(pips);
}

/// A payment that the pool can afford takes exactly its price: the pool
/// holds `generic` plus one for each pip less than before, and no counter
/// holds more than before.
pub proof fn lemma_spend_accounts(pool: ManaPool, generic: nat, pips: Seq<Color>)
    requires
        pool.affordable(generic, pips),
    ensures
        pool.after_spend(generic, pips).total() + generic + pips.len() == pool.total(),
        pool.after_spend(generic, pips).generic <= pool.generic,
        forall|color: Color|
            #[trigger] pool.after_spend(generic, pips).amount(color) <= pool.amount(color),
{
    lemma_pip_counts_sum(pips);
}

/// Takes from one counter as much of `owed` as it holds, and says how much.
fn take_from(counter: &mut u32, owed: u64) -> (taken: u32)
    ensures
        taken == least(owed as nat, *old(counter) as nat),
        *final(counter) == *old(counter) - taken,
{
    let taken: u32 = if owed < *counter as u64 {
        owed as u32
    } else {
        *counter
    };
    *counter = *counter - taken;
    taken
}

/// How many pips of each color a set of cards asks for.
#[derive(Clone, Copy, Debug, PartialEq, Eq, Structural)]
pub struct PipCount {
    pub white: u64,
    pub blue: u64,
    pub black: u64,
    pub red: u64,
    pub green: u64,
    pub colorless: u64,
}

impl PipCount {
    /// The count of one color.
    pub open spec fn amount(self, color: Color) -> nat {
        match color {
            Color::White => self.white as nat,
            Color::Blue => self.blue as nat,
            Color::Black => self.black as nat,
            Color::Red => self.red as nat,
            Color::Green => self.green as nat,
            Color::Colorless => self.colorless as nat,
        }
    }
}

/// The generic mana that a card adds to the cost of a hand: its generic cost
/// if it is a spell or ramp, nothing otherwise.
pub open spec fn generic_share(card: CardView) -> nat {
    if card is Spell || card is Ramp {
        card.generic_cost()
    } else {
        0
    }
}

/// The pips of one color that a card adds to the cost of a hand: those of a
/// spell, none for any other card.
pub open spec fn pip_share(card: CardView, color: Color) -> nat {
    if card is Spell {
        pip_count(card.pips(), color)
    } else {
        0
    }
}

/// The generic mana that the spells and ramp of a hand ask for together.
pub open spec fn generic_need(hand: Seq<CardView>) -> nat
    decreases hand.len(),
{
    if hand.len() == 0 {
        0
    } else {
        generic_need(hand.drop_last()) + generic_share(hand.last())
    }
}

/// The pips of one color that the spells of a hand ask for together.
pub open spec fn pip_need(hand: Seq<CardView>, color: Color) -> nat
    decreases hand.len(),
{
    if hand.len() == 0 {
        0
    } else {
        pip_need(hand.drop_last(), color) + pip_share(hand.last(), color)
    }
}

/// Adds up what the spells and ramp of a hand cost: the generic mana, and
/// the pips color by color. Lands, commanders and converters add nothing, and
/// ramp adds no pips. A total too large for 64 bits is reported as the
/// largest number that fits.
pub fn hand_cost(hand: &[Card]) -> (cost: (u64, PipCount))
    ensures
        cost.0 == capped(generic_need(hand.deep_view())),
        forall|color: Color|
            cost.1.amount(color) == capped(#[trigger] pip_need(hand.deep_view(), color)),
{
    let ghost cards = hand.deep_view();
    let mut generic: u64 = 0;
    let mut pips = PipCount { white: 0, blue: 0, black: 0, red: 0, green: 0, colorless: 0 };
    let mut i: usize = 0;
    while i < hand.len()
        invariant
            cards == hand.deep_view(),
            i <= hand@.len(),
            generic == capped(generic_need(cards.take(i as int))),
            pips.white == capped(pip_need(cards.take(i as int), Color::White)),
            pips.blue == capped(pip_need(cards.take(i as int), Color::Blue)),
            pips.black == capped(pip_need(cards.take(i as int), Color::Black)),
            pips.red == capped(pip_need(cards.take(i as int), Color::Red)),
            pips.green == capped(pip_need(cards.take(i as int), Color::Green)),
            pips.colorless == capped(pip_need(cards.take(i as int), Color::Colorless)),
        decreases hand@.len() - i,
    {
        proof {
            assert(cards.take(i + 1).drop_last() =~= cards.take(i as int));
            assert(cards.take(i + 1).last() == hand@[i as int]@);
        }
        match &hand[i] {
            Card::Spell { generic: g, pips: p, .. } => {
                generic = generic.saturating_add(*g as u64);
                let list: &[Color] = p.as_slice();
                pips.white = pips.white.saturating_add(count_pips(list, Color::White) as u64);
                pips.blue = pips.blue.saturating_add(count_pips(list, Color::Blue) as u64);
                pips.black = pips.black.saturating_add(count_pips(list, Color::Black) as u64);
                pips.red = pips.red.saturating_add(count_pips(list, Color::Red) as u64);
                pips.green = pips.green.saturating_add(count_pips(list, Color::Green) as u64);
                pips.colorless = pips.colorless.saturating_add(
                    count_pips(list, Color::Colorless) as u64,
                );
            },
            Card::Ramp { generic: g, .. } => {
                generic = generic.saturating_add(*g as u64);
            },
            _ => {},
        }
        i = i + 1;
    }
    assert(cards.take(i as int) =~= cards);
    assert forall|color: Color| pips.amount(color) == capped(#[trigger] pip_need(cards, color)) by {
        match color {
            Color::White => {},
            Color::Blue => {},
            Color::Black => {},
            Color::Red => {},
            Color::Green => {},
            Color::Colorless => {},
        }
    }
    (generic, pips)
}

} // verus!
