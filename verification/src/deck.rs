//! Cards and deck lists.
//!
//! A deck list names one commander and, entry by entry, how many copies of
//! each other card the deck holds. Expanding the entries by their counts
//! gives the 99 cards that are shuffled into a library.

use vstd::prelude::*;
use crate::color::Color;
use crate::first::{first_match, lemma_first_found, lemma_first_match};
use crate::text::{contains_word, mentions};

verus! {

/// Number of cards in a deck, the commander not counted.
pub const DECK_SIZE: usize = 99;

/// Something a card does besides costing or making mana.
#[derive(Clone, Copy, Debug, PartialEq, Eq, Structural)]
pub enum Feature {
    /// Casting the card draws this many cards.
    Draw { cards: u8 },
    /// Anything that the simulation does not act on.
    Other,
}

/// What a permanent adds to the pool each turn.
#[derive(Clone, Copy, Debug, PartialEq, Eq, Structural)]
pub enum Yield {
    Nothing,
    Generic,
    Colored(Color),
}

/// One entry of a deck list.
#[derive(Debug)]
pub enum Card {
    Commander { name: String, generic: u8, pips: Vec<Color>, features: Vec<Feature> },
    Spell {
        name: String,
        generic: u8,
        pips: Vec<Color>,
        features: Vec<Feature>,
        kind: String,
        count: u8,
    },
    Land { name: String, produces: Vec<Color>, fetch: bool, fetches: Vec<Color>, count: u8 },
    Ramp { name: String, generic: u8, produces: Vec<Color>, features: Vec<Feature>, count: u8 },
    Fetch { name: String, generic: u8, fetches: Vec<Color>, count: u8 },
}

/// A card as a mathematical value.
pub enum CardView {
    Commander { name: Seq<char>, generic: u8, pips: Seq<Color>, features: Seq<Feature> },
    Spell {
        name: Seq<char>,
        generic: u8,
        pips: Seq<Color>,
        features: Seq<Feature>,
        kind: Seq<char>,
        count: u8,
    },
    Land { name: Seq<char>, produces: Seq<Color>, fetch: bool, fetches: Seq<Color>, count: u8 },
    Ramp { name: Seq<char>, generic: u8, produces: Seq<Color>, features: Seq<Feature>, count: u8 },
    Fetch { name: Seq<char>, generic: u8, fetches: Seq<Color>, count: u8 },
}

/// Cards drawn by a feature list: the sum over its draw effects.
pub open spec fn draw_total(features: Seq<Feature>) -> nat
    decreases features.len(),
{
    if features.len() == 0 {
        0
    } else {
        draw_total(features.drop_last()) + match features.last() {
            Feature::Draw { cards } => cards as nat,
            Feature::Other => 0nat,
        }
    }
}

/// The feature list holds a draw effect.
pub open spec fn draws_cards(features: Seq<Feature>) -> bool {
    exists|i: int| 0 <= i < features.len() && #[trigger] features[i] is Draw
}

/// Some color is in both lists.
pub open spec fn shares_color(a: Seq<Color>, b: Seq<Color>) -> bool {
    exists|color: Color| a.contains(color) && b.contains(color)
}

/// What a production list yields: nothing if it is empty, one generic mana
/// if it offers a choice or names the colorless symbol, else one mana of its
/// color.
pub open spec fn yield_of(produces: Seq<Color>) -> Yield {
    if produces.len() == 0 {
        Yield::Nothing
    } else if produces.len() > 1 || produces[0] == Color::Colorless {
        Yield::Generic
    } else {
        Yield::Colored(produces[0])
    }
}

impl CardView {
    /// The card's name.
    pub open spec fn name(self) -> Seq<char> {
        match self {
            CardView::Commander { name, .. } => name,
            CardView::Spell { name, .. } => name,
            CardView::Land { name, .. } => name,
            CardView::Ramp { name, .. } => name,
            CardView::Fetch { name, .. } => name,
        }
    }

    /// How many copies of the card the entry stands for. The commander is
    /// not part of the 99 and stands for none.
    pub open spec fn copies(self) -> nat {
        match self {
            CardView::Commander { .. } => 0,
            CardView::Spell { count, .. } => count as nat,
            CardView::Land { count, .. } => count as nat,
            CardView::Ramp { count, .. } => count as nat,
            CardView::Fetch { count, .. } => count as nat,
        }
    }

    /// The generic part of the card's cost; a land costs nothing.
    pub open spec fn generic_cost(self) -> nat {
        match self {
            CardView::Commander { generic, .. } => generic as nat,
            CardView::Spell { generic, .. } => generic as nat,
            CardView::Land { .. } => 0,
            CardView::Ramp { generic, .. } => generic as nat,
            CardView::Fetch { generic, .. } => generic as nat,
        }
    }

    /// The colored part of the card's cost.
    pub open spec fn pips(self) -> Seq<Color> {
        match self {
            CardView::Commander { pips, .. } => pips,
            CardView::Spell { pips, .. } => pips,
            _ => Seq::empty(),
        }
    }

    /// The card's features; lands and converters have none.
    pub open spec fn features(self) -> Seq<Feature> {
        match self {
            CardView::Commander { features, .. } => features,
            CardView::Spell { features, .. } => features,
            CardView::Ramp { features, .. } => features,
            _ => Seq::empty(),
        }
    }

    /// Cards that casting this card draws.
    pub open spec fn draw_count(self) -> nat {
        draw_total(self.features())
    }

    /// The card has a draw effect.
    pub open spec fn has_draw(self) -> bool {
        draws_cards(self.features())
    }

    /// What the card adds to the pool each turn while it is on the
    /// battlefield. Only lands and ramp make mana.
    pub open spec fn yields(self) -> Yield {
        match self {
            CardView::Land { produces, .. } => yield_of(produces),
            CardView::Ramp { produces, .. } => yield_of(produces),
            _ => Yield::Nothing,
        }
    }

    /// Ramp that costs two or less counts as a mana source in an opening hand.
    pub open spec fn fast_mana(self) -> bool {
        self is Ramp && self.generic_cost() <= 2
    }

    /// A land that searches the library instead of staying in play.
    pub open spec fn fetch_land(self) -> bool {
        self is Land && self->Land_fetch
    }

    /// This card is a land that a search for `targets` may take.
    pub open spec fn found_by(self, targets: Seq<Color>) -> bool {
        self is Land && shares_color(self->Land_produces, targets)
    }

    /// The colors that this card searches for, if it is a land.
    pub open spec fn targets(self) -> Seq<Color> {
        match self {
            CardView::Land { fetches, .. } => fetches,
            _ => Seq::empty(),
        }
    }

    /// A spell that goes to the graveyard when it resolves: its type line
    /// mentions "instant" or "sorcery", in whatever case.
    pub open spec fn one_shot(self) -> bool {
        self is Spell && (mentions(self->Spell_kind, "instant"@) || mentions(
            self->Spell_kind,
            "sorcery"@,
        ))
    }
}

impl View for Card {
    type V = CardView;

    open spec fn view(&self) -> CardView {
        match *self {
            Card::Commander { name, generic, pips, features } => CardView::Commander {
                name: name@,
                generic,
                pips: pips@,
                features: features@,
            },
            Card::Spell { name, generic, pips, features, kind, count } => CardView::Spell {
                name: name@,
                generic,
                pips: pips@,
                features: features@,
                kind: kind@,
                count,
            },
            Card::Land { name, produces, fetch, fetches, count } => CardView::Land {
                name: name@,
                produces: produces@,
                fetch,
                fetches: fetches@,
                count,
            },
            Card::Ramp { name, generic, produces, features, count } => CardView::Ramp {
                name: name@,
                generic,
                produces: produces@,
                features: features@,
                count,
            },
            Card::Fetch { name, generic, fetches, count } => CardView::Fetch {
                name: name@,
                generic,
                fetches: fetches@,
                count,
            },
        }
    }
}

impl DeepView for Card {
    type V = CardView;

    open spec fn deep_view(&self) -> CardView {
        self@
    }
}

impl Clone for Card {
    /// A copy with the same name, costs, colors and count.
    fn clone(&self) -> (copy: Card)
        ensures
            copy@ == self@,
    {
        match self {
            Card::Commander { name, generic, pips, features } => Card::Commander {
                name: name.clone(),
                generic: *generic,
                pips: pips.clone(),
                features: features.clone(),
            },
            Card::Spell { name, generic, pips, features, kind, count } => Card::Spell {
                name: name.clone(),
                generic: *generic,
                pips: pips.clone(),
                features: features.clone(),
                kind: kind.clone(),
                count: *count,
            },
            Card::Land { name, produces, fetch, fetches, count } => Card::Land {
                name: name.clone(),
                produces: produces.clone(),
                fetch: *fetch,
                fetches: fetches.clone(),
                count: *count,
            },
            Card::Ramp { name, generic, produces, features, count } => Card::Ramp {
                name: name.clone(),
                generic: *generic,
                produces: produces.clone(),
                features: features.clone(),
                count: *count,
            },
            Card::Fetch { name, generic, fetches, count } => Card::Fetch {
                name: name.clone(),
                generic: *generic,
                fetches: fetches.clone(),
                count: *count,
            },
        }
    }
}

/// Whether a color list holds a color.
pub fn holds_color(colors: &Vec<Color>, color: Color) -> (r: bool)
    ensures
        r == colors@.contains(color),
{
    let mut i: usize = 0;
    while i < colors.len()
        invariant
            i <= colors@.len(),
            forall|k: int| 0 <= k < i ==> colors@[k] != color,
        decreases colors@.len() - i,
    {
        if colors[i] == color {
            return true;
        }
        i = i + 1;
    }
    false
}

/// Whether two color lists have a color in common.
pub fn have_common_color(a: &Vec<Color>, b: &Vec<Color>) -> (r: bool)
    ensures
        r == shares_color(a@, b@),
{
    let mut i: usize = 0;
    while i < a.len()
        invariant
            i <= a@.len(),
            forall|k: int| 0 <= k < i ==> !b@.contains(#[trigger] a@[k]),
        decreases a@.len() - i,
    {
        if holds_color(b, a[i]) {
            assert(a@.contains(a@[i as int]));
            return true;
        }
        i = i + 1;
    }
    false
}

/// Reads what a production list yields.
pub fn yield_from(produces: &Vec<Color>) -> (r: Yield)
    ensures
        r == yield_of(produces@),
{
    if produces.len() == 0 {
        Yield::Nothing
    } else if produces.len() > 1 || produces[0] == Color::Colorless {
        Yield::Generic
    } else {
        Yield::Colored(produces[0])
    }
}

/// A count as it is kept in 64 bits: itself, or the largest number that fits.
pub open spec fn capped(n: nat) -> nat {
    if n <= u64::MAX {
        n
    } else {
        u64::MAX as nat
    }
}

/// Adds up the draw effects of a feature list, stopping at the largest
/// number that fits.
pub fn count_draws(features: &Vec<Feature>) -> (n: u64)
    ensures
        n == capped(draw_total(features@)),
{
    let mut n: u64 = 0;
    let mut i: usize = 0;
    while i < features.len()
        invariant
            i <= features@.len(),
            n == capped(draw_total(features@.take(i as int))),
        decreases features@.len() - i,
    {
        assert(features@.take(i + 1).drop_last() =~= features@.take(i as int));
        match features[i] {
            Feature::Draw { cards } => {
                n = n.saturating_add(cards as u64);
            },
            Feature::Other => {},
        }
        i = i + 1;
    }
    assert(features@.take(i as int) =~= features@);
    n
}

/// Whether a feature list holds a draw effect.
pub fn any_draw(features: &Vec<Feature>) -> (r: bool)
    ensures
        r == draws_cards(features@),
{
    let mut i: usize = 0;
    while i < features.len()
        invariant
            i <= features@.len(),
            forall|k: int| 0 <= k < i ==> !(#[trigger] features@[k] is Draw),
        decreases features@.len() - i,
    {
        match features[i] {
            Feature::Draw { .. } => {
                return true;
            },
            Feature::Other => {},
        }
        i = i + 1;
    }
    false
}

impl Card {
    /// Whether the card is a commander.
    pub fn is_commander(&self) -> (r: bool)
        ensures
            r == (self@ is Commander),
    {
        match self {
            Card::Commander { .. } => true,
            _ => false,
        }
    }

    /// Whether the card is a land, of either kind.
    pub fn is_land(&self) -> (r: bool)
        ensures
            r == (self@ is Land),
    {
        match self {
            Card::Land { .. } => true,
            _ => false,
        }
    }

    /// Whether the card is ramp.
    pub fn is_ramp(&self) -> (r: bool)
        ensures
            r == (self@ is Ramp),
    {
        match self {
            Card::Ramp { .. } => true,
            _ => false,
        }
    }

    /// Whether the card is a spell.
    pub fn is_spell(&self) -> (r: bool)
        ensures
            r == (self@ is Spell),
    {
        match self {
            Card::Spell { .. } => true,
            _ => false,
        }
    }

    /// The colored part of the cost.
    pub fn pips(&self) -> (r: Option<&Vec<Color>>)
        ensures
            match r {
                Some(pips) => pips@ == self@.pips(),
                None => self@.pips().len() == 0,
            },
    {
        match self {
            Card::Commander { pips, .. } => Some(pips),
            Card::Spell { pips, .. } => Some(pips),
            _ => None,
        }
    }

    /// The card's name.
    pub fn name(&self) -> (r: &String)
        ensures
            r@ == self@.name(),
    {
        match self {
            Card::Commander { name, .. } => name,
            Card::Spell { name, .. } => name,
            Card::Land { name, .. } => name,
            Card::Ramp { name, .. } => name,
            Card::Fetch { name, .. } => name,
        }
    }

    /// How many copies the entry stands for.
    pub fn copies(&self) -> (n: u8)
        ensures
            n == self@.copies(),
    {
        match self {
            Card::Commander { .. } => 0,
            Card::Spell { count, .. } => *count,
            Card::Land { count, .. } => *count,
            Card::Ramp { count, .. } => *count,
            Card::Fetch { count, .. } => *count,
        }
    }

    /// The generic part of the cost.
    pub fn generic_cost(&self) -> (n: u8)
        ensures
            n == self@.generic_cost(),
    {
        match self {
            Card::Commander { generic, .. } => *generic,
            Card::Spell { generic, .. } => *generic,
            Card::Land { .. } => 0,
            Card::Ramp { generic, .. } => *generic,
            Card::Fetch { generic, .. } => *generic,
        }
    }

    /// Cards that casting this card draws, stopping at the largest number
    /// that fits.
    pub fn draw_count(&self) -> (n: u64)
        ensures
            n == capped(self@.draw_count()),
    {
        match self {
            Card::Commander { features, .. } => count_draws(features),
            Card::Spell { features, .. } => count_draws(features),
            Card::Ramp { features, .. } => count_draws(features),
            _ => 0,
        }
    }

    /// Whether the card has a draw effect.
    pub fn has_draw(&self) -> (r: bool)
        ensures
            r == self@.has_draw(),
    {
        match self {
            Card::Commander { features, .. } => any_draw(features),
            Card::Spell { features, .. } => any_draw(features),
            Card::Ramp { features, .. } => any_draw(features),
            _ => false,
        }
    }

    /// What the card adds to the pool each turn on the battlefield.
    pub fn yields(&self) -> (r: Yield)
        ensures
            r == self@.yields(),
    {
        match self {
            Card::Land { produces, .. } => yield_from(produces),
            Card::Ramp { produces, .. } => yield_from(produces),
            _ => Yield::Nothing,
        }
    }

    /// Whether the card is ramp that costs two or less.
    pub fn fast_mana(&self) -> (r: bool)
        ensures
            r == self@.fast_mana(),
    {
        match self {
            Card::Ramp { generic, .. } => *generic <= 2,
            _ => false,
        }
    }

    /// Whether the card is a land that searches the library.
    pub fn fetch_land(&self) -> (r: bool)
        ensures
            r == self@.fetch_land(),
    {
        match self {
            Card::Land { fetch, .. } => *fetch,
            _ => false,
        }
    }

    /// Whether a search for `targets` may take this card.
    pub fn found_by(&self, targets: &Vec<Color>) -> (r: bool)
        ensures
            r == self@.found_by(targets@),
    {
        match self {
            Card::Land { produces, .. } => have_common_color(produces, targets),
            _ => false,
        }
    }

    /// Whether the card is a spell that goes to the graveyard when it
    /// resolves.
    pub fn one_shot(&self) -> (r: bool)
        ensures
            r == self@.one_shot(),
    {
        match self {
            Card::Spell { kind, .. } => contains_word(kind.as_str(), "instant") || contains_word(
                kind.as_str(),
                "sorcery",
            ),
            _ => false,
        }
    }
}

/// `n` copies of one card.
pub open spec fn copies_of(card: CardView, n: nat) -> Seq<CardView> {
    Seq::new(n, |i: int| card)
}

/// The cards that a list of entries stands for: each entry repeated as often
/// as its count says, in the order of the entries.
pub open spec fn expansion(entries: Seq<CardView>) -> Seq<CardView>
    decreases entries.len(),
{
    if entries.len() == 0 {
        Seq::empty()
    } else {
        expansion(entries.drop_last()) + copies_of(entries.last(), entries.last().copies())
    }
}

/// Number of commander entries.
pub open spec fn commanders(entries: Seq<CardView>) -> nat
    decreases entries.len(),
{
    if entries.len() == 0 {
        0
    } else {
        commanders(entries.drop_last()) + if entries.last() is Commander {
            1nat
        } else {
            0nat
        }
    }
}

/// A deck list is valid when it names exactly one commander and stands for
/// exactly 99 other cards.
pub open spec fn valid_deck(entries: Seq<CardView>) -> bool {
    commanders(entries) == 1 && expansion(entries).len() == DECK_SIZE
}

/// Position of the first commander entry, if there is one.
pub open spec fn commander_at(entries: Seq<CardView>) -> Option<int> {
    first_match(entries.len() as int, |i: int| entries[i] is Commander)
}

/// Why a deck list is refused.
#[derive(Clone, Copy, Debug, PartialEq, Eq, Structural)]
pub enum DeckError {
    /// No entry is a commander.
    MissingCommander,
    /// More than one entry is a commander.
    ExtraCommander,
    /// The entries do not stand for exactly 99 cards.
    WrongCardCount,
}

/// The verdict on a deck list: the commander is looked at first, then the
/// size.
pub open spec fn verdict(entries: Seq<CardView>) -> Result<(), DeckError> {
    if commanders(entries) == 0 {
        Err(DeckError::MissingCommander)
    } else if commanders(entries) > 1 {
        Err(DeckError::ExtraCommander)
    } else if expansion(entries).len() != DECK_SIZE {
        Err(DeckError::WrongCardCount)
    } else {
        Ok(())
    }
}

/// A list with a commander entry has a first one, and the other way round.
pub proof fn lemma_commander_present(entries: Seq<CardView>)
    ensures
        commanders(entries) > 0 <==> commander_at(entries).is_some(),
        commanders(entries) > 0 <==> exists|i: int|
            0 <= i < entries.len() && #[trigger] entries[i] is Commander,
    decreases entries.len(),
{
    let holds = |i: int| entries[i] is Commander;
    lemma_first_match(entries.len() as int, holds);
    if entries.len() > 0 {
        let front = entries.drop_last();
        lemma_commander_present(front);
        if commanders(front) > 0 {
            let i = choose|i: int| 0 <= i < front.len() && #[trigger] front[i] is Commander;
            assert(entries[i] is Commander);
            assert(holds(i));
        } else if entries.last() is Commander {
            assert(entries[entries.len() - 1] is Commander);
            assert(holds(entries.len() - 1));
        } else {
            assert forall|i: int| 0 <= i < entries.len() implies !(
            #[trigger] entries[i] is Commander) by {
                if i < front.len() {
                    assert(front[i] == entries[i]);
                }
            }
        }
    }
    if commander_at(entries).is_some() {
        let at = commander_at(entries).unwrap();
        assert(holds(at));
        assert(entries[at] is Commander);
    }
}

/// A named deck list.
#[derive(Debug)]
pub struct DeckFile {
    pub name: String,
    pub cards: Vec<Card>,
}

impl DeckFile {
    /// The entries as mathematical values.
    pub open spec fn entries(&self) -> Seq<CardView> {
        self.cards.deep_view()
    }

    /// Checks the list: exactly one commander, exactly 99 other cards.
    pub fn validate(&self) -> (r: Result<(), DeckError>)
        ensures
            r == verdict(self.entries()),
            r.is_ok() <==> valid_deck(self.entries()),
    {
        let ghost entries = self.entries();
        let mut found: usize = 0;
        let mut total: u128 = 0;
        let mut i: usize = 0;
        while i < self.cards.len()
            invariant
                entries == self.entries(),
                i <= self.cards@.len(),
                found == commanders(entries.take(i as int)),
                found <= i,
                total == expansion(entries.take(i as int)).len(),
                total <= 255 * i,
            decreases self.cards@.len() - i,
        {
            assert(entries.take(i + 1).drop_last() =~= entries.take(i as int));
            assert(entries.take(i + 1).last() == self.cards@[i as int]@);
            if self.cards[i].is_commander() {
                found = found + 1;
            }
            total = total + self.cards[i].copies() as u128;
            i = i + 1;
        }
        assert(entries.take(i as int) =~= entries);
        if found == 0 {
            Err(DeckError::MissingCommander)
        } else if found > 1 {
            Err(DeckError::ExtraCommander)
        } else if total != DECK_SIZE as u128 {
            Err(DeckError::WrongCardCount)
        } else {
            Ok(())
        }
    }

    /// The 99 cards of the deck: every entry but the commander, repeated as
    /// often as its count says. The entries must stand for exactly 99 cards.
    pub fn expand(&self) -> (deck: Vec<Card>)
        requires
            expansion(self.entries()).len() == DECK_SIZE,
        ensures
            deck.deep_view() == expansion(self.entries()),
            deck@.len() == DECK_SIZE,
    {
        let ghost entries = self.entries();
        let mut deck: Vec<Card> = Vec::new();
        let mut i: usize = 0;
        while i < self.cards.len()
            invariant
                entries == self.entries(),
                i <= self.cards@.len(),
                deck.deep_view() =~= expansion(entries.take(i as int)),
            decreases self.cards@.len() - i,
        {
            assert(entries.take(i + 1).drop_last() =~= entries.take(i as int));
            assert(entries.take(i + 1).last() == self.cards@[i as int]@);
            let n: u8 = self.cards[i].copies();
            let mut k: u8 = 0;
            while k < n
                invariant
                    entries == self.entries(),
                    i < self.cards@.len(),
                    k <= n,
                    deck.deep_view() =~= expansion(entries.take(i as int)) + copies_of(
                        self.cards@[i as int]@,
                        k as nat,
                    ),
                decreases n - k,
            {
                let ghost before = deck.deep_view();
                let copy: Card = self.cards[i].clone();
                deck.push(copy);
                assert(deck.deep_view() =~= before.push(self.cards@[i as int]@));
                assert(copies_of(self.cards@[i as int]@, (k + 1) as nat) =~= copies_of(
                    self.cards@[i as int]@,
                    k as nat,
                ).push(self.cards@[i as int]@));
                k = k + 1;
            }
            i = i + 1;
        }
        assert(entries.take(i as int) =~= entries);
        deck
    }

    /// The deck's commander: the first commander entry. The list must hold
    /// one.
    pub fn commander(&self) -> (card: Card)
        requires
            commanders(self.entries()) > 0,
        ensures
            card@ is Commander,
            commander_at(self.entries()).is_some(),
            card@ == self.entries()[commander_at(self.entries()).unwrap()],
    {
        let ghost entries = self.entries();
        let ghost holds = |i: int| entries[i] is Commander;
        proof {
            lemma_commander_present(entries);
        }
        let size: usize = self.cards.len();
        let mut i: usize = 0;
        loop
            invariant
                entries == self.entries(),
                holds == (|i: int| entries[i] is Commander),
                forall|k: int| 0 <= k < i ==> !#[trigger] holds(k),
                size == self.cards@.len(),
                i < size,
                exists|k: int| i <= k < entries.len() && #[trigger] entries[k] is Commander,
            decreases self.cards@.len() - i,
        {
            if self.cards[i].is_commander() {
                proof {
                    assert(holds(i as int));
                    lemma_first_found(entries.len() as int, holds, i as int);
                }
                return self.cards[i].clone();
            }
            proof {
                let k = choose|k: int| i <= k < entries.len() && #[trigger] entries[k] is Commander;
                assert(k != i);
            }
            i = i + 1;
        }
    }
}

} // verus!
