//! Cards, and the deck they are dealt from.
use crate::err::SolError;
use crate::text::str_eq;
use nanorand::{WyRand, RNG};
use vstd::prelude::*;
use vstd::string::StringExecFns;

verus! {

/// The suit of a card. `Any` stands in rules only, never on a dealt card.
#[derive(Copy, Clone, PartialEq, Eq, Structural, Debug)]
pub enum Suit {
    Spade,
    Club,
    Diamond,
    Heart,
    Any,
}

/// The face of a card. The last four stand in rules only: `Empty` is "no card
/// here", the others are wildcards.
#[derive(Copy, Clone, PartialEq, Eq, Structural, Debug)]
pub enum Face {
    N2,
    N3,
    N4,
    N5,
    N6,
    N7,
    N8,
    N9,
    N10,
    J,
    Q,
    K,
    A,
    Empty,
    Any,
    Unavail,
    Column,
}

impl Suit {
    /// Spade, club, diamond or heart.
    pub open spec fn is_regular(self) -> bool {
        self != Suit::Any
    }

    /// Diamonds and hearts are red, spades and clubs are black.
    pub open spec fn is_red(self) -> bool {
        self == Suit::Diamond || self == Suit::Heart
    }

    /// The place of a regular suit in a fresh deck: 0 for spades to 3 for hearts.
    pub open spec fn index(self) -> int {
        match self {
            Suit::Spade => 0,
            Suit::Club => 1,
            Suit::Diamond => 2,
            Suit::Heart => 3,
            Suit::Any => -1,
        }
    }

    /// The regular suit at a place between 0 and 3.
    pub open spec fn at(i: int) -> Suit {
        if i == 0 {
            Suit::Spade
        } else if i == 1 {
            Suit::Club
        } else if i == 2 {
            Suit::Diamond
        } else {
            Suit::Heart
        }
    }
}

impl Face {
    /// Ace to king.
    pub open spec fn is_regular(self) -> bool {
        0 <= self.rank()
    }

    /// The rank of a regular face: 0 for the ace to 12 for the king.
    pub open spec fn rank(self) -> int {
        match self {
            Face::A => 0,
            Face::N2 => 1,
            Face::N3 => 2,
            Face::N4 => 3,
            Face::N5 => 4,
            Face::N6 => 5,
            Face::N7 => 6,
            Face::N8 => 7,
            Face::N9 => 8,
            Face::N10 => 9,
            Face::J => 10,
            Face::Q => 11,
            Face::K => 12,
            _ => -1,
        }
    }

    /// The regular face of a rank between 0 and 12.
    pub open spec fn at(i: int) -> Face {
        if i == 0 {
            Face::A
        } else if i == 1 {
            Face::N2
        } else if i == 2 {
            Face::N3
        } else if i == 3 {
            Face::N4
        } else if i == 4 {
            Face::N5
        } else if i == 5 {
            Face::N6
        } else if i == 6 {
            Face::N7
        } else if i == 7 {
            Face::N8
        } else if i == 8 {
            Face::N9
        } else if i == 9 {
            Face::N10
        } else if i == 10 {
            Face::J
        } else if i == 11 {
            Face::Q
        } else {
            Face::K
        }
    }
}

/// The regular suit at place `s`.
pub fn i8_to_suit(s: i8) -> (r: Suit)
    requires
        0 <= s <= 3,
    ensures
        r == Suit::at(s as int),
        r.is_regular(),
        r.index() == s,
{
    if s == 0 {
        Suit::Spade
    } else if s == 1 {
        Suit::Club
    } else if s == 2 {
        Suit::Diamond
    } else {
        Suit::Heart
    }
}

/// The suit that a word names, if it names one.
pub open spec fn suit_of_name(s: Seq<char>) -> Option<Suit> {
    if s == "spade"@ || s == "spades"@ {
        Some(Suit::Spade)
    } else if s == "club"@ || s == "clubs"@ {
        Some(Suit::Club)
    } else if s == "diamond"@ || s == "diamonds"@ {
        Some(Suit::Diamond)
    } else if s == "heart"@ || s == "hearts"@ {
        Some(Suit::Heart)
    } else if s == "any"@ {
        Some(Suit::Any)
    } else {
        None
    }
}

/// Reads a suit from its name; any other text is returned in the error.
pub fn str_to_suit(s: &str) -> (r: Result<Suit, SolError>)
    ensures
        match suit_of_name(s@) {
            Some(x) => r == Ok::<Suit, SolError>(x),
            None => r matches Err(SolError::InvalidSuit(t)) && t@ == s@,
        },
{
    if str_eq(s, "spade") || str_eq(s, "spades") {
        Ok(Suit::Spade)
    } else if str_eq(s, "club") || str_eq(s, "clubs") {
        Ok(Suit::Club)
    } else if str_eq(s, "diamond") || str_eq(s, "diamonds") {
        Ok(Suit::Diamond)
    } else if str_eq(s, "heart") || str_eq(s, "hearts") {
        Ok(Suit::Heart)
    } else if str_eq(s, "any") {
        Ok(Suit::Any)
    } else {
        Err(SolError::InvalidSuit(String::from_str(s)))
    }
}

/// The place of a regular suit.
pub fn suit_to_i8(s: Suit) -> (r: i8)
    requires
        s.is_regular(),
    ensures
        r == s.index(),
        0 <= r <= 3,
{
    match s {
        Suit::Spade => 0,
        Suit::Club => 1,
        Suit::Diamond => 2,
        _ => 3,
    }
}

/// The regular face of rank `f`.
pub fn i8_to_face(f: i8) -> (r: Face)
    requires
        0 <= f <= 12,
    ensures
        r == Face::at(f as int),
        r.is_regular(),
        r.rank() == f,
{
    if f == 0 {
        Face::A
    } else if f == 1 {
        Face::N2
    } else if f == 2 {
        Face::N3
    } else if f == 3 {
        Face::N4
    } else if f == 4 {
        Face::N5
    } else if f == 5 {
        Face::N6
    } else if f == 6 {
        Face::N7
    } else if f == 7 {
        Face::N8
    } else if f == 8 {
        Face::N9
    } else if f == 9 {
        Face::N10
    } else if f == 10 {
        Face::J
    } else if f == 11 {
        Face::Q
    } else {
        Face::K
    }
}

/// The face that a word names, if it names one.
pub open spec fn face_of_name(f: Seq<char>) -> Option<Face> {
    if f == "2"@ {
        Some(Face::N2)
    } else if f == "3"@ {
        Some(Face::N3)
    } else if f == "4"@ {
        Some(Face::N4)
    } else if f == "5"@ {
        Some(Face::N5)
    } else if f == "6"@ {
        Some(Face::N6)
    } else if f == "7"@ {
        Some(Face::N7)
    } else if f == "8"@ {
        Some(Face::N8)
    } else if f == "9"@ {
        Some(Face::N9)
    } else if f == "10"@ {
        Some(Face::N10)
    } else if f == "j"@ {
        Some(Face::J)
    } else if f == "q"@ {
        Some(Face::Q)
    } else if f == "k"@ {
        Some(Face::K)
    } else if f == "a"@ {
        Some(Face::A)
    } else if f == "any"@ {
        Some(Face::Any)
    } else if f == "empty"@ {
        Some(Face::Empty)
    } else if f == "first"@ || f == "column"@ || f == "random"@ {
        Some(Face::Column)
    } else if f == "unavail"@ || f == "unavailable"@ || f == "none"@ {
        Some(Face::Unavail)
    } else {
        None
    }
}

/// Reads a face from its name; any other text is returned in the error.
pub fn str_to_face(f: &str) -> (r: Result<Face, SolError>)
    ensures
        match face_of_name(f@) {
            Some(x) => r == Ok::<Face, SolError>(x),
            None => r matches Err(SolError::InvalidFace(t)) && t@ == f@,
        },
{
    if str_eq(f, "2") {
        Ok(Face::N2)
    } else if str_eq(f, "3") {
        Ok(Face::N3)
    } else if str_eq(f, "4") {
        Ok(Face::N4)
    } else if str_eq(f, "5") {
        Ok(Face::N5)
    } else if str_eq(f, "6") {
        Ok(Face::N6)
    } else if str_eq(f, "7") {
        Ok(Face::N7)
    } else if str_eq(f, "8") {
        Ok(Face::N8)
    } else if str_eq(f, "9") {
        Ok(Face::N9)
    } else if str_eq(f, "10") {
        Ok(Face::N10)
    } else if str_eq(f, "j") {
        Ok(Face::J)
    } else if str_eq(f, "q") {
        Ok(Face::Q)
    } else if str_eq(f, "k") {
        Ok(Face::K)
    } else if str_eq(f, "a") {
        Ok(Face::A)
    } else if str_eq(f, "any") {
        Ok(Face::Any)
    } else if str_eq(f, "empty") {
        Ok(Face::Empty)
    } else if str_eq(f, "first") || str_eq(f, "column") || str_eq(f, "random") {
        Ok(Face::Column)
    } else if str_eq(f, "unavail") || str_eq(f, "unavailable") || str_eq(f, "none") {
        Ok(Face::Unavail)
    } else {
        Err(SolError::InvalidFace(String::from_str(f)))
    }
}

/// The rank of a regular face.
pub fn face_to_i8(f: Face) -> (r: i8)
    requires
        f.is_regular(),
    ensures
        r == f.rank(),
        0 <= r <= 12,
{
    match f {
        Face::A => 0,
        Face::N2 => 1,
        Face::N3 => 2,
        Face::N4 => 3,
        Face::N5 => 4,
        Face::N6 => 5,
        Face::N7 => 6,
        Face::N8 => 7,
        Face::N9 => 8,
        Face::N10 => 9,
        Face::J => 10,
        Face::Q => 11,
        _ => 12,
    }
}

/// A playing card: what it shows, and whether it lies face-up.
#[derive(Copy, Clone, PartialEq, Eq, Structural, Debug)]
pub struct Card {
    pub face: Face,
    pub suit: Suit,
    pub up: bool,
}

impl Card {
    /// A card that can be dealt: a regular face of a regular suit.
    pub open spec fn is_regular(self) -> bool {
        self.face.is_regular() && self.suit.is_regular()
    }

    /// The same card lying face-up or face-down.
    pub open spec fn turned(self, up: bool) -> Card {
        Card { face: self.face, suit: self.suit, up }
    }

    /// The card that stands for "no card here".
    pub open spec fn empty() -> Card {
        Card { up: false, suit: Suit::Any, face: Face::Empty }
    }

    /// Whether two cards may count as one suit: a wildcard suit matches any.
    pub open spec fn same_suit(self, other: Card) -> bool {
        self.suit == other.suit || self.suit == Suit::Any || other.suit == Suit::Any
    }

    /// Whether two cards may count as one colour: both red or both black, and a
    /// wildcard suit matches any.
    pub open spec fn same_color(self, other: Card) -> bool {
        self.suit == Suit::Any || other.suit == Suit::Any || self.suit.is_red()
            == other.suit.is_red()
    }

    /// How far `other` ranks above this card. From king to ace it is one step up,
    /// and from ace to king one step down.
    pub open spec fn rank_diff(self, other: Card) -> int {
        if other.face == Face::A && self.face == Face::K {
            1
        } else if self.face == Face::A && other.face == Face::K {
            -1
        } else {
            other.face.rank() - self.face.rank()
        }
    }

    /// A face-down card.
    pub fn new(suit: Suit, face: Face) -> (r: Card)
        ensures
            r == (Card { up: false, suit, face }),
    {
        Card { up: false, suit, face }
    }

    /// The card that stands for "no card here".
    pub fn new_empty() -> (r: Card)
        ensures
            r == Card::empty(),
    {
        Card { up: false, suit: Suit::Any, face: Face::Empty }
    }

    /// Whether two cards may count as one suit.
    pub fn is_same_suit(&self, other: &Card) -> (r: bool)
        ensures
            r == self.same_suit(*other),
    {
        self.suit == other.suit || self.suit == Suit::Any || other.suit == Suit::Any
    }

    /// Whether two cards may count as one colour.
    pub fn is_same_color(&self, other: &Card) -> (r: bool)
        ensures
            r == self.same_color(*other),
    {
        if self.suit == Suit::Any || other.suit == Suit::Any {
            return true;
        }
        let this_red = self.suit == Suit::Diamond || self.suit == Suit::Heart;
        let that_red = other.suit == Suit::Diamond || other.suit == Suit::Heart;
        (this_red && that_red) || (!this_red && !that_red)
    }

    /// How far `other` ranks above this card; positive when `other` is higher.
    pub fn diff(&self, other: &Card) -> (r: i8)
        requires
            self.face.is_regular(),
            other.face.is_regular(),
        ensures
            r == self.rank_diff(*other),
            -12 <= r <= 12,
    {
        if other.face == Face::A && self.face == Face::K {
            return 1;
        }
        if self.face == Face::A && other.face == Face::K {
            return -1;
        }
        face_to_i8(other.face) - face_to_i8(self.face)
    }

    /// Whether this stands for "no card here".
    pub fn is_empty(&self) -> (r: bool)
        ensures
            r == (self.face == Face::Empty),
    {
        self.face == Face::Empty
    }

    /// Whether the card lies face-up.
    pub fn is_up(&self) -> (r: bool)
        ensures
            r == self.up,
    {
        self.up
    }
}

/// The card at place `i` of a fresh pack: the suits in order, ace to king in each.
pub open spec fn fresh_card(i: int) -> Card {
    Card { up: false, suit: Suit::at((i / 13) % 4), face: Face::at(i % 13) }
}

/// `count` packs of 52 cards, one after another, before they are shuffled.
pub open spec fn fresh_cards(count: nat) -> Seq<Card> {
    Seq::new(52 * count, |i: int| fresh_card(i))
}

/// Whether `cards` are the cards of `count` packs in some order.
pub open spec fn is_full_deck(cards: Seq<Card>, count: nat) -> bool {
    cards.to_multiset() == fresh_cards(count).to_multiset()
}

/// The cards that are left to deal, the next one first.
pub struct Deck {
    cards: Vec<Card>,
    idx: usize,
}

impl View for Deck {
    type V = Seq<Card>;

    closed spec fn view(&self) -> Seq<Card> {
        if self.idx <= self.cards.len() {
            self.cards@.skip(self.idx as int)
        } else {
            Seq::empty()
        }
    }
}

/// Puts the cards into a random order.
///
/// This is `RNG::shuffle` of nanorand, run with a `WyRand` that is seeded by the
/// system. It swaps each place with a place that the generator picks, so all
/// that is claimed here is that the same cards come back, each as often as
/// before. One card alone is left out: for it the generator is asked for a
/// number in an empty range and divides by zero.
#[verifier::external_body]
fn shuffle_cards(cards: &mut Vec<Card>)
    requires
        old(cards)@.len() != 1,
    ensures
        final(cards)@.to_multiset() == old(cards)@.to_multiset(),
{
    let mut rng = WyRand::new();
    rng.shuffle(cards);
}

/// Every card of a full deck is a regular card lying face-down.
pub proof fn lemma_full_deck_cards(cards: Seq<Card>, count: nat)
    requires
        is_full_deck(cards, count),
    ensures
        cards.len() == 52 * count,
        forall|i: int| 0 <= i < cards.len() ==> (#[trigger] cards[i]).is_regular() && !cards[i].up,
{
    broadcast use vstd::seq_lib::group_to_multiset_ensures;

    let fresh = fresh_cards(count);
    assert(cards.len() == cards.to_multiset().len());
    assert(fresh.len() == fresh.to_multiset().len());
    assert forall|i: int| 0 <= i < cards.len() implies (#[trigger] cards[i]).is_regular()
        && !cards[i].up by {
        let c = cards[i];
        assert(cards.contains(c));
        assert(cards.to_multiset().count(c) > 0);
        assert(fresh.to_multiset().count(c) > 0);
        assert(fresh.contains(c));
        let j = choose|j: int| 0 <= j < fresh.len() && fresh[j] == c;
        assert(c == fresh_card(j));
    }
}

impl Deck {
    /// `count` packs of 52 cards, shuffled. Only one or two packs make a deck.
    pub fn new(count: u8) -> (r: Result<Deck, SolError>)
        ensures
            1 <= count <= 2 ==> r is Ok && is_full_deck(r->Ok_0@, count as nat),
            !(1 <= count <= 2) ==> r == Err::<Deck, SolError>(SolError::InvalidDeckNumber(count)),
    {
        if count < 1 || count > 2 {
            return Err(SolError::InvalidDeckNumber(count));
        }
        let mut cards: Vec<Card> = Vec::new();
        let mut d: u8 = 0;
        while d < count
            invariant
                d <= count <= 2,
                cards@.len() == 52 * d,
                forall|i: int| 0 <= i < cards@.len() ==> cards@[i] == fresh_card(i),
            decreases count - d,
        {
            let mut s: i8 = suit_to_i8(Suit::Spade);
            while s <= suit_to_i8(Suit::Heart)
                invariant
                    d < count <= 2,
                    0 <= s <= 4,
                    cards@.len() == 52 * d + 13 * s,
                    forall|i: int| 0 <= i < cards@.len() ==> cards@[i] == fresh_card(i),
                decreases 4 - s,
            {
                let mut f: i8 = 0;
                while f <= face_to_i8(Face::K)
                    invariant
                        d < count <= 2,
                        0 <= s <= 3,
                        0 <= f <= 13,
                        cards@.len() == 52 * d + 13 * s + f,
                        forall|i: int| 0 <= i < cards@.len() ==> cards@[i] == fresh_card(i),
                    decreases 13 - f,
                {
                    let ghost at = cards@.len() as int;
                    assert((at / 13) % 4 == s && at % 13 == f);
                    cards.push(Card::new(i8_to_suit(s), i8_to_face(f)));
                    f += 1;
                }
                s += 1;
            }
            d += 1;
        }
        assert(cards@ =~= fresh_cards(count as nat));
        shuffle_cards(&mut cards);
        let deck = Deck { cards, idx: 0 };
        assert(deck@ =~= deck.cards@);
        Ok(deck)
    }

    /// A deck that deals the given cards, the first one first.
    pub fn from_cards(cards: Vec<Card>) -> (r: Deck)
        ensures
            r@ == cards@,
    {
        Deck { cards, idx: 0 }
    }

    /// Whether every card has been dealt.
    pub fn is_empty(&self) -> (r: bool)
        ensures
            r == (self@.len() == 0),
    {
        self.idx >= self.cards.len()
    }

    /// Deals the next card, if one is left. A dealt card never comes back.
    pub fn deal_card(&mut self) -> (r: Option<Card>)
        ensures
            old(self)@.len() == 0 ==> r is None && final(self)@ == old(self)@,
            old(self)@.len() > 0 ==> r == Some(old(self)@[0]) && final(self)@ == old(self)@.skip(1),
    {
        if self.is_empty() {
            return None;
        }
        self.idx += 1;
        assert(self@ =~= old(self)@.skip(1));
        Some(self.cards[self.idx - 1])
    }
}

} // verus!
