//! The description of a solitaire variant.
use crate::card::{Face, Suit};
use crate::err::SolError;
use crate::text::str_eq;
use vstd::prelude::*;
use vstd::string::StringExecFns;

verus! {

/// Which face may be put on a card.
#[derive(Clone, Copy, PartialEq, Eq, Structural, Debug)]
pub enum FaceOrder {
    /// The next higher face.
    Asc,
    /// The next lower face.
    Desc,
    /// Either neighbour.
    Any,
}

/// The face order that a word names, if it names one.
pub open spec fn face_order_of_name(s: Seq<char>) -> Option<FaceOrder> {
    if s == "asc"@ || s == "ascending"@ || s == "inc"@ || s == "increasing"@ {
        Some(FaceOrder::Asc)
    } else if s == "desc"@ || s == "descending"@ || s == "dec"@ || s == "decreasing"@ {
        Some(FaceOrder::Desc)
    } else if s == "any"@ || s == "alternate"@ {
        Some(FaceOrder::Any)
    } else {
        None
    }
}

/// Reads a face order from its name; any other text is returned in the error.
pub fn str_to_face_order(s: &str) -> (r: Result<FaceOrder, SolError>)
    ensures
        match face_order_of_name(s@) {
            Some(x) => r == Ok::<FaceOrder, SolError>(x),
            None => r matches Err(SolError::InvalidFaceOrder(t)) && t@ == s@,
        },
{
    if str_eq(s, "asc") || str_eq(s, "ascending") || str_eq(s, "inc") || str_eq(s, "increasing") {
        Ok(FaceOrder::Asc)
    } else if str_eq(s, "desc") || str_eq(s, "descending") || str_eq(s, "dec") || str_eq(
        s,
        "decreasing",
    ) {
        Ok(FaceOrder::Desc)
    } else if str_eq(s, "any") || str_eq(s, "alternate") {
        Ok(FaceOrder::Any)
    } else {
        Err(SolError::InvalidFaceOrder(String::from_str(s)))
    }
}

/// Which suit may be put on a card.
#[derive(Clone, Copy, PartialEq, Eq, Structural, Debug)]
pub enum SuitOrder {
    SameSuit,
    SameColor,
    AlternateColor,
    Any,
    /// Nothing may be put on the card.
    Forbid,
}

/// The suit order that a word names, if it names one.
pub open spec fn suit_order_of_name(s: Seq<char>) -> Option<SuitOrder> {
    if s == "same"@ || s == "same suit"@ || s == "samesuit"@ {
        Some(SuitOrder::SameSuit)
    } else if s == "same color"@ || s == "samecolor"@ {
        Some(SuitOrder::SameColor)
    } else if s == "alternate"@ || s == "alternate color"@ || s == "alternatecolor"@ {
        Some(SuitOrder::AlternateColor)
    } else if s == "none"@ || s == "forbid"@ || s == "disable"@ {
        Some(SuitOrder::Forbid)
    } else if s == "any"@ {
        Some(SuitOrder::Any)
    } else {
        None
    }
}

/// Reads a suit order from its name; any other text is returned in the error.
pub fn str_to_suit_order(s: &str) -> (r: Result<SuitOrder, SolError>)
    ensures
        match suit_order_of_name(s@) {
            Some(x) => r == Ok::<SuitOrder, SolError>(x),
            None => r matches Err(SolError::InvalidSuitOrder(t)) && t@ == s@,
        },
{
    if str_eq(s, "same") || str_eq(s, "same suit") || str_eq(s, "samesuit") {
        Ok(SuitOrder::SameSuit)
    } else if str_eq(s, "same color") || str_eq(s, "samecolor") {
        Ok(SuitOrder::SameColor)
    } else if str_eq(s, "alternate") || str_eq(s, "alternate color") || str_eq(
        s,
        "alternatecolor",
    ) {
        Ok(SuitOrder::AlternateColor)
    } else if str_eq(s, "none") || str_eq(s, "forbid") || str_eq(s, "disable") {
        Ok(SuitOrder::Forbid)
    } else if str_eq(s, "any") {
        Ok(SuitOrder::Any)
    } else {
        Err(SolError::InvalidSuitOrder(String::from_str(s)))
    }
}

/// The deck pile and its waste.
#[derive(Clone, Copy, Debug)]
pub struct PileConf {
    /// How many cards go from the deck to the waste at a time.
    pub deal_by: u8,
    /// How often the waste may be turned back into the deck; negative for no limit.
    pub redeals: i8,
    /// Deal onto the columns, and have no waste.
    pub pile_to_cols: bool,
}

impl PileConf {
    /// Between 1 and 16 cards are dealt at a time.
    pub open spec fn valid(&self) -> bool {
        1 <= self.deal_by <= 16
    }

    /// Accepts between 1 and 16 cards dealt at a time.
    pub fn validate(&self) -> (r: Result<(), SolError>)
        ensures
            self.valid() ==> r is Ok,
            !self.valid() ==> r == Err::<(), SolError>(SolError::InvalidDealBy(self.deal_by)),
    {
        if self.deal_by == 0 || self.deal_by > 16 {
            return Err(SolError::InvalidDealBy(self.deal_by));
        }
        Ok(())
    }
}

/// One foundation pile.
#[derive(Clone, Copy, Debug)]
pub struct FndSlot {
    /// The face that starts the pile.
    pub first: Face,
    /// The suit that starts the pile.
    pub suit: Suit,
    /// Which face goes on a card of the pile.
    pub forder: FaceOrder,
    /// Which suit goes on a card of the pile.
    pub sorder: SuitOrder,
}

/// The free cells.
#[derive(Clone, Copy, Debug)]
pub struct TempConf {
    /// How many there are.
    pub count: u8,
}

impl TempConf {
    /// At most four free cells.
    pub open spec fn valid(&self) -> bool {
        self.count <= 4
    }

    /// Accepts at most four free cells.
    pub fn validate(&self) -> (r: Result<(), SolError>)
        ensures
            self.valid() ==> r is Ok,
            !self.valid() ==> r == Err::<(), SolError>(SolError::InvalidTempNumber(self.count)),
    {
        if self.count > 4 {
            return Err(SolError::InvalidTempNumber(self.count));
        }
        Ok(())
    }
}

/// One column.
#[derive(Clone, Copy, Debug)]
pub struct ColConf {
    /// How many cards it starts with.
    pub count: u8,
    /// How many of them start face-up.
    pub up: u8,
    /// Cards may leave the column but never join it.
    pub take_only: bool,
}

/// Which cards of a column may be moved.
#[derive(Clone, Copy, PartialEq, Eq, Structural, Debug)]
pub enum Playable {
    /// The top card only.
    Top,
    /// Any face-up card, with the cards above it.
    Any,
    /// A face-up card of the run that is in order at the top, with the cards above it.
    Ordered,
}

/// The rules of one solitaire variant.
#[derive(Clone, Debug)]
pub struct Conf {
    /// One game in this many is won, where that is known.
    pub chance: Option<u16>,
    /// The name of the variant.
    pub name: String,
    /// The number of packs, 1 or 2.
    pub deck_count: u8,
    /// Which cards of a column may be moved.
    pub playable: Playable,
    /// The deck pile and its waste, if the variant has them.
    pub pile: Option<PileConf>,
    /// The foundation piles.
    pub fnd: Vec<FndSlot>,
    /// The free cells, if the variant has them.
    pub temp: Option<TempConf>,
    /// The columns.
    pub cols: Vec<ColConf>,
    /// Which face goes on a card of a column.
    pub col_forder: FaceOrder,
    /// Which suit goes on a card of a column.
    pub col_sorder: SuitOrder,
    /// The face that starts an empty column; `Unavail` and `Empty` keep it empty.
    pub col_refill: Face,
}

/// The rules of a variant as a value: the name as a sequence of characters,
/// the foundations and the columns as sequences.
pub struct ConfView {
    pub chance: Option<u16>,
    pub name: Seq<char>,
    pub deck_count: u8,
    pub playable: Playable,
    pub pile: Option<PileConf>,
    pub fnd: Seq<FndSlot>,
    pub temp: Option<TempConf>,
    pub cols: Seq<ColConf>,
    pub col_forder: FaceOrder,
    pub col_sorder: SuitOrder,
    pub col_refill: Face,
}

impl View for Conf {
    type V = ConfView;

    open spec fn view(&self) -> ConfView {
        ConfView {
            chance: self.chance,
            name: self.name@,
            deck_count: self.deck_count,
            playable: self.playable,
            pile: self.pile,
            fnd: self.fnd@,
            temp: self.temp,
            cols: self.cols@,
            col_forder: self.col_forder,
            col_sorder: self.col_sorder,
            col_refill: self.col_refill,
        }
    }
}

impl Default for Conf {
    fn default() -> (r: Conf)
        ensures
            r.is_blank(),
    {
        Conf {
            name: String::new(),
            chance: None,
            deck_count: 1,
            playable: Playable::Top,
            pile: None,
            fnd: Vec::new(),
            temp: None,
            cols: Vec::new(),
            col_forder: FaceOrder::Desc,
            col_sorder: SuitOrder::SameSuit,
            col_refill: Face::Unavail,
        }
    }
}

impl Conf {
    /// Rules with one pack and nothing to play on: the start of every description.
    pub open spec fn is_blank(&self) -> bool {
        &&& self.name@.len() == 0
        &&& self.chance is None
        &&& self.deck_count == 1
        &&& self.playable == Playable::Top
        &&& self.pile is None
        &&& self.fnd@.len() == 0
        &&& self.temp is None
        &&& self.cols@.len() == 0
        &&& self.col_forder == FaceOrder::Desc
        &&& self.col_sorder == SuitOrder::SameSuit
        &&& self.col_refill == Face::Unavail
    }

    /// The number of foundation piles.
    pub open spec fn fnd_slots(&self) -> nat {
        self.fnd@.len()
    }

    /// The number of columns.
    pub open spec fn col_slots(&self) -> nat {
        self.cols@.len()
    }

    /// The number of free cells.
    pub open spec fn temp_slots(&self) -> nat {
        match self.temp {
            None => 0,
            Some(t) => t.count as nat,
        }
    }

    /// The number of piles for the deck and its waste: none, the deck alone, or both.
    pub open spec fn pile_slots(&self) -> nat {
        match self.pile {
            None => 0,
            Some(p) => if p.pile_to_cols {
                1
            } else {
                2
            },
        }
    }

    /// The number of all piles.
    pub open spec fn slot_total(&self) -> nat {
        self.fnd_slots() + self.col_slots() + self.temp_slots() + self.pile_slots()
    }

    /// What `validate` answers: the first rule that the description breaks, or `Ok`.
    pub open spec fn check(&self) -> Result<(), SolError> {
        if self.deck_count == 0 || self.deck_count > 2 {
            Err(SolError::InvalidDeckNumber(self.deck_count))
        } else if self.temp is Some && !self.temp->Some_0.valid() {
            Err(SolError::InvalidTempNumber(self.temp->Some_0.count))
        } else if self.pile is Some && !self.pile->Some_0.valid() {
            Err(SolError::InvalidDealBy(self.pile->Some_0.deal_by))
        } else if self.fnd@.len() == 0 {
            Err(SolError::NoFoundation)
        } else if exists|i: int| 0 <= i < self.fnd@.len() && (#[trigger] self.fnd@[i]).first == Face::Empty {
            Err(SolError::NoFoundationStart)
        } else if self.cols@.len() == 0 {
            Err(SolError::NoCols)
        } else if self.cols@.len() > 10 {
            Err(SolError::InvalidColNumber((self.cols@.len() % 256) as u8))
        } else {
            Ok(())
        }
    }

    /// A description that a game can be played by: one or two packs, at most four
    /// free cells, 1 to 16 cards dealt at a time, at least one foundation and none
    /// that starts on the empty face, and one to ten columns.
    pub open spec fn valid(&self) -> bool {
        &&& 1 <= self.deck_count <= 2
        &&& self.temp matches Some(t) ==> t.valid()
        &&& self.pile matches Some(p) ==> p.valid()
        &&& self.fnd@.len() >= 1
        &&& forall|i: int| 0 <= i < self.fnd@.len() ==> (#[trigger] self.fnd@[i]).first != Face::Empty
        &&& 1 <= self.cols@.len() <= 10
    }

    /// What the engine needs of a description to play by it: one or two packs,
    /// and a column for the cursor to start on. Every valid description has both.
    pub open spec fn fits_engine(&self) -> bool {
        1 <= self.deck_count <= 2 && self.cols@.len() >= 1
    }

    /// Rules with one pack and nothing to play on.
    pub fn new() -> (r: Conf)
        ensures
            r.is_blank(),
    {
        Default::default()
    }

    /// Checks the description, and names the first rule that it breaks.
    pub fn validate(&self) -> (r: Result<(), SolError>)
        ensures
            r == self.check(),
            r is Ok <==> self.valid(),
    {
        if self.deck_count == 0 || self.deck_count > 2 {
            return Err(SolError::InvalidDeckNumber(self.deck_count));
        }
        if let Some(ref cfg) = self.temp {
            match cfg.validate() {
                Ok(_) => {},
                Err(e) => {
                    return Err(e);
                },
            }
        }
        if let Some(ref dc) = self.pile {
            match dc.validate() {
                Ok(_) => {},
                Err(e) => {
                    return Err(e);
                },
            }
        }
        if self.fnd.is_empty() {
            return Err(SolError::NoFoundation);
        }
        let mut i: usize = 0;
        while i < self.fnd.len()
            invariant
                1 <= self.deck_count <= 2,
                self.temp matches Some(t) ==> t.valid(),
                self.pile matches Some(p) ==> p.valid(),
                0 < self.fnd@.len(),
                i <= self.fnd@.len(),
                forall|j: int| 0 <= j < i ==> (#[trigger] self.fnd@[j]).first != Face::Empty,
            decreases self.fnd@.len() - i,
        {
            if self.fnd[i].first == Face::Empty {
                assert(self.fnd@[i as int].first == Face::Empty);
                return Err(SolError::NoFoundationStart);
            }
            i += 1;
        }
        if self.cols.is_empty() {
            return Err(SolError::NoCols);
        }
        if self.cols.len() > 10 {
            return Err(SolError::InvalidColNumber((self.cols.len() % 256) as u8));
        }
        Ok(())
    }

    /// How many cards go from the deck to the waste at a time; 0 without a deck pile.
    pub fn deal_by(&self) -> (r: u8)
        ensures
            r == self.dealt_at_once(),
    {
        if let Some(ref pconf) = self.pile {
            pconf.deal_by
        } else {
            0
        }
    }

    /// How often the waste may be turned back into the deck; 0 without a deck pile.
    pub fn redeals(&self) -> (r: i8)
        ensures
            r == self.redeal_limit(),
    {
        if let Some(ref pconf) = self.pile {
            pconf.redeals
        } else {
            0
        }
    }

    /// The number of cards dealt at a time, 0 without a deck pile.
    pub open spec fn dealt_at_once(&self) -> u8 {
        match self.pile {
            Some(p) => p.deal_by,
            None => 0,
        }
    }

    /// The number of redeals that the rules give, 0 without a deck pile.
    pub open spec fn redeal_limit(&self) -> i8 {
        match self.pile {
            Some(p) => p.redeals,
            None => 0,
        }
    }
}

} // verus!
