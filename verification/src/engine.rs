//! The game: the piles of one deal, the cursor, the moves and the undo history.
use crate::card::{Card, Deck, Face, Suit};
use crate::err::SolError;
use crate::gconf::{Conf, FaceOrder, Playable, SuitOrder};
use crate::model::{views, GameView, Snapshot};
use vstd::prelude::*;

mod cursor;
mod deal;
mod moves;
mod piles;
mod start;
mod undo;

verus! {

/// The pile index that stands for "no location".
pub const ANY_COL: usize = 9999;

/// How one pile behaves. It is worked out once from the rules and from the
/// pile's place in the layout.
#[derive(Clone, Copy, PartialEq, Eq, Structural, Debug)]
pub struct SlotConf {
    /// The cursor may rest on the pile.
    pub selectable: bool,
    /// All cards of the pile lie face-up.
    pub all_up: bool,
    /// A card may be put on the pile when it is empty.
    pub refill: bool,
    /// The face that starts the pile when it is empty.
    pub start_face: Face,
    /// The suit that starts the pile when it is empty.
    pub start_suit: Suit,
    /// Which suit goes on the top card.
    pub suit_order: SuitOrder,
    /// Which face goes on the top card.
    pub face_order: FaceOrder,
    /// Which cards may be taken.
    pub playable: Playable,
    /// A face-down card that comes to the top is turned face-up.
    pub flip: bool,
    /// Cards may leave the pile but never join it.
    pub take_only: bool,
    /// Show the whole pile, not the top card alone.
    pub draw_all: bool,
}

impl SlotConf {
    /// The behaviour of a foundation pile before the rules refine it.
    pub open spec fn fnd_rules() -> SlotConf {
        SlotConf {
            selectable: true,
            all_up: true,
            refill: true,
            start_face: Face::A,
            start_suit: Suit::Any,
            suit_order: SuitOrder::SameSuit,
            face_order: FaceOrder::Asc,
            playable: Playable::Top,
            flip: false,
            take_only: false,
            draw_all: false,
        }
    }

    /// The behaviour of a column before the rules refine it.
    pub open spec fn col_rules() -> SlotConf {
        SlotConf {
            selectable: true,
            all_up: false,
            refill: true,
            start_face: Face::K,
            start_suit: Suit::Any,
            suit_order: SuitOrder::SameSuit,
            face_order: FaceOrder::Desc,
            playable: Playable::Any,
            flip: true,
            take_only: false,
            draw_all: true,
        }
    }

    /// The behaviour of a free cell.
    pub open spec fn temp_rules() -> SlotConf {
        SlotConf {
            selectable: true,
            all_up: true,
            refill: true,
            start_face: Face::Any,
            start_suit: Suit::Any,
            suit_order: SuitOrder::Any,
            face_order: FaceOrder::Any,
            playable: Playable::Top,
            flip: false,
            take_only: false,
            draw_all: false,
        }
    }

    /// The behaviour of the deck and waste piles before their place refines it.
    pub open spec fn pile_rules() -> SlotConf {
        SlotConf {
            selectable: true,
            all_up: false,
            refill: false,
            start_face: Face::Any,
            start_suit: Suit::Any,
            suit_order: SuitOrder::Any,
            face_order: FaceOrder::Any,
            playable: Playable::Top,
            flip: false,
            take_only: true,
            draw_all: false,
        }
    }

    /// The behaviour of a foundation pile before the rules refine it.
    pub fn new_for_fnd() -> (r: Self)
        ensures
            r == SlotConf::fnd_rules(),
    {
        SlotConf {
            selectable: true,
            all_up: true,
            refill: true,
            start_face: Face::A,
            start_suit: Suit::Any,
            suit_order: SuitOrder::SameSuit,
            face_order: FaceOrder::Asc,
            playable: Playable::Top,
            flip: false,
            take_only: false,
            draw_all: false,
        }
    }

    /// The behaviour of a column before the rules refine it.
    pub fn new_for_col() -> (r: Self)
        ensures
            r == SlotConf::col_rules(),
    {
        SlotConf {
            selectable: true,
            all_up: false,
            refill: true,
            start_face: Face::K,
            start_suit: Suit::Any,
            suit_order: SuitOrder::SameSuit,
            face_order: FaceOrder::Desc,
            playable: Playable::Any,
            flip: true,
            take_only: false,
            draw_all: true,
        }
    }

    /// The behaviour of a free cell.
    pub fn new_for_temp() -> (r: Self)
        ensures
            r == SlotConf::temp_rules(),
    {
        SlotConf {
            selectable: true,
            all_up: true,
            refill: true,
            start_face: Face::Any,
            start_suit: Suit::Any,
            suit_order: SuitOrder::Any,
            face_order: FaceOrder::Any,
            playable: Playable::Top,
            flip: false,
            take_only: false,
            draw_all: false,
        }
    }

    /// The behaviour of the deck and waste piles before their place refines it.
    pub fn new_for_pile() -> (r: Self)
        ensures
            r == SlotConf::pile_rules(),
    {
        SlotConf {
            selectable: true,
            all_up: false,
            refill: false,
            start_face: Face::Any,
            start_suit: Suit::Any,
            suit_order: SuitOrder::Any,
            face_order: FaceOrder::Any,
            playable: Playable::Top,
            flip: false,
            take_only: true,
            draw_all: false,
        }
    }
}

/// A pile: how it behaves, and its cards from the bottom to the top.
#[derive(Clone, Debug)]
pub struct Pile {
    pub conf: SlotConf,
    pub cards: Vec<Card>,
}

/// Where the cursor is asked to go.
#[derive(Clone, Copy, Debug)]
pub enum Direction {
    /// One card deeper into the column.
    Up,
    /// One card towards the top of the column.
    Down,
    /// To the pile before this one.
    Left,
    /// To the pile after this one.
    Right,
    /// To the column of that number; when already there, one card deeper.
    ColUp(usize),
    /// To the column of that number; when already there, one card towards the top.
    ColDown(usize),
    /// To the next foundation pile.
    Waste,
    /// To the next of the deck and waste piles.
    Pile,
    /// To the next free cell.
    Temp,
}

/// A place in the play area: a pile, and a depth below its top card.
#[derive(Clone, Copy, PartialEq, Eq, Structural, Debug)]
pub struct Pos {
    /// The index of the pile.
    pub col: usize,
    /// How many cards lie above the one that is meant; 0 is the top card.
    pub row: usize,
}

impl Default for Pos {
    fn default() -> (r: Pos)
        ensures
            r == Pos::nowhere(),
    {
        Pos { col: ANY_COL, row: 0 }
    }
}

impl Pos {
    /// The place that stands for "no location".
    pub open spec fn nowhere() -> Pos {
        Pos { col: ANY_COL, row: 0 }
    }

    /// Whether the place stands for "no location".
    pub open spec fn is_nowhere(self) -> bool {
        self.col == ANY_COL
    }

    /// The place that stands for "no location".
    pub fn new() -> (r: Pos)
        ensures
            r == Pos::nowhere(),
    {
        Pos { col: ANY_COL, row: 0 }
    }

    /// Whether the place stands for "no location".
    pub fn is_empty(&self) -> (r: bool)
        ensures
            r == self.is_nowhere(),
    {
        self.col == ANY_COL
    }
}

/// A remembered state of the game.
struct Undo {
    redeals: i8,
    piles: Vec<Vec<Card>>,
    selected: Pos,
}

impl View for Undo {
    type V = Snapshot;

    closed spec fn view(&self) -> Snapshot {
        Snapshot {
            redeals: self.redeals,
            piles: Seq::new(self.piles@.len(), |i: int| self.piles@[i]@),
            selected: self.selected,
        }
    }
}

/// One game of solitaire, played by the rules it was made with.
pub struct Game<'a> {
    conf: &'a Conf,
    deck: Deck,
    selected: Pos,
    undo: Vec<Undo>,
    piles: Vec<Pile>,
    redeals: i8,
}

impl<'a> View for Game<'a> {
    type V = GameView;

    closed spec fn view(&self) -> GameView {
        GameView {
            conf: *self.conf,
            deck: self.deck@,
            selected: self.selected,
            undo: Seq::new(self.undo@.len(), |k: int| self.undo@[k]@),
            piles: views(self.piles@),
            redeals: self.redeals,
        }
    }
}

impl<'a> Game<'a> {
    /// Whether the game is in a state that play can reach.
    pub open spec fn wf(&self) -> bool {
        self@.wf()
    }

    /// The number of piles, which is the number that the rules lay out.
    fn slots(&self) -> (r: usize)
        requires
            self.wf(),
        ensures
            r == self@.piles.len(),
            r == self@.conf.slot_total(),
            r == self.piles@.len(),
            r >= 1,
    {
        self.piles.len()
    }

    /// The redeals that are left; negative for no limit.
    pub fn redeal_left(&self) -> (r: i8)
        ensures
            r == self@.redeals,
    {
        self.redeals
    }

    /// The place of the cursor.
    pub fn selected_loc(&self) -> (r: Pos)
        ensures
            r == self@.selected,
    {
        self.selected
    }

    /// The number of foundation piles.
    pub fn fnd_count(&self) -> (r: usize)
        ensures
            r == self@.conf.fnd_slots(),
    {
        self.conf.fnd.len()
    }

    /// The number of free cells.
    pub fn temp_count(&self) -> (r: usize)
        ensures
            r == self@.conf.temp_slots(),
    {
        match self.conf.temp {
            None => 0,
            Some(ref cfg) => cfg.count as usize,
        }
    }

    /// The number of columns.
    pub fn col_count(&self) -> (r: usize)
        ensures
            r == self@.conf.col_slots(),
    {
        self.conf.cols.len()
    }

    /// The number of piles for the deck and its waste.
    pub fn pile_count(&self) -> (r: usize)
        ensures
            r == self@.conf.pile_slots(),
    {
        if let Some(ref pconf) = self.conf.pile {
            if pconf.pile_to_cols {
                1
            } else {
                2
            }
        } else {
            0
        }
    }

    /// The number of all piles.
    pub fn column_count(&self) -> (r: usize)
        ensures
            r == self@.piles.len(),
    {
        self.piles.len()
    }

    /// The index of the deck pile, where the rules have one.
    pub fn first_pile(&self) -> (r: Option<usize>)
        requires
            self.wf(),
        ensures
            self@.conf.pile is None ==> r is None,
            self@.conf.pile is Some ==> r == Some(self@.first_pile() as usize),
    {
        let _ = self.slots();
        match self.conf.pile {
            Some(_) => Some(self.fnd_count() + self.col_count() + self.temp_count()),
            None => None,
        }
    }

    /// The index of the first free cell, where the rules have free cells.
    pub fn first_temp(&self) -> (r: Option<usize>)
        requires
            self.wf(),
        ensures
            self@.conf.temp is None ==> r is None,
            self@.conf.temp is Some ==> r == Some(self@.first_temp() as usize),
    {
        let _ = self.slots();
        match self.conf.temp {
            Some(_) => Some(self.fnd_count() + self.col_count()),
            None => None,
        }
    }

    /// The index of the first foundation pile: the foundations come first.
    pub fn first_fnd(&self) -> (r: Option<usize>)
        ensures
            r == Some(0usize),
    {
        Some(0)
    }

    /// The index of the first column: the columns follow the foundations.
    pub fn first_col(&self) -> (r: Option<usize>)
        ensures
            r == Some(self@.first_col() as usize),
    {
        Some(self.fnd_count())
    }

    /// The card at a place, and the empty card where there is none.
    pub fn card_at(&self, loc: Pos) -> (r: Card)
        ensures
            r == self@.card_at(loc),
    {
        if loc.is_empty() || loc.col >= self.piles.len() {
            return Card::new_empty();
        }
        let l = self.piles[loc.col].cards.len();
        if loc.row >= l {
            return Card::new_empty();
        }
        self.piles[loc.col].cards[l - 1 - loc.row]
    }

    /// Whether the game is won: every pile but the foundations is empty.
    pub fn is_completed(&self) -> (r: bool)
        ensures
            r == self@.is_won(),
    {
        let wc = self.fnd_count();
        let n = self.piles.len();
        let mut i: usize = 0;
        while i < n
            invariant
                n == self.piles@.len(),
                wc == self@.conf.fnd_slots(),
                i <= n,
                forall|j: int| wc <= j < i ==> (#[trigger] self@.piles[j]).cards.len() == 0,
            decreases n - i,
        {
            if i >= wc && !self.piles[i].cards.is_empty() {
                assert(self@.piles[i as int].cards.len() != 0);
                return false;
            }
            i += 1;
        }
        true
    }

    /// How a pile behaves.
    pub fn slot_conf(&self, pos: usize) -> (r: Result<&SlotConf, SolError>)
        ensures
            pos < self@.piles.len() ==> r is Ok && *r->Ok_0 == self@.piles[pos as int].conf,
            pos >= self@.piles.len() ==> r matches Err(SolError::InvalidLocation),
    {
        if pos >= self.piles.len() {
            return Err(SolError::InvalidLocation);
        }
        Ok(&self.piles[pos].conf)
    }

    /// The cards of the deck pile (0) or of the waste (1).
    pub fn pile(&self, pos: usize) -> (r: Result<&Vec<Card>, SolError>)
        requires
            self.wf(),
        ensures
            pos < self@.conf.pile_slots() ==> r is Ok && r->Ok_0@ == self@.piles[self@.first_pile()
                + pos].cards,
            pos >= self@.conf.pile_slots() ==> r matches Err(SolError::InvalidLocation),
    {
        let n = self.slots();
        if pos >= self.pile_count() {
            return Err(SolError::InvalidLocation);
        }
        let pp = self.fnd_count() + self.col_count() + self.temp_count() + pos;
        Ok(&self.piles[pp].cards)
    }

    /// The cards of a foundation pile.
    pub fn fnd(&self, pos: usize) -> (r: Result<&Vec<Card>, SolError>)
        requires
            self.wf(),
        ensures
            pos < self@.conf.fnd_slots() ==> r is Ok && r->Ok_0@ == self@.piles[pos as int].cards,
            pos >= self@.conf.fnd_slots() ==> r matches Err(SolError::InvalidLocation),
    {
        let n = self.slots();
        if pos >= self.fnd_count() {
            return Err(SolError::InvalidLocation);
        }
        Ok(&self.piles[pos].cards)
    }

    /// The cards of a free cell.
    pub fn temp(&self, pos: usize) -> (r: Result<&Vec<Card>, SolError>)
        requires
            self.wf(),
        ensures
            pos < self@.conf.temp_slots() ==> r is Ok && r->Ok_0@ == self@.piles[self@.first_temp()
                + pos].cards,
            pos >= self@.conf.temp_slots() ==> r matches Err(SolError::InvalidLocation),
    {
        let n = self.slots();
        if pos >= self.temp_count() {
            return Err(SolError::InvalidLocation);
        }
        let tp = self.fnd_count() + self.col_count() + pos;
        Ok(&self.piles[tp].cards)
    }

    /// The cards of a column.
    pub fn col(&self, pos: usize) -> (r: Result<&Vec<Card>, SolError>)
        requires
            self.wf(),
        ensures
            pos < self@.conf.col_slots() ==> r is Ok && r->Ok_0@ == self@.piles[self@.first_col()
                + pos].cards,
            pos >= self@.conf.col_slots() ==> r matches Err(SolError::InvalidLocation),
    {
        let n = self.slots();
        if pos >= self.col_count() {
            return Err(SolError::InvalidLocation);
        }
        let cp = self.fnd_count() + pos;
        Ok(&self.piles[cp].cards)
    }
}

} // verus!
