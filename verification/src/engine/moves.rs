//! Moves: which are legal, where a card can go, and the move itself.
use crate::card::{Face, Suit};
use crate::err::SolError;
use crate::gconf::Playable;
use crate::laws::law_ordered_count;
use crate::model::{all_regular, lemma_with_cards, without_top, GameView};
use super::{Game, Pos};
use super::piles::{drop_on, fits, lift, run_length, turn_top_up};
use vstd::prelude::*;

verus! {

impl<'a> Game<'a> {
    /// The length of the ordered run at the top of a pile: how many of its top
    /// cards lie on one another as the orders of the pile ask. A pile of one
    /// card, or of none, is its own run. It is 0 where there is no such pile.
    pub fn ordered_count(&self, pile_id: usize) -> (r: usize)
        requires
            self.wf(),
        ensures
            r == self@.ordered_count(pile_id as int),
            pile_id < self@.piles.len() ==> r <= self@.piles[pile_id as int].cards.len() && (
            self@.piles[pile_id as int].cards.len() >= 1 ==> r >= 1),
            pile_id >= self@.piles.len() ==> r == 0,
    {
        if pile_id >= self.piles.len() {
            return 0;
        }
        let pile = &self.piles[pile_id];
        proof {
            law_ordered_count(self@, pile_id as int);
        }
        assert(all_regular(self@.piles[pile_id as int].cards));
        run_length(&pile.cards, pile.conf.suit_order, pile.conf.face_order)
    }

    /// Whether the card at `pos`, with the cards above it, may be put on pile
    /// `pile_id`. The card must lie face-up. The pile must take cards at all, and
    /// more than its top card only if it is not played by top cards. An empty
    /// pile takes the card that its start allows, any other pile the card that
    /// its orders allow on its top card.
    pub fn can_move(&self, pos: Pos, pile_id: usize) -> (r: bool)
        requires
            self.wf(),
        ensures
            r == self@.can_move(pos, pile_id as int),
    {
        let card = self.card_at(pos);
        if !card.up || card.is_empty() || pile_id >= self.piles.len() {
            return false;
        }
        let pile = &self.piles[pile_id];
        if pile.conf.playable == Playable::Top && pos.row != 0 {
            return false;
        }
        if pile.conf.take_only || (!pile.conf.refill && pile.cards.is_empty()) {
            return false;
        }
        if pile.cards.is_empty() {
            let ok_suit = pile.conf.start_suit == Suit::Any || pile.conf.start_suit == card.suit;
            let ok_face = pile.conf.start_face == Face::Any || pile.conf.start_face == card.face;
            return ok_suit && ok_face;
        }
        let top = &pile.cards[pile.cards.len() - 1];
        assert(all_regular(self@.piles[pos.col as int].cards));
        assert(all_regular(self@.piles[pile_id as int].cards));
        fits(pile.conf.suit_order, pile.conf.face_order, &card, top)
    }

    /// The piles that take the card at `from`, in the order of the piles: the
    /// foundations first, then the columns, then the free cells. The pile of the
    /// card itself is left out. Each place is the top of its pile.
    pub fn dest_list_card(&self, from: Pos) -> (r: Vec<Pos>)
        requires
            self.wf(),
        ensures
            forall|k: int|
                0 <= k < r@.len() ==> (#[trigger] r@[k]).row == 0 && self@.is_dest(
                    from,
                    r@[k].col as int,
                ),
            forall|j: int, k: int| 0 <= j < k < r@.len() ==> r@[j].col < r@[k].col,
            forall|d: int|
                0 <= d < self@.piles.len() && #[trigger] self@.is_dest(from, d) ==> r@.contains(
                    Pos { col: d as usize, row: 0 },
                ),
            match self@.first_dest(from, 0) {
                Some(d) => r@.len() > 0 && r@[0] == (Pos { col: d as usize, row: 0 }),
                None => r@.len() == 0,
            },
    {
        let card = self.card_at(from);
        let mut dests: Vec<Pos> = Vec::new();
        proof {
            self@.lemma_first_dest(from, 0);
        }
        if card.is_empty() {
            return dests;
        }
        let n = self.slots();
        let mut idx: usize = 0;
        while idx < n
            invariant
                self.wf(),
                n == self@.piles.len(),
                idx <= n,
                forall|k: int|
                    0 <= k < dests@.len() ==> (#[trigger] dests@[k]).row == 0 && self@.is_dest(
                        from,
                        dests@[k].col as int,
                    ) && dests@[k].col < idx,
                forall|j: int, k: int| 0 <= j < k < dests@.len() ==> dests@[j].col < dests@[k].col,
                forall|d: int|
                    0 <= d < idx && #[trigger] self@.is_dest(from, d) ==> dests@.contains(
                        Pos { col: d as usize, row: 0 },
                    ),
                dests@.len() == 0 ==> self@.first_dest(from, 0) == self@.first_dest(from, idx as int),
                dests@.len() > 0 ==> self@.first_dest(from, 0) == Some(dests@[0].col as int),
            decreases n - idx,
        {
            if idx != from.col && self.can_move(from, idx) {
                let ghost prev = dests@;
                dests.push(Pos { col: idx, row: 0 });
                assert forall|d: int|
                    0 <= d < idx + 1 && #[trigger] self@.is_dest(from, d) implies dests@.contains(
                    Pos { col: d as usize, row: 0 },
                ) by {
                    if d < idx {
                        let k = choose|k: int|
                            0 <= k < prev.len() && prev[k] == (Pos { col: d as usize, row: 0 });
                        assert(dests@[k] == prev[k]);
                    } else {
                        assert(dests@[prev.len() as int] == (Pos { col: d as usize, row: 0 }));
                    }
                }
            }
            idx += 1;
        }
        dests
    }

    /// Moves the card at `from` to the pile of `to`, with the cards that lie
    /// above it, in their order. Without a source the card under the cursor is
    /// moved; without a destination it goes to the first pile that takes it:
    /// foundations first, then columns, then free cells. A face-down card that
    /// comes to the top of the pile that was left is turned face-up where that
    /// pile turns its cards. A move that is refused changes nothing.
    pub fn move_card(&mut self, from: Pos, to: Pos) -> (r: Result<(), SolError>)
        requires
            old(self).wf(),
        ensures
            final(self).wf(),
            final(self)@ == old(self)@.after_move(from, to),
            match old(self)@.move_plan(from, to) {
                Ok(_) => r is Ok,
                Err(e) => r == Err::<(), SolError>(e),
            },
    {
        let from = if from.is_empty() {
            if self.selected.is_empty() {
                return Err(SolError::NotSelected);
            }
            self.selected
        } else {
            from
        };
        let src_card = self.card_at(from);
        if src_card.is_empty() {
            return Err(SolError::InvalidMove);
        }
        assert(from.col < self@.piles.len() && from.row < self@.piles[from.col as int].cards.len());
        if self.piles[from.col].conf.playable == Playable::Top && from.row != 0 {
            return Err(SolError::InvalidMove);
        }
        let to = if to.is_empty() {
            let dests = self.dest_list_card(from);
            if dests.len() > 0 {
                dests[0]
            } else {
                to
            }
        } else {
            to
        };
        if to.is_empty() || to.row != 0 {
            return Err(SolError::NoDestination);
        }
        if !self.can_move(from, to.col) {
            return Err(SolError::InvalidMove);
        }
        assert(from.row < self.piles@[from.col as int].cards.len());
        let cnt = from.row + 1;
        let flippable = self.piles[from.col].conf.flip;
        let to_move = lift(&mut self.piles, from.col, cnt);
        let l = self.piles[from.col].cards.len();
        if l != 0 {
            let crd = self.piles[from.col].cards[l - 1];
            if !crd.is_up() && flippable {
                turn_top_up(&mut self.piles, from.col);
            }
        }
        drop_on(&mut self.piles, to.col, &to_move);
        proof {
            let g = old(self)@;
            lemma_with_cards(g.piles, from.col as int, without_top(g.piles[from.col as int].cards, cnt as int));
            assert(self@.piles =~~= g.moved(from, to.col as int).piles);
            g.lemma_moved(from, to.col as int);
        }
        Ok(())
    }

    /// Whether the card at `pos` may be taken by the rules of its pile and
    /// lies face-up.
    fn may_take(&self, pos: Pos, ordered: usize) -> (r: bool)
        requires
            self.wf(),
            pos.col < self@.piles.len(),
            pos.row < self@.piles[pos.col as int].cards.len(),
            ordered == self@.ordered_count(pos.col as int),
        ensures
            r == {
                let pile = self@.piles[pos.col as int];
                &&& !((pile.conf.take_only || pile.conf.playable == Playable::Top) && pos.row > 0)
                &&& !(pile.conf.playable == Playable::Ordered && pos.row >= ordered)
                &&& self@.at_row(pos).up
            },
    {
        let pile = &self.piles[pos.col];
        let l = pile.cards.len();
        if (pile.conf.take_only || pile.conf.playable == Playable::Top) && pos.row > 0 {
            return false;
        }
        if pile.conf.playable == Playable::Ordered && pos.row >= ordered {
            return false;
        }
        pile.cards[l - 1 - pos.row].is_up()
    }

    /// The cards that are worth a hint: those outside the foundations that may
    /// be taken by the rules of their pile, lie face-up, and are taken by some
    /// other pile. They are listed pile by pile, and in a pile from the deepest
    /// card to the top.
    pub fn avail_list(&self) -> (r: Vec<Pos>)
        requires
            self.wf(),
        ensures
            forall|k: int| 0 <= k < r@.len() ==> self@.is_hint(#[trigger] r@[k]),
            forall|j: int, k: int|
                0 <= j < k < r@.len() ==> GameView::hint_before(#[trigger] r@[j], #[trigger] r@[k]),
            forall|p: Pos| #[trigger] self@.is_hint(p) ==> r@.contains(p),
    {
        let mut loc: Vec<Pos> = Vec::new();
        let fnd_len = self.fnd_count();
        let n = self.slots();
        let mut idx: usize = 0;
        while idx < n
            invariant
                self.wf(),
                n == self@.piles.len(),
                fnd_len == self@.conf.fnd_slots(),
                idx <= n,
                forall|k: int|
                    0 <= k < loc@.len() ==> self@.is_hint(#[trigger] loc@[k]) && loc@[k].col < idx,
                forall|j: int, k: int|
                    0 <= j < k < loc@.len() ==> GameView::hint_before(
                        #[trigger] loc@[j],
                        #[trigger] loc@[k],
                    ),
                forall|p: Pos| #[trigger] self@.is_hint(p) && p.col < idx ==> loc@.contains(p),
            decreases n - idx,
        {
            let l = self.piles[idx].cards.len();
            if idx >= fnd_len && l != 0 {
                let ordered = self.ordered_count(idx);
                let mut cidx: usize = 0;
                while cidx < l
                    invariant
                        self.wf(),
                        n == self@.piles.len(),
                        fnd_len == self@.conf.fnd_slots(),
                        fnd_len <= idx < n,
                        l == self@.piles[idx as int].cards.len(),
                        ordered == self@.ordered_count(idx as int),
                        cidx <= l,
                        forall|k: int|
                            0 <= k < loc@.len() ==> self@.is_hint(#[trigger] loc@[k]) && (loc@[k].col
                                < idx || (loc@[k].col == idx && loc@[k].row + cidx >= l)),
                        forall|j: int, k: int|
                            0 <= j < k < loc@.len() ==> GameView::hint_before(
                                #[trigger] loc@[j],
                                #[trigger] loc@[k],
                            ),
                        forall|p: Pos|
                            #[trigger] self@.is_hint(p) && (p.col < idx || (p.col == idx && p.row
                                + cidx >= l)) ==> loc@.contains(p),
                    decreases l - cidx,
                {
                    let cpos = Pos { col: idx, row: l - cidx - 1 };
                    let ghost prev = loc@;
                    let mut hint = false;
                    if self.may_take(cpos, ordered) {
                        let where_to = self.dest_list_card(cpos);
                        if !where_to.is_empty() {
                            assert(self@.is_dest(cpos, where_to@[0].col as int));
                            hint = true;
                            loc.push(cpos);
                        } else {
                            assert forall|d: int| 0 <= d < n implies !#[trigger] self@.is_dest(
                                cpos,
                                d,
                            ) by {
                                if self@.is_dest(cpos, d) {
                                    assert(where_to@.contains(Pos { col: d as usize, row: 0 }));
                                }
                            }
                        }
                    }
                    proof {
                        assert(hint == self@.is_hint(cpos));
                        assert forall|p: Pos|
                            #[trigger] self@.is_hint(p) && (p.col < idx || (p.col == idx && p.row
                                + cidx + 1 >= l)) implies loc@.contains(p) by {
                            if p == cpos {
                                assert(loc@[prev.len() as int] == cpos);
                            } else {
                                assert(prev.contains(p));
                                let k = choose|k: int| 0 <= k < prev.len() && prev[k] == p;
                                assert(loc@[k] == p);
                            }
                        }
                    }
                    cidx += 1;
                }
            }
            idx += 1;
        }
        loc
    }
}

} // verus!
