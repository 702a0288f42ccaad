//! The cursor: where it may rest, and where it goes.
use crate::gconf::Playable;
use crate::model::GameView;
use super::{Direction, Game, Pos};
use super::piles::first_up;
use vstd::prelude::*;

verus! {

impl<'a> Game<'a> {
    /// Whether the cursor may rest on a place; without a place, on the place
    /// where it is.
    pub fn is_selectable(&self, pos: Option<Pos>) -> (r: bool)
        requires
            self.wf(),
        ensures
            r == self@.selectable(
                match pos {
                    Some(p) => p,
                    None => self@.selected,
                },
            ),
    {
        let pos = if let Some(p) = pos {
            p
        } else {
            self.selected
        };
        if pos.col >= self.piles.len() {
            false
        } else {
            if self.conf.playable == Playable::Top && pos.row != 0 {
                return false;
            }
            if self.conf.playable == Playable::Ordered && pos.row >= self.ordered_count(pos.col) {
                return false;
            }
            if !self.piles[pos.col].conf.selectable {
                return false;
            }
            let l = self.piles[pos.col].cards.len();
            if l == 0 || pos.row >= l {
                return false;
            }
            self.piles[pos.col].cards[l - 1 - pos.row].is_up()
        }
    }

    /// Puts the cursor on a place if it may rest there, and leaves it otherwise.
    pub fn select(&mut self, pos: Pos)
        requires
            old(self).wf(),
        ensures
            final(self).wf(),
            old(self)@.selectable(pos) ==> final(self)@ == (GameView { selected: pos, ..old(self)@ }),
            !old(self)@.selectable(pos) ==> final(self)@ == old(self)@,
    {
        if !self.is_selectable(Some(pos)) {
            return;
        }
        self.selected = pos;
    }

    /// Whether a place, or without one the cursor, is on the deck pile.
    pub fn is_deck_clicked(&self, pos: Option<Pos>) -> (r: bool)
        requires
            self.wf(),
        ensures
            r == (self@.conf.pile is Some && self@.first_pile() == (match pos {
                Some(p) => p,
                None => self@.selected,
            }).col),
    {
        let pos = if let Some(p) = pos {
            p
        } else {
            self.selected
        };
        let _ = self.slots();
        match self.first_pile() {
            Some(n) => pos.col == n,
            None => false,
        }
    }

    /// The row that the cursor takes when it goes one card deeper into a pile
    /// from row `curr`.
    fn do_up_for_col(&self, col_idx: usize, curr: usize) -> (r: usize)
        requires
            col_idx < self@.piles.len(),
        ensures
            r == self@.row_up(col_idx as int, curr),
    {
        if self.piles[col_idx].cards.len() < 2 {
            return curr;
        }
        let mx = first_up(&self.piles[col_idx].cards);
        if curr >= mx {
            curr
        } else {
            curr + 1
        }
    }

    /// The place that the cursor takes when it goes to the next pile of a group.
    fn move_next_pile_of_type(&self, first: usize, count: usize) -> (r: Pos)
        requires
            self.wf(),
            first < self@.piles.len(),
            first + count <= self@.piles.len(),
        ensures
            r == self@.next_in_group(first as int, count as int),
            r.col < self@.piles.len(),
    {
        let n = self.slots();
        if self.selected.col < first || self.selected.col >= first + count {
            return Pos { col: first, row: 0 };
        }
        if self.selected.col == first + count - 1 {
            Pos { col: first, row: 0 }
        } else {
            Pos { col: self.selected.col + 1, row: self.selected.row }
        }
    }

    /// The place of the cursor after `Down`.
    fn step_down(&self) -> (r: Pos)
        requires
            self.wf(),
        ensures
            r == self@.target_down(),
            r.col < self@.piles.len(),
    {
        let n = self.slots();
        let cur = self.selected;
        let col_first = self.fnd_count();
        let col_total = self.col_count();
        if cur.row == 0 {
            return cur;
        }
        if self.piles[cur.col].conf.take_only {
            return cur;
        }
        if cur.col < col_first || cur.col >= col_first + col_total {
            return cur;
        }
        Pos { col: cur.col, row: cur.row - 1 }
    }

    /// The place of the cursor after `Up`.
    fn step_up(&self) -> (r: Pos)
        requires
            self.wf(),
        ensures
            r == self@.target_up(),
            r.col < self@.piles.len(),
    {
        let n = self.slots();
        let cur = self.selected;
        let col_first = self.fnd_count();
        let col_total = self.col_count();
        if self.piles[cur.col].conf.take_only {
            return cur;
        }
        if cur.col < col_first || cur.col >= col_first + col_total {
            return cur;
        }
        let new_row = self.do_up_for_col(cur.col, cur.row);
        let new_pos = Pos { col: cur.col, row: new_row };
        if new_row > cur.row && !self.is_selectable(Some(new_pos)) {
            return cur;
        }
        new_pos
    }

    /// The place of the cursor after `ColUp(num)`.
    fn step_col_up(&self, num: usize) -> (r: Pos)
        requires
            self.wf(),
        ensures
            r == self@.target_col_up(num),
            r.col < self@.piles.len(),
    {
        let n = self.slots();
        let cur = self.selected;
        let col_first = self.fnd_count();
        let col_total = self.col_count();
        if num >= col_total {
            return cur;
        }
        let new_col = col_first + num;
        if cur.col != new_col || self.piles[new_col].cards.len() < 2 {
            return Pos { col: new_col, row: 0 };
        }
        if self.piles[cur.col].conf.take_only {
            return cur;
        }
        let new_row = self.do_up_for_col(new_col, cur.row);
        let new_pos = Pos { col: cur.col, row: new_row };
        if new_row > cur.row && !self.is_selectable(Some(new_pos)) {
            return cur;
        }
        if cur.row != new_row {
            new_pos
        } else {
            Pos { col: cur.col, row: 0 }
        }
    }

    /// The place of the cursor after `ColDown(num)`.
    fn step_col_down(&self, num: usize) -> (r: Pos)
        requires
            self.wf(),
        ensures
            r == self@.target_col_down(num),
            r.col < self@.piles.len(),
    {
        let n = self.slots();
        let cur = self.selected;
        let col_first = self.fnd_count();
        let col_total = self.col_count();
        if num >= col_total {
            return cur;
        }
        let new_col = col_first + num;
        if cur.col != new_col || self.piles[new_col].cards.len() < 2 {
            return Pos { col: new_col, row: 0 };
        }
        if self.piles[cur.col].conf.take_only {
            return cur;
        }
        if cur.row == 0 {
            let mx = first_up(&self.piles[new_col].cards);
            let new_pos = Pos { col: cur.col, row: mx };
            if !self.is_selectable(Some(new_pos)) {
                return cur;
            }
            new_pos
        } else {
            Pos { col: new_col, row: cur.row - 1 }
        }
    }

    /// The place that the cursor takes when it is asked to go in a direction.
    fn target(&self, dir: Direction) -> (r: Pos)
        requires
            self.wf(),
        ensures
            r == self@.cursor_target(dir),
            r.col < self@.piles.len(),
    {
        let n = self.slots();
        let cur = self.selected;
        match dir {
            Direction::Right => {
                if cur.col == n - 1 {
                    Pos { col: 0, row: 0 }
                } else {
                    Pos { col: cur.col + 1, row: 0 }
                }
            },
            Direction::Left => {
                if cur.col == 0 {
                    Pos { col: n - 1, row: 0 }
                } else {
                    Pos { col: cur.col - 1, row: 0 }
                }
            },
            Direction::Down => self.step_down(),
            Direction::Up => self.step_up(),
            Direction::ColUp(num) => self.step_col_up(num),
            Direction::ColDown(num) => self.step_col_down(num),
            Direction::Waste => {
                let count = self.fnd_count();
                self.move_next_pile_of_type(0, count)
            },
            Direction::Temp => {
                let count = self.temp_count();
                if count == 0 {
                    return cur;
                }
                self.move_next_pile_of_type(self.fnd_count() + self.col_count(), count)
            },
            Direction::Pile => {
                let count = self.pile_count();
                if count == 0 {
                    return cur;
                }
                self.move_next_pile_of_type(
                    self.fnd_count() + self.col_count() + self.temp_count(),
                    count,
                )
            },
        }
    }

    /// Moves the cursor. `Left` and `Right` go round all piles, to the top card.
    /// `Up` and `Down` go one card deeper or higher within a column that takes
    /// cards, `Up` only onto a card that can be selected. `ColUp` and `ColDown`
    /// go to the top of a column by its number and, when the cursor is there
    /// already, one card deeper or higher, from the deepest card back to the top
    /// and from the top to the deepest face-up card. `Waste`, `Temp` and `Pile`
    /// go to the next foundation, free cell or deck and waste pile, and from the
    /// last one to the first. Returns whether the cursor is at another place than
    /// before.
    pub fn move_selection(&mut self, dir: Direction) -> (r: bool)
        requires
            old(self).wf(),
        ensures
            final(self).wf(),
            final(self)@ == (GameView { selected: old(self)@.cursor_target(dir), ..old(self)@ }),
            r == (old(self)@.cursor_target(dir) != old(self)@.selected),
    {
        let to = self.target(dir);
        let changed = to != self.selected;
        self.selected = to;
        proof {
            old(self)@.lemma_cursor(to);
        }
        changed
    }

    /// Whether a place other than the cursor's holds a face-up card that the
    /// rules of its pile let be picked. The row of the place is counted from the
    /// bottom of the pile here. The cursor stays where it is.
    pub fn select_loc(&mut self, loc: Pos) -> (r: bool)
        requires
            old(self).wf(),
        ensures
            final(self).wf(),
            final(self)@ == old(self)@,
            r == old(self)@.can_pick(loc),
    {
        if loc == self.selected {
            return false;
        }
        if loc.col >= self.piles.len() {
            return false;
        }
        let cfg = &self.piles[loc.col].conf;
        if cfg.playable == Playable::Top && loc.row != 0 {
            return false;
        }
        if loc.row >= self.piles[loc.col].cards.len() {
            return false;
        }
        let crd = &self.piles[loc.col].cards[loc.row];
        crd.up
    }
}

} // verus!
