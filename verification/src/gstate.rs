//! What a player has marked, and the hints that are shown.
use crate::engine::Pos;
use vstd::prelude::*;

verus! {

/// The card that is marked for a move, and the places that are hinted at.
pub struct GameState {
    marked: Pos,
    hints: Vec<Pos>,
}

impl GameState {
    /// The place that is marked; "no location" where none is.
    pub closed spec fn mark_at(&self) -> Pos {
        self.marked
    }

    /// The places that are hinted at.
    pub closed spec fn hinted(&self) -> Seq<Pos> {
        self.hints@
    }

    /// Nothing marked and nothing hinted at.
    pub fn new() -> (r: GameState)
        ensures
            r.mark_at() == Pos::nowhere(),
            r.hinted() == Seq::<Pos>::empty(),
    {
        GameState { marked: Pos::new(), hints: Vec::new() }
    }

    /// Marks a place, or takes the mark off it if it is the marked one.
    pub fn mark(&mut self, p: Pos)
        ensures
            final(self).mark_at() == (if p == old(self).mark_at() {
                Pos::nowhere()
            } else {
                p
            }),
            final(self).hinted() == old(self).hinted(),
    {
        if p == self.marked {
            self.marked = Pos::new();
        } else {
            self.marked = p;
        }
    }

    /// Takes the mark off.
    pub fn clear_mark(&mut self)
        ensures
            final(self).mark_at() == Pos::nowhere(),
            final(self).hinted() == old(self).hinted(),
    {
        self.marked = Pos::new();
    }

    /// The place that is marked; "no location" where none is.
    pub fn marked(&self) -> (r: Pos)
        ensures
            r == self.mark_at(),
    {
        self.marked
    }

    /// Hints at the given places, and no longer at any other.
    pub fn hint(&mut self, hints: &[Pos])
        ensures
            final(self).hinted() == hints@,
            final(self).mark_at() == old(self).mark_at(),
    {
        let mut kept: Vec<Pos> = Vec::new();
        let mut i: usize = 0;
        while i < hints.len()
            invariant
                i <= hints@.len(),
                kept@ == hints@.take(i as int),
            decreases hints@.len() - i,
        {
            kept.push(hints[i]);
            assert(kept@ =~= hints@.take(i + 1));
            i += 1;
        }
        assert(hints@.take(hints@.len() as int) =~= hints@);
        self.hints = kept;
    }

    /// The places that are hinted at.
    pub fn hints(&self) -> (r: &[Pos])
        ensures
            r@ == self.hinted(),
    {
        self.hints.as_slice()
    }

    /// Hints at nothing.
    pub fn clear_hints(&mut self)
        ensures
            final(self).hinted() == Seq::<Pos>::empty(),
            final(self).mark_at() == old(self).mark_at(),
    {
        self.hints.clear();
    }
}

} // verus!
