//! The history of a game: remembering states and going back to them.
use crate::card::Card;
use crate::model::{restacked, stacks, Snapshot};
use super::{Game, Undo};
use super::piles::{restack, same_sizes};
use vstd::prelude::*;

verus! {

impl<'a> Game<'a> {
    /// Whether a remembered state is there to go back to.
    pub fn has_undo(&self) -> (r: bool)
        ensures
            r == (self@.undo.len() > 0),
    {
        !self.undo.is_empty()
    }

    /// The number of remembered states.
    pub fn undo_count(&self) -> (r: usize)
        ensures
            r == self@.undo.len(),
    {
        self.undo.len()
    }

    /// Forgets every remembered state.
    pub fn clear_undo(&mut self)
        requires
            old(self).wf(),
        ensures
            final(self).wf(),
            final(self)@ == old(self)@.forgetful(),
    {
        self.undo.clear();
        proof {
            old(self)@.lemma_history();
            assert(self@.undo =~= Seq::<Snapshot>::empty());
        }
    }

    /// Remembers the state of the game: the cards of every pile, the cursor and
    /// the redeals left.
    pub fn take_snapshot(&mut self)
        requires
            old(self).wf(),
        ensures
            final(self).wf(),
            final(self)@ == old(self)@.remembered(),
    {
        let mut kept: Vec<Vec<Card>> = Vec::new();
        let mut i: usize = 0;
        while i < self.piles.len()
            invariant
                i <= self.piles@.len(),
                kept@.len() == i,
                forall|j: int| 0 <= j < i ==> (#[trigger] kept@[j])@ == self.piles@[j].cards@,
            decreases self.piles@.len() - i,
        {
            let copy = self.piles[i].cards.clone();
            assert(copy@ =~= self.piles@[i as int].cards@);
            kept.push(copy);
            i += 1;
        }
        let undo = Undo { redeals: self.redeals, piles: kept, selected: self.selected };
        assert(undo@.piles =~= stacks(self@.piles));
        self.undo.push(undo);
        proof {
            old(self)@.lemma_history();
            assert(self@.undo =~= old(self)@.remembered().undo);
        }
    }

    /// Drops the latest remembered state if the one before it looks the same:
    /// as many redeals left, and as many cards in each pile.
    pub fn squash_snapshots(&mut self)
        requires
            old(self).wf(),
        ensures
            final(self).wf(),
            final(self)@ == old(self)@.squashed(),
    {
        let l = self.undo.len();
        if l < 2 {
            return;
        }
        if self.undo[l - 1].redeals != self.undo[l - 2].redeals {
            return;
        }
        assert(self@.undo[l - 1].fits(self@) && self@.undo[l - 2].fits(self@));
        if !same_sizes(&self.undo[l - 1].piles, &self.undo[l - 2].piles) {
            proof {
                let a = self.undo@[l - 1].piles@;
                let b = self.undo@[l - 2].piles@;
                let j = choose|j: int| 0 <= j < a.len() && (#[trigger] a[j])@.len() != b[j]@.len();
                assert(self@.undo[l - 1].piles[j].len() != self@.undo[l - 2].piles[j].len());
            }
            return;
        }
        self.undo.pop();
        proof {
            old(self)@.lemma_history();
            assert(self@.undo =~= old(self)@.undo.drop_last());
        }
    }

    /// Goes back to the latest remembered state, which is then forgotten: the
    /// cards of every pile, the cursor and the redeals left are as they were.
    /// Without a remembered state nothing happens.
    pub fn undo(&mut self)
        requires
            old(self).wf(),
        ensures
            final(self).wf(),
            final(self)@ == old(self)@.undone(),
    {
        if self.undo.is_empty() {
            return;
        }
        let ghost g = self@;
        let last = self.undo.pop().unwrap();
        let ghost snap = last@;
        assert(snap == g.undo.last());
        assert(snap.fits(g));
        self.redeals = last.redeals;
        self.selected = last.selected;
        restack(&mut self.piles, last.piles);
        proof {
            g.lemma_history();
            assert(self@.piles =~= restacked(g.piles, snap.piles));
            assert(self@.undo =~= g.undo.drop_last());
        }
    }
}

} // verus!
