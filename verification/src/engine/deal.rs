//! Dealing from the deck pile to the waste or to the columns.
use crate::bag::bag_total;
use crate::model::{
    all_regular, card_total, lemma_open_cols_grow, lemma_poured, lemma_poured_one, open_cols_before,
    poured, slot_rules, stacks, without_top, GameView,
};
use crate::tidy::{lemma_tidy_poured, lemma_tidy_without_top, tidy};
use super::Game;
use super::piles::pour;
use vstd::prelude::*;

verus! {

impl<'a> Game<'a> {
    /// Whether dealing can do anything: the deck pile holds a card or, where
    /// there is a waste, a redeal is left.
    pub fn can_deal(&self) -> (r: bool)
        requires
            self.wf(),
        ensures
            r == self@.can_deal(),
    {
        let n = self.slots();
        if self.pile_count() == 0 {
            return false;
        }
        let idx = self.fnd_count() + self.col_count() + self.temp_count();
        if self.pile_count() == 1 {
            return !self.piles[idx].cards.is_empty();
        }
        !self.piles[idx].cards.is_empty() || self.redeals != 0
    }

    /// Deals one card from the deck pile to each column that takes cards, as far
    /// as the deck pile lasts.
    fn deal_to_cols(&mut self)
        requires
            old(self).wf(),
            old(self)@.conf.pile is Some,
        ensures
            final(self).wf(),
            final(self)@ == (GameView { piles: old(self)@.dealt_to_cols(), ..old(self)@ }),
    {
        let n = self.slots();
        let col_first = self.fnd_count();
        let col_total = self.col_count();
        let idx = col_first + col_total + self.temp_count();
        let ghost g = self@;
        let ghost deck = g.piles[idx as int].cards;
        let ghost conf = g.conf;
        let mut c: usize = 0;
        let mut going = true;
        while going && c < col_total
            invariant
                g == old(self)@,
                g.wf(),
                conf == g.conf,
                deck == g.piles[idx as int].cards,
                n == g.piles.len(),
                col_first == g.first_col(),
                col_total == g.conf.col_slots(),
                idx == g.first_pile(),
                idx < n,
                c <= col_total,
                self@ == (GameView { piles: self@.piles, ..g }),
                self@.piles.len() == n,
                forall|j: int| 0 <= j < n ==> (#[trigger] self@.piles[j]).conf == g.piles[j].conf,
                forall|j: int| 0 <= j < n ==> all_regular((#[trigger] self@.piles[j]).cards),
                forall|j: int|
                    0 <= j < n ==> tidy(g.piles[j].conf, (#[trigger] self@.piles[j]).cards),
                card_total(stacks(self@.piles)) == card_total(stacks(g.piles)),
                bag_total(stacks(self@.piles)) == bag_total(stacks(g.piles)),
                open_cols_before(conf, c as int) <= deck.len(),
                !going ==> open_cols_before(conf, c as int) == deck.len(),
                self@.piles[idx as int].cards == without_top(
                    deck,
                    open_cols_before(conf, c as int) as int,
                ),
                forall|j: int|
                    0 <= j < n && j != idx && !(col_first <= j < col_first + c && !g.piles[j].conf.take_only)
                        ==> #[trigger] self@.piles[j] == g.piles[j],
                forall|j: int|
                    col_first <= j < col_first + c && !g.piles[j].conf.take_only ==> (
                    #[trigger] self@.piles[j]).cards == g.piles[j].cards.push(
                        deck[deck.len() - 1 - open_cols_before(conf, j - col_first)].turned(true),
                    ) && open_cols_before(conf, j - col_first) < open_cols_before(conf, c as int),
            decreases col_total - c + (if going { 1int } else { 0int }),
        {
            let ghost before = self@.piles;
            if self.piles[c + col_first].conf.take_only {
                c += 1;
            } else if self.piles[idx].cards.is_empty() {
                going = false;
            } else {
                pour(&mut self.piles, idx, c + col_first, 1, true);
                proof {
                    lemma_poured(before, idx as int, c + col_first, 1, true);
                    lemma_poured_one(before[idx as int].cards, before[c + col_first].cards, true);
                    assert(g.piles[c + col_first].conf == slot_rules(g.conf, c + col_first));
                    assert(tidy(g.piles[idx as int].conf, before[idx as int].cards));
                    assert(tidy(g.piles[c + col_first].conf, before[c + col_first].cards));
                    lemma_tidy_without_top(g.piles[idx as int].conf, before[idx as int].cards, 1);
                    lemma_tidy_poured(
                        g.piles[c + col_first].conf,
                        before[idx as int].cards,
                        before[c + col_first].cards,
                        1,
                        true,
                    );
                    assert forall|j: int| 0 <= j < n implies tidy(
                        g.piles[j].conf,
                        (#[trigger] self@.piles[j]).cards,
                    ) by {
                        assert(tidy(g.piles[j].conf, before[j].cards));
                    }
                    assert(self@.piles[idx as int].cards =~= without_top(
                        deck,
                        open_cols_before(conf, c + 1) as int,
                    ));
                    assert forall|j: int|
                        col_first <= j < col_first + c + 1
                            && !g.piles[j].conf.take_only implies (#[trigger] self@.piles[j]).cards
                        == g.piles[j].cards.push(
                        deck[deck.len() - 1 - open_cols_before(conf, j - col_first)].turned(true),
                    ) && open_cols_before(conf, j - col_first) < open_cols_before(conf, c + 1) by {
                        if j < col_first + c {
                            assert(self@.piles[j] == before[j]);
                        }
                    }
                }
                c += 1;
            }
        }
        proof {
            let m = open_cols_before(conf, c as int);
            lemma_open_cols_grow(conf, c as int, col_total as int);
            assert forall|j: int| 0 <= j < n implies #[trigger] self@.piles[j] == g.dealt_to_cols()[j] by {
                if g.is_col(j) {
                    if j < col_first + c {
                    } else {
                        lemma_open_cols_grow(conf, c as int, j - col_first);
                    }
                }
            }
            assert(self@.piles =~= g.dealt_to_cols());
            g.lemma_restack(self@.piles);
        }
    }

    /// Turns the waste back into the deck pile, face-down, which costs a redeal.
    fn recycle(&mut self)
        requires
            old(self).wf(),
            old(self)@.conf.pile_slots() == 2,
        ensures
            final(self).wf(),
            final(self)@ == (GameView {
                piles: old(self)@.recycled(),
                redeals: old(self)@.redeals_after_recycle(),
                ..old(self)@
            }),
    {
        let n = self.slots();
        let idx = self.fnd_count() + self.col_count() + self.temp_count();
        let ghost g = self@;
        if self.redeals > i8::MIN {
            self.redeals -= 1;
        }
        let all = self.piles[idx + 1].cards.len();
        pour(&mut self.piles, idx + 1, idx, all, false);
        proof {
            lemma_poured(g.piles, idx + 1, idx as int, all as int, false);
            let deck_conf = g.piles[idx as int].conf;
            let waste_conf = g.piles[idx + 1].conf;
            assert(deck_conf == slot_rules(g.conf, idx as int));
            assert(waste_conf == slot_rules(g.conf, idx + 1));
            assert(tidy(deck_conf, g.piles[idx as int].cards));
            assert(tidy(waste_conf, g.piles[idx + 1].cards));
            lemma_tidy_poured(
                deck_conf,
                g.piles[idx + 1].cards,
                g.piles[idx as int].cards,
                all as int,
                false,
            );
            lemma_tidy_without_top(waste_conf, g.piles[idx + 1].cards, all as int);
            assert forall|j: int| 0 <= j < n implies tidy(
                (#[trigger] self@.piles[j]).conf,
                self@.piles[j].cards,
            ) by {
                assert(tidy(g.piles[j].conf, g.piles[j].cards));
            }
            g.lemma_restack(self@.piles);
            (GameView { piles: self@.piles, ..g }).lemma_redeals(self@.redeals);
        }
    }

    /// Puts the cards of one deal, or those that are left, from the deck pile
    /// on the waste, face-up.
    fn deal_out(&mut self)
        requires
            old(self).wf(),
            old(self)@.conf.pile_slots() == 2,
        ensures
            final(self).wf(),
            final(self)@ == (GameView {
                piles: poured(
                    old(self)@.piles,
                    old(self)@.first_pile(),
                    old(self)@.first_pile() + 1,
                    if old(self)@.piles[old(self)@.first_pile()].cards.len() < old(
                        self,
                    )@.conf.dealt_at_once() {
                        old(self)@.piles[old(self)@.first_pile()].cards.len() as int
                    } else {
                        old(self)@.conf.dealt_at_once() as int
                    },
                    true,
                ),
                ..old(self)@
            }),
    {
        let n = self.slots();
        let idx = self.fnd_count() + self.col_count() + self.temp_count();
        let ghost base = self@;
        let have = self.piles[idx].cards.len();
        let by = self.conf.deal_by() as usize;
        let cnt = if have < by {
            have
        } else {
            by
        };
        pour(&mut self.piles, idx, idx + 1, cnt, true);
        proof {
            lemma_poured(base.piles, idx as int, idx + 1, cnt as int, true);
            let deck_conf = base.piles[idx as int].conf;
            let waste_conf = base.piles[idx + 1].conf;
            assert(deck_conf == slot_rules(base.conf, idx as int));
            assert(waste_conf == slot_rules(base.conf, idx + 1));
            assert(tidy(deck_conf, base.piles[idx as int].cards));
            assert(tidy(waste_conf, base.piles[idx + 1].cards));
            lemma_tidy_poured(
                waste_conf,
                base.piles[idx as int].cards,
                base.piles[idx + 1].cards,
                cnt as int,
                true,
            );
            lemma_tidy_without_top(deck_conf, base.piles[idx as int].cards, cnt as int);
            assert forall|j: int| 0 <= j < n implies tidy(
                (#[trigger] self@.piles[j]).conf,
                self@.piles[j].cards,
            ) by {
                assert(tidy(base.piles[j].conf, base.piles[j].cards));
            }
            base.lemma_restack(self@.piles);
        }
    }

    /// Deals. Without a deck pile nothing is dealt. Where the rules deal to the
    /// columns, each column that takes cards gets one card from the deck pile,
    /// face-up, as far as the deck pile lasts, and the deal is always reported.
    /// Otherwise nothing is dealt from an empty deck pile when no redeal is
    /// left; an empty deck pile is first filled from the waste, turned
    /// face-down, which costs a redeal; then the cards that are dealt at a time
    /// go from the deck pile to the waste, face-up. Returns whether there was a
    /// deal.
    pub fn deal(&mut self) -> (r: bool)
        requires
            old(self).wf(),
        ensures
            final(self).wf(),
            r == old(self)@.deals(),
            final(self)@ == old(self)@.dealt(),
    {
        let n = self.slots();
        if self.pile_count() == 0 {
            return false;
        }
        let idx = self.fnd_count() + self.col_count() + self.temp_count();
        if let Some(ref pconf) = self.conf.pile {
            if pconf.pile_to_cols {
                self.deal_to_cols();
                return true;
            }
        }
        if self.piles[idx].cards.is_empty() && self.redeals == 0 {
            return false;
        }
        if self.piles[idx].cards.is_empty() && !self.piles[idx + 1].cards.is_empty() {
            self.recycle();
        }
        if self.piles[idx].cards.is_empty() {
            return false;
        }
        self.deal_out();
        true
    }
}

} // verus!
