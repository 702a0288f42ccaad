//! The start of a game: the piles are laid out and the deck is dealt to them.
use crate::bag::{
    bag, bag_total, lemma_bag_dealt, lemma_bag_of_permutation, lemma_bag_total_of_empty,
};
use crate::card::{fresh_cards, is_full_deck, lemma_full_deck_cards, Card, Deck, Face};
use crate::err::SolError;
use crate::gconf::Conf;
use crate::model::{
    all_regular, bare_piles, card_total, cards_before, cols_dealt, cols_need, dealt_stack,
    lemma_cards_before_grow, lemma_poured, lemma_total_of_empty, lemma_with_cards, slot_rules,
    stacks, start_cards, start_fault, start_piles, start_up, started, views, with_cards,
    without_top, GameView, Snapshot, StartFault,
};
use crate::tidy::{all_lie, lemma_tidy_dealt, lies_down, tidy};
use super::{Game, Pile, Pos, SlotConf};
use super::piles::{lemma_one_changed, pour};
use vstd::multiset::Multiset;
use vstd::prelude::*;
use vstd::string::StringExecFns;

verus! {

/// Deals `count` cards from the deck to a new stack, the last one on top, and
/// turns the top `up` of them face-up. A deck that runs out is an error.
pub(super) fn gen_list(deck: &mut Deck, count: usize, up: usize) -> (r: Result<Vec<Card>, SolError>)
    ensures
        match r {
            Ok(col) => old(deck)@.len() >= count && col@ == dealt_stack(
                old(deck)@,
                count as int,
                up as int,
            ) && final(deck)@ == old(deck)@.skip(count as int),
            Err(e) => old(deck)@.len() < count && (e matches SolError::InsufficientFor(t) && t@
                == "play area"@),
        },
{
    let mut col: Vec<Card> = Vec::new();
    let mut i: usize = 0;
    assert(deck@ =~= old(deck)@.skip(0));
    while i < count
        invariant
            i <= count,
            i <= old(deck)@.len(),
            deck@ == old(deck)@.skip(i as int),
            col@.len() == i,
            forall|j: int| 0 <= j < i ==> #[trigger] col@[j] == dealt_stack(old(deck)@, count as int, up as int)[j],
        decreases count - i,
    {
        match deck.deal_card() {
            None => {
                return Err(SolError::InsufficientFor(String::from_str("play area")));
            },
            Some(mut crd) => {
                if count - i <= up {
                    crd.up = true;
                }
                col.push(crd);
                assert(deck@ =~= old(deck)@.skip(i + 1));
            },
        }
        i += 1;
    }
    assert(col@ =~= dealt_stack(old(deck)@, count as int, up as int));
    Ok(col)
}

/// The piles of the rules, in their order and with their behaviour, and no
/// card in them.
pub(super) fn init_piles(conf: &Conf) -> (piles: Vec<Pile>)
    ensures
        views(piles@) == bare_piles(*conf),
{
    let mut piles: Vec<Pile> = Vec::new();
    let fnd_total = conf.fnd.len();
    let mut idx: usize = 0;
    while idx < fnd_total
        invariant
            fnd_total == conf.fnd@.len(),
            idx <= fnd_total,
            piles@.len() == idx,
            forall|j: int|
                0 <= j < piles@.len() ==> (#[trigger] piles@[j]).conf == slot_rules(*conf, j)
                    && piles@[j].cards@.len() == 0,
        decreases fnd_total - idx,
    {
        let mut sc = SlotConf::new_for_temp();
        let wc = &conf.fnd[idx];
        sc.start_face = wc.first;
        sc.start_suit = wc.suit;
        sc.suit_order = wc.sorder;
        sc.face_order = wc.forder;
        piles.push(Pile { conf: sc, cards: Vec::new() });
        idx += 1;
    }
    let col_total = conf.cols.len();
    let mut i: usize = 0;
    while i < col_total
        invariant
            fnd_total == conf.fnd@.len(),
            col_total == conf.cols@.len(),
            i <= col_total,
            piles@.len() == fnd_total + i,
            forall|j: int|
                0 <= j < piles@.len() ==> (#[trigger] piles@[j]).conf == slot_rules(*conf, j)
                    && piles@[j].cards@.len() == 0,
        decreases col_total - i,
    {
        let mut sc = SlotConf::new_for_col();
        sc.playable = conf.playable;
        sc.face_order = conf.col_forder;
        sc.suit_order = conf.col_sorder;
        sc.refill = conf.col_refill != Face::Empty && conf.col_refill != Face::Unavail;
        sc.start_face = conf.col_refill;
        sc.take_only = sc.take_only || conf.cols[i].take_only;
        piles.push(Pile { conf: sc, cards: Vec::new() });
        i += 1;
    }
    let temp_total: usize = match conf.temp {
        None => 0,
        Some(ref cfg) => cfg.count as usize,
    };
    let mut t: usize = 0;
    while t < temp_total
        invariant
            fnd_total == conf.fnd@.len(),
            col_total == conf.cols@.len(),
            temp_total == conf.temp_slots(),
            t <= temp_total,
            piles@.len() == fnd_total + col_total + t,
            forall|j: int|
                0 <= j < piles@.len() ==> (#[trigger] piles@[j]).conf == slot_rules(*conf, j)
                    && piles@[j].cards@.len() == 0,
        decreases temp_total - t,
    {
        let mut sc = SlotConf::new_for_temp();
        sc.take_only = false;
        sc.refill = true;
        piles.push(Pile { conf: sc, cards: Vec::new() });
        t += 1;
    }
    let pile_total: usize = match conf.pile {
        None => 0,
        Some(ref pconf) => if pconf.pile_to_cols {
            1
        } else {
            2
        },
    };
    let mut p: usize = 0;
    while p < pile_total
        invariant
            fnd_total == conf.fnd@.len(),
            col_total == conf.cols@.len(),
            temp_total == conf.temp_slots(),
            pile_total == conf.pile_slots(),
            p <= pile_total,
            piles@.len() == fnd_total + col_total + temp_total + p,
            forall|j: int|
                0 <= j < piles@.len() ==> (#[trigger] piles@[j]).conf == slot_rules(*conf, j)
                    && piles@[j].cards@.len() == 0,
        decreases pile_total - p,
    {
        let mut sc = SlotConf::new_for_pile();
        sc.selectable = p == 1;
        sc.all_up = p == 1;
        piles.push(Pile { conf: sc, cards: Vec::new() });
        p += 1;
    }
    proof {
        assert forall|j: int| 0 <= j < piles@.len() implies #[trigger] views(piles@)[j]
            == bare_piles(*conf)[j] by {
            assert(piles@[j].cards@ =~= Seq::<Card>::empty());
        }
        assert(views(piles@) =~= bare_piles(*conf));
    }
    piles
}

/// Deals the columns from the deck, one after another.
pub(super) fn deal_columns(piles: &mut Vec<Pile>, deck: &mut Deck, conf: &Conf) -> (r: Result<(), SolError>)
    requires
        views(old(piles)@) == bare_piles(*conf),
    ensures
        final(piles)@.len() == old(piles)@.len(),
        match r {
            Ok(_) => cols_need(*conf) <= old(deck)@.len() && final(deck)@ == old(deck)@.skip(
                cols_need(*conf) as int,
            ) && views(final(piles)@) == cols_dealt(*conf, old(deck)@) && card_total(
                stacks(views(final(piles)@)),
            ) == cols_need(*conf) && bag_total(stacks(views(final(piles)@))).add(
                bag(final(deck)@),
            ) == bag(old(deck)@),
            Err(e) => cols_need(*conf) > old(deck)@.len() && (e matches SolError::InsufficientFor(
                t,
            ) && t@ == "play area"@),
        },
{
    let first = conf.fnd.len();
    let col_total = conf.cols.len();
    let total = piles.len();
    let ghost deck0 = deck@;
    let mut n: usize = 0;
    proof {
        assert(deck@ =~= deck0.skip(0));
        assert(views(piles@).len() == conf.slot_total());
        assert forall|j: int| 0 <= j < total implies (#[trigger] piles@[j]).conf == slot_rules(
            *conf,
            j,
        ) && piles@[j].cards@.len() == 0 by {
            assert(views(piles@)[j] == piles@[j]@);
            assert(bare_piles(*conf)[j].conf == slot_rules(*conf, j));
            assert(bare_piles(*conf)[j].cards.len() == 0);
        }
        assert forall|j: int| 0 <= j < total implies (#[trigger] stacks(views(piles@))[j]).len()
            == 0 by {
            assert(piles@[j].cards@.len() == 0);
        }
        lemma_total_of_empty(stacks(views(piles@)));
        lemma_bag_total_of_empty(stacks(views(piles@)));
        assert(bag_total(stacks(views(piles@))).add(bag(deck@)) =~= bag(deck0));
    }
    while n < col_total
        invariant
            first == conf.fnd@.len(),
            col_total == conf.cols@.len(),
            total == conf.slot_total(),
            total == piles@.len(),
            total == old(piles)@.len(),
            deck0 == old(deck)@,
            n <= col_total,
            cards_before(*conf, n as int) <= deck0.len(),
            deck@ == deck0.skip(cards_before(*conf, n as int) as int),
            card_total(stacks(views(piles@))) == cards_before(*conf, n as int),
            bag_total(stacks(views(piles@))).add(bag(deck@)) == bag(deck0),
            forall|j: int| 0 <= j < total ==> (#[trigger] piles@[j]).conf == slot_rules(*conf, j),
            forall|j: int|
                0 <= j < total && !(first <= j < first + n) ==> (#[trigger] piles@[j]).cards@.len()
                    == 0,
            forall|j: int|
                first <= j < first + n ==> (#[trigger] piles@[j]).cards@ == start_cards(
                    *conf,
                    deck0,
                    j,
                ),
        decreases col_total - n,
    {
        let cfg = &conf.cols[n];
        let cnt = cfg.count;
        let up = if cfg.up == 0 && cnt != 0 {
            1
        } else if cfg.up > cfg.count {
            cfg.count
        } else {
            cfg.up
        };
        let ghost before = views(piles@);
        let ghost left = deck@;
        match gen_list(deck, cnt as usize, up as usize) {
            Err(e) => {
                proof {
                    lemma_cards_before_grow(*conf, n + 1, col_total as int);
                }
                return Err(e);
            },
            Ok(col) => {
                piles[first + n].cards = col;
                proof {
                    assert(deck@ =~= deck0.skip(cards_before(*conf, n + 1) as int));
                    assert(views(piles@) =~= with_cards(before, first + n, col@));
                    lemma_with_cards(before, first + n, col@);
                    lemma_bag_dealt(left, cnt as int, up as int);
                    assert(bag(before[first + n].cards) =~= Multiset::<Card>::empty());
                    assert forall|v: Card|
                        bag_total(stacks(views(piles@))).add(bag(deck@)).count(v) == bag(
                            deck0,
                        ).count(v) by {
                        assert(bag_total(stacks(views(piles@))).add(
                            bag(before[first + n].cards),
                        ).count(v) == bag_total(stacks(before)).add(bag(col@)).count(v));
                        assert(bag(col@).add(bag(deck@)).count(v) == bag(left).count(v));
                        assert(bag_total(stacks(before)).add(bag(left)).count(v) == bag(
                            deck0,
                        ).count(v));
                    }
                    assert(bag_total(stacks(views(piles@))).add(bag(deck@)) =~= bag(deck0));
                }
            },
        }
        n += 1;
    }
    proof {
        assert forall|j: int| 0 <= j < total implies #[trigger] views(piles@)[j] == cols_dealt(
            *conf,
            deck0,
        )[j] by {
            if !(first <= j < first + col_total) {
                assert(piles@[j].cards@ =~= Seq::<Card>::empty());
            }
        }
        assert(views(piles@) =~= cols_dealt(*conf, deck0));
    }
    Ok(())
}

/// Puts every card that the deck still has on pile `idx`, in the order of the deck.
pub(super) fn drain_deck(piles: &mut Vec<Pile>, deck: &mut Deck, idx: usize)
    requires
        idx < old(piles)@.len(),
    ensures
        final(piles)@.len() == old(piles)@.len(),
        final(deck)@.len() == 0,
        views(final(piles)@) == with_cards(
            views(old(piles)@),
            idx as int,
            old(piles)@[idx as int].cards@ + old(deck)@,
        ),
{
    let ghost deck0 = deck@;
    let ghost cards0 = piles@[idx as int].cards@;
    let mut k: usize = 0;
    let mut going = true;
    assert(cards0 + deck0.take(0) =~= cards0);
    assert(deck@ =~= deck0.skip(0));
    while going
        invariant
            idx < piles@.len(),
            piles@.len() == old(piles)@.len(),
            deck0 == old(deck)@,
            cards0 == old(piles)@[idx as int].cards@,
            k <= deck0.len(),
            deck@ == deck0.skip(k as int),
            !going ==> k == deck0.len(),
            forall|j: int| 0 <= j < piles@.len() && j != idx ==> piles@[j] == old(piles)@[j],
            piles@[idx as int].conf == old(piles)@[idx as int].conf,
            piles@[idx as int].cards@ == cards0 + deck0.take(k as int),
        decreases deck0.len() - k + (if going { 1int } else { 0int }),
    {
        match deck.deal_card() {
            Some(crd) => {
                piles[idx].cards.push(crd);
                assert(piles@[idx as int].cards@ =~= cards0 + deck0.take(k + 1));
                assert(deck@ =~= deck0.skip(k + 1));
                let held = piles[idx].cards.len();
                assert(k < held);
                k += 1;
            },
            None => {
                going = false;
            },
        }
    }
    proof {
        assert(deck0.take(deck0.len() as int) =~= deck0);
        lemma_one_changed(old(piles)@, piles@, idx as int, cards0 + deck0);
    }
}

impl<'a> Game<'a> {
    /// Starts a game by the rules with a freshly shuffled deck. The rules must
    /// have a column. The deal fails if the packs are not one or two, if the
    /// columns need more cards than the deck has, or if cards are left and the
    /// rules have no deck pile for them.
    pub fn init(conf: &'a Conf) -> (r: Result<Game<'a>, SolError>)
        requires
            conf.cols@.len() >= 1,
        ensures
            !(1 <= conf.deck_count <= 2) ==> (r matches Err(SolError::InvalidDeckNumber(n)) && n
                == conf.deck_count),
            1 <= conf.deck_count <= 2 ==> match start_fault(*conf, 52 * conf.deck_count as nat) {
                None => r is Ok && r->Ok_0.wf() && exists|deck: Seq<Card>|
                    is_full_deck(deck, conf.deck_count as nat) && #[trigger] started(*conf, deck)
                        == r->Ok_0@,
                Some(StartFault::TooFewCards) => r matches Err(SolError::InsufficientFor(t)) && t@
                    == "play area"@,
                Some(StartFault::CardsLeft) => r == Err::<Game<'a>, SolError>(
                    SolError::UnusedCards,
                ),
            },
    {
        let deck = match Deck::new(conf.deck_count) {
            Ok(d) => d,
            Err(e) => {
                return Err(e);
            },
        };
        proof {
            lemma_full_deck_cards(deck@, conf.deck_count as nat);
        }
        Game::with_deck(conf, deck)
    }

    /// Starts a game by the rules with the given deck, which is dealt from its
    /// first card on: to the columns one after another, the top cards of each
    /// face-up, and what is left to the deck pile, from which one deal goes to
    /// the waste. The cursor starts on the top of the first column.
    pub fn with_deck(conf: &'a Conf, deck: Deck) -> (r: Result<Game<'a>, SolError>)
        requires
            conf.fits_engine(),
            is_full_deck(deck@, conf.deck_count as nat),
        ensures
            match start_fault(*conf, deck@.len()) {
                None => r is Ok && r->Ok_0.wf() && r->Ok_0@ == started(*conf, deck@),
                Some(StartFault::TooFewCards) => r matches Err(SolError::InsufficientFor(t)) && t@
                    == "play area"@,
                Some(StartFault::CardsLeft) => r == Err::<Game<'a>, SolError>(
                    SolError::UnusedCards,
                ),
            },
    {
        proof {
            lemma_full_deck_cards(deck@, conf.deck_count as nat);
        }
        let redeals = conf.redeals();
        let mut g = Game {
            conf,
            deck,
            undo: Vec::new(),
            piles: Vec::new(),
            selected: Pos::new(),
            redeals,
        };
        match g.init_cols() {
            Ok(_) => {},
            Err(e) => {
                return Err(e);
            },
        }
        g.selected = Pos { col: conf.fnd.len(), row: 0 };
        assert(g@.undo =~= Seq::<Snapshot>::empty());
        Ok(g)
    }

    /// Lays out the piles of a game that has none yet, and deals the deck to
    /// them. After an error the game is not fit for play.
    pub fn init_cols(&mut self) -> (r: Result<(), SolError>)
        requires
            old(self)@.piles.len() == 0,
            old(self)@.conf.fits_engine(),
            is_full_deck(old(self)@.deck, old(self)@.conf.deck_count as nat),
        ensures
            match start_fault(old(self)@.conf, old(self)@.deck.len()) {
                None => {
                    &&& r is Ok
                    &&& final(self)@ == (GameView {
                        piles: start_piles(old(self)@.conf, old(self)@.deck),
                        deck: Seq::<Card>::empty(),
                        ..old(self)@
                    })
                    &&& final(self)@.laid_out()
                    &&& final(self)@.cards_regular()
                    &&& final(self)@.cards_kept()
                    &&& final(self)@.cards_same()
                    &&& final(self)@.cards_tidy()
                },
                Some(StartFault::TooFewCards) => r matches Err(SolError::InsufficientFor(t)) && t@
                    == "play area"@,
                Some(StartFault::CardsLeft) => r == Err::<(), SolError>(SolError::UnusedCards),
            },
    {
        let ghost conf = *self.conf;
        let ghost deck0 = self.deck@;
        proof {
            lemma_full_deck_cards(deck0, conf.deck_count as nat);
            lemma_bag_of_permutation(deck0, fresh_cards(conf.deck_count as nat));
        }
        self.piles = init_piles(self.conf);
        match deal_columns(&mut self.piles, &mut self.deck, self.conf) {
            Ok(_) => {},
            Err(e) => {
                return Err(e);
            },
        }
        let ghost dealt = self@.piles;
        let ghost rest = self.deck@;
        if self.conf.pile.is_none() && !self.deck.is_empty() {
            return Err(SolError::UnusedCards);
        }
        let total = self.piles.len();
        assert(total == conf.slot_total());
        if let Some(pconf) = self.conf.pile {
            let idx = self.conf.fnd.len() + self.conf.cols.len() + self.temp_count();
            drain_deck(&mut self.piles, &mut self.deck, idx);
            let ghost drained = self@.piles;
            proof {
                assert(dealt[idx as int].cards + rest =~= rest);
                lemma_with_cards(dealt, idx as int, rest);
                assert(bag(dealt[idx as int].cards) =~= Multiset::<Card>::empty());
                assert(bag_total(stacks(drained)) =~= bag(deck0)) by {
                    assert forall|v: Card| bag_total(stacks(drained)).count(v) == bag(deck0).count(
                        v,
                    ) by {
                        assert(bag_total(stacks(drained)).add(bag(dealt[idx as int].cards)).count(v)
                            == bag_total(stacks(dealt)).add(bag(rest)).count(v));
                    }
                }
            }
            if !pconf.pile_to_cols {
                let have = self.piles[idx].cards.len();
                let by = pconf.deal_by as usize;
                let cnt = if have < by {
                    have
                } else {
                    by
                };
                pour(&mut self.piles, idx, idx + 1, cnt, true);
                proof {
                    lemma_poured(drained, idx as int, idx + 1, cnt as int, true);
                }
            } else {
                assert(without_top(rest, 0) =~= rest);
            }
        }
        proof {
            let goal = start_piles(conf, deck0);
            assert forall|j: int| 0 <= j < total implies #[trigger] self@.piles[j] == goal[j] by {
                assert(dealt[j] == cols_dealt(conf, deck0)[j]);
            }
            assert(self@.piles =~= goal);
            assert(self.deck@ =~= Seq::<Card>::empty());
            assert(bag(self.deck@) =~= Multiset::<Card>::empty());
            assert(bag_total(stacks(self@.piles)).add(bag(self.deck@)) =~= bag(deck0));
            assert(all_lie(deck0, false));
            assert forall|j: int| 0 <= j < total implies tidy(
                (#[trigger] self@.piles[j]).conf,
                self@.piles[j].cards,
            ) by {
                let f = conf.fnd_slots() as int;
                let slot = slot_rules(conf, j);
                assert(self@.piles[j] == goal[j]);
                if f <= j < f + conf.col_slots() {
                    lemma_cards_before_grow(conf, j - f + 1, conf.col_slots() as int);
                    let off = cards_before(conf, j - f) as int;
                    assert(all_lie(deck0.skip(off), false));
                    lemma_tidy_dealt(
                        deck0.skip(off),
                        conf.cols@[j - f].count as int,
                        start_up(conf, j - f) as int,
                    );
                } else {
                    let cards = self@.piles[j].cards;
                    assert(all_lie(rest, false));
                    if lies_down(slot) || cards.len() == 0 {
                        assert(all_lie(cards, false));
                    } else {
                        assert(all_lie(cards, true));
                    }
                }
            }
            assert forall|j: int| 0 <= j < total implies all_regular(
                (#[trigger] self@.piles[j]).cards,
            ) by {
                let f = conf.fnd_slots() as int;
                if f <= j < f + conf.col_slots() {
                    lemma_cards_before_grow(conf, j - f + 1, conf.col_slots() as int);
                    let off = cards_before(conf, j - f) as int;
                    let cards = self@.piles[j].cards;
                    assert forall|i: int| 0 <= i < cards.len() implies (#[trigger] cards[i]).is_regular() by {
                        assert(deck0[off + i].is_regular());
                    }
                } else {
                    let cards = self@.piles[j].cards;
                    assert forall|i: int| 0 <= i < cards.len() implies (#[trigger] cards[i]).is_regular() by {
                        if cards.len() > 0 {
                            assert(forall|x: int| 0 <= x < rest.len() ==> (#[trigger] rest[x]).is_regular());
                        }
                    }
                }
            }
        }
        Ok(())
    }
}

} // verus!
