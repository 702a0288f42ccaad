//! Which way up the cards of a pile lie: face-down cards under face-up cards,
//! and in some piles all one way.
use crate::card::Card;
use crate::engine::SlotConf;
use crate::model::{dealt_stack, poured_onto, without_top};
use vstd::prelude::*;

verus! {

/// Whether all cards lie face-up, or all face-down.
pub open spec fn all_lie(cards: Seq<Card>, up: bool) -> bool {
    forall|i: int| 0 <= i < cards.len() ==> (#[trigger] cards[i]).up == up
}

/// Whether no face-down card lies above a face-up one.
pub open spec fn shaped(cards: Seq<Card>) -> bool {
    forall|i: int, j: int|
        0 <= i <= j < cards.len() && (#[trigger] cards[i]).up ==> (#[trigger] cards[j]).up
}

/// Whether a pile always lies face-down: one that can neither be selected nor
/// shows its cards, as the deck pile.
pub open spec fn lies_down(conf: SlotConf) -> bool {
    !conf.all_up && !conf.selectable
}

/// Whether the cards lie as their pile asks: all face-up in a pile that shows
/// its cards, all face-down in one that always lies face-down, and in any pile
/// no face-down card above a face-up one.
pub open spec fn tidy(conf: SlotConf, cards: Seq<Card>) -> bool {
    &&& shaped(cards)
    &&& conf.all_up ==> all_lie(cards, true)
    &&& lies_down(conf) ==> all_lie(cards, false)
}

/// A pile without its top cards lies as tidily as before.
pub proof fn lemma_tidy_without_top(conf: SlotConf, cards: Seq<Card>, n: int)
    requires
        tidy(conf, cards),
        0 <= n <= cards.len(),
    ensures
        tidy(conf, without_top(cards, n)),
{
    let rest = without_top(cards, n);
    assert forall|i: int, j: int|
        0 <= i <= j < rest.len() && (#[trigger] rest[i]).up implies (#[trigger] rest[j]).up by {
        assert(cards[i].up ==> cards[j].up);
    }
    assert forall|i: int| 0 <= i < rest.len() implies (conf.all_up ==> (#[trigger] rest[i]).up)
        && (lies_down(conf) ==> !rest[i].up) by {
        assert(cards[i] == rest[i]);
    }
}

/// Face-up cards on top keep a pile tidy, unless it always lies face-down.
pub proof fn lemma_tidy_with_up(conf: SlotConf, cards: Seq<Card>, more: Seq<Card>)
    requires
        tidy(conf, cards),
        all_lie(more, true),
        !lies_down(conf),
    ensures
        tidy(conf, cards + more),
{
    let all = cards + more;
    assert forall|i: int, j: int|
        0 <= i <= j < all.len() && (#[trigger] all[i]).up implies (#[trigger] all[j]).up by {
        if j < cards.len() {
            assert(cards[i].up ==> cards[j].up);
        } else {
            assert(more[j - cards.len()].up);
        }
    }
    assert forall|i: int| 0 <= i < all.len() && conf.all_up implies (#[trigger] all[i]).up by {
        if i < cards.len() {
            assert(cards[i].up);
        } else {
            assert(more[i - cards.len()].up);
        }
    }
}

/// Cards that are put on a pile face-up keep it tidy, unless it always lies
/// face-down; cards that are put face-down on a pile that lies face-down keep
/// it tidy, unless it shows its cards.
pub proof fn lemma_tidy_poured(conf: SlotConf, from: Seq<Card>, onto: Seq<Card>, n: int, up: bool)
    requires
        tidy(conf, onto),
        0 <= n <= from.len(),
        up ==> !lies_down(conf),
        !up ==> !conf.all_up && all_lie(onto, false),
    ensures
        tidy(conf, poured_onto(from, onto, n, up)),
{
    let all = poured_onto(from, onto, n, up);
    assert forall|i: int, j: int|
        0 <= i <= j < all.len() && (#[trigger] all[i]).up implies (#[trigger] all[j]).up by {
        if j < onto.len() {
            assert(onto[i].up ==> onto[j].up);
        } else if i < onto.len() && !up {
            assert(!onto[i].up);
        }
    }
    assert forall|i: int| 0 <= i < all.len() implies (conf.all_up ==> (#[trigger] all[i]).up) && (
    lies_down(conf) ==> !all[i].up) by {
        if i < onto.len() {
            assert(onto[i] == all[i]);
        }
    }
}

/// The cards above a face-up card of a tidy pile, and the card itself, lie
/// face-up.
pub proof fn lemma_tidy_top_is_up(conf: SlotConf, cards: Seq<Card>, k: int)
    requires
        tidy(conf, cards),
        1 <= k <= cards.len(),
        cards[cards.len() - k].up,
    ensures
        all_lie(cards.skip(cards.len() - k), true),
{
    let top = cards.skip(cards.len() - k);
    assert forall|i: int| 0 <= i < top.len() implies (#[trigger] top[i]).up by {
        assert(cards[cards.len() - k].up ==> cards[cards.len() - k + i].up);
    }
}

/// A tidy pile stays tidy when its top card, if it lies face-down, is turned
/// face-up, unless the pile always lies face-down.
pub proof fn lemma_tidy_turned_top(conf: SlotConf, cards: Seq<Card>)
    requires
        tidy(conf, cards),
        cards.len() > 0,
        !lies_down(conf),
    ensures
        tidy(conf, cards.update(cards.len() - 1, cards.last().turned(true))),
{
    let after = cards.update(cards.len() - 1, cards.last().turned(true));
    assert forall|i: int, j: int|
        0 <= i <= j < after.len() && (#[trigger] after[i]).up implies (#[trigger] after[j]).up by {
        if j < cards.len() - 1 {
            assert(cards[i].up ==> cards[j].up);
        }
    }
    assert forall|i: int| 0 <= i < after.len() && conf.all_up implies (#[trigger] after[i]).up by {
        if i < cards.len() - 1 {
            assert(cards[i].up);
        }
    }
}

/// The cards that are dealt to a pile from a deck that lies face-down lie
/// face-down under face-up cards.
pub proof fn lemma_tidy_dealt(deck: Seq<Card>, count: int, up: int)
    requires
        all_lie(deck, false),
        0 <= count <= deck.len(),
    ensures
        shaped(dealt_stack(deck, count, up)),
{
    let pile = dealt_stack(deck, count, up);
    assert forall|i: int, j: int|
        0 <= i <= j < pile.len() && (#[trigger] pile[i]).up implies (#[trigger] pile[j]).up by {
        assert(!deck[i].up);
    }
}

} // verus!
