//! Work on piles of cards: taking cards off, putting cards on, and looking at
//! how they lie.
use crate::card::Card;
use crate::gconf::{FaceOrder, SuitOrder};
use crate::model::{
    all_regular, first_up_row, link_ok, poured, poured_onto, restacked, run_len, stacks, views,
    with_cards, without_top,
};
use super::Pile;
use vstd::prelude::*;

verus! {

/// Whether `card` may lie directly on `below` under a suit order and a face order.
pub(super) fn fits(so: SuitOrder, fo: FaceOrder, card: &Card, below: &Card) -> (r: bool)
    requires
        card.face.is_regular(),
        below.face.is_regular(),
    ensures
        r == link_ok(so, fo, *card, *below),
{
    let ok_suit = match so {
        SuitOrder::SameSuit => card.is_same_suit(below),
        SuitOrder::SameColor => card.is_same_color(below),
        SuitOrder::AlternateColor => !card.is_same_color(below),
        SuitOrder::Any => true,
        SuitOrder::Forbid => false,
    };
    let diff = card.diff(below);
    let ok_face = match fo {
        FaceOrder::Asc => diff == -1,
        FaceOrder::Desc => diff == 1,
        FaceOrder::Any => diff == 1 || diff == -1,
    };
    ok_suit && ok_face
}

/// The length of the ordered run at the top of a pile.
pub(super) fn run_length(cards: &Vec<Card>, so: SuitOrder, fo: FaceOrder) -> (r: usize)
    requires
        all_regular(cards@),
    ensures
        r == run_len(cards@, so, fo),
{
    if cards.len() < 2 {
        return cards.len();
    }
    let mut cnt: usize = 1;
    let mut idx: usize = cards.len() - 1;
    let mut going = true;
    assert(cards@.take(idx + 1) =~= cards@);
    while going && idx > 0
        invariant
            all_regular(cards@),
            cards@.len() <= usize::MAX,
            cnt + idx == cards@.len(),
            1 <= cnt,
            going ==> run_len(cards@, so, fo) == (cnt - 1) + run_len(cards@.take(idx + 1), so, fo),
            !going ==> run_len(cards@, so, fo) == cnt,
        decreases idx + (if going { 1int } else { 0int }),
    {
        let ghost part = cards@.take(idx + 1);
        assert(part.drop_last() =~= cards@.take(idx as int));
        assert(part[part.len() - 1] == cards@[idx as int] && part[part.len() - 2] == cards@[idx - 1]);
        if fits(so, fo, &cards[idx], &cards[idx - 1]) {
            cnt += 1;
            idx -= 1;
        } else {
            going = false;
        }
    }
    cnt
}

/// The depth of the first face-up card counted from the bottom of a pile, and
/// 0 if no card is face-up.
pub(super) fn first_up(cards: &Vec<Card>) -> (r: usize)
    ensures
        r == first_up_row(cards@),
{
    let l = cards.len();
    let mut idx: usize = 0;
    assert(cards@.skip(0) =~= cards@);
    while idx < l
        invariant
            l == cards@.len(),
            idx <= l,
            first_up_row(cards@) == first_up_row(cards@.skip(idx as int)),
        decreases l - idx,
    {
        if cards[idx].is_up() {
            return l - idx - 1;
        }
        assert(cards@.skip(idx as int).drop_first() =~= cards@.skip(idx + 1));
        idx += 1;
    }
    0
}

/// Piles that differ from others in the cards of one pile only.
pub(super) proof fn lemma_one_changed(before: Seq<Pile>, after: Seq<Pile>, a: int, ca: Seq<Card>)
    requires
        after.len() == before.len(),
        0 <= a < before.len(),
        forall|j: int| 0 <= j < before.len() && j != a ==> after[j] == before[j],
        after[a].conf == before[a].conf,
        after[a].cards@ == ca,
    ensures
        views(after) == with_cards(views(before), a, ca),
{
    assert(views(after) =~= with_cards(views(before), a, ca));
}

/// Piles that differ from others in the cards of two piles only.
pub(super) proof fn lemma_two_changed(
    before: Seq<Pile>,
    after: Seq<Pile>,
    a: int,
    ca: Seq<Card>,
    b: int,
    cb: Seq<Card>,
)
    requires
        after.len() == before.len(),
        0 <= a < before.len(),
        0 <= b < before.len(),
        a != b,
        forall|j: int| 0 <= j < before.len() && j != a && j != b ==> after[j] == before[j],
        after[a].conf == before[a].conf,
        after[b].conf == before[b].conf,
        after[a].cards@ == ca,
        after[b].cards@ == cb,
    ensures
        views(after) == with_cards(with_cards(views(before), a, ca), b, cb),
{
    assert(views(after) =~= with_cards(with_cards(views(before), a, ca), b, cb));
}

/// Takes the top `cnt` cards off pile `col` and returns them in their order.
pub(super) fn lift(piles: &mut Vec<Pile>, col: usize, cnt: usize) -> (taken: Vec<Card>)
    requires
        col < old(piles)@.len(),
        cnt <= old(piles)@[col as int].cards@.len(),
    ensures
        final(piles)@.len() == old(piles)@.len(),
        views(final(piles)@) == with_cards(
            views(old(piles)@),
            col as int,
            without_top(old(piles)@[col as int].cards@, cnt as int),
        ),
        taken@ == old(piles)@[col as int].cards@.skip(
            old(piles)@[col as int].cards@.len() - cnt,
        ),
{
    let l = piles[col].cards.len();
    let mut taken: Vec<Card> = Vec::new();
    let mut i: usize = l - cnt;
    while i < l
        invariant
            col < piles@.len(),
            piles@ == old(piles)@,
            l == piles@[col as int].cards@.len(),
            cnt <= l,
            l - cnt <= i <= l,
            taken@ == piles@[col as int].cards@.subrange(l - cnt, i as int),
        decreases l - i,
    {
        taken.push(piles[col].cards[i]);
        assert(taken@ =~= piles@[col as int].cards@.subrange(l - cnt, i + 1));
        i += 1;
    }
    piles[col].cards.truncate(l - cnt);
    proof {
        let rest = without_top(old(piles)@[col as int].cards@, cnt as int);
        assert(taken@ =~= old(piles)@[col as int].cards@.skip(l - cnt));
        assert(piles@[col as int].cards@ =~= rest);
        lemma_one_changed(old(piles)@, piles@, col as int, rest);
    }
    taken
}

/// Turns the top card of pile `col` face-up.
pub(super) fn turn_top_up(piles: &mut Vec<Pile>, col: usize)
    requires
        col < old(piles)@.len(),
        old(piles)@[col as int].cards@.len() > 0,
    ensures
        final(piles)@.len() == old(piles)@.len(),
        views(final(piles)@) == with_cards(
            views(old(piles)@),
            col as int,
            old(piles)@[col as int].cards@.update(
                old(piles)@[col as int].cards@.len() - 1,
                old(piles)@[col as int].cards@.last().turned(true),
            ),
        ),
{
    let mut c = piles[col].cards.pop().unwrap();
    c.up = true;
    piles[col].cards.push(c);
    proof {
        let was = old(piles)@[col as int].cards@;
        let now = was.update(was.len() - 1, was.last().turned(true));
        assert(piles@[col as int].cards@ =~= now);
        lemma_one_changed(old(piles)@, piles@, col as int, now);
    }
}

/// Puts cards on pile `col` in their order.
pub(super) fn drop_on(piles: &mut Vec<Pile>, col: usize, cards: &Vec<Card>)
    requires
        col < old(piles)@.len(),
    ensures
        final(piles)@.len() == old(piles)@.len(),
        views(final(piles)@) == with_cards(
            views(old(piles)@),
            col as int,
            old(piles)@[col as int].cards@ + cards@,
        ),
{
    let mut i: usize = 0;
    assert(old(piles)@[col as int].cards@ + cards@.take(0) =~= old(piles)@[col as int].cards@);
    while i < cards.len()
        invariant
            col < piles@.len(),
            piles@.len() == old(piles)@.len(),
            i <= cards@.len(),
            forall|j: int| 0 <= j < piles@.len() && j != col ==> piles@[j] == old(piles)@[j],
            piles@[col as int].conf == old(piles)@[col as int].conf,
            piles@[col as int].cards@ == old(piles)@[col as int].cards@ + cards@.take(i as int),
        decreases cards@.len() - i,
    {
        piles[col].cards.push(cards[i]);
        assert(piles@[col as int].cards@ =~= old(piles)@[col as int].cards@ + cards@.take(i + 1));
        i += 1;
    }
    proof {
        assert(cards@.take(cards@.len() as int) =~= cards@);
        lemma_one_changed(old(piles)@, piles@, col as int, old(piles)@[col as int].cards@ + cards@);
    }
}

/// Puts the top `n` cards of pile `from` on pile `to` one by one, the top card
/// first, each turned face-up or face-down.
pub(super) fn pour(piles: &mut Vec<Pile>, from: usize, to: usize, n: usize, up: bool)
    requires
        from < old(piles)@.len(),
        to < old(piles)@.len(),
        from != to,
        n <= old(piles)@[from as int].cards@.len(),
    ensures
        final(piles)@.len() == old(piles)@.len(),
        views(final(piles)@) == poured(views(old(piles)@), from as int, to as int, n as int, up),
{
    let mut k: usize = 0;
    let ghost src = old(piles)@[from as int].cards@;
    let ghost dst = old(piles)@[to as int].cards@;
    assert(src =~= without_top(src, 0));
    assert(dst =~= poured_onto(src, dst, 0, up));
    while k < n
        invariant
            from < piles@.len(),
            to < piles@.len(),
            piles@.len() == old(piles)@.len(),
            from != to,
            src == old(piles)@[from as int].cards@,
            dst == old(piles)@[to as int].cards@,
            k <= n <= src.len(),
            forall|j: int|
                0 <= j < piles@.len() && j != from && j != to ==> piles@[j] == old(piles)@[j],
            piles@[from as int].conf == old(piles)@[from as int].conf,
            piles@[to as int].conf == old(piles)@[to as int].conf,
            piles@[from as int].cards@ == without_top(src, k as int),
            piles@[to as int].cards@ == poured_onto(src, dst, k as int, up),
        decreases n - k,
    {
        let mut c = piles[from].cards.pop().unwrap();
        c.up = up;
        piles[to].cards.push(c);
        assert(piles@[from as int].cards@ =~= without_top(src, k + 1));
        assert(piles@[to as int].cards@ =~= poured_onto(src, dst, k + 1, up));
        k += 1;
    }
    proof {
        lemma_two_changed(
            old(piles)@,
            piles@,
            from as int,
            without_top(src, n as int),
            to as int,
            poured_onto(src, dst, n as int, up),
        );
    }
}

/// Gives every pile the cards that `stacks` holds at its place.
pub(super) fn restack(piles: &mut Vec<Pile>, stacks: Vec<Vec<Card>>)
    requires
        stacks@.len() == old(piles)@.len(),
    ensures
        final(piles)@.len() == old(piles)@.len(),
        views(final(piles)@) == restacked(
            views(old(piles)@),
            Seq::new(stacks@.len(), |i: int| stacks@[i]@),
        ),
{
    let mut stacks = stacks;
    let ghost all = Seq::new(stacks@.len(), |i: int| stacks@[i]@);
    let mut i: usize = stacks.len();
    while i > 0
        invariant
            i <= all.len(),
            all.len() == piles@.len(),
            piles@.len() == old(piles)@.len(),
            stacks@.len() == i,
            forall|j: int| 0 <= j < i ==> (#[trigger] stacks@[j])@ == all[j],
            forall|j: int| 0 <= j < i ==> #[trigger] piles@[j] == old(piles)@[j],
            forall|j: int|
                i <= j < piles@.len() ==> (#[trigger] piles@[j]).conf == old(piles)@[j].conf
                    && piles@[j].cards@ == all[j],
        decreases i,
    {
        let pile = stacks.pop().unwrap();
        i -= 1;
        piles[i].cards = pile;
    }
    assert(views(piles@) =~= restacked(views(old(piles)@), all));
}

/// Whether each of the stacks `a` is as long as the stack of `b` at its place.
pub(super) fn same_sizes(a: &Vec<Vec<Card>>, b: &Vec<Vec<Card>>) -> (r: bool)
    requires
        a@.len() == b@.len(),
    ensures
        r == (forall|j: int| 0 <= j < a@.len() ==> (#[trigger] a@[j])@.len() == b@[j]@.len()),
{
    let n = a.len();
    let mut idx: usize = 0;
    while idx < n
        invariant
            idx <= n,
            n == a@.len(),
            n == b@.len(),
            forall|j: int| 0 <= j < idx ==> (#[trigger] a@[j])@.len() == b@[j]@.len(),
        decreases n - idx,
    {
        if a[idx].len() != b[idx].len() {
            return false;
        }
        idx += 1;
    }
    true
}

} // verus!
