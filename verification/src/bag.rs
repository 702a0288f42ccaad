//! The cards of a game as a bag: which cards there are and how often, whatever
//! their order and whichever way up they lie.
use crate::card::Card;
use crate::model::{dealt_stack, poured_onto, without_top};
use vstd::multiset::Multiset;
use vstd::prelude::*;

verus! {

/// The cards of a sequence as a bag, each counted as it would lie face-down.
pub open spec fn bag(cards: Seq<Card>) -> Multiset<Card>
    decreases cards.len(),
{
    if cards.len() == 0 {
        Multiset::empty()
    } else {
        bag(cards.drop_last()).insert(cards.last().turned(false))
    }
}

/// The cards of all piles together as a bag.
pub open spec fn bag_total(stacks: Seq<Seq<Card>>) -> Multiset<Card>
    decreases stacks.len(),
{
    if stacks.len() == 0 {
        Multiset::empty()
    } else {
        bag_total(stacks.drop_last()).add(bag(stacks.last()))
    }
}

/// One more card on top is one more card in the bag.
pub proof fn lemma_bag_push(s: Seq<Card>, c: Card)
    ensures
        bag(s.push(c)) == bag(s).insert(c.turned(false)),
{
    assert(s.push(c).drop_last() =~= s);
}

/// Cards that show the same make the same bag, whichever way up they lie.
pub proof fn lemma_bag_same_faces(a: Seq<Card>, b: Seq<Card>)
    requires
        a.len() == b.len(),
        forall|i: int| 0 <= i < a.len() ==> (#[trigger] a[i]).turned(false) == b[i].turned(false),
    ensures
        bag(a) == bag(b),
    decreases a.len(),
{
    if a.len() > 0 {
        assert(a.last().turned(false) == b.last().turned(false));
        lemma_bag_same_faces(a.drop_last(), b.drop_last());
    }
}

/// The bag of two sequences, one after the other, is the bags of both.
pub proof fn lemma_bag_concat(a: Seq<Card>, b: Seq<Card>)
    ensures
        bag(a + b) == bag(a).add(bag(b)),
    decreases b.len(),
{
    if b.len() == 0 {
        assert(a + b =~= a);
        assert(bag(a).add(bag(b)) =~= bag(a));
    } else {
        assert((a + b).drop_last() =~= a + b.drop_last());
        assert((a + b).last() == b.last());
        lemma_bag_concat(a, b.drop_last());
        assert(bag(a + b) =~= bag(a).add(bag(b)));
    }
}

/// The bag of a sequence is the bags of its two parts.
pub proof fn lemma_bag_split(s: Seq<Card>, n: int)
    requires
        0 <= n <= s.len(),
    ensures
        bag(s) == bag(s.take(n)).add(bag(s.skip(n))),
{
    assert(s =~= s.take(n) + s.skip(n));
    lemma_bag_concat(s.take(n), s.skip(n));
}

/// A sequence without one of its cards has that card less in its bag.
pub proof fn lemma_bag_remove(s: Seq<Card>, j: int)
    requires
        0 <= j < s.len(),
    ensures
        bag(s) == bag(s.remove(j)).insert(s[j].turned(false)),
{
    let head = s.take(j);
    let tail = s.skip(j + 1);
    assert(s =~= head.push(s[j]) + tail);
    assert(s.remove(j) =~= head + tail);
    lemma_bag_concat(head.push(s[j]), tail);
    lemma_bag_concat(head, tail);
    lemma_bag_push(head, s[j]);
    assert(bag(s) =~= bag(s.remove(j)).insert(s[j].turned(false)));
}

/// The same cards in another order make the same bag.
pub proof fn lemma_bag_of_permutation(s: Seq<Card>, t: Seq<Card>)
    requires
        s.to_multiset() == t.to_multiset(),
    ensures
        bag(s) == bag(t),
    decreases s.len(),
{
    broadcast use vstd::seq_lib::group_to_multiset_ensures;

    assert(s.len() == s.to_multiset().len());
    assert(t.len() == t.to_multiset().len());
    if s.len() > 0 {
        let x = s.last();
        let rest = s.drop_last();
        assert(s.contains(x));
        assert(s.to_multiset().count(x) > 0);
        assert(t.to_multiset().count(x) > 0);
        assert(t.contains(x));
        let j = choose|j: int| 0 <= j < t.len() && t[j] == x;
        let others = t.remove(j);
        assert(s =~= rest.push(x));
        assert(rest.to_multiset().insert(x) == s.to_multiset());
        assert(others.to_multiset() == t.to_multiset().remove(x));
        assert(rest.to_multiset() =~= others.to_multiset());
        lemma_bag_of_permutation(rest, others);
        lemma_bag_remove(t, j);
    }
}

/// Cards that go from the top of one pile to another stay in the bag of both.
pub proof fn lemma_bag_poured(from: Seq<Card>, onto: Seq<Card>, n: int, up: bool)
    requires
        0 <= n <= from.len(),
    ensures
        bag(poured_onto(from, onto, n, up)) == bag(onto).add(bag(from.skip(from.len() - n))),
        bag(poured_onto(from, onto, n, up)).add(bag(without_top(from, n))) == bag(onto).add(
            bag(from),
        ),
    decreases n,
{
    let len = from.len() as int;
    if n == 0 {
        assert(poured_onto(from, onto, 0, up) =~= onto);
        assert(from.skip(len) =~= Seq::<Card>::empty());
        assert(bag(onto).add(bag(from.skip(len))) =~= bag(onto));
    } else {
        let card = from[len - n];
        lemma_bag_poured(from, onto, n - 1, up);
        assert(poured_onto(from, onto, n, up) =~= poured_onto(from, onto, n - 1, up).push(
            card.turned(up),
        ));
        lemma_bag_push(poured_onto(from, onto, n - 1, up), card.turned(up));
        assert(from.skip(len - n) =~= seq![card] + from.skip(len - n + 1));
        lemma_bag_concat(seq![card], from.skip(len - n + 1));
        lemma_bag_push(Seq::<Card>::empty(), card);
        assert(Seq::<Card>::empty().push(card) =~= seq![card]);
        assert(bag(poured_onto(from, onto, n, up)) =~= bag(onto).add(bag(from.skip(len - n))));
    }
    lemma_bag_split(from, len - n);
    assert(bag(poured_onto(from, onto, n, up)).add(bag(without_top(from, n))) =~= bag(onto).add(
        bag(from),
    ));
}

/// The cards that are dealt to a pile are the first cards of the deck.
pub proof fn lemma_bag_dealt(deck: Seq<Card>, count: int, up: int)
    requires
        0 <= count <= deck.len(),
    ensures
        bag(dealt_stack(deck, count, up)).add(bag(deck.skip(count))) == bag(deck),
{
    lemma_bag_same_faces(dealt_stack(deck, count, up), deck.take(count));
    lemma_bag_split(deck, count);
}

/// Other cards in one pile change the bag of all piles by those cards.
pub proof fn lemma_bag_total_update(s: Seq<Seq<Card>>, i: int, c: Seq<Card>)
    requires
        0 <= i < s.len(),
    ensures
        bag_total(s.update(i, c)).add(bag(s[i])) == bag_total(s).add(bag(c)),
    decreases s.len(),
{
    let u = s.update(i, c);
    let rest = s.drop_last();
    if i == s.len() - 1 {
        assert(u.drop_last() =~= rest);
        assert(u.last() == c && s.last() == s[i]);
        assert(bag_total(u) == bag_total(rest).add(bag(c)));
        assert(bag_total(s) == bag_total(rest).add(bag(s[i])));
    } else {
        assert(u.drop_last() =~= rest.update(i, c));
        assert(u.last() == s.last() && rest[i] == s[i]);
        lemma_bag_total_update(rest, i, c);
        assert(bag_total(u) == bag_total(rest.update(i, c)).add(bag(s.last())));
        assert(bag_total(s) == bag_total(rest).add(bag(s.last())));
        assert forall|v: Card|
            bag_total(u).add(bag(s[i])).count(v) == bag_total(s).add(bag(c)).count(v) by {
            assert(bag_total(rest.update(i, c)).add(bag(s[i])).count(v) == bag_total(rest).add(
                bag(c),
            ).count(v));
        }
    }
    assert(bag_total(u).add(bag(s[i])) =~= bag_total(s).add(bag(c)));
}

/// Piles without cards have an empty bag.
pub proof fn lemma_bag_total_of_empty(s: Seq<Seq<Card>>)
    requires
        forall|i: int| 0 <= i < s.len() ==> (#[trigger] s[i]).len() == 0,
    ensures
        bag_total(s) == Multiset::<Card>::empty(),
    decreases s.len(),
{
    if s.len() > 0 {
        lemma_bag_total_of_empty(s.drop_last());
        assert(bag(s.last()) =~= Multiset::<Card>::empty());
        assert(bag_total(s) =~= Multiset::<Card>::empty());
    }
}

} // verus!
