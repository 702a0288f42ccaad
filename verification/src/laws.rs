//! What holds of every game, whatever the rules and however it is played.
//!
//! Each law is proved from the model alone. The commands of the engine are
//! proved to change a game exactly as the model says, and to keep it
//! well-formed, so the laws hold of every game that play can reach.
use crate::bag::{bag, bag_total};
use crate::card::{fresh_cards, Card, Face, Suit};
use crate::engine::{Pos, ANY_COL};
use crate::err::SolError;
use crate::gconf::{Conf, FaceOrder, SuitOrder};
use crate::model::{
    card_total, lemma_with_cards, link_ok, run_len, slot_rules, stacks, with_cards, without_top,
    GameView,
};
use crate::tidy::{all_lie, lemma_tidy_top_is_up, shaped, tidy};
use vstd::prelude::*;

verus! {

/// A description of rules is valid exactly if checking it finds nothing, and a
/// valid description has what the engine needs to play by it.
pub proof fn law_valid_rules(conf: Conf)
    ensures
        conf.valid() <==> conf.check() is Ok,
        conf.valid() ==> conf.fits_engine(),
{
}

/// No card is lost and none is made up: in every well-formed game the cards in
/// the piles and the cards that were never dealt are as many as the packs
/// hold, and they are the cards of the packs, each as often as there are packs.
/// Every command of the engine keeps a game well-formed.
pub proof fn law_cards_kept(g: GameView)
    requires
        g.wf(),
    ensures
        card_total(stacks(g.piles)) + g.deck.len() == 52 * g.conf.deck_count,
        bag_total(stacks(g.piles)).add(bag(g.deck)) == bag(fresh_cards(g.conf.deck_count as nat)),
{
}

/// The same holds of every state that a game remembers: going back never
/// brings a card that the game does not have, nor leaves one out.
pub proof fn law_history_keeps_cards(g: GameView, k: int)
    requires
        g.wf(),
        0 <= k < g.undo.len(),
    ensures
        card_total(g.undo[k].piles) + g.deck.len() == 52 * g.conf.deck_count,
        bag_total(g.undo[k].piles).add(bag(g.deck)) == bag(fresh_cards(g.conf.deck_count as nat)),
{
    assert(g.undo[k].fits(g));
}

/// A move is made whole or not at all. Where it goes from one pile to another,
/// the pile that is left loses exactly the card that is moved and the cards
/// above it, the pile that takes them gains exactly as many, in their order,
/// and every other pile stays as it is. Where the move is refused, the game
/// stays as it is.
pub proof fn law_move_atomic(g: GameView, from: Pos, to: Pos)
    requires
        g.wf(),
    ensures
        match g.move_plan(from, to) {
            Ok((src, dst)) => {
                let k = src.row + 1;
                let after = g.after_move(from, to);
                &&& src.col < g.piles.len()
                &&& 0 <= dst < g.piles.len()
                &&& k <= g.piles[src.col as int].cards.len()
                &&& after.piles.len() == g.piles.len()
                &&& after.piles[dst].cards.len() == g.piles[dst].cards.len() + (if src.col == dst {
                    0
                } else {
                    k
                })
                &&& src.col != dst ==> after.piles[src.col as int].cards.len()
                    == g.piles[src.col as int].cards.len() - k
                &&& src.col != dst ==> after.piles[dst].cards == g.piles[dst].cards + g.taken(src)
                &&& forall|i: int|
                    0 <= i < g.piles.len() && i != src.col && i != dst ==> #[trigger] after.piles[i]
                        == g.piles[i]
            },
            Err(_) => g.after_move(from, to) == g,
        },
{
    match g.move_plan(from, to) {
        Ok((src, dst)) => {
            let lifted = with_cards(g.piles, src.col as int, g.left_behind(src));
            lemma_with_cards(g.piles, src.col as int, g.left_behind(src));
            lemma_with_cards(lifted, dst, lifted[dst].cards + g.taken(src));
        },
        Err(_) => {},
    }
}

/// The ordered run at the top of a pile is never longer than the pile, and
/// holds at least one card of a pile that has any; a pile of one card, or of
/// none, is its own run.
pub proof fn law_run_bounds(cards: Seq<Card>, so: SuitOrder, fo: FaceOrder)
    ensures
        run_len(cards, so, fo) <= cards.len(),
        cards.len() >= 1 ==> run_len(cards, so, fo) >= 1,
        cards.len() < 2 ==> run_len(cards, so, fo) == cards.len(),
    decreases cards.len(),
{
    if cards.len() >= 2 {
        law_run_bounds(cards.drop_last(), so, fo);
    }
}

/// The ordered run is the longest run in order: each of its cards but the
/// lowest may lie on the card below it, and the lowest may not, if a card lies
/// below it at all.
pub proof fn law_run_is_longest(cards: Seq<Card>, so: SuitOrder, fo: FaceOrder)
    ensures
        forall|k: int|
            cards.len() - run_len(cards, so, fo) < k < cards.len() ==> link_ok(
                so,
                fo,
                #[trigger] cards[k],
                cards[k - 1],
            ),
        ({
            let n = run_len(cards, so, fo);
            1 <= n < cards.len() ==> !link_ok(so, fo, cards[cards.len() - n], cards[cards.len() - n - 1])
        }),
    decreases cards.len(),
{
    law_run_bounds(cards, so, fo);
    if cards.len() >= 2 {
        let rest = cards.drop_last();
        law_run_is_longest(rest, so, fo);
        law_run_bounds(rest, so, fo);
        if link_ok(so, fo, cards[cards.len() - 1], cards[cards.len() - 2]) {
            assert forall|k: int|
                cards.len() - run_len(cards, so, fo) < k < cards.len() implies link_ok(
                so,
                fo,
                #[trigger] cards[k],
                cards[k - 1],
            ) by {
                if k < cards.len() - 1 {
                    assert(rest[k] == cards[k] && rest[k - 1] == cards[k - 1]);
                }
            }
            let n = run_len(rest, so, fo);
            if 1 <= n < rest.len() {
                assert(rest[rest.len() - n] == cards[rest.len() - n]);
                assert(rest[rest.len() - n - 1] == cards[rest.len() - n - 1]);
            }
        }
    }
}

/// The ordered run of any pile of a game, be it a foundation, a column, a free
/// cell, the deck pile or the waste, lies within the bounds of the pile: between
/// one card, if the pile has any, and all its cards. A pile of one card, or of
/// none, is its own run.
pub proof fn law_ordered_count(g: GameView, pile_id: int)
    requires
        0 <= pile_id < g.piles.len(),
    ensures
        ({
            let size = g.piles[pile_id].cards.len();
            &&& g.ordered_count(pile_id) <= size
            &&& size >= 1 ==> g.ordered_count(pile_id) >= 1
            &&& size < 2 ==> g.ordered_count(pile_id) == size
        }),
{
    let p = g.piles[pile_id];
    law_run_bounds(p.cards, p.conf.suit_order, p.conf.face_order);
}

/// Where the rules deal to the columns, a deal is always reported, also from
/// an empty deck pile, which changes nothing. The cards go one to each column
/// that takes cards, as far as the deck pile lasts.
pub proof fn law_deal_to_columns(g: GameView)
    requires
        g.wf(),
        g.conf.pile matches Some(p) && p.pile_to_cols,
    ensures
        g.deals(),
        g.dealt().piles == g.dealt_to_cols(),
        g.piles[g.first_pile()].cards.len() == 0 ==> g.dealt() == g,
{
    let d = g.first_pile();
    if g.piles[d].cards.len() == 0 {
        assert(without_top(g.piles[d].cards, 0) =~= g.piles[d].cards);
        assert(g.dealt_to_cols() =~= g.piles);
    }
}

/// A card goes to an empty foundation exactly if it lies face-up on top of its
/// pile and is what the foundation starts with; then the foundation holds
/// that card alone and the pile it came from is one card shorter. Any other
/// card is refused as an invalid move, and nothing changes. This is stated of
/// places whose pile index does not stand for "no location".
pub proof fn law_foundation_start(g: GameView, from: Pos, f: usize)
    requires
        g.wf(),
        0 <= f < g.conf.fnd_slots(),
        f != ANY_COL,
        !from.is_nowhere(),
        g.piles[f as int].cards.len() == 0,
        g.card_at(from).face != Face::Empty,
    ensures
        ({
            let card = g.card_at(from);
            let slot = g.conf.fnd@[f as int];
            let to = Pos { col: f, row: 0 };
            let starts = (slot.suit == Suit::Any || slot.suit == card.suit) && (slot.first
                == Face::Any || slot.first == card.face);
            if card.up && from.row == 0 && starts {
                &&& g.move_plan(from, to) == Ok::<(Pos, int), SolError>((from, f as int))
                &&& g.after_move(from, to).piles[f as int].cards == seq![card]
                &&& g.after_move(from, to).piles[from.col as int].cards.len() + 1
                    == g.piles[from.col as int].cards.len()
            } else {
                &&& g.move_plan(from, to) == Err::<(Pos, int), SolError>(SolError::InvalidMove)
                &&& g.after_move(from, to) == g
            }
        }),
{
    let card = g.card_at(from);
    let to = Pos { col: f, row: 0 };
    assert(g.piles[f as int].conf == slot_rules(g.conf, f as int));
    assert(from.col != f);
    if g.move_plan(from, to) is Ok {
        let lifted = with_cards(g.piles, from.col as int, g.left_behind(from));
        lemma_with_cards(g.piles, from.col as int, g.left_behind(from));
        lemma_with_cards(lifted, f as int, lifted[f as int].cards + g.taken(from));
        assert(lifted[f as int].cards + g.taken(from) =~= seq![card]);
    }
}

/// A move that names a column that only gives cards as its destination is
/// refused and changes nothing, whatever the card. This is stated of columns
/// whose pile index does not stand for "no location".
pub proof fn law_take_only_refuses(g: GameView, col: int, from: Pos, to: Pos)
    requires
        g.wf(),
        0 <= col < g.conf.col_slots(),
        g.conf.cols@[col].take_only,
        to.col == g.first_col() + col,
        !to.is_nowhere(),
    ensures
        g.move_plan(from, to) is Err,
        g.after_move(from, to) == g,
{
    law_take_only(g, col, from, to);
}

/// No move, with or without a named destination, adds a card to a column that
/// only gives cards.
pub proof fn law_take_only_never_grows(g: GameView, col: int, from: Pos, to: Pos)
    requires
        g.wf(),
        0 <= col < g.conf.col_slots(),
        g.conf.cols@[col].take_only,
    ensures
        g.after_move(from, to).piles[g.first_col() + col].cards.len() <= g.piles[g.first_col()
            + col].cards.len(),
{
    law_take_only(g, col, from, to);
    match g.move_plan(from, to) {
        Ok((src, dst)) => {
            let lifted = with_cards(g.piles, src.col as int, g.left_behind(src));
            lemma_with_cards(g.piles, src.col as int, g.left_behind(src));
            lemma_with_cards(lifted, dst, lifted[dst].cards + g.taken(src));
        },
        Err(_) => {},
    }
}

/// Moving cards, dealing and moving the cursor leave the remembered states as
/// they are.
pub proof fn law_play_keeps_history(g: GameView, from: Pos, to: Pos, cursor: Pos)
    ensures
        g.after_move(from, to).undo == g.undo,
        g.dealt().undo == g.undo,
        (GameView { selected: cursor, ..g }).undo == g.undo,
{
}

/// Going back undoes whatever was played since the state was remembered: if
/// `later` is a game by the same rules whose latest remembered state is that of
/// `g`, then going back from `later` gives every pile the cards it had in `g`,
/// and the cursor and the redeals left of `g`, and the history of `g`.
pub proof fn law_undo_round_trip(g: GameView, later: GameView)
    requires
        g.wf(),
        later.wf(),
        later.conf == g.conf,
        later.undo == g.remembered().undo,
    ensures
        later.undone().piles == g.piles,
        later.undone().selected == g.selected,
        later.undone().redeals == g.redeals,
        later.undone().undo == g.undo,
{
    let last = later.undo.last();
    assert(last == g.snapshot());
    assert(later.undone().piles =~= g.piles);
    assert(later.undone().undo =~= g.undo);
}

/// Going back right after the state was remembered changes nothing.
pub proof fn law_undo_of_remembered(g: GameView)
    requires
        g.wf(),
    ensures
        g.remembered().undone() == g,
{
    g.lemma_history();
    law_undo_round_trip(g, g.remembered());
}

/// A game is won exactly if every column, every free cell, the deck pile and
/// the waste are empty; what lies on the foundations does not matter.
pub proof fn law_won(g: GameView, other: GameView)
    requires
        g.wf(),
        other.conf == g.conf,
        other.piles.len() == g.piles.len(),
        forall|i: int|
            g.first_col() <= i < g.piles.len() ==> (#[trigger] other.piles[i]).cards
                == g.piles[i].cards,
    ensures
        g.is_won() <==> (forall|i: int|
            g.first_col() <= i < g.first_pile() + g.conf.pile_slots() ==> (
            #[trigger] g.piles[i]).cards.len() == 0),
        g.is_won() == other.is_won(),
{
    if g.is_won() {
        assert forall|i: int| other.conf.fnd_slots() <= i < other.piles.len() implies (
        #[trigger] other.piles[i]).cards.len() == 0 by {
            assert(g.piles[i].cards.len() == 0);
        }
    }
    if other.is_won() {
        assert forall|i: int| g.conf.fnd_slots() <= i < g.piles.len() implies (
        #[trigger] g.piles[i]).cards.len() == 0 by {
            assert(other.piles[i].cards.len() == 0);
        }
    }
}

/// A column that only gives cards never takes one: no card may be moved to
/// it, whatever its suit and face, and no move ends on it.
pub proof fn law_take_only(g: GameView, col: int, from: Pos, to: Pos)
    requires
        g.wf(),
        0 <= col < g.conf.col_slots(),
        g.conf.cols@[col].take_only,
    ensures
        !g.can_move(from, g.first_col() + col),
        g.move_plan(from, to) matches Ok((_, dst)) ==> dst != g.first_col() + col,
{
    let pile = g.first_col() + col;
    assert(g.piles[pile].conf == slot_rules(g.conf, pile));
    match g.move_plan(from, to) {
        Ok((src, dst)) => {
            assert(g.can_move(src, dst));
        },
        Err(_) => {},
    }
}

/// The piles of a game behave as their place in the layout asks: the deck pile
/// can be neither selected nor filled by the player, the waste lies face-up and
/// can be selected, and the foundations and the free cells lie face-up.
pub proof fn law_layout(g: GameView, i: int)
    requires
        g.wf(),
        0 <= i < g.piles.len(),
    ensures
        g.conf.pile is Some && i == g.first_pile() ==> !g.piles[i].conf.selectable
            && !g.piles[i].conf.refill && g.piles[i].conf.take_only,
        g.conf.pile is Some && i == g.first_pile() + 1 ==> g.piles[i].conf.selectable
            && g.piles[i].conf.all_up && g.piles[i].conf.take_only,
        i < g.first_col() || g.first_temp() <= i < g.first_pile() ==> g.piles[i].conf.all_up
            && g.piles[i].conf.selectable,
{
    assert(g.piles[i].conf == slot_rules(g.conf, i));
}

/// The cards of every pile lie as the pile asks: those of the deck pile all
/// face-down, those of the waste, the foundations and the free cells all
/// face-up, and in a column the face-down cards under the face-up ones.
pub proof fn law_piles_tidy(g: GameView, i: int)
    requires
        g.wf(),
        0 <= i < g.piles.len(),
    ensures
        shaped(g.piles[i].cards),
        g.conf.pile is Some && i == g.first_pile() ==> all_lie(g.piles[i].cards, false),
        g.conf.pile is Some && i == g.first_pile() + 1 ==> all_lie(g.piles[i].cards, true),
        i < g.first_col() || g.first_temp() <= i < g.first_pile() ==> all_lie(
            g.piles[i].cards,
            true,
        ),
{
    assert(g.piles[i].conf == slot_rules(g.conf, i));
    assert(tidy(g.piles[i].conf, g.piles[i].cards));
}

/// Only face-up cards move: the card that a move takes and the cards above it
/// all lie face-up, and none of them comes from the deck pile.
pub proof fn law_moves_take_face_up(g: GameView, from: Pos, to: Pos)
    requires
        g.wf(),
    ensures
        g.move_plan(from, to) matches Ok((src, _)) ==> all_lie(g.taken(src), true) && !(
        g.conf.pile is Some && src.col == g.first_pile()),
{
    match g.move_plan(from, to) {
        Ok((src, dst)) => {
            let pile = g.piles[src.col as int];
            assert(g.can_move(src, dst));
            assert(tidy(pile.conf, pile.cards));
            assert(pile.conf == slot_rules(g.conf, src.col as int));
            lemma_tidy_top_is_up(pile.conf, pile.cards, src.row + 1);
        },
        Err(_) => {},
    }
}

} // verus!
