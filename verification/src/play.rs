//! What a player asks of a game, and what comes of it.
//!
//! Two actions change the piles: to deal, and to play a card. Each remembers
//! the game before it acts, and then drops the latest remembered state if it
//! looks like the one before it, so that actions that change nothing do not
//! fill the history.
use crate::engine::{Direction, Game, Pos};
use crate::gstate::GameState;
use crate::model::GameView;
use vstd::prelude::*;

verus! {

/// What came of an action.
#[derive(Clone, Copy, PartialEq, Eq, Structural, Debug)]
pub struct Played {
    /// Cards were dealt or moved.
    pub moved: bool,
    /// The game is won.
    pub won: bool,
}

/// What playing the card at `curr` comes to in a game in which `mark` is
/// marked.
pub struct Entered {
    /// The game after the action.
    pub game: GameView,
    /// The mark after the action.
    pub mark: Pos,
    /// What came of it.
    pub played: Played,
}

/// Whether `curr` is on the deck pile.
pub open spec fn on_deck(g: GameView, curr: Pos) -> bool {
    g.conf.pile is Some && g.first_pile() == curr.col
}

/// The source and the destination of the move that is tried when the card at
/// `curr` is played: the marked card goes to `curr`; without a mark, or with
/// the mark on `curr` itself, the card at `curr` goes wherever it can.
pub open spec fn tried_move(mark: Pos, curr: Pos) -> (Pos, Pos) {
    if mark.is_nowhere() || mark == curr {
        (curr, Pos::nowhere())
    } else {
        (mark, curr)
    }
}

/// The game with the cursor on the top of its pile, if it may rest there.
pub open spec fn cursor_on_top(g: GameView) -> GameView {
    let top = Pos { col: g.selected.col, row: 0 };
    if g.selectable(top) {
        GameView { selected: top, ..g }
    } else {
        g
    }
}

/// What playing the card at `curr` comes to. The game is remembered first. On
/// the deck pile cards are dealt and the mark is taken off. Then the move is
/// tried; if it is made, the cursor goes to the top of its pile and the mark is
/// taken off. A game that is won forgets its history; otherwise the latest
/// remembered state is dropped if it looks like the one before it.
pub open spec fn entered(g: GameView, mark: Pos, curr: Pos) -> Entered {
    let kept = g.remembered();
    let clicked = on_deck(kept, curr);
    let dealt = if clicked {
        kept.dealt()
    } else {
        kept
    };
    let sel = if clicked {
        Pos::nowhere()
    } else {
        mark
    };
    let (from, to) = tried_move(sel, curr);
    let made = dealt.move_plan(from, to) is Ok;
    let after = if made {
        cursor_on_top(dealt.after_move(from, to))
    } else {
        dealt
    };
    let won = after.is_won();
    Entered {
        game: if won {
            after.forgetful()
        } else {
            after.squashed()
        },
        mark: if made {
            Pos::nowhere()
        } else {
            sel
        },
        played: Played { moved: clicked || made, won },
    }
}

/// Deals on the player's request: the game is remembered, cards are dealt, and
/// the latest remembered state is dropped if it looks like the one before it.
/// The mark is taken off.
pub fn on_deal(game: &mut Game, state: &mut GameState)
    requires
        old(game).wf(),
    ensures
        final(game).wf(),
        final(game)@ == old(game)@.remembered().dealt().squashed(),
        final(state).mark_at() == Pos::nowhere(),
        final(state).hinted() == old(state).hinted(),
{
    game.take_snapshot();
    state.clear_mark();
    game.deal();
    game.squash_snapshots();
}

/// Plays the card at `curr`: deals if it is the deck pile, then moves the
/// marked card to `curr` or, without a mark, the card at `curr` wherever it can
/// go. The hints are cleared.
pub fn on_enter(game: &mut Game, state: &mut GameState, curr: Pos) -> (r: Played)
    requires
        old(game).wf(),
    ensures
        final(game).wf(),
        final(game)@ == entered(old(game)@, old(state).mark_at(), curr).game,
        final(state).mark_at() == entered(old(game)@, old(state).mark_at(), curr).mark,
        final(state).hinted() == Seq::<Pos>::empty(),
        r == entered(old(game)@, old(state).mark_at(), curr).played,
{
    let mut moved = false;
    game.take_snapshot();
    state.clear_hints();
    if game.is_deck_clicked(Some(curr)) {
        moved = true;
        state.clear_mark();
        game.deal();
    }
    let sel = state.marked();
    if sel.is_empty() || sel == curr {
        if game.move_card(curr, Pos::new()).is_ok() {
            moved = true;
            let col = game.selected_loc().col;
            game.select(Pos { col, row: 0 });
            state.clear_mark();
        }
    } else if game.move_card(sel, curr).is_ok() {
        moved = true;
        let col = game.selected_loc().col;
        game.select(Pos { col, row: 0 });
        state.clear_mark();
    }
    let won = game.is_completed();
    if won {
        game.clear_undo();
    } else {
        game.squash_snapshots();
    }
    Played { moved, won }
}

/// What a player can ask of a game.
#[derive(Clone, Copy, Debug)]
pub enum Command {
    /// Move the cursor.
    Go(Direction),
    /// Mark the card under the cursor, or take the mark off it; on the deck
    /// pile, deal.
    Mark,
    /// Play the card under the cursor.
    Play,
    /// Hint at the cards that can be played.
    Hint,
    /// Hint at the piles that take the card under the cursor.
    HintDests,
    /// Go back to the state before the last action.
    Undo,
    /// Put the cursor on a place and mark its card, or take the mark off it; on
    /// the deck pile, deal.
    Click(Pos),
    /// Play the card at a place.
    PlayAt(Pos),
}

/// The mark after a place was marked: the place, or no place if it was the
/// marked one.
pub open spec fn toggled(mark: Pos, p: Pos) -> Pos {
    if p == mark {
        Pos::nowhere()
    } else {
        p
    }
}

/// Whether `r` lists the cards that are worth a hint: each of them once, pile
/// by pile, and in a pile from the deepest card to the top.
pub open spec fn lists_hints(g: GameView, r: Seq<Pos>) -> bool {
    &&& forall|k: int| 0 <= k < r.len() ==> g.is_hint(#[trigger] r[k])
    &&& forall|j: int, k: int|
        0 <= j < k < r.len() ==> GameView::hint_before(#[trigger] r[j], #[trigger] r[k])
    &&& forall|p: Pos| #[trigger] g.is_hint(p) ==> r.contains(p)
}

/// Whether `r` lists the tops of the piles that take the card at `from`, in
/// the order of the piles.
pub open spec fn lists_dests(g: GameView, from: Pos, r: Seq<Pos>) -> bool {
    &&& forall|k: int| 0 <= k < r.len() ==> (#[trigger] r[k]).row == 0 && g.is_dest(from, r[k].col as int)
    &&& forall|j: int, k: int| 0 <= j < k < r.len() ==> r[j].col < r[k].col
    &&& forall|d: int|
        0 <= d < g.piles.len() && #[trigger] g.is_dest(from, d) ==> r.contains(
            Pos { col: d as usize, row: 0 },
        )
}

/// What marking the card at `p` comes to. A card that can be selected gets the
/// cursor and the mark, or loses the mark if it had it. On the deck pile cards
/// are dealt and the mark is taken off. Anything else changes nothing.
pub open spec fn marked_at(g: GameView, mark: Pos, p: Pos) -> Entered {
    if g.selectable(p) {
        Entered {
            game: GameView { selected: p, ..g },
            mark: toggled(mark, p),
            played: Played { moved: false, won: false },
        }
    } else if on_deck(g, p) {
        Entered {
            game: g.remembered().dealt().squashed(),
            mark: Pos::nowhere(),
            played: Played { moved: true, won: false },
        }
    } else {
        Entered { game: g, mark, played: Played { moved: false, won: false } }
    }
}

/// Marks the card at `p`, or deals if `p` is on the deck pile. The hints are
/// cleared.
fn mark_at(game: &mut Game, state: &mut GameState, p: Pos) -> (r: Played)
    requires
        old(game).wf(),
    ensures
        final(game).wf(),
        final(game)@ == marked_at(old(game)@, old(state).mark_at(), p).game,
        final(state).mark_at() == marked_at(old(game)@, old(state).mark_at(), p).mark,
        final(state).hinted() == Seq::<Pos>::empty(),
        r == marked_at(old(game)@, old(state).mark_at(), p).played,
{
    state.clear_hints();
    if game.is_selectable(Some(p)) {
        game.select(p);
        state.mark(p);
        Played { moved: false, won: false }
    } else if game.is_deck_clicked(Some(p)) {
        on_deal(game, state);
        Played { moved: true, won: false }
    } else {
        Played { moved: false, won: false }
    }
}

/// Does what a player asks of a game. In a game that is won, nothing is marked
/// and no click is taken. Moving the cursor, hinting and going back neither
/// deal nor move a card.
pub fn apply(game: &mut Game, state: &mut GameState, won: bool, cmd: Command) -> (r: Played)
    requires
        old(game).wf(),
    ensures
        final(game).wf(),
        match cmd {
            Command::Go(dir) => {
                &&& final(game)@ == (GameView {
                    selected: old(game)@.cursor_target(dir),
                    ..old(game)@
                })
                &&& final(state).mark_at() == old(state).mark_at()
                &&& final(state).hinted() == old(state).hinted()
                &&& r == (Played { moved: false, won: false })
            },
            Command::Mark | Command::Click(_) => {
                let p = match cmd {
                    Command::Click(p) => p,
                    _ => old(game)@.selected,
                };
                if won {
                    &&& final(game)@ == old(game)@
                    &&& final(state).mark_at() == old(state).mark_at()
                    &&& final(state).hinted() == old(state).hinted()
                    &&& r == (Played { moved: false, won: false })
                } else {
                    &&& final(game)@ == marked_at(old(game)@, old(state).mark_at(), p).game
                    &&& final(state).mark_at() == marked_at(old(game)@, old(state).mark_at(), p).mark
                    &&& final(state).hinted() == Seq::<Pos>::empty()
                    &&& r == marked_at(old(game)@, old(state).mark_at(), p).played
                }
            },
            Command::Play | Command::PlayAt(_) => {
                let p = match cmd {
                    Command::PlayAt(p) => p,
                    _ => old(game)@.selected,
                };
                if won && cmd is PlayAt {
                    &&& final(game)@ == old(game)@
                    &&& final(state).mark_at() == old(state).mark_at()
                    &&& final(state).hinted() == old(state).hinted()
                    &&& r == (Played { moved: false, won: false })
                } else {
                    &&& final(game)@ == entered(old(game)@, old(state).mark_at(), p).game
                    &&& final(state).mark_at() == entered(old(game)@, old(state).mark_at(), p).mark
                    &&& final(state).hinted() == Seq::<Pos>::empty()
                    &&& r == entered(old(game)@, old(state).mark_at(), p).played
                }
            },
            Command::Hint => {
                &&& final(game)@ == old(game)@
                &&& final(state).mark_at() == old(state).mark_at()
                &&& lists_hints(old(game)@, final(state).hinted())
                &&& r == (Played { moved: false, won: false })
            },
            Command::HintDests => {
                &&& final(game)@ == old(game)@
                &&& final(state).mark_at() == old(state).mark_at()
                &&& lists_dests(old(game)@, old(game)@.selected, final(state).hinted())
                &&& r == (Played { moved: false, won: false })
            },
            Command::Undo => {
                &&& final(game)@ == old(game)@.undone()
                &&& final(state).mark_at() == old(state).mark_at()
                &&& final(state).hinted() == old(state).hinted()
                &&& r == (Played { moved: false, won: false })
            },
        },
{
    let idle = Played { moved: false, won: false };
    match cmd {
        Command::Go(dir) => {
            let _ = game.move_selection(dir);
            idle
        },
        Command::Mark => {
            if won {
                return idle;
            }
            let p = game.selected_loc();
            mark_at(game, state, p)
        },
        Command::Click(p) => {
            if won {
                return idle;
            }
            mark_at(game, state, p)
        },
        Command::Play => {
            let p = game.selected_loc();
            on_enter(game, state, p)
        },
        Command::PlayAt(p) => {
            if won {
                return idle;
            }
            on_enter(game, state, p)
        },
        Command::Hint => {
            let hints = game.avail_list();
            state.hint(hints.as_slice());
            idle
        },
        Command::HintDests => {
            let dests = game.dest_list_card(game.selected_loc());
            state.hint(dests.as_slice());
            idle
        },
        Command::Undo => {
            game.undo();
            idle
        },
    }
}

} // verus!
