//! The game as a mathematical value, and what each operation makes of it.
//!
//! [`GameView`] is the state of a game without its machinery: the rules, the
//! piles as sequences of cards, the cursor, the redeals left and the undo
//! history. The functions here say what is legal and what every command
//! changes; the executable engine is proved to do exactly that.
use crate::bag::{
    bag, bag_total, lemma_bag_concat, lemma_bag_poured, lemma_bag_same_faces, lemma_bag_split,
    lemma_bag_total_update,
};
use crate::card::{fresh_cards, Card, Face, Suit};
use crate::engine::{Direction, Pile, Pos, SlotConf};
use crate::err::SolError;
use crate::gconf::{Conf, FaceOrder, Playable, SuitOrder};
use crate::tidy::{
    lemma_tidy_top_is_up, lemma_tidy_turned_top, lemma_tidy_with_up, lemma_tidy_without_top,
    lies_down, tidy,
};
use vstd::prelude::*;

verus! {

/// A pile as a value: how it behaves, and its cards from the bottom to the top.
pub struct PileView {
    pub conf: SlotConf,
    pub cards: Seq<Card>,
}

impl View for Pile {
    type V = PileView;

    open spec fn view(&self) -> PileView {
        PileView { conf: self.conf, cards: self.cards@ }
    }
}

/// A remembered state of the game: the cards of every pile, the cursor and the
/// redeals that were left.
pub struct Snapshot {
    pub redeals: i8,
    pub piles: Seq<Seq<Card>>,
    pub selected: Pos,
}

/// The state of a game.
pub struct GameView {
    /// The rules that the game is played by.
    pub conf: Conf,
    /// The cards that were never dealt, the next one first.
    pub deck: Seq<Card>,
    /// The cursor.
    pub selected: Pos,
    /// The remembered states, the latest one last.
    pub undo: Seq<Snapshot>,
    /// All piles: the foundations, then the columns, the free cells, the deck
    /// pile and the waste.
    pub piles: Seq<PileView>,
    /// The redeals that are left; negative for no limit.
    pub redeals: i8,
}

/// The piles of a game as values.
pub open spec fn views(piles: Seq<Pile>) -> Seq<PileView> {
    Seq::new(piles.len(), |i: int| piles[i]@)
}

/// The cards of each pile.
pub open spec fn stacks(piles: Seq<PileView>) -> Seq<Seq<Card>> {
    Seq::new(piles.len(), |i: int| piles[i].cards)
}

/// The same piles with other cards in pile `i`.
pub open spec fn with_cards(piles: Seq<PileView>, i: int, cards: Seq<Card>) -> Seq<PileView> {
    piles.update(i, PileView { conf: piles[i].conf, cards })
}

/// The same piles with the cards of a remembered state.
pub open spec fn restacked(piles: Seq<PileView>, cards: Seq<Seq<Card>>) -> Seq<PileView> {
    Seq::new(piles.len(), |i: int| PileView { conf: piles[i].conf, cards: cards[i] })
}

/// The number of cards in all piles together.
pub open spec fn card_total(stacks: Seq<Seq<Card>>) -> nat
    decreases stacks.len(),
{
    if stacks.len() == 0 {
        0
    } else {
        card_total(stacks.drop_last()) + stacks.last().len()
    }
}

/// Whether every card can be dealt: a regular face of a regular suit.
pub open spec fn all_regular(cards: Seq<Card>) -> bool {
    forall|i: int| 0 <= i < cards.len() ==> (#[trigger] cards[i]).is_regular()
}

/// Whether `card` may lie directly on `below` under a suit order and a face order.
pub open spec fn link_ok(so: SuitOrder, fo: FaceOrder, card: Card, below: Card) -> bool {
    let suit_fits = match so {
        SuitOrder::SameSuit => card.same_suit(below),
        SuitOrder::SameColor => card.same_color(below),
        SuitOrder::AlternateColor => !card.same_color(below),
        SuitOrder::Any => true,
        SuitOrder::Forbid => false,
    };
    let diff = card.rank_diff(below);
    let face_fits = match fo {
        FaceOrder::Asc => diff == -1,
        FaceOrder::Desc => diff == 1,
        FaceOrder::Any => diff == 1 || diff == -1,
    };
    suit_fits && face_fits
}

/// The length of the run at the top of a pile in which each card may lie on the
/// one below it. A pile of one card, or of none, is its own run.
pub open spec fn run_len(cards: Seq<Card>, so: SuitOrder, fo: FaceOrder) -> nat
    decreases cards.len(),
{
    if cards.len() < 2 {
        cards.len()
    } else if link_ok(so, fo, cards[cards.len() - 1], cards[cards.len() - 2]) {
        1 + run_len(cards.drop_last(), so, fo)
    } else {
        1
    }
}

/// The depth of the first face-up card counted from the bottom of a pile: how
/// many cards lie above it. It is 0 if no card is face-up.
pub open spec fn first_up_row(cards: Seq<Card>) -> nat
    decreases cards.len(),
{
    if cards.len() == 0 {
        0
    } else if cards[0].up {
        (cards.len() - 1) as nat
    } else {
        first_up_row(cards.drop_first())
    }
}

/// What is left of a pile when its top `n` cards are taken.
pub open spec fn without_top(from: Seq<Card>, n: int) -> Seq<Card> {
    from.take(from.len() - n)
}

/// A pile after the top `n` cards of `from` were put on it one by one, the top
/// card first, each turned face-up or face-down.
pub open spec fn poured_onto(from: Seq<Card>, onto: Seq<Card>, n: int, up: bool) -> Seq<Card> {
    Seq::new(
        (onto.len() + n) as nat,
        |j: int|
            if j < onto.len() {
                onto[j]
            } else {
                from[from.len() - 1 - (j - onto.len())].turned(up)
            },
    )
}

/// The piles after the top `n` cards of pile `from` were put on pile `to` one by
/// one, each turned face-up or face-down.
pub open spec fn poured(piles: Seq<PileView>, from: int, to: int, n: int, up: bool) -> Seq<
    PileView,
> {
    with_cards(
        with_cards(piles, from, without_top(piles[from].cards, n)),
        to,
        poured_onto(piles[from].cards, piles[to].cards, n, up),
    )
}

/// How a pile behaves by the rules: the foundations take their start and their
/// orders from their descriptions; the columns take the orders, the playable
/// cards and the refill face of the rules, and may be take-only; the free cells
/// hold any one card; of the deck pile and the waste only the waste can be
/// selected and lies face-up, and neither takes a card from the player.
pub open spec fn slot_rules(conf: Conf, i: int) -> SlotConf {
    let f = conf.fnd_slots() as int;
    let c = conf.col_slots() as int;
    let t = conf.temp_slots() as int;
    if i < f {
        SlotConf {
            start_face: conf.fnd@[i].first,
            start_suit: conf.fnd@[i].suit,
            suit_order: conf.fnd@[i].sorder,
            face_order: conf.fnd@[i].forder,
            ..SlotConf::temp_rules()
        }
    } else if i < f + c {
        SlotConf {
            playable: conf.playable,
            face_order: conf.col_forder,
            suit_order: conf.col_sorder,
            refill: conf.col_refill != Face::Empty && conf.col_refill != Face::Unavail,
            start_face: conf.col_refill,
            take_only: conf.cols@[i - f].take_only,
            ..SlotConf::col_rules()
        }
    } else if i < f + c + t {
        SlotConf::temp_rules()
    } else {
        SlotConf { selectable: i == f + c + t + 1, all_up: i == f + c + t + 1, ..SlotConf::pile_rules() }
    }
}

/// The number of columns before column `c` that take cards.
pub open spec fn open_cols_before(conf: Conf, c: int) -> nat
    decreases c,
{
    if c <= 0 {
        0
    } else if conf.cols@[c - 1].take_only {
        open_cols_before(conf, c - 1)
    } else {
        open_cols_before(conf, c - 1) + 1
    }
}

/// The number of cards that the columns before column `c` start with.
pub open spec fn cards_before(conf: Conf, c: int) -> nat
    decreases c,
{
    if c <= 0 {
        0
    } else {
        cards_before(conf, c - 1) + conf.cols@[c - 1].count as nat
    }
}

/// How many cards of column `c` start face-up: as many as the rules say, but
/// one if they say none, and never more than the column holds.
pub open spec fn start_up(conf: Conf, c: int) -> nat {
    let col = conf.cols@[c];
    if col.up == 0 && col.count != 0 {
        1
    } else if col.up > col.count {
        col.count as nat
    } else {
        col.up as nat
    }
}

/// The cards that a pile starts with when `count` cards are dealt to it from the
/// front of `deck`: the last one dealt lies on top, and the top `up` are turned
/// face-up.
pub open spec fn dealt_stack(deck: Seq<Card>, count: int, up: int) -> Seq<Card> {
    Seq::new(
        count as nat,
        |i: int|
            if count - i <= up {
                deck[i].turned(true)
            } else {
                deck[i]
            },
    )
}

/// The number of cards that all columns start with.
pub open spec fn cols_need(conf: Conf) -> nat {
    cards_before(conf, conf.col_slots() as int)
}

/// The number of cards that lie on the waste at the start, when `rest` cards
/// are left for the deck pile: those of one deal, where there is a waste.
pub open spec fn start_waste(conf: Conf, rest: nat) -> nat {
    match conf.pile {
        Some(p) => if p.pile_to_cols {
            0
        } else if rest < p.deal_by {
            rest
        } else {
            p.deal_by as nat
        },
        None => 0,
    }
}

/// The cards that pile `i` starts with when a game is dealt from `deck`. The
/// columns are dealt first, one after another. The foundations and the free
/// cells start empty. What is left goes to the deck pile in the order of the
/// deck, and one deal of it from there to the waste, face-up.
pub open spec fn start_cards(conf: Conf, deck: Seq<Card>, i: int) -> Seq<Card> {
    let f = conf.fnd_slots() as int;
    let c = conf.col_slots() as int;
    let d = f + c + conf.temp_slots();
    let rest = deck.skip(cols_need(conf) as int);
    let n = start_waste(conf, rest.len()) as int;
    if f <= i < f + c {
        dealt_stack(
            deck.skip(cards_before(conf, i - f) as int),
            conf.cols@[i - f].count as int,
            start_up(conf, i - f) as int,
        )
    } else if i == d {
        without_top(rest, n)
    } else if i == d + 1 {
        poured_onto(rest, Seq::empty(), n, true)
    } else {
        Seq::empty()
    }
}

/// The piles at the start of a game that is dealt from `deck`.
pub open spec fn start_piles(conf: Conf, deck: Seq<Card>) -> Seq<PileView> {
    Seq::new(
        conf.slot_total(),
        |i: int| PileView { conf: slot_rules(conf, i), cards: start_cards(conf, deck, i) },
    )
}

/// The piles after the columns were dealt from `deck`, and nothing else.
pub open spec fn cols_dealt(conf: Conf, deck: Seq<Card>) -> Seq<PileView> {
    Seq::new(
        conf.slot_total(),
        |i: int|
            PileView {
                conf: slot_rules(conf, i),
                cards: if conf.fnd_slots() <= i < conf.fnd_slots() + conf.col_slots() {
                    start_cards(conf, deck, i)
                } else {
                    Seq::empty()
                },
            },
    )
}

/// The piles of the rules with no card in them.
pub open spec fn bare_piles(conf: Conf) -> Seq<PileView> {
    Seq::new(
        conf.slot_total(),
        |i: int| PileView { conf: slot_rules(conf, i), cards: Seq::empty() },
    )
}

/// Why a deck of `deck_len` cards cannot be dealt by the rules, if it cannot.
pub enum StartFault {
    /// The columns need more cards than the deck has.
    TooFewCards,
    /// Cards are left after the columns, and there is no deck pile for them.
    CardsLeft,
}

/// Whether a deck of `deck_len` cards can be dealt by the rules, and if not, why.
pub open spec fn start_fault(conf: Conf, deck_len: nat) -> Option<StartFault> {
    if cols_need(conf) > deck_len {
        Some(StartFault::TooFewCards)
    } else if conf.pile is None && cols_need(conf) < deck_len {
        Some(StartFault::CardsLeft)
    } else {
        None
    }
}

/// A game at its start, dealt from `deck`: every card lies in a pile, the cursor
/// is on the top of the first column, nothing is remembered, and the redeals
/// are those of the rules.
pub open spec fn started(conf: Conf, deck: Seq<Card>) -> GameView {
    GameView {
        conf,
        deck: Seq::empty(),
        selected: Pos { col: conf.fnd_slots() as usize, row: 0 },
        undo: Seq::empty(),
        piles: start_piles(conf, deck),
        redeals: conf.redeal_limit(),
    }
}

/// Piles without cards hold no cards.
pub proof fn lemma_total_of_empty(s: Seq<Seq<Card>>)
    requires
        forall|i: int| 0 <= i < s.len() ==> (#[trigger] s[i]).len() == 0,
    ensures
        card_total(s) == 0,
    decreases s.len(),
{
    if s.len() > 0 {
        lemma_total_of_empty(s.drop_last());
    }
}

/// The columns before a later column start with no fewer cards.
pub proof fn lemma_cards_before_grow(conf: Conf, i: int, j: int)
    requires
        0 <= i <= j,
    ensures
        cards_before(conf, i) <= cards_before(conf, j),
    decreases j - i,
{
    if i < j {
        lemma_cards_before_grow(conf, i, j - 1);
    }
}

impl Snapshot {
    /// A remembered state fits a game if it has the game's number of piles, the
    /// cards of the game, regular cards only, each pile lying as the pile asks,
    /// and a cursor on a pile.
    pub open spec fn fits(self, g: GameView) -> bool {
        &&& self.piles.len() == g.piles.len()
        &&& self.selected.col < g.piles.len()
        &&& card_total(self.piles) + g.deck.len() == 52 * g.conf.deck_count
        &&& bag_total(self.piles).add(bag(g.deck)) == bag(fresh_cards(g.conf.deck_count as nat))
        &&& forall|i: int| 0 <= i < self.piles.len() ==> all_regular(#[trigger] self.piles[i])
        &&& forall|i: int|
            0 <= i < self.piles.len() ==> tidy(g.piles[i].conf, #[trigger] self.piles[i])
    }

    /// Two remembered states look alike if the redeals left and the size of each
    /// pile are the same.
    pub open spec fn same_shape(self, other: Snapshot) -> bool {
        &&& self.redeals == other.redeals
        &&& forall|i: int|
            0 <= i < self.piles.len() ==> (#[trigger] self.piles[i]).len() == other.piles[i].len()
    }
}

impl GameView {
    /// The index of the first foundation pile.
    pub open spec fn first_fnd(self) -> int {
        0
    }

    /// The index of the first column.
    pub open spec fn first_col(self) -> int {
        self.conf.fnd_slots() as int
    }

    /// The index where the free cells start.
    pub open spec fn first_temp(self) -> int {
        self.first_col() + self.conf.col_slots()
    }

    /// The index of the deck pile, where there is one; the waste follows it.
    pub open spec fn first_pile(self) -> int {
        self.first_temp() + self.conf.temp_slots()
    }

    /// Whether pile `i` is a column.
    pub open spec fn is_col(self, i: int) -> bool {
        self.first_col() <= i < self.first_temp()
    }

    /// The layout: the rules have what the engine needs, the piles are those of
    /// the rules in their fixed order, and each behaves as the rules say.
    pub open spec fn laid_out(self) -> bool {
        &&& self.conf.fits_engine()
        &&& self.piles.len() == self.conf.slot_total()
        &&& forall|i: int|
            0 <= i < self.piles.len() ==> (#[trigger] self.piles[i]).conf == slot_rules(self.conf, i)
    }

    /// Every card in every pile is regular.
    pub open spec fn cards_regular(self) -> bool {
        forall|i: int| 0 <= i < self.piles.len() ==> all_regular((#[trigger] self.piles[i]).cards)
    }

    /// The piles and the deck hold the cards of the packs, by their number.
    pub open spec fn cards_kept(self) -> bool {
        card_total(stacks(self.piles)) + self.deck.len() == 52 * self.conf.deck_count
    }

    /// The piles and the deck hold exactly the cards of the packs: each card as
    /// often as there are packs, and no other.
    pub open spec fn cards_same(self) -> bool {
        bag_total(stacks(self.piles)).add(bag(self.deck)) == bag(
            fresh_cards(self.conf.deck_count as nat),
        )
    }

    /// The cards of every pile lie as the pile asks: all face-up on the
    /// foundations, the free cells and the waste, all face-down in the deck
    /// pile, and in a column no face-down card above a face-up one.
    pub open spec fn cards_tidy(self) -> bool {
        forall|i: int|
            0 <= i < self.piles.len() ==> tidy(
                (#[trigger] self.piles[i]).conf,
                self.piles[i].cards,
            )
    }

    /// Every remembered state fits the game.
    pub open spec fn history_fits(self) -> bool {
        forall|k: int| 0 <= k < self.undo.len() ==> (#[trigger] self.undo[k]).fits(self)
    }

    /// A state that a game can be in: laid out by its rules, no card lost or
    /// made up, the cards of every pile lying as the pile asks, the cursor on a
    /// pile, and a history of such states.
    pub open spec fn wf(self) -> bool {
        &&& self.laid_out()
        &&& self.cards_regular()
        &&& self.cards_kept()
        &&& self.cards_same()
        &&& self.cards_tidy()
        &&& self.selected.col < self.piles.len()
        &&& self.history_fits()
    }

    /// The card at a place, and the empty card where there is none.
    pub open spec fn card_at(self, loc: Pos) -> Card {
        if loc.is_nowhere() || loc.col >= self.piles.len() {
            Card::empty()
        } else {
            let cards = self.piles[loc.col as int].cards;
            if loc.row >= cards.len() {
                Card::empty()
            } else {
                cards[cards.len() - 1 - loc.row]
            }
        }
    }

    /// The length of the ordered run at the top of a pile, by the orders of that
    /// pile; 0 where there is no such pile.
    pub open spec fn ordered_count(self, pile_id: int) -> nat {
        if 0 <= pile_id < self.piles.len() {
            let p = self.piles[pile_id];
            run_len(p.cards, p.conf.suit_order, p.conf.face_order)
        } else {
            0
        }
    }

    /// Whether the cursor may rest on a place: on a face-up card of a
    /// selectable pile, which is the top card where the rules play top cards
    /// only, and a card of the ordered run where they play ordered cards.
    pub open spec fn selectable(self, pos: Pos) -> bool {
        &&& pos.col < self.piles.len()
        &&& !(self.conf.playable == Playable::Top && pos.row != 0)
        &&& !(self.conf.playable == Playable::Ordered && pos.row >= self.ordered_count(
            pos.col as int,
        ))
        &&& self.piles[pos.col as int].conf.selectable
        &&& pos.row < self.piles[pos.col as int].cards.len()
        &&& self.at_row(pos).up
    }

    /// The card of pile `pos.col` above which `pos.row` cards lie.
    pub open spec fn at_row(self, pos: Pos) -> Card {
        let cards = self.piles[pos.col as int].cards;
        cards[cards.len() - 1 - pos.row]
    }

    /// Whether a place other than the cursor's holds a face-up card that the
    /// rules of its pile let be picked; here `loc.row` counts from the bottom of
    /// the pile.
    pub open spec fn can_pick(self, loc: Pos) -> bool {
        &&& loc != self.selected
        &&& loc.col < self.piles.len()
        &&& !(self.piles[loc.col as int].conf.playable == Playable::Top && loc.row != 0)
        &&& loc.row < self.piles[loc.col as int].cards.len()
        &&& self.piles[loc.col as int].cards[loc.row as int].up
    }

    /// Whether the card at `pos`, with the cards above it, may be put on pile
    /// `pile_id`.
    pub open spec fn can_move(self, pos: Pos, pile_id: int) -> bool {
        let card = self.card_at(pos);
        &&& card.up
        &&& card.face != Face::Empty
        &&& 0 <= pile_id < self.piles.len()
        &&& {
            let pile = self.piles[pile_id];
            &&& !(pile.conf.playable == Playable::Top && pos.row != 0)
            &&& !pile.conf.take_only
            &&& if pile.cards.len() == 0 {
                &&& pile.conf.refill
                &&& pile.conf.start_suit == Suit::Any || pile.conf.start_suit == card.suit
                &&& pile.conf.start_face == Face::Any || pile.conf.start_face == card.face
            } else {
                link_ok(pile.conf.suit_order, pile.conf.face_order, card, pile.cards.last())
            }
        }
    }

    /// Whether pile `d` is another pile than that of `from` and takes the card there.
    pub open spec fn is_dest(self, from: Pos, d: int) -> bool {
        d != from.col && self.can_move(from, d)
    }

    /// The first pile from `start` on that takes the card at `from`.
    pub open spec fn first_dest(self, from: Pos, start: int) -> Option<int>
        decreases self.piles.len() - start,
    {
        if start < 0 || start >= self.piles.len() {
            None
        } else if self.is_dest(from, start) {
            Some(start)
        } else {
            self.first_dest(from, start + 1)
        }
    }

    /// What a move comes to: the place it starts from and the pile it goes to,
    /// or the reason why it is refused. Without a source the cursor is taken;
    /// without a destination the first pile that takes the card.
    pub open spec fn move_plan(self, from: Pos, to: Pos) -> Result<(Pos, int), SolError> {
        if from.is_nowhere() && self.selected.is_nowhere() {
            Err(SolError::NotSelected)
        } else {
            let src = if from.is_nowhere() {
                self.selected
            } else {
                from
            };
            if self.card_at(src).face == Face::Empty {
                Err(SolError::InvalidMove)
            } else if self.piles[src.col as int].conf.playable == Playable::Top && src.row != 0 {
                Err(SolError::InvalidMove)
            } else {
                let dst = if to.is_nowhere() {
                    match self.first_dest(src, 0) {
                        Some(d) => Pos { col: d as usize, row: 0 },
                        None => to,
                    }
                } else {
                    to
                };
                if dst.is_nowhere() || dst.row != 0 {
                    Err(SolError::NoDestination)
                } else if !self.can_move(src, dst.col as int) {
                    Err(SolError::InvalidMove)
                } else {
                    Ok((src, dst.col as int))
                }
            }
        }
    }

    /// What stays in the pile of `src` when the card there leaves with the cards
    /// above it: the cards below, and the new top card turned face-up where the
    /// pile turns its cards.
    pub open spec fn left_behind(self, src: Pos) -> Seq<Card> {
        let pile = self.piles[src.col as int];
        let rest = without_top(pile.cards, src.row + 1);
        if rest.len() > 0 && !rest.last().up && pile.conf.flip {
            rest.update(rest.len() - 1, rest.last().turned(true))
        } else {
            rest
        }
    }

    /// The cards that leave with the card at `src`, in their order.
    pub open spec fn taken(self, src: Pos) -> Seq<Card> {
        let cards = self.piles[src.col as int].cards;
        cards.skip(cards.len() - (src.row + 1))
    }

    /// The game after the card at `src` went to pile `dst` with the cards above it.
    pub open spec fn moved(self, src: Pos, dst: int) -> GameView {
        let lifted = with_cards(self.piles, src.col as int, self.left_behind(src));
        GameView { piles: with_cards(lifted, dst, lifted[dst].cards + self.taken(src)), ..self }
    }

    /// Whether the card at `p` is worth a hint: it lies outside the
    /// foundations, may be taken by the rules of its pile, lies face-up, and some
    /// other pile takes it.
    pub open spec fn is_hint(self, p: Pos) -> bool {
        &&& self.conf.fnd_slots() <= p.col < self.piles.len()
        &&& p.row < self.piles[p.col as int].cards.len()
        &&& {
            let pile = self.piles[p.col as int];
            &&& !((pile.conf.take_only || pile.conf.playable == Playable::Top) && p.row > 0)
            &&& !(pile.conf.playable == Playable::Ordered && p.row >= self.ordered_count(
                p.col as int,
            ))
            &&& self.at_row(p).up
            &&& exists|d: int| 0 <= d < self.piles.len() && #[trigger] self.is_dest(p, d)
        }
    }

    /// The game after `move_card`: after the move where it is made, and as it
    /// was where it is refused.
    pub open spec fn after_move(self, from: Pos, to: Pos) -> GameView {
        match self.move_plan(from, to) {
            Ok((src, dst)) => self.moved(src, dst),
            Err(_) => self,
        }
    }

    /// Whether a hint for `a` is listed before one for `b`: the piles in their
    /// order, and within a pile the deeper card first.
    pub open spec fn hint_before(a: Pos, b: Pos) -> bool {
        a.col < b.col || (a.col == b.col && a.row > b.row)
    }

    /// Whether the game is won: every pile but the foundations is empty.
    pub open spec fn is_won(self) -> bool {
        forall|i: int|
            self.conf.fnd_slots() <= i < self.piles.len() ==> (#[trigger] self.piles[i]).cards.len()
                == 0
    }

    /// Whether dealing can do anything: the deck pile holds a card or, where
    /// there is a waste, a redeal is left.
    pub open spec fn can_deal(self) -> bool {
        let n = self.conf.pile_slots();
        if n == 0 {
            false
        } else if n == 1 {
            self.piles[self.first_pile()].cards.len() > 0
        } else {
            self.piles[self.first_pile()].cards.len() > 0 || self.redeals != 0
        }
    }

    /// Whether `deal` reports a deal. Without a deck pile there is none. A deal
    /// to the columns is always reported. A deal to the waste is reported if a
    /// card goes there: not from an empty deck pile when no redeal is left or
    /// the waste is empty too.
    pub open spec fn deals(self) -> bool {
        let d = self.first_pile();
        if self.conf.pile is None {
            false
        } else if self.conf.pile->Some_0.pile_to_cols {
            true
        } else if self.piles[d].cards.len() == 0 && self.redeals == 0 {
            false
        } else {
            self.piles[d].cards.len() > 0 || self.piles[d + 1].cards.len() > 0
        }
    }

    /// The piles after one card went from the deck pile to each column that
    /// takes cards, in the order of the columns, as far as the deck pile lasts.
    pub open spec fn dealt_to_cols(self) -> Seq<PileView> {
        let d = self.first_pile();
        let deck = self.piles[d].cards;
        let open = open_cols_before(self.conf, self.conf.col_slots() as int);
        let m = if deck.len() < open {
            deck.len()
        } else {
            open
        };
        Seq::new(
            self.piles.len(),
            |i: int|
                if i == d {
                    PileView { conf: self.piles[i].conf, cards: without_top(deck, m as int) }
                } else if self.is_col(i) && !self.piles[i].conf.take_only && open_cols_before(
                    self.conf,
                    i - self.first_col(),
                ) < m {
                    PileView {
                        conf: self.piles[i].conf,
                        cards: self.piles[i].cards.push(
                            deck[deck.len() - 1 - open_cols_before(self.conf, i - self.first_col())].turned(
                                true,
                            ),
                        ),
                    }
                } else {
                    self.piles[i]
                },
        )
    }

    /// Whether dealing to the waste first turns the waste back into the deck.
    pub open spec fn recycles(self) -> bool {
        let d = self.first_pile();
        self.piles[d].cards.len() == 0 && self.piles[d + 1].cards.len() > 0
    }

    /// One redeal fewer; the count stops at the least value it can hold.
    pub open spec fn redeals_after_recycle(self) -> i8 {
        if self.redeals > i8::MIN {
            (self.redeals - 1) as i8
        } else {
            self.redeals
        }
    }

    /// The piles after the whole waste went back to the deck pile, face-down.
    pub open spec fn recycled(self) -> Seq<PileView> {
        let d = self.first_pile();
        poured(self.piles, d + 1, d, self.piles[d + 1].cards.len() as int, false)
    }

    /// The game after a deal to the waste: an empty deck pile is first filled
    /// from the waste, which costs a redeal; then as many cards as the rules say,
    /// or as are left, go from the deck pile to the waste, face-up.
    pub open spec fn dealt_to_waste(self) -> GameView {
        let d = self.first_pile();
        let base = if self.recycles() {
            GameView { piles: self.recycled(), redeals: self.redeals_after_recycle(), ..self }
        } else {
            self
        };
        let have = base.piles[d].cards.len();
        let n = if have < self.conf.dealt_at_once() {
            have as int
        } else {
            self.conf.dealt_at_once() as int
        };
        GameView { piles: poured(base.piles, d, d + 1, n, true), ..base }
    }

    /// The game after `deal`.
    pub open spec fn dealt(self) -> GameView {
        if !self.deals() {
            self
        } else if self.conf.pile->Some_0.pile_to_cols {
            GameView { piles: self.dealt_to_cols(), ..self }
        } else {
            self.dealt_to_waste()
        }
    }

    /// The state as it would be remembered now.
    pub open spec fn snapshot(self) -> Snapshot {
        Snapshot { redeals: self.redeals, piles: stacks(self.piles), selected: self.selected }
    }

    /// The game after the present state was remembered.
    pub open spec fn remembered(self) -> GameView {
        GameView { undo: self.undo.push(self.snapshot()), ..self }
    }

    /// The game after the latest remembered state was dropped, if it looks like
    /// the one before it.
    pub open spec fn squashed(self) -> GameView {
        let n = self.undo.len();
        if n >= 2 && self.undo[n - 1].same_shape(self.undo[n - 2]) {
            GameView { undo: self.undo.drop_last(), ..self }
        } else {
            self
        }
    }

    /// The game after it went back to the latest remembered state, which is
    /// then forgotten.
    pub open spec fn undone(self) -> GameView {
        if self.undo.len() == 0 {
            self
        } else {
            let last = self.undo.last();
            GameView {
                redeals: last.redeals,
                selected: last.selected,
                piles: restacked(self.piles, last.piles),
                undo: self.undo.drop_last(),
                ..self
            }
        }
    }

    /// The game after every remembered state was forgotten.
    pub open spec fn forgetful(self) -> GameView {
        GameView { undo: Seq::empty(), ..self }
    }

    /// The row that the cursor takes when it goes one card deeper into column
    /// `col` from row `curr`: it stays where no face-up card lies deeper.
    pub open spec fn row_up(self, col: int, curr: usize) -> usize {
        let cards = self.piles[col].cards;
        if cards.len() < 2 || curr >= first_up_row(cards) {
            curr
        } else {
            (curr + 1) as usize
        }
    }

    /// The place that the cursor takes when it goes to the next pile of a group
    /// of `count` piles that starts at `first`: from outside the group and from
    /// its last pile to the top of the first.
    pub open spec fn next_in_group(self, first: int, count: int) -> Pos {
        let col = self.selected.col;
        if col < first || col >= first + count || col == first + count - 1 {
            Pos { col: first as usize, row: 0 }
        } else {
            Pos { col: (col + 1) as usize, row: self.selected.row }
        }
    }

    /// Whether the cursor may go deeper or higher within its pile: only in a
    /// column that takes cards.
    pub open spec fn rows_open(self) -> bool {
        !self.piles[self.selected.col as int].conf.take_only && self.is_col(self.selected.col as int)
    }

    /// The place that the cursor takes in column `col` when it is asked to go
    /// one card deeper: the next row, if it may rest there.
    pub open spec fn deeper(self, col: int) -> Option<usize> {
        let row = self.selected.row;
        let new_row = self.row_up(col, row);
        if new_row > row && !self.selectable(Pos { col: self.selected.col, row: new_row }) {
            None
        } else {
            Some(new_row)
        }
    }

    /// The place of the cursor after `Right`: the top of the next pile, and from
    /// the last pile the top of the first.
    pub open spec fn target_right(self) -> Pos {
        if self.selected.col == self.piles.len() - 1 {
            Pos { col: 0, row: 0 }
        } else {
            Pos { col: (self.selected.col + 1) as usize, row: 0 }
        }
    }

    /// The place of the cursor after `Left`: the top of the pile before, and
    /// from the first pile the top of the last.
    pub open spec fn target_left(self) -> Pos {
        if self.selected.col == 0 {
            Pos { col: (self.piles.len() - 1) as usize, row: 0 }
        } else {
            Pos { col: (self.selected.col - 1) as usize, row: 0 }
        }
    }

    /// The place of the cursor after `Down`: one card higher, if it is below the
    /// top of a column that takes cards.
    pub open spec fn target_down(self) -> Pos {
        let cur = self.selected;
        if cur.row == 0 || !self.rows_open() {
            cur
        } else {
            Pos { col: cur.col, row: (cur.row - 1) as usize }
        }
    }

    /// The place of the cursor after `Up`: one card deeper in a column that
    /// takes cards, if the cursor may rest there.
    pub open spec fn target_up(self) -> Pos {
        let cur = self.selected;
        if !self.rows_open() {
            cur
        } else {
            match self.deeper(cur.col as int) {
                Some(row) => Pos { col: cur.col, row },
                None => cur,
            }
        }
    }

    /// The place of the cursor after `ColUp(n)`: the top of column `n`; from
    /// within that column one card deeper, and from its deepest card its top.
    pub open spec fn target_col_up(self, n: usize) -> Pos {
        let cur = self.selected;
        let col = self.first_col() + n;
        if n >= self.conf.col_slots() {
            cur
        } else if cur.col != col || self.piles[col].cards.len() < 2 {
            Pos { col: col as usize, row: 0 }
        } else if self.piles[col].conf.take_only {
            cur
        } else {
            match self.deeper(col) {
                Some(row) => if row != cur.row {
                    Pos { col: cur.col, row }
                } else {
                    Pos { col: cur.col, row: 0 }
                },
                None => cur,
            }
        }
    }

    /// The place of the cursor after `ColDown(n)`: the top of column `n`; from
    /// within that column one card higher, and from its top its deepest
    /// face-up card, if the cursor may rest there.
    pub open spec fn target_col_down(self, n: usize) -> Pos {
        let cur = self.selected;
        let col = self.first_col() + n;
        if n >= self.conf.col_slots() {
            cur
        } else if cur.col != col || self.piles[col].cards.len() < 2 {
            Pos { col: col as usize, row: 0 }
        } else if self.piles[col].conf.take_only {
            cur
        } else if cur.row == 0 {
            let deepest = Pos { col: cur.col, row: first_up_row(self.piles[col].cards) as usize };
            if self.selectable(deepest) {
                deepest
            } else {
                cur
            }
        } else {
            Pos { col: cur.col, row: (cur.row - 1) as usize }
        }
    }

    /// The place that the cursor takes when it is asked to go in a direction; it
    /// is the place where it is when it cannot go there.
    pub open spec fn cursor_target(self, dir: Direction) -> Pos {
        match dir {
            Direction::Right => self.target_right(),
            Direction::Left => self.target_left(),
            Direction::Down => self.target_down(),
            Direction::Up => self.target_up(),
            Direction::ColUp(n) => self.target_col_up(n),
            Direction::ColDown(n) => self.target_col_down(n),
            Direction::Waste => self.next_in_group(self.first_fnd(), self.conf.fnd_slots() as int),
            Direction::Temp => if self.conf.temp_slots() == 0 {
                self.selected
            } else {
                self.next_in_group(self.first_temp(), self.conf.temp_slots() as int)
            },
            Direction::Pile => if self.conf.pile_slots() == 0 {
                self.selected
            } else {
                self.next_in_group(self.first_pile(), self.conf.pile_slots() as int)
            },
        }
    }
}

/// Other cards in one pile change the number of all cards by the difference.
pub proof fn lemma_total_update(s: Seq<Seq<Card>>, i: int, c: Seq<Card>)
    requires
        0 <= i < s.len(),
    ensures
        card_total(s.update(i, c)) == card_total(s) - s[i].len() + c.len(),
    decreases s.len(),
{
    let u = s.update(i, c);
    if i == s.len() - 1 {
        assert(u.drop_last() =~= s.drop_last());
    } else {
        assert(u.drop_last() =~= s.drop_last().update(i, c));
        lemma_total_update(s.drop_last(), i, c);
    }
}

/// Other cards in one pile leave the other piles, and how each pile behaves, as
/// they are.
pub proof fn lemma_with_cards(piles: Seq<PileView>, i: int, cards: Seq<Card>)
    requires
        0 <= i < piles.len(),
    ensures
        with_cards(piles, i, cards).len() == piles.len(),
        stacks(with_cards(piles, i, cards)) == stacks(piles).update(i, cards),
        card_total(stacks(with_cards(piles, i, cards))) == card_total(stacks(piles))
            - piles[i].cards.len() + cards.len(),
        bag_total(stacks(with_cards(piles, i, cards))).add(bag(piles[i].cards)) == bag_total(
            stacks(piles),
        ).add(bag(cards)),
        forall|j: int|
            0 <= j < piles.len() ==> (#[trigger] with_cards(piles, i, cards)[j]).conf
                == piles[j].conf,
        forall|j: int|
            0 <= j < piles.len() && j != i ==> #[trigger] with_cards(piles, i, cards)[j]
                == piles[j],
        with_cards(piles, i, cards)[i].cards == cards,
{
    assert(stacks(with_cards(piles, i, cards)) =~= stacks(piles).update(i, cards));
    lemma_total_update(stacks(piles), i, cards);
    lemma_bag_total_update(stacks(piles), i, cards);
}

/// Cards that go from one pile to another are neither lost nor made up.
pub proof fn lemma_poured(piles: Seq<PileView>, from: int, to: int, n: int, up: bool)
    requires
        0 <= from < piles.len(),
        0 <= to < piles.len(),
        from != to,
        0 <= n <= piles[from].cards.len(),
    ensures
        poured(piles, from, to, n, up).len() == piles.len(),
        forall|j: int|
            0 <= j < piles.len() ==> (#[trigger] poured(piles, from, to, n, up)[j]).conf
                == piles[j].conf,
        forall|j: int|
            0 <= j < piles.len() && j != from && j != to ==> #[trigger] poured(
                piles,
                from,
                to,
                n,
                up,
            )[j] == piles[j],
        poured(piles, from, to, n, up)[from].cards == without_top(piles[from].cards, n),
        poured(piles, from, to, n, up)[to].cards == poured_onto(
            piles[from].cards,
            piles[to].cards,
            n,
            up,
        ),
        card_total(stacks(poured(piles, from, to, n, up))) == card_total(stacks(piles)),
        bag_total(stacks(poured(piles, from, to, n, up))) == bag_total(stacks(piles)),
        (forall|j: int| 0 <= j < piles.len() ==> all_regular((#[trigger] piles[j]).cards))
            ==> (forall|j: int|
            0 <= j < piles.len() ==> all_regular(
                (#[trigger] poured(piles, from, to, n, up)[j]).cards,
            )),
{
    let lifted = with_cards(piles, from, without_top(piles[from].cards, n));
    lemma_with_cards(piles, from, without_top(piles[from].cards, n));
    lemma_with_cards(lifted, to, poured_onto(piles[from].cards, piles[to].cards, n, up));
    lemma_bag_poured(piles[from].cards, piles[to].cards, n, up);
    assert(bag_total(stacks(poured(piles, from, to, n, up))) =~= bag_total(stacks(piles))) by {
        let a = bag_total(stacks(piles));
        let b = bag_total(stacks(lifted));
        let c = bag_total(stacks(poured(piles, from, to, n, up)));
        let left = bag(without_top(piles[from].cards, n));
        let onto = bag(poured_onto(piles[from].cards, piles[to].cards, n, up));
        assert(b.add(bag(piles[from].cards)) == a.add(left));
        assert(c.add(bag(piles[to].cards)) == b.add(onto));
        assert(onto.add(left) == bag(piles[to].cards).add(bag(piles[from].cards)));
        assert forall|v: Card| c.count(v) == a.count(v) by {
            assert(b.add(bag(piles[from].cards)).count(v) == a.add(left).count(v));
            assert(c.add(bag(piles[to].cards)).count(v) == b.add(onto).count(v));
            assert(onto.add(left).count(v) == bag(piles[to].cards).add(
                bag(piles[from].cards),
            ).count(v));
        }
    }
    if forall|j: int| 0 <= j < piles.len() ==> all_regular((#[trigger] piles[j]).cards) {
        assert forall|j: int| 0 <= j < piles.len() implies all_regular(
            (#[trigger] poured(piles, from, to, n, up)[j]).cards,
        ) by {
            assert(all_regular(piles[j].cards));
            assert(all_regular(piles[from].cards));
            assert(all_regular(piles[to].cards));
        }
    }
}

/// Further on there are no fewer columns that take cards.
pub proof fn lemma_open_cols_grow(conf: Conf, i: int, j: int)
    requires
        0 <= i <= j,
    ensures
        open_cols_before(conf, i) <= open_cols_before(conf, j),
    decreases j - i,
{
    if i < j {
        lemma_open_cols_grow(conf, i, j - 1);
    }
}

/// One card that goes from a pile to another ends face-up or face-down on top
/// of the other.
pub proof fn lemma_poured_one(from: Seq<Card>, onto: Seq<Card>, up: bool)
    requires
        from.len() > 0,
    ensures
        poured_onto(from, onto, 1, up) == onto.push(from.last().turned(up)),
        without_top(from, 1) == from.drop_last(),
{
    assert(poured_onto(from, onto, 1, up) =~= onto.push(from.last().turned(up)));
    assert(without_top(from, 1) =~= from.drop_last());
}

impl GameView {
    /// The redeals that are left do not matter to whether a game is well-formed.
    pub proof fn lemma_redeals(self, redeals: i8)
        requires
            self.wf(),
        ensures
            (GameView { redeals, ..self }).wf(),
    {
        let g = GameView { redeals, ..self };
        assert forall|k: int| 0 <= k < g.undo.len() implies (#[trigger] g.undo[k]).fits(g) by {
            assert(self.undo[k].fits(self));
        }
    }

    /// A cursor on any pile keeps a game well-formed.
    pub proof fn lemma_cursor(self, to: Pos)
        requires
            self.wf(),
            to.col < self.piles.len(),
        ensures
            (GameView { selected: to, ..self }).wf(),
    {
        let g = GameView { selected: to, ..self };
        assert forall|k: int| 0 <= k < g.undo.len() implies (#[trigger] g.undo[k]).fits(g) by {
            assert(self.undo[k].fits(self));
        }
    }

    /// Other cards in the piles keep a game well-formed as long as each pile
    /// keeps its behaviour, the cards are regular and lie as their piles ask,
    /// and they are the same cards as before.
    pub proof fn lemma_restack(self, piles: Seq<PileView>)
        requires
            self.wf(),
            piles.len() == self.piles.len(),
            forall|i: int| 0 <= i < piles.len() ==> (#[trigger] piles[i]).conf == self.piles[i].conf,
            forall|i: int| 0 <= i < piles.len() ==> all_regular((#[trigger] piles[i]).cards),
            forall|i: int|
                0 <= i < piles.len() ==> tidy((#[trigger] piles[i]).conf, piles[i].cards),
            card_total(stacks(piles)) == card_total(stacks(self.piles)),
            bag_total(stacks(piles)) == bag_total(stacks(self.piles)),
        ensures
            (GameView { piles, ..self }).wf(),
    {
        let g = GameView { piles, ..self };
        assert forall|k: int| 0 <= k < g.undo.len() implies (#[trigger] g.undo[k]).fits(g) by {
            let snap = self.undo[k];
            assert(snap.fits(self));
            assert forall|i: int| 0 <= i < snap.piles.len() implies tidy(
                g.piles[i].conf,
                #[trigger] snap.piles[i],
            ) by {
                assert(piles[i].conf == self.piles[i].conf);
            }
        }
    }

    /// A game stays well-formed when its state is remembered, when a remembered
    /// state is dropped, when all are forgotten, and when it goes back to the
    /// latest one.
    pub proof fn lemma_history(self)
        requires
            self.wf(),
        ensures
            self.remembered().wf(),
            self.squashed().wf(),
            self.forgetful().wf(),
            self.undone().wf(),
    {
        let r = self.remembered();
        assert forall|k: int| 0 <= k < r.undo.len() implies (#[trigger] r.undo[k]).fits(r) by {
            if k < self.undo.len() {
                assert(self.undo[k].fits(self));
            } else {
                assert forall|i: int| 0 <= i < self.piles.len() implies all_regular(
                    #[trigger] stacks(self.piles)[i],
                ) && tidy(r.piles[i].conf, stacks(self.piles)[i]) by {
                    assert(all_regular(self.piles[i].cards));
                    assert(tidy(self.piles[i].conf, self.piles[i].cards));
                }
            }
        }
        let s = self.squashed();
        assert forall|k: int| 0 <= k < s.undo.len() implies (#[trigger] s.undo[k]).fits(s) by {
            assert(self.undo[k].fits(self));
        }
        let u = self.undone();
        if self.undo.len() > 0 {
            let last = self.undo.last();
            assert(last.fits(self));
            assert(stacks(u.piles) =~= last.piles);
            assert forall|i: int| 0 <= i < u.piles.len() implies all_regular(
                (#[trigger] u.piles[i]).cards,
            ) && tidy(u.piles[i].conf, u.piles[i].cards) by {
                assert(all_regular(last.piles[i]));
                assert(tidy(self.piles[i].conf, last.piles[i]));
            }
            assert forall|k: int| 0 <= k < u.undo.len() implies (#[trigger] u.undo[k]).fits(u) by {
                let snap = self.undo[k];
                assert(snap.fits(self));
                assert forall|i: int| 0 <= i < snap.piles.len() implies tidy(
                    u.piles[i].conf,
                    #[trigger] snap.piles[i],
                ) by {
                    assert(u.piles[i].conf == self.piles[i].conf);
                }
            }
        }
    }

    /// The first pile that takes a card is one that takes it, and no pile before
    /// it does; where there is none, no pile takes the card.
    pub proof fn lemma_first_dest(self, from: Pos, start: int)
        requires
            0 <= start,
        ensures
            match self.first_dest(from, start) {
                Some(d) => start <= d < self.piles.len() && self.is_dest(from, d) && forall|j: int|
                    start <= j < d ==> !self.is_dest(from, j),
                None => forall|j: int| start <= j < self.piles.len() ==> !self.is_dest(from, j),
            },
        decreases self.piles.len() - start,
    {
        if start < self.piles.len() && !self.is_dest(from, start) {
            self.lemma_first_dest(from, start + 1);
        }
    }

    /// A move that is made keeps the game well-formed.
    pub proof fn lemma_moved(self, src: Pos, dst: int)
        requires
            self.wf(),
            src.col < self.piles.len(),
            src.row < self.piles[src.col as int].cards.len(),
            0 <= dst < self.piles.len(),
            self.can_move(src, dst),
        ensures
            self.moved(src, dst).wf(),
    {
        let s = src.col as int;
        let cards = self.piles[s].cards;
        let left = self.left_behind(src);
        let lifted = with_cards(self.piles, s, left);
        let after = with_cards(lifted, dst, lifted[dst].cards + self.taken(src));
        lemma_with_cards(self.piles, s, left);
        lemma_with_cards(lifted, dst, lifted[dst].cards + self.taken(src));
        assert(all_regular(cards));
        assert(all_regular(self.piles[dst].cards));
        assert forall|i: int| 0 <= i < after.len() implies all_regular(
            (#[trigger] after[i]).cards,
        ) by {
            assert(all_regular(self.piles[i].cards));
        }
        assert forall|i: int| 0 <= i < after.len() implies tidy(
            (#[trigger] after[i]).conf,
            after[i].cards,
        ) by {
            let k = src.row + 1;
            let from = self.piles[s].conf;
            let to = self.piles[dst].conf;
            let rest = without_top(cards, k);
            assert(tidy(self.piles[i].conf, self.piles[i].cards));
            assert(tidy(from, cards));
            assert(tidy(to, self.piles[dst].cards));
            assert(cards[cards.len() - k].up);
            assert(!lies_down(from));
            assert(to == slot_rules(self.conf, dst));
            assert(!lies_down(to));
            lemma_tidy_without_top(from, cards, k);
            if rest.len() > 0 {
                lemma_tidy_turned_top(from, rest);
            }
            assert(tidy(from, left));
            lemma_tidy_top_is_up(from, cards, k);
            lemma_tidy_with_up(to, lifted[dst].cards, self.taken(src));
        }
        assert(bag_total(stacks(after)) =~= bag_total(stacks(self.piles))) by {
            let k = src.row + 1;
            let rest = without_top(cards, k);
            let taken = self.taken(src);
            lemma_bag_same_faces(left, rest);
            lemma_bag_split(cards, cards.len() - k);
            lemma_bag_concat(lifted[dst].cards, taken);
            let a = bag_total(stacks(self.piles));
            let b = bag_total(stacks(lifted));
            let c = bag_total(stacks(after));
            assert(b.add(bag(cards)) == a.add(bag(left)));
            assert(c.add(bag(lifted[dst].cards)) == b.add(bag(lifted[dst].cards + taken)));
            assert(bag(cards) == bag(rest).add(bag(taken)));
            assert forall|v: Card| c.count(v) == a.count(v) by {
                assert(b.add(bag(cards)).count(v) == a.add(bag(left)).count(v));
                assert(c.add(bag(lifted[dst].cards)).count(v) == b.add(
                    bag(lifted[dst].cards + taken),
                ).count(v));
                assert(bag(cards).count(v) == bag(rest).add(bag(taken)).count(v));
                assert(bag(lifted[dst].cards + taken).count(v) == bag(lifted[dst].cards).add(
                    bag(taken),
                ).count(v));
            }
        }
        self.lemma_restack(after);
    }
}

} // verus!
