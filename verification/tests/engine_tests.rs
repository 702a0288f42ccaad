use solkit::card::{face_to_i8, i8_to_face, i8_to_suit, suit_to_i8, Card, Deck, Face, Suit};
use solkit::engine::{Direction, Game, Pos, SlotConf, ANY_COL};
use solkit::err::SolError;
use solkit::gconf::{
    ColConf, Conf, FaceOrder, FndSlot, PileConf, Playable, SuitOrder, TempConf,
};

fn fresh(count: usize) -> Vec<Card> {
    let mut out = Vec::new();
    for _ in 0..count {
        for s in 0i8..4 {
            for f in 0i8..13 {
                out.push(Card::new(i8_to_suit(s), i8_to_face(f)));
            }
        }
    }
    out
}

fn spades_first(ranks: &[i8]) -> Vec<Card> {
    let mut out: Vec<Card> = ranks.iter().map(|r| Card::new(Suit::Spade, i8_to_face(*r))).collect();
    for c in fresh(1) {
        if !out.contains(&c) {
            out.push(c);
        }
    }
    out
}

fn card(suit: Suit, face: Face, up: bool) -> Card {
    Card { face, suit, up }
}

fn ace_slot() -> FndSlot {
    FndSlot { first: Face::A, suit: Suit::Any, forder: FaceOrder::Asc, sorder: SuitOrder::SameSuit }
}

fn col(count: u8, up: u8) -> ColConf {
    ColConf { count, up, take_only: false }
}

fn klondike() -> Conf {
    let mut conf = Conf::new();
    conf.name = "Klondike".to_string();
    conf.playable = Playable::Any;
    conf.pile = Some(PileConf { deal_by: 3, redeals: -1, pile_to_cols: false });
    conf.fnd = vec![ace_slot(); 4];
    conf.cols =
        vec![col(1, 1), col(2, 1), col(3, 2), col(4, 2), col(5, 3), col(6, 3), col(7, 4)];
    conf.col_forder = FaceOrder::Desc;
    conf.col_sorder = SuitOrder::AlternateColor;
    conf.col_refill = Face::K;
    conf
}

fn start<'a>(conf: &'a Conf, cards: Vec<Card>) -> Game<'a> {
    assert_eq!(conf.validate(), Ok(()));
    assert_eq!(cards.len(), 52 * conf.deck_count as usize);
    Game::with_deck(conf, Deck::from_cards(cards)).unwrap()
}

fn piles(g: &Game) -> Vec<Vec<Card>> {
    let mut out = Vec::new();
    for i in 0..g.fnd_count() {
        out.push(g.fnd(i).unwrap().clone());
    }
    for i in 0..g.col_count() {
        out.push(g.col(i).unwrap().clone());
    }
    for i in 0..g.temp_count() {
        out.push(g.temp(i).unwrap().clone());
    }
    for i in 0..g.pile_count() {
        out.push(g.pile(i).unwrap().clone());
    }
    out
}

fn total(g: &Game) -> usize {
    piles(g).iter().map(|p| p.len()).sum()
}

#[test]
fn klondike_deal() {
    let conf = klondike();
    assert_eq!(conf.validate(), Ok(()));
    let g = Game::init(&conf).unwrap();
    assert_eq!(g.fnd_count(), 4);
    assert_eq!(g.col_count(), 7);
    assert_eq!(g.temp_count(), 0);
    assert_eq!(g.pile_count(), 2);
    assert_eq!(g.column_count(), 13);
    for i in 0..4 {
        assert!(g.fnd(i).unwrap().is_empty());
    }
    let ups = [1usize, 1, 2, 2, 3, 3, 4];
    for i in 0..7 {
        let cards = g.col(i).unwrap();
        assert_eq!(cards.len(), i + 1);
        for (n, c) in cards.iter().enumerate() {
            assert_eq!(c.up, n + ups[i] >= cards.len());
        }
    }
    let seventh = g.col(6).unwrap();
    assert_eq!(seventh.len(), 7);
    assert_eq!(seventh.iter().filter(|c| c.up).count(), 4);
    assert!(seventh[3..].iter().all(|c| c.up));
    assert!(seventh[..3].iter().all(|c| !c.up));
    let deck = g.pile(0).unwrap();
    let waste = g.pile(1).unwrap();
    assert_eq!(deck.len() + waste.len(), 24);
    assert_eq!(waste.len(), 3);
    assert!(deck.iter().all(|c| !c.up));
    assert!(waste.iter().all(|c| c.up));
    assert_eq!(total(&g), 52);
    assert_eq!(g.selected_loc(), Pos { col: 4, row: 0 });
    assert_eq!(g.redeal_left(), -1);
    assert!(!g.has_undo());
    assert!(!g.is_completed());
}

#[test]
fn the_deal_follows_the_deck() {
    let conf = klondike();
    let cards = fresh(1);
    let g = start(&conf, cards.clone());
    let mut next = 0;
    for i in 0..7 {
        let got = g.col(i).unwrap();
        for c in got.iter() {
            assert_eq!((c.suit, c.face), (cards[next].suit, cards[next].face));
            next += 1;
        }
    }
    assert_eq!(next, 28);
    let deck = g.pile(0).unwrap();
    assert_eq!(deck.len(), 21);
    assert_eq!(deck[..], cards[28..49]);
    let waste = g.pile(1).unwrap();
    assert_eq!(
        waste[..],
        [
            card(Suit::Heart, Face::K, true),
            card(Suit::Heart, Face::Q, true),
            card(Suit::Heart, Face::J, true)
        ]
    );
}

#[test]
fn a_column_without_face_up_cards_shows_its_top() {
    let mut conf = klondike();
    conf.cols = vec![col(3, 0), col(2, 9), col(0, 0), col(47, 47)];
    conf.pile = None;
    let g = start(&conf, fresh(1));
    let ups: Vec<Vec<bool>> =
        (0..4).map(|i| g.col(i).unwrap().iter().map(|c| c.up).collect()).collect();
    assert_eq!(ups[0], vec![false, false, true]);
    assert_eq!(ups[1], vec![true, true]);
    assert!(ups[2].is_empty());
    assert_eq!(ups[3].len(), 47);
    assert!(ups[3].iter().all(|u| *u));
    assert_eq!(g.pile_count(), 0);
    assert!(matches!(g.pile(0), Err(SolError::InvalidLocation)));
    assert_eq!(total(&g), 52);
}

#[test]
fn a_deal_needs_enough_cards() {
    let mut conf = klondike();
    conf.cols = vec![col(30, 1), col(23, 1)];
    assert_eq!(conf.validate(), Ok(()));
    assert!(matches!(Game::init(&conf), Err(SolError::InsufficientFor(t)) if t == "play area"));
    conf.pile = None;
    assert!(matches!(Game::init(&conf), Err(SolError::InsufficientFor(t)) if t == "play area"));
    conf.deck_count = 2;
    conf.pile = Some(PileConf { deal_by: 1, redeals: 0, pile_to_cols: false });
    let g = Game::init(&conf).unwrap();
    assert_eq!(total(&g), 104);
    assert_eq!(g.pile(0).unwrap().len(), 50);
    assert_eq!(g.pile(1).unwrap().len(), 1);
}

#[test]
fn a_deal_without_a_deck_pile_uses_every_card() {
    let mut conf = klondike();
    conf.pile = None;
    assert_eq!(conf.validate(), Ok(()));
    assert!(matches!(Game::init(&conf), Err(SolError::UnusedCards)));
    conf.cols = vec![col(26, 1), col(26, 26)];
    let g = Game::init(&conf).unwrap();
    assert_eq!(g.column_count(), 6);
    assert_eq!(total(&g), 52);
    assert!(!g.can_deal());
}

#[test]
fn illegal_foundation_start() {
    let mut conf = klondike();
    conf.cols = vec![col(1, 1), col(6, 1)];
    let mut g = start(&conf, fresh(1));
    assert_eq!(g.col(0).unwrap()[..], [card(Suit::Spade, Face::A, true)]);
    assert_eq!(g.col(1).unwrap()[5], card(Suit::Spade, Face::N7, true));
    let before = piles(&g);
    let seven = Pos { col: 5, row: 0 };
    for f in 0..4 {
        assert!(!g.can_move(seven, f));
        assert_eq!(g.move_card(seven, Pos { col: f, row: 0 }), Err(SolError::InvalidMove));
    }
    assert_eq!(piles(&g), before);
    let ace = Pos { col: 4, row: 0 };
    assert!(g.can_move(ace, 0));
    assert_eq!(g.move_card(ace, Pos { col: 0, row: 0 }), Ok(()));
    assert_eq!(g.fnd(0).unwrap()[..], [card(Suit::Spade, Face::A, true)]);
    assert!(g.col(0).unwrap().is_empty());
    assert_eq!(total(&g), 52);
}

#[test]
fn redeal_exhaustion() {
    let mut conf = klondike();
    conf.pile = Some(PileConf { deal_by: 3, redeals: 1, pile_to_cols: false });
    conf.cols = vec![col(5, 1); 10];
    let mut g = start(&conf, fresh(1));
    assert_eq!(g.redeal_left(), 1);
    assert!(g.pile(0).unwrap().is_empty());
    let waste = g.pile(1).unwrap().clone();
    assert_eq!(waste, vec![card(Suit::Heart, Face::K, true), card(Suit::Heart, Face::Q, true)]);
    assert!(g.can_deal());
    assert!(g.deal());
    assert_eq!(g.redeal_left(), 0);
    assert!(g.pile(0).unwrap().is_empty());
    assert_eq!(g.pile(1).unwrap(), &waste);
    assert!(!g.can_deal());
    let before = piles(&g);
    assert!(!g.deal());
    assert_eq!(g.redeal_left(), 0);
    assert_eq!(piles(&g), before);
    assert_eq!(total(&g), 52);
}

#[test]
fn a_recycled_waste_is_dealt_again_in_order() {
    let mut conf = klondike();
    conf.pile = Some(PileConf { deal_by: 2, redeals: 2, pile_to_cols: false });
    conf.cols = vec![col(5, 1); 9];
    let mut g = start(&conf, fresh(1));
    assert_eq!(g.pile(0).unwrap().len(), 5);
    assert_eq!(g.pile(1).unwrap().len(), 2);
    assert!(g.deal());
    assert!(g.deal());
    assert_eq!(g.pile(0).unwrap().len(), 1);
    assert!(g.deal());
    assert!(g.pile(0).unwrap().is_empty());
    let all: Vec<Card> = g.pile(1).unwrap().clone();
    assert_eq!(all.len(), 7);
    assert_eq!(g.redeal_left(), 2);
    assert!(g.deal());
    assert_eq!(g.redeal_left(), 1);
    let deck = g.pile(0).unwrap().clone();
    let waste = g.pile(1).unwrap().clone();
    assert_eq!(deck.len(), 5);
    assert!(deck.iter().all(|c| !c.up));
    assert_eq!(waste, all[..2].to_vec());
    let mut again: Vec<Card> = waste.clone();
    again.extend(deck.iter().rev().map(|c| Card { up: true, ..*c }));
    assert_eq!(again, all);
}

#[test]
fn redeals_without_limit_count_down_and_stop() {
    let mut conf = klondike();
    conf.pile = Some(PileConf { deal_by: 16, redeals: -1, pile_to_cols: false });
    conf.cols = vec![col(5, 1); 10];
    let mut g = start(&conf, fresh(1));
    for n in 0..200i32 {
        assert!(g.deal());
        let want = if n < 127 { -2 - n } else { -128 };
        assert_eq!(g.redeal_left() as i32, want);
        assert_eq!(g.pile(1).unwrap().len(), 2);
    }
}

#[test]
fn take_only_column() {
    let mut conf = klondike();
    conf.col_forder = FaceOrder::Any;
    conf.col_sorder = SuitOrder::Any;
    conf.col_refill = Face::Any;
    conf.cols = vec![
        ColConf { count: 1, up: 1, take_only: true },
        col(1, 1),
        ColConf { count: 0, up: 0, take_only: true },
        col(1, 1),
    ];
    let mut g = start(&conf, fresh(1));
    assert!(g.slot_conf(4).unwrap().take_only);
    assert!(g.slot_conf(6).unwrap().take_only);
    assert!(!g.slot_conf(5).unwrap().take_only);
    let before = piles(&g);
    for src in 0..g.column_count() {
        for row in 0..3 {
            let from = Pos { col: src, row };
            for dst in [4usize, 6] {
                assert!(!g.can_move(from, dst));
                assert!(g.move_card(from, Pos { col: dst, row: 0 }).is_err());
            }
            assert!(g.dest_list_card(from).iter().all(|p| p.col != 4 && p.col != 6));
        }
    }
    assert_eq!(piles(&g), before);
    assert!(g.can_move(Pos { col: 4, row: 0 }, 5));
    assert_eq!(g.move_card(Pos { col: 4, row: 0 }, Pos { col: 5, row: 0 }), Ok(()));
    assert!(g.col(0).unwrap().is_empty());
    assert_eq!(g.col(1).unwrap().len(), 2);
}

#[test]
fn a_move_takes_the_cards_above_along() {
    let mut conf = klondike();
    conf.col_forder = FaceOrder::Asc;
    conf.col_sorder = SuitOrder::SameSuit;
    conf.cols = vec![col(3, 2), col(4, 1)];
    let mut g = start(&conf, spades_first(&[8, 5, 6, 0, 1, 2, 4]));
    assert_eq!(
        g.col(0).unwrap()[..],
        [
            card(Suit::Spade, Face::N9, false),
            card(Suit::Spade, Face::N6, true),
            card(Suit::Spade, Face::N7, true)
        ]
    );
    assert_eq!(g.col(1).unwrap()[3], card(Suit::Spade, Face::N5, true));
    let from = Pos { col: 4, row: 1 };
    assert!(g.can_move(from, 5));
    assert!(!g.can_move(Pos { col: 4, row: 0 }, 5));
    assert!(!g.can_move(Pos { col: 4, row: 2 }, 5));
    assert_eq!(g.move_card(Pos { col: 4, row: 0 }, Pos { col: 5, row: 0 }), Err(SolError::InvalidMove));
    assert_eq!(g.move_card(from, Pos { col: 5, row: 0 }), Ok(()));
    assert_eq!(g.col(0).unwrap()[..], [card(Suit::Spade, Face::N9, true)]);
    let second = g.col(1).unwrap();
    assert_eq!(second.len(), 6);
    assert_eq!(
        second[3..],
        [
            card(Suit::Spade, Face::N5, true),
            card(Suit::Spade, Face::N6, true),
            card(Suit::Spade, Face::N7, true)
        ]
    );
    assert_eq!(total(&g), 52);
}

#[test]
fn a_move_without_a_destination_prefers_the_foundations() {
    let mut conf = klondike();
    conf.temp = Some(TempConf { count: 2 });
    conf.col_forder = FaceOrder::Desc;
    conf.col_sorder = SuitOrder::SameSuit;
    conf.cols = vec![col(1, 1), col(2, 1), col(3, 1)];
    let mut cards = fresh(1);
    cards.swap(1, 20);
    let mut g = start(&conf, cards);
    assert_eq!(g.first_fnd(), Some(0));
    assert_eq!(g.first_col(), Some(4));
    assert_eq!(g.first_temp(), Some(7));
    assert_eq!(g.first_pile(), Some(9));
    let ace = Pos { col: 4, row: 0 };
    let dests = g.dest_list_card(ace);
    assert_eq!(
        dests,
        vec![
            Pos { col: 0, row: 0 },
            Pos { col: 1, row: 0 },
            Pos { col: 2, row: 0 },
            Pos { col: 3, row: 0 },
            Pos { col: 7, row: 0 },
            Pos { col: 8, row: 0 }
        ]
    );
    assert_eq!(g.selected_loc(), ace);
    assert_eq!(g.move_card(Pos::new(), Pos::new()), Ok(()));
    assert_eq!(g.fnd(0).unwrap().len(), 1);
    let three = Pos { col: 5, row: 0 };
    assert_eq!(g.col(1).unwrap()[1], card(Suit::Spade, Face::N3, true));
    assert_eq!(g.dest_list_card(three), vec![Pos { col: 7, row: 0 }, Pos { col: 8, row: 0 }]);
    assert_eq!(g.move_card(three, Pos::new()), Ok(()));
    assert_eq!(g.temp(0).unwrap()[..], [card(Suit::Spade, Face::N3, true)]);
    assert!(g.temp(1).unwrap().is_empty());
    assert!(matches!(g.temp(2), Err(SolError::InvalidLocation)));
    assert_eq!(total(&g), 52);
}

#[test]
fn refused_moves_name_their_reason() {
    let mut conf = klondike();
    conf.playable = Playable::Top;
    conf.col_sorder = SuitOrder::Forbid;
    conf.cols = vec![col(2, 2), col(1, 1)];
    let mut g = start(&conf, fresh(1));
    let before = piles(&g);
    assert_eq!(g.move_card(Pos { col: 5, row: 1 }, Pos::new()), Err(SolError::InvalidMove));
    assert_eq!(g.move_card(Pos { col: 50, row: 0 }, Pos::new()), Err(SolError::InvalidMove));
    assert_eq!(g.move_card(Pos { col: 0, row: 0 }, Pos::new()), Err(SolError::InvalidMove));
    assert_eq!(g.move_card(Pos { col: 4, row: 1 }, Pos { col: 5, row: 0 }), Err(SolError::InvalidMove));
    assert_eq!(g.move_card(Pos { col: 4, row: 0 }, Pos::new()), Err(SolError::NoDestination));
    assert_eq!(
        g.move_card(Pos { col: 4, row: 0 }, Pos { col: 5, row: 1 }),
        Err(SolError::NoDestination)
    );
    assert_eq!(g.move_card(Pos { col: 4, row: 0 }, Pos { col: 5, row: 0 }), Err(SolError::InvalidMove));
    assert_eq!(g.move_card(Pos { col: 4, row: 0 }, Pos { col: 77, row: 0 }), Err(SolError::InvalidMove));
    assert_eq!(g.move_card(Pos { col: 4, row: 0 }, Pos { col: 6, row: 0 }), Err(SolError::InvalidMove));
    assert_eq!(piles(&g), before);
    assert!(Pos::new().is_empty());
    assert_eq!(Pos::new(), Pos { col: ANY_COL, row: 0 });
    assert_eq!(Pos::default(), Pos::new());
    assert!(!Pos { col: 0, row: 0 }.is_empty());
}

#[test]
fn an_empty_column_takes_its_refill_face_only() {
    let mut conf = klondike();
    conf.cols = vec![col(0, 0), col(12, 1), col(1, 1)];
    let mut g = start(&conf, fresh(1));
    assert_eq!(g.col(1).unwrap()[11], card(Suit::Spade, Face::Q, true));
    assert_eq!(g.col(2).unwrap()[0], card(Suit::Spade, Face::K, true));
    assert!(!g.can_move(Pos { col: 5, row: 0 }, 4));
    assert!(g.can_move(Pos { col: 6, row: 0 }, 4));
    assert_eq!(g.move_card(Pos { col: 6, row: 0 }, Pos { col: 4, row: 0 }), Ok(()));
    assert_eq!(g.col(0).unwrap().len(), 1);
    let mut closed = conf.clone();
    closed.col_refill = Face::Unavail;
    let g = start(&closed, fresh(1));
    assert!(!g.slot_conf(4).unwrap().refill);
    assert!(!g.can_move(Pos { col: 6, row: 0 }, 4));
    closed.col_refill = Face::Empty;
    let g = start(&closed, fresh(1));
    assert!(!g.can_move(Pos { col: 6, row: 0 }, 4));
}

#[test]
fn suit_orders_decide_what_fits() {
    let orders = [
        (SuitOrder::SameSuit, [true, false, false]),
        (SuitOrder::SameColor, [true, true, false]),
        (SuitOrder::AlternateColor, [false, false, true]),
        (SuitOrder::Any, [true, true, true]),
        (SuitOrder::Forbid, [false, false, false]),
    ];
    let mut cards = fresh(1);
    cards.swap(0, 12);
    cards.swap(1, 11);
    cards.swap(2, 13 + 11);
    cards.swap(3, 26 + 11);
    for (order, want) in orders {
        let mut conf = klondike();
        conf.col_sorder = order;
        conf.cols = vec![col(1, 1); 4];
        let g = start(&conf, cards.clone());
        assert_eq!(g.col(0).unwrap()[0], card(Suit::Spade, Face::K, true));
        assert_eq!(g.col(1).unwrap()[0], card(Suit::Spade, Face::Q, true));
        assert_eq!(g.col(2).unwrap()[0], card(Suit::Club, Face::Q, true));
        assert_eq!(g.col(3).unwrap()[0], card(Suit::Diamond, Face::Q, true));
        for n in 0..3 {
            assert_eq!(g.can_move(Pos { col: 5 + n, row: 0 }, 4), want[n]);
            assert!(!g.can_move(Pos { col: 4, row: 0 }, 5 + n));
        }
    }
}

#[test]
fn face_orders_decide_what_fits() {
    let orders = [
        (FaceOrder::Asc, [false, true, false, true]),
        (FaceOrder::Desc, [true, false, true, false]),
        (FaceOrder::Any, [true, true, true, true]),
    ];
    let mut cards = fresh(1);
    cards.swap(0, 12);
    cards.swap(1, 11);
    cards.swap(2, 12);
    for (order, want) in orders {
        let mut conf = klondike();
        conf.col_forder = order;
        conf.col_sorder = SuitOrder::Any;
        conf.cols = vec![col(1, 1); 3];
        let g = start(&conf, cards.clone());
        assert_eq!(g.col(0).unwrap()[0].face, Face::K);
        assert_eq!(g.col(1).unwrap()[0].face, Face::Q);
        assert_eq!(g.col(2).unwrap()[0].face, Face::A);
        let got = [
            g.can_move(Pos { col: 5, row: 0 }, 4),
            g.can_move(Pos { col: 4, row: 0 }, 5),
            g.can_move(Pos { col: 4, row: 0 }, 6),
            g.can_move(Pos { col: 6, row: 0 }, 4),
        ];
        assert_eq!(got, want);
        assert!(!g.can_move(Pos { col: 5, row: 0 }, 6));
    }
}

#[test]
fn ordered_count_is_the_run_at_the_top() {
    let mut conf = klondike();
    conf.col_forder = FaceOrder::Asc;
    conf.col_sorder = SuitOrder::SameSuit;
    conf.cols = vec![col(13, 13), col(14, 14), col(0, 0), col(1, 1), col(2, 2), col(5, 1)];
    let mut cards = fresh(1);
    cards.swap(28, 29);
    cards.swap(30, 32);
    let g = start(&conf, cards);
    assert_eq!(g.ordered_count(4), 13);
    assert_eq!(g.ordered_count(5), 1);
    assert_eq!(g.ordered_count(6), 0);
    assert_eq!(g.ordered_count(7), 1);
    assert_eq!(g.ordered_count(8), 1);
    assert_eq!(g.ordered_count(9), 2);
    assert_eq!(g.ordered_count(0), 0);
    assert!(g.fnd(0).unwrap().is_empty());
    assert_eq!(g.pile(0).unwrap().len(), 14);
    assert_eq!(g.ordered_count(10), 14);
    assert_eq!(g.pile(1).unwrap().len(), 3);
    assert_eq!(g.ordered_count(11), 3);
    assert_eq!(g.ordered_count(12), 0);
    assert_eq!(g.ordered_count(ANY_COL), 0);
    for i in 0..g.column_count() {
        let size = g.slot_conf(i).map(|_| g.card_at(Pos { col: i, row: 0 })).map(|c| !c.is_empty()).unwrap();
        let run = g.ordered_count(i);
        assert_eq!(run >= 1, size);
    }
    for i in 0..g.col_count() {
        let size = g.col(i).unwrap().len();
        let run = g.ordered_count(4 + i);
        assert!(size.min(1) <= run && run <= size);
    }
    let mut other = conf.clone();
    other.col_sorder = SuitOrder::Any;
    let g = start(&other, fresh(1));
    assert_eq!(g.ordered_count(4), 13);
    assert_eq!(g.ordered_count(5), 14);
    assert_eq!(g.ordered_count(8), 2);
    other.col_forder = FaceOrder::Desc;
    let g = start(&other, fresh(1));
    assert_eq!(g.ordered_count(4), 1);
    assert_eq!(g.ordered_count(5), 1);
    other.col_forder = FaceOrder::Any;
    let g = start(&other, fresh(1));
    assert_eq!(g.ordered_count(4), 13);
    assert_eq!(g.ordered_count(5), 14);
    other.col_sorder = SuitOrder::AlternateColor;
    let g = start(&other, fresh(1));
    assert_eq!(g.ordered_count(4), 1);
    assert_eq!(g.ordered_count(5), 2);
    other.col_sorder = SuitOrder::SameColor;
    let g = start(&other, fresh(1));
    assert_eq!(g.ordered_count(4), 13);
    assert_eq!(g.ordered_count(5), 1);
    other.col_sorder = SuitOrder::Forbid;
    let g = start(&other, fresh(1));
    assert_eq!(g.ordered_count(4), 1);
}

#[test]
fn selection_follows_the_playable_cards() {
    let mut conf = klondike();
    conf.col_forder = FaceOrder::Asc;
    conf.col_sorder = SuitOrder::SameSuit;
    conf.cols = vec![col(5, 3), col(0, 0)];
    let mut cards = fresh(1);
    cards.swap(3, 20);
    let mut g = start(&conf, cards.clone());
    assert!(g.is_selectable(None));
    assert!(g.is_selectable(Some(Pos { col: 4, row: 0 })));
    assert!(g.is_selectable(Some(Pos { col: 4, row: 2 })));
    assert!(!g.is_selectable(Some(Pos { col: 4, row: 3 })));
    assert!(!g.is_selectable(Some(Pos { col: 4, row: 5 })));
    assert!(!g.is_selectable(Some(Pos { col: 5, row: 0 })));
    assert!(!g.is_selectable(Some(Pos { col: 0, row: 0 })));
    assert!(!g.is_selectable(Some(Pos { col: 6, row: 0 })));
    assert!(g.is_selectable(Some(Pos { col: 7, row: 0 })));
    assert!(g.is_selectable(Some(Pos { col: 7, row: 1 })));
    assert!(!g.is_selectable(Some(Pos { col: 8, row: 0 })));
    assert!(!g.is_selectable(Some(Pos::new())));
    g.select(Pos { col: 4, row: 3 });
    assert_eq!(g.selected_loc(), Pos { col: 4, row: 0 });
    g.select(Pos { col: 4, row: 2 });
    assert_eq!(g.selected_loc(), Pos { col: 4, row: 2 });
    g.select(Pos { col: 7, row: 0 });
    assert_eq!(g.selected_loc(), Pos { col: 7, row: 0 });
    assert!(!g.is_deck_clicked(None));
    assert!(g.is_deck_clicked(Some(Pos { col: 6, row: 3 })));

    conf.playable = Playable::Top;
    let g = start(&conf, cards.clone());
    assert!(g.is_selectable(Some(Pos { col: 4, row: 0 })));
    assert!(!g.is_selectable(Some(Pos { col: 4, row: 1 })));
    assert!(!g.is_selectable(Some(Pos { col: 7, row: 1 })));

    conf.playable = Playable::Ordered;
    let g = start(&conf, cards);
    assert_eq!(g.ordered_count(4), 1);
    assert!(g.is_selectable(Some(Pos { col: 4, row: 0 })));
    assert!(!g.is_selectable(Some(Pos { col: 4, row: 1 })));
    assert_eq!(g.ordered_count(7), 3);
    assert!(g.is_selectable(Some(Pos { col: 7, row: 0 })));
    assert!(g.is_selectable(Some(Pos { col: 7, row: 2 })));
    assert!(!g.is_selectable(Some(Pos { col: 7, row: 3 })));
    assert!(!g.is_selectable(Some(Pos { col: 6, row: 0 })));
    let mut none = conf.clone();
    none.pile = None;
    none.cols = vec![col(52, 52)];
    let g = start(&none, fresh(1));
    assert!(!g.is_deck_clicked(None));
    assert!(!g.is_deck_clicked(Some(Pos { col: 5, row: 0 })));
    assert!(g.is_selectable(Some(Pos { col: 4, row: 12 })));
    assert!(!g.is_selectable(Some(Pos { col: 4, row: 13 })));
}

#[test]
fn select_loc_reads_rows_from_the_bottom() {
    let mut conf = klondike();
    conf.cols = vec![col(3, 1), col(3, 3)];
    let mut g = start(&conf, fresh(1));
    assert!(!g.select_loc(Pos { col: 4, row: 0 }));
    assert!(!g.select_loc(Pos { col: 4, row: 1 }));
    assert!(g.select_loc(Pos { col: 4, row: 2 }));
    assert!(!g.select_loc(Pos { col: 4, row: 3 }));
    assert!(g.select_loc(Pos { col: 5, row: 0 }));
    assert!(g.select_loc(Pos { col: 5, row: 2 }));
    assert!(!g.select_loc(Pos { col: 0, row: 0 }));
    assert!(!g.select_loc(Pos { col: 6, row: 0 }));
    assert!(g.select_loc(Pos { col: 7, row: 0 }));
    assert!(!g.select_loc(Pos { col: 7, row: 1 }));
    assert!(!g.select_loc(Pos { col: 8, row: 0 }));
    assert_eq!(g.selected_loc(), Pos { col: 4, row: 0 });
    g.select(Pos { col: 5, row: 0 });
    assert!(!g.select_loc(Pos { col: 5, row: 0 }));
}

#[test]
fn the_cursor_goes_round_the_piles() {
    let conf = klondike();
    let mut g = start(&conf, fresh(1));
    assert_eq!(g.selected_loc(), Pos { col: 4, row: 0 });
    assert!(g.move_selection(Direction::Left));
    assert_eq!(g.selected_loc(), Pos { col: 3, row: 0 });
    for want in [2usize, 1, 0, 12, 11] {
        assert!(g.move_selection(Direction::Left));
        assert_eq!(g.selected_loc(), Pos { col: want, row: 0 });
    }
    for want in [12usize, 0, 1] {
        assert!(g.move_selection(Direction::Right));
        assert_eq!(g.selected_loc(), Pos { col: want, row: 0 });
    }
    assert!(g.move_selection(Direction::Waste));
    assert_eq!(g.selected_loc(), Pos { col: 2, row: 0 });
    assert!(g.move_selection(Direction::Waste));
    assert!(g.move_selection(Direction::Waste));
    assert_eq!(g.selected_loc(), Pos { col: 0, row: 0 });
    assert!(g.move_selection(Direction::Pile));
    assert_eq!(g.selected_loc(), Pos { col: 11, row: 0 });
    assert!(g.move_selection(Direction::Pile));
    assert_eq!(g.selected_loc(), Pos { col: 12, row: 0 });
    assert!(g.move_selection(Direction::Pile));
    assert_eq!(g.selected_loc(), Pos { col: 11, row: 0 });
    assert!(!g.move_selection(Direction::Temp));
    assert_eq!(g.selected_loc(), Pos { col: 11, row: 0 });
    assert!(!g.move_selection(Direction::Up));
    assert!(!g.move_selection(Direction::Down));
    assert!(!g.move_selection(Direction::ColUp(7)));
    assert!(!g.move_selection(Direction::ColDown(7)));
    assert_eq!(g.selected_loc(), Pos { col: 11, row: 0 });
}

#[test]
fn the_cursor_goes_up_and_down_a_column() {
    let conf = klondike();
    let mut g = start(&conf, fresh(1));
    assert!(g.move_selection(Direction::ColUp(6)));
    assert_eq!(g.selected_loc(), Pos { col: 10, row: 0 });
    for want in [1usize, 2, 3] {
        assert!(g.move_selection(Direction::Up));
        assert_eq!(g.selected_loc(), Pos { col: 10, row: want });
    }
    assert!(!g.move_selection(Direction::Up));
    assert_eq!(g.selected_loc(), Pos { col: 10, row: 3 });
    assert!(g.move_selection(Direction::ColUp(6)));
    assert_eq!(g.selected_loc(), Pos { col: 10, row: 0 });
    assert!(g.move_selection(Direction::ColUp(6)));
    assert_eq!(g.selected_loc(), Pos { col: 10, row: 1 });
    assert!(g.move_selection(Direction::ColDown(6)));
    assert_eq!(g.selected_loc(), Pos { col: 10, row: 0 });
    assert!(g.move_selection(Direction::ColDown(6)));
    assert_eq!(g.selected_loc(), Pos { col: 10, row: 3 });
    assert!(g.move_selection(Direction::Down));
    assert_eq!(g.selected_loc(), Pos { col: 10, row: 2 });
    assert!(g.move_selection(Direction::ColDown(6)));
    assert_eq!(g.selected_loc(), Pos { col: 10, row: 1 });
    assert!(g.move_selection(Direction::Down));
    assert!(!g.move_selection(Direction::Down));
    assert_eq!(g.selected_loc(), Pos { col: 10, row: 0 });
    assert!(g.move_selection(Direction::ColDown(0)));
    assert_eq!(g.selected_loc(), Pos { col: 4, row: 0 });
    assert!(!g.move_selection(Direction::ColDown(0)));
    assert!(!g.move_selection(Direction::ColUp(0)));
    assert!(!g.move_selection(Direction::Up));
    assert_eq!(g.selected_loc(), Pos { col: 4, row: 0 });

    let mut top = klondike();
    top.playable = Playable::Top;
    let mut g = start(&top, fresh(1));
    assert!(g.move_selection(Direction::ColUp(6)));
    assert!(!g.move_selection(Direction::Up));
    assert!(!g.move_selection(Direction::ColUp(6)));
    assert!(!g.move_selection(Direction::ColDown(6)));
    assert_eq!(g.selected_loc(), Pos { col: 10, row: 0 });

    let mut take = klondike();
    take.cols[6].take_only = true;
    let mut g = start(&take, fresh(1));
    assert!(g.move_selection(Direction::ColUp(6)));
    assert!(!g.move_selection(Direction::Up));
    assert!(!g.move_selection(Direction::ColUp(6)));
    assert!(!g.move_selection(Direction::ColDown(6)));
    assert_eq!(g.selected_loc(), Pos { col: 10, row: 0 });
}

#[test]
fn the_cursor_goes_round_the_free_cells() {
    let mut conf = klondike();
    conf.temp = Some(TempConf { count: 3 });
    let mut g = start(&conf, fresh(1));
    assert_eq!(g.temp_count(), 3);
    for want in [11usize, 12, 13, 11] {
        assert!(g.move_selection(Direction::Temp));
        assert_eq!(g.selected_loc(), Pos { col: want, row: 0 });
    }
    assert!(g.move_selection(Direction::Pile));
    assert_eq!(g.selected_loc(), Pos { col: 14, row: 0 });
    let mut one = klondike();
    one.fnd = vec![ace_slot()];
    let mut g = start(&one, fresh(1));
    assert!(g.move_selection(Direction::Waste));
    assert_eq!(g.selected_loc(), Pos { col: 0, row: 0 });
    assert!(!g.move_selection(Direction::Waste));
    assert_eq!(g.selected_loc(), Pos { col: 0, row: 0 });
}

#[test]
fn undo_round_trip() {
    let mut conf = klondike();
    conf.temp = Some(TempConf { count: 1 });
    conf.pile = Some(PileConf { deal_by: 3, redeals: 2, pile_to_cols: false });
    let mut g = start(&conf, fresh(1));
    let before = piles(&g);
    let cursor = g.selected_loc();
    assert_eq!(g.undo_count(), 0);
    g.take_snapshot();
    assert!(g.has_undo());
    assert_eq!(g.undo_count(), 1);
    for _ in 0..8 {
        assert!(g.deal());
    }
    assert_eq!(g.redeal_left(), 1);
    assert_eq!(g.move_card(Pos { col: 4, row: 0 }, Pos::new()), Ok(()));
    assert_eq!(g.move_card(Pos { col: 5, row: 0 }, Pos::new()), Ok(()));
    assert!(g.move_selection(Direction::Right));
    assert_ne!(piles(&g), before);
    assert_eq!(total(&g), 52);
    g.undo();
    assert_eq!(piles(&g), before);
    assert_eq!(g.selected_loc(), cursor);
    assert_eq!(g.redeal_left(), 2);
    assert_eq!(g.undo_count(), 0);
    assert!(!g.has_undo());
    g.undo();
    assert_eq!(piles(&g), before);
}

#[test]
fn undo_goes_back_one_state_at_a_time() {
    let conf = klondike();
    let mut g = start(&conf, fresh(1));
    let first = piles(&g);
    g.take_snapshot();
    assert!(g.deal());
    let second = piles(&g);
    g.take_snapshot();
    assert!(g.deal());
    g.take_snapshot();
    g.select(Pos { col: 10, row: 2 });
    assert_eq!(g.undo_count(), 3);
    g.undo();
    assert_eq!(g.selected_loc(), Pos { col: 4, row: 0 });
    g.undo();
    assert_eq!(piles(&g), second);
    g.undo();
    assert_eq!(piles(&g), first);
    g.take_snapshot();
    g.take_snapshot();
    g.clear_undo();
    assert_eq!(g.undo_count(), 0);
    assert_eq!(piles(&g), first);
}

#[test]
fn snapshots_of_one_shape_are_squashed() {
    let conf = klondike();
    let mut g = start(&conf, fresh(1));
    g.squash_snapshots();
    assert_eq!(g.undo_count(), 0);
    g.take_snapshot();
    g.squash_snapshots();
    assert_eq!(g.undo_count(), 1);
    assert!(g.move_selection(Direction::Right));
    g.take_snapshot();
    assert_eq!(g.undo_count(), 2);
    g.squash_snapshots();
    assert_eq!(g.undo_count(), 1);
    assert!(g.deal());
    g.take_snapshot();
    g.squash_snapshots();
    assert_eq!(g.undo_count(), 2);
    g.undo();
    assert_eq!(g.pile(1).unwrap().len(), 6);
    g.undo();
    assert_eq!(g.pile(1).unwrap().len(), 3);
    assert_eq!(g.selected_loc(), Pos { col: 4, row: 0 });

    let mut tight = klondike();
    tight.pile = Some(PileConf { deal_by: 3, redeals: 5, pile_to_cols: false });
    tight.cols = vec![col(5, 1); 10];
    let mut g = start(&tight, fresh(1));
    g.take_snapshot();
    assert!(g.deal());
    g.take_snapshot();
    g.squash_snapshots();
    assert_eq!(g.undo_count(), 2);
}

#[test]
fn dealing_to_the_columns_skips_those_that_only_give() {
    let mut conf = klondike();
    conf.pile = Some(PileConf { deal_by: 1, redeals: 0, pile_to_cols: true });
    conf.cols = vec![
        col(10, 1),
        ColConf { count: 10, up: 1, take_only: true },
        col(10, 1),
        col(10, 1),
        col(7, 1),
    ];
    let cards = fresh(1);
    let mut g = start(&conf, cards.clone());
    assert_eq!(g.pile_count(), 1);
    assert_eq!(g.pile(0).unwrap()[..], cards[47..]);
    assert!(matches!(g.pile(1), Err(SolError::InvalidLocation)));
    assert!(g.can_deal());
    assert!(g.deal());
    let sizes: Vec<usize> = (0..5).map(|i| g.col(i).unwrap().len()).collect();
    assert_eq!(sizes, vec![11, 10, 11, 11, 8]);
    assert_eq!(g.col(0).unwrap()[10], card(Suit::Heart, Face::K, true));
    assert_eq!(g.col(2).unwrap()[10], card(Suit::Heart, Face::Q, true));
    assert_eq!(g.col(3).unwrap()[10], card(Suit::Heart, Face::J, true));
    assert_eq!(g.col(4).unwrap()[7], card(Suit::Heart, Face::N10, true));
    assert_eq!(g.pile(0).unwrap()[..], cards[47..48]);
    assert!(g.deal());
    let sizes: Vec<usize> = (0..5).map(|i| g.col(i).unwrap().len()).collect();
    assert_eq!(sizes, vec![12, 10, 11, 11, 8]);
    assert_eq!(g.col(0).unwrap()[11], card(Suit::Heart, Face::N9, true));
    assert!(g.pile(0).unwrap().is_empty());
    assert!(!g.can_deal());
    assert_eq!(g.redeal_left(), 0);
    let before = piles(&g);
    assert!(g.deal());
    assert!(g.deal());
    assert_eq!(piles(&g), before);
    assert_eq!(total(&g), 52);
    conf.pile = Some(PileConf { deal_by: 1, redeals: 1, pile_to_cols: true });
    let mut g = start(&conf, cards);
    assert!(g.deal());
    assert!(g.deal());
    let before = piles(&g);
    assert!(g.deal());
    assert_eq!(piles(&g), before);
    assert_eq!(g.redeal_left(), 1);
}

#[test]
fn a_game_is_won_when_only_the_foundations_hold_cards() {
    let mut conf = Conf::new();
    conf.pile = Some(PileConf { deal_by: 1, redeals: 0, pile_to_cols: false });
    conf.fnd = vec![
        FndSlot { first: Face::Any, suit: Suit::Any, forder: FaceOrder::Any, sorder: SuitOrder::Any },
        ace_slot(),
    ];
    conf.temp = Some(TempConf { count: 1 });
    conf.cols = vec![col(0, 0)];
    let mut g = start(&conf, fresh(1));
    assert!(!g.is_completed());
    let waste = Pos { col: 5, row: 0 };
    for n in 0..52 {
        assert!(!g.is_completed());
        assert_eq!(g.avail_list(), vec![waste]);
        assert_eq!(g.move_card(waste, Pos::new()), Ok(()));
        assert_eq!(g.fnd(0).unwrap().len(), n + 1);
        assert_eq!(g.deal(), n < 51);
        assert_eq!(total(&g), 52);
    }
    assert!(g.is_completed());
    assert!(g.avail_list().is_empty());
    assert!(g.fnd(1).unwrap().is_empty());
    assert_eq!(g.move_card(Pos { col: 0, row: 0 }, Pos { col: 3, row: 0 }), Ok(()));
    assert!(!g.is_completed());
    assert_eq!(g.move_card(Pos { col: 3, row: 0 }, Pos { col: 1, row: 0 }), Ok(()));
    assert!(g.is_completed());
    assert_eq!(g.fnd(1).unwrap()[..], [card(Suit::Spade, Face::A, true)]);
}

#[test]
fn hints_list_the_cards_that_can_go_somewhere() {
    let mut conf = klondike();
    conf.col_forder = FaceOrder::Asc;
    conf.col_sorder = SuitOrder::SameSuit;
    conf.col_refill = Face::Unavail;
    conf.fnd = vec![FndSlot { first: Face::K, ..ace_slot() }];
    conf.pile = Some(PileConf { deal_by: 1, redeals: 0, pile_to_cols: false });
    conf.cols = vec![col(3, 2), col(4, 1), col(2, 2)];
    let cards = spades_first(&[8, 5, 6, 0, 1, 2, 4, 11, 7]);
    let g = start(&conf, cards.clone());
    assert_eq!(
        g.col(2).unwrap()[..],
        [card(Suit::Spade, Face::Q, true), card(Suit::Spade, Face::N8, true)]
    );
    assert_eq!(g.pile(1).unwrap()[..], [card(Suit::Heart, Face::K, true)]);
    assert_eq!(
        g.avail_list(),
        vec![Pos { col: 1, row: 1 }, Pos { col: 3, row: 0 }, Pos { col: 5, row: 0 }]
    );
    assert_eq!(g.dest_list_card(Pos { col: 1, row: 1 }), vec![Pos { col: 2, row: 0 }]);
    assert_eq!(g.dest_list_card(Pos { col: 3, row: 0 }), vec![Pos { col: 1, row: 0 }]);
    assert_eq!(g.dest_list_card(Pos { col: 5, row: 0 }), vec![Pos { col: 0, row: 0 }]);
    assert!(g.dest_list_card(Pos { col: 1, row: 0 }).is_empty());
    assert!(g.dest_list_card(Pos { col: 1, row: 2 }).is_empty());
    assert!(g.dest_list_card(Pos { col: 1, row: 3 }).is_empty());
    assert!(g.dest_list_card(Pos { col: 4, row: 0 }).is_empty());
    assert!(g.dest_list_card(Pos::new()).is_empty());

    conf.playable = Playable::Top;
    let g = start(&conf, cards.clone());
    assert_eq!(g.avail_list(), vec![Pos { col: 3, row: 0 }, Pos { col: 5, row: 0 }]);
    conf.playable = Playable::Ordered;
    let g = start(&conf, cards.clone());
    assert_eq!(
        g.avail_list(),
        vec![Pos { col: 1, row: 1 }, Pos { col: 3, row: 0 }, Pos { col: 5, row: 0 }]
    );
    conf.cols[0].take_only = true;
    let g = start(&conf, cards.clone());
    assert_eq!(g.avail_list(), vec![Pos { col: 5, row: 0 }]);
    conf.cols[0].take_only = false;
    conf.cols[1].take_only = true;
    let g = start(&conf, cards);
    assert_eq!(g.avail_list(), vec![Pos { col: 3, row: 0 }, Pos { col: 5, row: 0 }]);
}

#[test]
fn piles_behave_as_their_place_asks() {
    let mut conf = klondike();
    conf.temp = Some(TempConf { count: 1 });
    conf.fnd[2] =
        FndSlot { first: Face::K, suit: Suit::Heart, forder: FaceOrder::Desc, sorder: SuitOrder::Any };
    conf.cols[3].take_only = true;
    let g = start(&conf, fresh(1));
    let fnd = *g.slot_conf(0).unwrap();
    assert_eq!(
        fnd,
        SlotConf {
            start_face: Face::A,
            start_suit: Suit::Any,
            suit_order: SuitOrder::SameSuit,
            face_order: FaceOrder::Asc,
            ..SlotConf::new_for_temp()
        }
    );
    let third = *g.slot_conf(2).unwrap();
    assert_eq!(third.start_face, Face::K);
    assert_eq!(third.start_suit, Suit::Heart);
    assert_eq!(third.face_order, FaceOrder::Desc);
    assert_eq!(third.suit_order, SuitOrder::Any);
    let column = *g.slot_conf(4).unwrap();
    assert_eq!(
        column,
        SlotConf {
            playable: Playable::Any,
            face_order: FaceOrder::Desc,
            suit_order: SuitOrder::AlternateColor,
            refill: true,
            start_face: Face::K,
            ..SlotConf::new_for_col()
        }
    );
    assert_eq!(*g.slot_conf(7).unwrap(), SlotConf { take_only: true, ..column });
    assert_eq!(*g.slot_conf(11).unwrap(), SlotConf::new_for_temp());
    let deck = *g.slot_conf(12).unwrap();
    assert_eq!(deck, SlotConf { selectable: false, all_up: false, ..SlotConf::new_for_pile() });
    assert!(!deck.refill && deck.take_only);
    let waste = *g.slot_conf(13).unwrap();
    assert_eq!(waste, SlotConf { selectable: true, all_up: true, ..SlotConf::new_for_pile() });
    assert!(matches!(g.slot_conf(14), Err(SolError::InvalidLocation)));
    assert!(matches!(g.fnd(4), Err(SolError::InvalidLocation)));
    assert!(matches!(g.col(7), Err(SolError::InvalidLocation)));
    assert!(matches!(g.temp(1), Err(SolError::InvalidLocation)));
    assert!(matches!(g.pile(2), Err(SolError::InvalidLocation)));
}

#[test]
fn slot_defaults() {
    let f = SlotConf::new_for_fnd();
    assert!(f.selectable && f.all_up && f.refill && !f.flip && !f.take_only && !f.draw_all);
    assert_eq!((f.start_face, f.start_suit), (Face::A, Suit::Any));
    assert_eq!((f.suit_order, f.face_order, f.playable), (SuitOrder::SameSuit, FaceOrder::Asc, Playable::Top));
    let c = SlotConf::new_for_col();
    assert!(c.selectable && !c.all_up && c.refill && c.flip && !c.take_only && c.draw_all);
    assert_eq!((c.start_face, c.start_suit), (Face::K, Suit::Any));
    assert_eq!((c.suit_order, c.face_order, c.playable), (SuitOrder::SameSuit, FaceOrder::Desc, Playable::Any));
    let t = SlotConf::new_for_temp();
    assert!(t.selectable && t.all_up && t.refill && !t.flip && !t.take_only && !t.draw_all);
    assert_eq!((t.start_face, t.start_suit), (Face::Any, Suit::Any));
    assert_eq!((t.suit_order, t.face_order, t.playable), (SuitOrder::Any, FaceOrder::Any, Playable::Top));
    let p = SlotConf::new_for_pile();
    assert!(p.selectable && !p.all_up && !p.refill && !p.flip && p.take_only && !p.draw_all);
    assert_eq!((p.start_face, p.start_suit), (Face::Any, Suit::Any));
    assert_eq!((p.suit_order, p.face_order, p.playable), (SuitOrder::Any, FaceOrder::Any, Playable::Top));
}

#[test]
fn a_move_turns_the_card_that_comes_to_the_top() {
    let mut conf = klondike();
    conf.col_forder = FaceOrder::Any;
    conf.col_sorder = SuitOrder::Any;
    conf.cols = vec![col(2, 1), col(1, 1)];
    let mut g = start(&conf, fresh(1));
    assert_eq!(g.col(0).unwrap()[0], card(Suit::Spade, Face::A, false));
    assert_eq!(g.move_card(Pos { col: 4, row: 0 }, Pos { col: 5, row: 0 }), Ok(()));
    assert_eq!(g.col(0).unwrap()[..], [card(Suit::Spade, Face::A, true)]);
    assert_eq!(
        g.col(1).unwrap()[..],
        [card(Suit::Spade, Face::N3, true), card(Suit::Spade, Face::N2, true)]
    );
    assert_eq!(g.move_card(Pos { col: 5, row: 1 }, Pos { col: 5, row: 0 }), Ok(()));
    assert_eq!(g.col(1).unwrap().len(), 2);
    assert_eq!(total(&g), 52);
}

fn assert_kept_and_tidy(g: &Game) {
    let all = piles(g);
    let mut have: Vec<(Suit, Face)> = all.iter().flatten().map(|c| (c.suit, c.face)).collect();
    let mut want: Vec<(Suit, Face)> = fresh(1).iter().map(|c| (c.suit, c.face)).collect();
    let key = |c: &(Suit, Face)| (suit_to_i8(c.0), face_to_i8(c.1));
    have.sort_by_key(key);
    want.sort_by_key(key);
    assert_eq!(have, want);
    for (i, pile) in all.iter().enumerate() {
        let conf = g.slot_conf(i).unwrap();
        let first_up = pile.iter().position(|c| c.up).unwrap_or(pile.len());
        assert!(pile[first_up..].iter().all(|c| c.up));
        if conf.all_up {
            assert!(pile.iter().all(|c| c.up));
        }
        if !conf.all_up && !conf.selectable {
            assert!(pile.iter().all(|c| !c.up));
        }
    }
}

#[test]
fn cards_are_kept_through_play() {
    let conf = klondike();
    assert_eq!(conf.validate(), Ok(()));
    for _ in 0..5 {
        let mut g = Game::init(&conf).unwrap();
        for step in 0..300 {
            g.take_snapshot();
            let hints = g.avail_list();
            if step % 3 == 0 || hints.is_empty() {
                g.deal();
            } else {
                let from = hints[step % hints.len()];
                let before = piles(&g);
                let dest = g.dest_list_card(from)[0];
                assert_eq!(g.move_card(from, Pos::new()), Ok(()));
                let after = piles(&g);
                let k = from.row + 1;
                assert_eq!(after[from.col].len() + k, before[from.col].len());
                assert_eq!(after[dest.col].len(), before[dest.col].len() + k);
                let n = before[from.col].len();
                assert_eq!(after[dest.col][before[dest.col].len()..], before[from.col][n - k..]);
            }
            g.squash_snapshots();
            assert_eq!(total(&g), 52);
            assert_kept_and_tidy(&g);
            for i in 0..g.col_count() {
                let size = g.col(i).unwrap().len();
                let run = g.ordered_count(g.fnd_count() + i);
                assert!(size.min(1) <= run && run <= size);
            }
            if step % 50 == 49 {
                g.undo();
                g.undo();
                assert_eq!(total(&g), 52);
            }
        }
    }
}

#[test]
fn the_pile_that_stands_for_no_location_cannot_be_named() {
    let mut conf = klondike();
    conf.fnd = vec![ace_slot(); ANY_COL];
    conf.cols = vec![col(1, 1), col(1, 1)];
    let mut g = start(&conf, fresh(1));
    assert_eq!(g.first_col(), Some(ANY_COL));
    assert_eq!(g.selected_loc(), Pos { col: ANY_COL, row: 0 });
    assert!(g.selected_loc().is_empty());
    assert_eq!(g.col(0).unwrap()[..], [card(Suit::Spade, Face::A, true)]);
    assert!(g.card_at(Pos { col: ANY_COL, row: 0 }).is_empty());
    assert!(g.is_selectable(None));
    assert_eq!(g.move_card(Pos::new(), Pos::new()), Err(SolError::NotSelected));
    assert_eq!(g.move_card(Pos { col: ANY_COL, row: 0 }, Pos { col: 0, row: 0 }), Err(SolError::NotSelected));
    assert!(g.move_selection(Direction::Right));
    assert_eq!(g.move_card(Pos::new(), Pos { col: 0, row: 0 }), Err(SolError::InvalidMove));
    assert_eq!(g.move_card(Pos { col: 10000, row: 0 }, Pos { col: ANY_COL, row: 0 }), Err(SolError::NoDestination));
    assert_eq!(total(&g), 52);
}
