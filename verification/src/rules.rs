//! The solitaires that come with the engine.
use crate::card::{Face, Suit};
use crate::err::SolError;
use crate::gconf::{ColConf, Conf, FaceOrder, FndSlot, PileConf, Playable, SuitOrder, TempConf};
use crate::model::{cards_before, start_fault};
use vstd::prelude::*;
use vstd::string::StringExecFns;

verus! {

/// Whether a game can be started by the rules: they have what the engine
/// needs, the packs have enough cards for the columns, and every card finds a
/// place.
pub open spec fn deals_out(conf: Conf) -> bool {
    conf.fits_engine() && start_fault(conf, 52 * conf.deck_count as nat) is None
}

/// Whether these are the rules of "Klondike (hard)": one pack, 4 foundations, 7 columns, a deck pile with a waste.
pub open spec fn is_klondike_hard(conf: Conf) -> bool {
    &&& conf.name@ == "Klondike (hard)"@
    &&& conf.chance is None
    &&& conf.deck_count == 1
    &&& conf.playable == Playable::Any
    &&& conf.pile == Some(PileConf { deal_by: 3, redeals: -1i8, pile_to_cols: false })
    &&& conf.fnd@ =~= Seq::new(
        4,
        |i: int| FndSlot { first: Face::A, suit: Suit::Any, forder: FaceOrder::Asc, sorder: SuitOrder::SameSuit },
    )
    &&& conf.temp is None
    &&& conf.cols@ =~= seq![
        ColConf { count: 1, up: 1, take_only: false },
        ColConf { count: 2, up: 1, take_only: false },
        ColConf { count: 3, up: 2, take_only: false },
        ColConf { count: 4, up: 2, take_only: false },
        ColConf { count: 5, up: 3, take_only: false },
        ColConf { count: 6, up: 3, take_only: false },
        ColConf { count: 7, up: 4, take_only: false },
    ]
    &&& conf.col_forder == FaceOrder::Desc
    &&& conf.col_sorder == SuitOrder::AlternateColor
    &&& conf.col_refill == Face::K
}

/// The rules of "Klondike (hard)".
fn klondike_hard() -> (conf: Conf)
    ensures
        is_klondike_hard(conf),
        deals_out(conf),
        conf.valid(),
{
    let conf = Conf {
        name: String::from_str("Klondike (hard)"),
        chance: None,
        deck_count: 1,
        playable: Playable::Any,
        pile: Some(PileConf { deal_by: 3, redeals: -1, pile_to_cols: false }),
        fnd: vec![
            FndSlot { first: Face::A, suit: Suit::Any, forder: FaceOrder::Asc, sorder: SuitOrder::SameSuit },
            FndSlot { first: Face::A, suit: Suit::Any, forder: FaceOrder::Asc, sorder: SuitOrder::SameSuit },
            FndSlot { first: Face::A, suit: Suit::Any, forder: FaceOrder::Asc, sorder: SuitOrder::SameSuit },
            FndSlot { first: Face::A, suit: Suit::Any, forder: FaceOrder::Asc, sorder: SuitOrder::SameSuit },
        ],
        temp: None,
        cols: vec![
            ColConf { count: 1, up: 1, take_only: false },
            ColConf { count: 2, up: 1, take_only: false },
            ColConf { count: 3, up: 2, take_only: false },
            ColConf { count: 4, up: 2, take_only: false },
            ColConf { count: 5, up: 3, take_only: false },
            ColConf { count: 6, up: 3, take_only: false },
            ColConf { count: 7, up: 4, take_only: false },
        ],
        col_forder: FaceOrder::Desc,
        col_sorder: SuitOrder::AlternateColor,
        col_refill: Face::K,
    };
    proof {
        reveal_with_fuel(cards_before, 11);
    }
    conf
}

/// Whether these are the rules of "Klondike (easy)": one pack, 4 foundations, 7 columns, a deck pile with a waste.
pub open spec fn is_klondike_easy(conf: Conf) -> bool {
    &&& conf.name@ == "Klondike (easy)"@
    &&& conf.chance is None
    &&& conf.deck_count == 1
    &&& conf.playable == Playable::Any
    &&& conf.pile == Some(PileConf { deal_by: 1, redeals: -1i8, pile_to_cols: false })
    &&& conf.fnd@ =~= Seq::new(
        4,
        |i: int| FndSlot { first: Face::A, suit: Suit::Any, forder: FaceOrder::Asc, sorder: SuitOrder::SameSuit },
    )
    &&& conf.temp is None
    &&& conf.cols@ =~= seq![
        ColConf { count: 1, up: 1, take_only: false },
        ColConf { count: 2, up: 1, take_only: false },
        ColConf { count: 3, up: 2, take_only: false },
        ColConf { count: 4, up: 2, take_only: false },
        ColConf { count: 5, up: 3, take_only: false },
        ColConf { count: 6, up: 3, take_only: false },
        ColConf { count: 7, up: 4, take_only: false },
    ]
    &&& conf.col_forder == FaceOrder::Desc
    &&& conf.col_sorder == SuitOrder::AlternateColor
    &&& conf.col_refill == Face::K
}

/// The rules of "Klondike (easy)".
fn klondike_easy() -> (conf: Conf)
    ensures
        is_klondike_easy(conf),
        deals_out(conf),
        conf.valid(),
{
    let conf = Conf {
        name: String::from_str("Klondike (easy)"),
        chance: None,
        deck_count: 1,
        playable: Playable::Any,
        pile: Some(PileConf { deal_by: 1, redeals: -1, pile_to_cols: false }),
        fnd: vec![
            FndSlot { first: Face::A, suit: Suit::Any, forder: FaceOrder::Asc, sorder: SuitOrder::SameSuit },
            FndSlot { first: Face::A, suit: Suit::Any, forder: FaceOrder::Asc, sorder: SuitOrder::SameSuit },
            FndSlot { first: Face::A, suit: Suit::Any, forder: FaceOrder::Asc, sorder: SuitOrder::SameSuit },
            FndSlot { first: Face::A, suit: Suit::Any, forder: FaceOrder::Asc, sorder: SuitOrder::SameSuit },
        ],
        temp: None,
        cols: vec![
            ColConf { count: 1, up: 1, take_only: false },
            ColConf { count: 2, up: 1, take_only: false },
            ColConf { count: 3, up: 2, take_only: false },
            ColConf { count: 4, up: 2, take_only: false },
            ColConf { count: 5, up: 3, take_only: false },
            ColConf { count: 6, up: 3, take_only: false },
            ColConf { count: 7, up: 4, take_only: false },
        ],
        col_forder: FaceOrder::Desc,
        col_sorder: SuitOrder::AlternateColor,
        col_refill: Face::K,
    };
    proof {
        reveal_with_fuel(cards_before, 11);
    }
    conf
}

/// Whether these are the rules of "Klondike (double)": two packs, 8 foundations, 8 columns, a deck pile with a waste.
pub open spec fn is_klondike_double(conf: Conf) -> bool {
    &&& conf.name@ == "Klondike (double)"@
    &&& conf.chance is None
    &&& conf.deck_count == 2
    &&& conf.playable == Playable::Any
    &&& conf.pile == Some(PileConf { deal_by: 3, redeals: -1i8, pile_to_cols: false })
    &&& conf.fnd@ =~= Seq::new(
        8,
        |i: int| FndSlot { first: Face::A, suit: Suit::Any, forder: FaceOrder::Asc, sorder: SuitOrder::SameSuit },
    )
    &&& conf.temp is None
    &&& conf.cols@ =~= seq![
        ColConf { count: 1, up: 1, take_only: false },
        ColConf { count: 2, up: 1, take_only: false },
        ColConf { count: 3, up: 2, take_only: false },
        ColConf { count: 4, up: 2, take_only: false },
        ColConf { count: 5, up: 3, take_only: false },
        ColConf { count: 6, up: 3, take_only: false },
        ColConf { count: 7, up: 4, take_only: false },
        ColConf { count: 8, up: 4, take_only: false },
    ]
    &&& conf.col_forder == FaceOrder::Desc
    &&& conf.col_sorder == SuitOrder::AlternateColor
    &&& conf.col_refill == Face::K
}

/// The rules of "Klondike (double)".
fn klondike_double() -> (conf: Conf)
    ensures
        is_klondike_double(conf),
        deals_out(conf),
        conf.valid(),
{
    let conf = Conf {
        name: String::from_str("Klondike (double)"),
        chance: None,
        deck_count: 2,
        playable: Playable::Any,
        pile: Some(PileConf { deal_by: 3, redeals: -1, pile_to_cols: false }),
        fnd: vec![
            FndSlot { first: Face::A, suit: Suit::Any, forder: FaceOrder::Asc, sorder: SuitOrder::SameSuit },
            FndSlot { first: Face::A, suit: Suit::Any, forder: FaceOrder::Asc, sorder: SuitOrder::SameSuit },
            FndSlot { first: Face::A, suit: Suit::Any, forder: FaceOrder::Asc, sorder: SuitOrder::SameSuit },
            FndSlot { first: Face::A, suit: Suit::Any, forder: FaceOrder::Asc, sorder: SuitOrder::SameSuit },
            FndSlot { first: Face::A, suit: Suit::Any, forder: FaceOrder::Asc, sorder: SuitOrder::SameSuit },
            FndSlot { first: Face::A, suit: Suit::Any, forder: FaceOrder::Asc, sorder: SuitOrder::SameSuit },
            FndSlot { first: Face::A, suit: Suit::Any, forder: FaceOrder::Asc, sorder: SuitOrder::SameSuit },
            FndSlot { first: Face::A, suit: Suit::Any, forder: FaceOrder::Asc, sorder: SuitOrder::SameSuit },
        ],
        temp: None,
        cols: vec![
            ColConf { count: 1, up: 1, take_only: false },
            ColConf { count: 2, up: 1, take_only: false },
            ColConf { count: 3, up: 2, take_only: false },
            ColConf { count: 4, up: 2, take_only: false },
            ColConf { count: 5, up: 3, take_only: false },
            ColConf { count: 6, up: 3, take_only: false },
            ColConf { count: 7, up: 4, take_only: false },
            ColConf { count: 8, up: 4, take_only: false },
        ],
        col_forder: FaceOrder::Desc,
        col_sorder: SuitOrder::AlternateColor,
        col_refill: Face::K,
    };
    proof {
        reveal_with_fuel(cards_before, 11);
    }
    conf
}

/// Whether these are the rules of "Free cell": one pack, 4 foundations, 8 columns, 4 free cells, no deck pile.
pub open spec fn is_free_cell(conf: Conf) -> bool {
    &&& conf.name@ == "Free cell"@
    &&& conf.chance is None
    &&& conf.deck_count == 1
    &&& conf.playable == Playable::Top
    &&& conf.pile is None
    &&& conf.fnd@ =~= Seq::new(
        4,
        |i: int| FndSlot { first: Face::A, suit: Suit::Any, forder: FaceOrder::Asc, sorder: SuitOrder::SameSuit },
    )
    &&& conf.temp == Some(TempConf { count: 4 })
    &&& conf.cols@ =~= seq![
        ColConf { count: 7, up: 7, take_only: false },
        ColConf { count: 7, up: 7, take_only: false },
        ColConf { count: 7, up: 7, take_only: false },
        ColConf { count: 7, up: 7, take_only: false },
        ColConf { count: 6, up: 6, take_only: false },
        ColConf { count: 6, up: 6, take_only: false },
        ColConf { count: 6, up: 6, take_only: false },
        ColConf { count: 6, up: 6, take_only: false },
    ]
    &&& conf.col_forder == FaceOrder::Desc
    &&& conf.col_sorder == SuitOrder::AlternateColor
    &&& conf.col_refill == Face::K
}

/// The rules of "Free cell".
fn free_cell() -> (conf: Conf)
    ensures
        is_free_cell(conf),
        deals_out(conf),
        conf.valid(),
{
    let conf = Conf {
        name: String::from_str("Free cell"),
        chance: None,
        deck_count: 1,
        playable: Playable::Top,
        pile: None,
        fnd: vec![
            FndSlot { first: Face::A, suit: Suit::Any, forder: FaceOrder::Asc, sorder: SuitOrder::SameSuit },
            FndSlot { first: Face::A, suit: Suit::Any, forder: FaceOrder::Asc, sorder: SuitOrder::SameSuit },
            FndSlot { first: Face::A, suit: Suit::Any, forder: FaceOrder::Asc, sorder: SuitOrder::SameSuit },
            FndSlot { first: Face::A, suit: Suit::Any, forder: FaceOrder::Asc, sorder: SuitOrder::SameSuit },
        ],
        temp: Some(TempConf { count: 4 }),
        cols: vec![
            ColConf { count: 7, up: 7, take_only: false },
            ColConf { count: 7, up: 7, take_only: false },
            ColConf { count: 7, up: 7, take_only: false },
            ColConf { count: 7, up: 7, take_only: false },
            ColConf { count: 6, up: 6, take_only: false },
            ColConf { count: 6, up: 6, take_only: false },
            ColConf { count: 6, up: 6, take_only: false },
            ColConf { count: 6, up: 6, take_only: false },
        ],
        col_forder: FaceOrder::Desc,
        col_sorder: SuitOrder::AlternateColor,
        col_refill: Face::K,
    };
    proof {
        reveal_with_fuel(cards_before, 11);
    }
    conf
}

/// Whether these are the rules of "Russian solitaire": one pack, 4 foundations, 7 columns, no deck pile.
pub open spec fn is_russian_solitaire(conf: Conf) -> bool {
    &&& conf.name@ == "Russian solitaire"@
    &&& conf.chance is None
    &&& conf.deck_count == 1
    &&& conf.playable == Playable::Any
    &&& conf.pile is None
    &&& conf.fnd@ =~= Seq::new(
        4,
        |i: int| FndSlot { first: Face::A, suit: Suit::Any, forder: FaceOrder::Asc, sorder: SuitOrder::SameSuit },
    )
    &&& conf.temp is None
    &&& conf.cols@ =~= seq![
        ColConf { count: 1, up: 1, take_only: false },
        ColConf { count: 6, up: 5, take_only: false },
        ColConf { count: 7, up: 5, take_only: false },
        ColConf { count: 8, up: 5, take_only: false },
        ColConf { count: 9, up: 5, take_only: false },
        ColConf { count: 10, up: 5, take_only: false },
        ColConf { count: 11, up: 5, take_only: false },
    ]
    &&& conf.col_forder == FaceOrder::Desc
    &&& conf.col_sorder == SuitOrder::AlternateColor
    &&& conf.col_refill == Face::K
}

/// The rules of "Russian solitaire".
fn russian_solitaire() -> (conf: Conf)
    ensures
        is_russian_solitaire(conf),
        deals_out(conf),
        conf.valid(),
{
    let conf = Conf {
        name: String::from_str("Russian solitaire"),
        chance: None,
        deck_count: 1,
        playable: Playable::Any,
        pile: None,
        fnd: vec![
            FndSlot { first: Face::A, suit: Suit::Any, forder: FaceOrder::Asc, sorder: SuitOrder::SameSuit },
            FndSlot { first: Face::A, suit: Suit::Any, forder: FaceOrder::Asc, sorder: SuitOrder::SameSuit },
            FndSlot { first: Face::A, suit: Suit::Any, forder: FaceOrder::Asc, sorder: SuitOrder::SameSuit },
            FndSlot { first: Face::A, suit: Suit::Any, forder: FaceOrder::Asc, sorder: SuitOrder::SameSuit },
        ],
        temp: None,
        cols: vec![
            ColConf { count: 1, up: 1, take_only: false },
            ColConf { count: 6, up: 5, take_only: false },
            ColConf { count: 7, up: 5, take_only: false },
            ColConf { count: 8, up: 5, take_only: false },
            ColConf { count: 9, up: 5, take_only: false },
            ColConf { count: 10, up: 5, take_only: false },
            ColConf { count: 11, up: 5, take_only: false },
        ],
        col_forder: FaceOrder::Desc,
        col_sorder: SuitOrder::AlternateColor,
        col_refill: Face::K,
    };
    proof {
        reveal_with_fuel(cards_before, 11);
    }
    conf
}

/// Whether these are the rules of "Pile'em up": one pack, one foundation, 6 columns, 2 free cells, a deck pile that deals to the columns.
pub open spec fn is_pile_em_up(conf: Conf) -> bool {
    &&& conf.name@ == "Pile'em up"@
    &&& conf.chance is None
    &&& conf.deck_count == 1
    &&& conf.playable == Playable::Top
    &&& conf.pile == Some(PileConf { deal_by: 1, redeals: 0, pile_to_cols: true })
    &&& conf.fnd@ =~= Seq::new(
        1,
        |i: int| FndSlot { first: Face::Any, suit: Suit::Any, forder: FaceOrder::Any, sorder: SuitOrder::Any },
    )
    &&& conf.temp == Some(TempConf { count: 2 })
    &&& conf.cols@ =~= seq![
        ColConf { count: 1, up: 1, take_only: false },
        ColConf { count: 1, up: 1, take_only: false },
        ColConf { count: 1, up: 1, take_only: false },
        ColConf { count: 1, up: 1, take_only: false },
        ColConf { count: 1, up: 1, take_only: false },
        ColConf { count: 1, up: 1, take_only: false },
    ]
    &&& conf.col_forder == FaceOrder::Any
    &&& conf.col_sorder == SuitOrder::Forbid
    &&& conf.col_refill == Face::Unavail
}

/// The rules of "Pile'em up".
fn pile_em_up() -> (conf: Conf)
    ensures
        is_pile_em_up(conf),
        deals_out(conf),
        conf.valid(),
{
    let conf = Conf {
        name: String::from_str("Pile'em up"),
        chance: None,
        deck_count: 1,
        playable: Playable::Top,
        pile: Some(PileConf { deal_by: 1, redeals: 0, pile_to_cols: true }),
        fnd: vec![
            FndSlot { first: Face::Any, suit: Suit::Any, forder: FaceOrder::Any, sorder: SuitOrder::Any },
        ],
        temp: Some(TempConf { count: 2 }),
        cols: vec![
            ColConf { count: 1, up: 1, take_only: false },
            ColConf { count: 1, up: 1, take_only: false },
            ColConf { count: 1, up: 1, take_only: false },
            ColConf { count: 1, up: 1, take_only: false },
            ColConf { count: 1, up: 1, take_only: false },
            ColConf { count: 1, up: 1, take_only: false },
        ],
        col_forder: FaceOrder::Any,
        col_sorder: SuitOrder::Forbid,
        col_refill: Face::Unavail,
    };
    proof {
        reveal_with_fuel(cards_before, 11);
    }
    conf
}

/// Whether these are the rules of "American toad": two packs, 8 foundations, 9 columns, a deck pile with a waste.
pub open spec fn is_american_toad(conf: Conf) -> bool {
    &&& conf.name@ == "American toad"@
    &&& conf.chance is None
    &&& conf.deck_count == 2
    &&& conf.playable == Playable::Any
    &&& conf.pile == Some(PileConf { deal_by: 1, redeals: 0, pile_to_cols: false })
    &&& conf.fnd@ =~= Seq::new(
        8,
        |i: int| FndSlot { first: Face::A, suit: Suit::Any, forder: FaceOrder::Asc, sorder: SuitOrder::SameSuit },
    )
    &&& conf.temp is None
    &&& conf.cols@ =~= seq![
        ColConf { count: 20, up: 20, take_only: true },
        ColConf { count: 1, up: 1, take_only: false },
        ColConf { count: 1, up: 1, take_only: false },
        ColConf { count: 1, up: 1, take_only: false },
        ColConf { count: 1, up: 1, take_only: false },
        ColConf { count: 1, up: 1, take_only: false },
        ColConf { count: 1, up: 1, take_only: false },
        ColConf { count: 1, up: 1, take_only: false },
        ColConf { count: 1, up: 1, take_only: false },
    ]
    &&& conf.col_forder == FaceOrder::Desc
    &&& conf.col_sorder == SuitOrder::SameSuit
    &&& conf.col_refill == Face::Any
}

/// The rules of "American toad".
fn american_toad() -> (conf: Conf)
    ensures
        is_american_toad(conf),
        deals_out(conf),
        conf.valid(),
{
    let conf = Conf {
        name: String::from_str("American toad"),
        chance: None,
        deck_count: 2,
        playable: Playable::Any,
        pile: Some(PileConf { deal_by: 1, redeals: 0, pile_to_cols: false }),
        fnd: vec![
            FndSlot { first: Face::A, suit: Suit::Any, forder: FaceOrder::Asc, sorder: SuitOrder::SameSuit },
            FndSlot { first: Face::A, suit: Suit::Any, forder: FaceOrder::Asc, sorder: SuitOrder::SameSuit },
            FndSlot { first: Face::A, suit: Suit::Any, forder: FaceOrder::Asc, sorder: SuitOrder::SameSuit },
            FndSlot { first: Face::A, suit: Suit::Any, forder: FaceOrder::Asc, sorder: SuitOrder::SameSuit },
            FndSlot { first: Face::A, suit: Suit::Any, forder: FaceOrder::Asc, sorder: SuitOrder::SameSuit },
            FndSlot { first: Face::A, suit: Suit::Any, forder: FaceOrder::Asc, sorder: SuitOrder::SameSuit },
            FndSlot { first: Face::A, suit: Suit::Any, forder: FaceOrder::Asc, sorder: SuitOrder::SameSuit },
            FndSlot { first: Face::A, suit: Suit::Any, forder: FaceOrder::Asc, sorder: SuitOrder::SameSuit },
        ],
        temp: None,
        cols: vec![
            ColConf { count: 20, up: 20, take_only: true },
            ColConf { count: 1, up: 1, take_only: false },
            ColConf { count: 1, up: 1, take_only: false },
            ColConf { count: 1, up: 1, take_only: false },
            ColConf { count: 1, up: 1, take_only: false },
            ColConf { count: 1, up: 1, take_only: false },
            ColConf { count: 1, up: 1, take_only: false },
            ColConf { count: 1, up: 1, take_only: false },
            ColConf { count: 1, up: 1, take_only: false },
        ],
        col_forder: FaceOrder::Desc,
        col_sorder: SuitOrder::SameSuit,
        col_refill: Face::Any,
    };
    proof {
        reveal_with_fuel(cards_before, 11);
    }
    conf
}

/// Whether these are the rules of "Auld lang syne": one pack, 4 foundations, 4 columns, a deck pile that deals to the columns.
pub open spec fn is_auld_lang_syne(conf: Conf) -> bool {
    &&& conf.name@ == "Auld lang syne"@
    &&& conf.chance is None
    &&& conf.deck_count == 1
    &&& conf.playable == Playable::Top
    &&& conf.pile == Some(PileConf { deal_by: 1, redeals: 0, pile_to_cols: true })
    &&& conf.fnd@ =~= Seq::new(
        4,
        |i: int| FndSlot { first: Face::A, suit: Suit::Any, forder: FaceOrder::Asc, sorder: SuitOrder::Any },
    )
    &&& conf.temp is None
    &&& conf.cols@ =~= seq![
        ColConf { count: 1, up: 1, take_only: false },
        ColConf { count: 1, up: 1, take_only: false },
        ColConf { count: 1, up: 1, take_only: false },
        ColConf { count: 1, up: 1, take_only: false },
    ]
    &&& conf.col_forder == FaceOrder::Desc
    &&& conf.col_sorder == SuitOrder::Forbid
    &&& conf.col_refill == Face::Any
}

/// The rules of "Auld lang syne".
fn auld_lang_syne() -> (conf: Conf)
    ensures
        is_auld_lang_syne(conf),
        deals_out(conf),
        conf.valid(),
{
    let conf = Conf {
        name: String::from_str("Auld lang syne"),
        chance: None,
        deck_count: 1,
        playable: Playable::Top,
        pile: Some(PileConf { deal_by: 1, redeals: 0, pile_to_cols: true }),
        fnd: vec![
            FndSlot { first: Face::A, suit: Suit::Any, forder: FaceOrder::Asc, sorder: SuitOrder::Any },
            FndSlot { first: Face::A, suit: Suit::Any, forder: FaceOrder::Asc, sorder: SuitOrder::Any },
            FndSlot { first: Face::A, suit: Suit::Any, forder: FaceOrder::Asc, sorder: SuitOrder::Any },
            FndSlot { first: Face::A, suit: Suit::Any, forder: FaceOrder::Asc, sorder: SuitOrder::Any },
        ],
        temp: None,
        cols: vec![
            ColConf { count: 1, up: 1, take_only: false },
            ColConf { count: 1, up: 1, take_only: false },
            ColConf { count: 1, up: 1, take_only: false },
            ColConf { count: 1, up: 1, take_only: false },
        ],
        col_forder: FaceOrder::Desc,
        col_sorder: SuitOrder::Forbid,
        col_refill: Face::Any,
    };
    proof {
        reveal_with_fuel(cards_before, 11);
    }
    conf
}

/// Whether these are the rules of "Aunt Mary": one pack, 4 foundations, 6 columns, a deck pile with a waste.
pub open spec fn is_aunt_mary(conf: Conf) -> bool {
    &&& conf.name@ == "Aunt Mary"@
    &&& conf.chance is None
    &&& conf.deck_count == 1
    &&& conf.playable == Playable::Any
    &&& conf.pile == Some(PileConf { deal_by: 1, redeals: 0, pile_to_cols: false })
    &&& conf.fnd@ =~= Seq::new(
        4,
        |i: int| FndSlot { first: Face::A, suit: Suit::Any, forder: FaceOrder::Asc, sorder: SuitOrder::SameSuit },
    )
    &&& conf.temp is None
    &&& conf.cols@ =~= seq![
        ColConf { count: 6, up: 6, take_only: false },
        ColConf { count: 6, up: 5, take_only: false },
        ColConf { count: 6, up: 4, take_only: false },
        ColConf { count: 6, up: 3, take_only: false },
        ColConf { count: 6, up: 2, take_only: false },
        ColConf { count: 6, up: 1, take_only: false },
    ]
    &&& conf.col_forder == FaceOrder::Desc
    &&& conf.col_sorder == SuitOrder::AlternateColor
    &&& conf.col_refill == Face::K
}

/// The rules of "Aunt Mary".
fn aunt_mary() -> (conf: Conf)
    ensures
        is_aunt_mary(conf),
        deals_out(conf),
        conf.valid(),
{
    let conf = Conf {
        name: String::from_str("Aunt Mary"),
        chance: None,
        deck_count: 1,
        playable: Playable::Any,
        pile: Some(PileConf { deal_by: 1, redeals: 0, pile_to_cols: false }),
        fnd: vec![
            FndSlot { first: Face::A, suit: Suit::Any, forder: FaceOrder::Asc, sorder: SuitOrder::SameSuit },
            FndSlot { first: Face::A, suit: Suit::Any, forder: FaceOrder::Asc, sorder: SuitOrder::SameSuit },
            FndSlot { first: Face::A, suit: Suit::Any, forder: FaceOrder::Asc, sorder: SuitOrder::SameSuit },
            FndSlot { first: Face::A, suit: Suit::Any, forder: FaceOrder::Asc, sorder: SuitOrder::SameSuit },
        ],
        temp: None,
        cols: vec![
            ColConf { count: 6, up: 6, take_only: false },
            ColConf { count: 6, up: 5, take_only: false },
            ColConf { count: 6, up: 4, take_only: false },
            ColConf { count: 6, up: 3, take_only: false },
            ColConf { count: 6, up: 2, take_only: false },
            ColConf { count: 6, up: 1, take_only: false },
        ],
        col_forder: FaceOrder::Desc,
        col_sorder: SuitOrder::AlternateColor,
        col_refill: Face::K,
    };
    proof {
        reveal_with_fuel(cards_before, 11);
    }
    conf
}

/// Whether these are the rules of "Batsford": two packs, 8 foundations, 10 columns, a deck pile with a waste.
pub open spec fn is_batsford(conf: Conf) -> bool {
    &&& conf.name@ == "Batsford"@
    &&& conf.chance is None
    &&& conf.deck_count == 2
    &&& conf.playable == Playable::Any
    &&& conf.pile == Some(PileConf { deal_by: 1, redeals: 0, pile_to_cols: false })
    &&& conf.fnd@ =~= Seq::new(
        8,
        |i: int| FndSlot { first: Face::A, suit: Suit::Any, forder: FaceOrder::Asc, sorder: SuitOrder::Any },
    )
    &&& conf.temp is None
    &&& conf.cols@ =~= seq![
        ColConf { count: 1, up: 1, take_only: false },
        ColConf { count: 2, up: 1, take_only: false },
        ColConf { count: 3, up: 1, take_only: false },
        ColConf { count: 4, up: 1, take_only: false },
        ColConf { count: 5, up: 1, take_only: false },
        ColConf { count: 6, up: 1, take_only: false },
        ColConf { count: 7, up: 1, take_only: false },
        ColConf { count: 8, up: 1, take_only: false },
        ColConf { count: 9, up: 1, take_only: false },
        ColConf { count: 10, up: 1, take_only: false },
    ]
    &&& conf.col_forder == FaceOrder::Desc
    &&& conf.col_sorder == SuitOrder::AlternateColor
    &&& conf.col_refill == Face::K
}

/// The rules of "Batsford".
fn batsford() -> (conf: Conf)
    ensures
        is_batsford(conf),
        deals_out(conf),
        conf.valid(),
{
    let conf = Conf {
        name: String::from_str("Batsford"),
        chance: None,
        deck_count: 2,
        playable: Playable::Any,
        pile: Some(PileConf { deal_by: 1, redeals: 0, pile_to_cols: false }),
        fnd: vec![
            FndSlot { first: Face::A, suit: Suit::Any, forder: FaceOrder::Asc, sorder: SuitOrder::Any },
            FndSlot { first: Face::A, suit: Suit::Any, forder: FaceOrder::Asc, sorder: SuitOrder::Any },
            FndSlot { first: Face::A, suit: Suit::Any, forder: FaceOrder::Asc, sorder: SuitOrder::Any },
            FndSlot { first: Face::A, suit: Suit::Any, forder: FaceOrder::Asc, sorder: SuitOrder::Any },
            FndSlot { first: Face::A, suit: Suit::Any, forder: FaceOrder::Asc, sorder: SuitOrder::Any },
            FndSlot { first: Face::A, suit: Suit::Any, forder: FaceOrder::Asc, sorder: SuitOrder::Any },
            FndSlot { first: Face::A, suit: Suit::Any, forder: FaceOrder::Asc, sorder: SuitOrder::Any },
            FndSlot { first: Face::A, suit: Suit::Any, forder: FaceOrder::Asc, sorder: SuitOrder::Any },
        ],
        temp: None,
        cols: vec![
            ColConf { count: 1, up: 1, take_only: false },
            ColConf { count: 2, up: 1, take_only: false },
            ColConf { count: 3, up: 1, take_only: false },
            ColConf { count: 4, up: 1, take_only: false },
            ColConf { count: 5, up: 1, take_only: false },
            ColConf { count: 6, up: 1, take_only: false },
            ColConf { count: 7, up: 1, take_only: false },
            ColConf { count: 8, up: 1, take_only: false },
            ColConf { count: 9, up: 1, take_only: false },
            ColConf { count: 10, up: 1, take_only: false },
        ],
        col_forder: FaceOrder::Desc,
        col_sorder: SuitOrder::AlternateColor,
        col_refill: Face::K,
    };
    proof {
        reveal_with_fuel(cards_before, 11);
    }
    conf
}

/// Whether these are the rules of "Blind alleys": one pack, 4 foundations, 6 columns, a deck pile with a waste.
pub open spec fn is_blind_alleys(conf: Conf) -> bool {
    &&& conf.name@ == "Blind alleys"@
    &&& conf.chance is None
    &&& conf.deck_count == 1
    &&& conf.playable == Playable::Any
    &&& conf.pile == Some(PileConf { deal_by: 1, redeals: 1, pile_to_cols: false })
    &&& conf.fnd@ =~= Seq::new(
        4,
        |i: int| FndSlot { first: Face::A, suit: Suit::Any, forder: FaceOrder::Asc, sorder: SuitOrder::SameSuit },
    )
    &&& conf.temp is None
    &&& conf.cols@ =~= seq![
        ColConf { count: 3, up: 1, take_only: false },
        ColConf { count: 3, up: 1, take_only: false },
        ColConf { count: 3, up: 1, take_only: false },
        ColConf { count: 3, up: 1, take_only: false },
        ColConf { count: 3, up: 1, take_only: false },
        ColConf { count: 3, up: 1, take_only: false },
    ]
    &&& conf.col_forder == FaceOrder::Desc
    &&& conf.col_sorder == SuitOrder::AlternateColor
    &&& conf.col_refill == Face::Any
}

/// The rules of "Blind alleys".
fn blind_alleys() -> (conf: Conf)
    ensures
        is_blind_alleys(conf),
        deals_out(conf),
        conf.valid(),
{
    let conf = Conf {
        name: String::from_str("Blind alleys"),
        chance: None,
        deck_count: 1,
        playable: Playable::Any,
        pile: Some(PileConf { deal_by: 1, redeals: 1, pile_to_cols: false }),
        fnd: vec![
            FndSlot { first: Face::A, suit: Suit::Any, forder: FaceOrder::Asc, sorder: SuitOrder::SameSuit },
            FndSlot { first: Face::A, suit: Suit::Any, forder: FaceOrder::Asc, sorder: SuitOrder::SameSuit },
            FndSlot { first: Face::A, suit: Suit::Any, forder: FaceOrder::Asc, sorder: SuitOrder::SameSuit },
            FndSlot { first: Face::A, suit: Suit::Any, forder: FaceOrder::Asc, sorder: SuitOrder::SameSuit },
        ],
        temp: None,
        cols: vec![
            ColConf { count: 3, up: 1, take_only: false },
            ColConf { count: 3, up: 1, take_only: false },
            ColConf { count: 3, up: 1, take_only: false },
            ColConf { count: 3, up: 1, take_only: false },
            ColConf { count: 3, up: 1, take_only: false },
            ColConf { count: 3, up: 1, take_only: false },
        ],
        col_forder: FaceOrder::Desc,
        col_sorder: SuitOrder::AlternateColor,
        col_refill: Face::Any,
    };
    proof {
        reveal_with_fuel(cards_before, 11);
    }
    conf
}

/// Whether these are the rules of "Brigade": one pack, 4 foundations, 8 columns, no deck pile.
pub open spec fn is_brigade(conf: Conf) -> bool {
    &&& conf.name@ == "Brigade"@
    &&& conf.chance is None
    &&& conf.deck_count == 1
    &&& conf.playable == Playable::Top
    &&& conf.pile is None
    &&& conf.fnd@ =~= Seq::new(
        4,
        |i: int| FndSlot { first: Face::A, suit: Suit::Any, forder: FaceOrder::Asc, sorder: SuitOrder::SameSuit },
    )
    &&& conf.temp is None
    &&& conf.cols@ =~= seq![
        ColConf { count: 6, up: 6, take_only: false },
        ColConf { count: 6, up: 6, take_only: false },
        ColConf { count: 6, up: 6, take_only: false },
        ColConf { count: 6, up: 6, take_only: false },
        ColConf { count: 6, up: 6, take_only: false },
        ColConf { count: 6, up: 6, take_only: false },
        ColConf { count: 6, up: 6, take_only: false },
        ColConf { count: 10, up: 10, take_only: true },
    ]
    &&& conf.col_forder == FaceOrder::Desc
    &&& conf.col_sorder == SuitOrder::Any
    &&& conf.col_refill == Face::Any
}

/// The rules of "Brigade".
fn brigade() -> (conf: Conf)
    ensures
        is_brigade(conf),
        deals_out(conf),
        conf.valid(),
{
    let conf = Conf {
        name: String::from_str("Brigade"),
        chance: None,
        deck_count: 1,
        playable: Playable::Top,
        pile: None,
        fnd: vec![
            FndSlot { first: Face::A, suit: Suit::Any, forder: FaceOrder::Asc, sorder: SuitOrder::SameSuit },
            FndSlot { first: Face::A, suit: Suit::Any, forder: FaceOrder::Asc, sorder: SuitOrder::SameSuit },
            FndSlot { first: Face::A, suit: Suit::Any, forder: FaceOrder::Asc, sorder: SuitOrder::SameSuit },
            FndSlot { first: Face::A, suit: Suit::Any, forder: FaceOrder::Asc, sorder: SuitOrder::SameSuit },
        ],
        temp: None,
        cols: vec![
            ColConf { count: 6, up: 6, take_only: false },
            ColConf { count: 6, up: 6, take_only: false },
            ColConf { count: 6, up: 6, take_only: false },
            ColConf { count: 6, up: 6, take_only: false },
            ColConf { count: 6, up: 6, take_only: false },
            ColConf { count: 6, up: 6, take_only: false },
            ColConf { count: 6, up: 6, take_only: false },
            ColConf { count: 10, up: 10, take_only: true },
        ],
        col_forder: FaceOrder::Desc,
        col_sorder: SuitOrder::Any,
        col_refill: Face::Any,
    };
    proof {
        reveal_with_fuel(cards_before, 11);
    }
    conf
}

/// Whether these are the rules of "Deuces": two packs, 8 foundations, 10 columns, a deck pile with a waste.
pub open spec fn is_deuces(conf: Conf) -> bool {
    &&& conf.name@ == "Deuces"@
    &&& conf.chance is None
    &&& conf.deck_count == 2
    &&& conf.playable == Playable::Any
    &&& conf.pile == Some(PileConf { deal_by: 1, redeals: 0, pile_to_cols: false })
    &&& conf.fnd@ =~= Seq::new(
        8,
        |i: int| FndSlot { first: Face::N2, suit: Suit::Any, forder: FaceOrder::Asc, sorder: SuitOrder::SameSuit },
    )
    &&& conf.temp is None
    &&& conf.cols@ =~= seq![
        ColConf { count: 1, up: 1, take_only: false },
        ColConf { count: 1, up: 1, take_only: false },
        ColConf { count: 1, up: 1, take_only: false },
        ColConf { count: 1, up: 1, take_only: false },
        ColConf { count: 1, up: 1, take_only: false },
        ColConf { count: 1, up: 1, take_only: false },
        ColConf { count: 1, up: 1, take_only: false },
        ColConf { count: 1, up: 1, take_only: false },
        ColConf { count: 1, up: 1, take_only: false },
        ColConf { count: 1, up: 1, take_only: false },
    ]
    &&& conf.col_forder == FaceOrder::Desc
    &&& conf.col_sorder == SuitOrder::SameSuit
    &&& conf.col_refill == Face::Any
}

/// The rules of "Deuces".
fn deuces() -> (conf: Conf)
    ensures
        is_deuces(conf),
        deals_out(conf),
        conf.valid(),
{
    let conf = Conf {
        name: String::from_str("Deuces"),
        chance: None,
        deck_count: 2,
        playable: Playable::Any,
        pile: Some(PileConf { deal_by: 1, redeals: 0, pile_to_cols: false }),
        fnd: vec![
            FndSlot { first: Face::N2, suit: Suit::Any, forder: FaceOrder::Asc, sorder: SuitOrder::SameSuit },
            FndSlot { first: Face::N2, suit: Suit::Any, forder: FaceOrder::Asc, sorder: SuitOrder::SameSuit },
            FndSlot { first: Face::N2, suit: Suit::Any, forder: FaceOrder::Asc, sorder: SuitOrder::SameSuit },
            FndSlot { first: Face::N2, suit: Suit::Any, forder: FaceOrder::Asc, sorder: SuitOrder::SameSuit },
            FndSlot { first: Face::N2, suit: Suit::Any, forder: FaceOrder::Asc, sorder: SuitOrder::SameSuit },
            FndSlot { first: Face::N2, suit: Suit::Any, forder: FaceOrder::Asc, sorder: SuitOrder::SameSuit },
            FndSlot { first: Face::N2, suit: Suit::Any, forder: FaceOrder::Asc, sorder: SuitOrder::SameSuit },
            FndSlot { first: Face::N2, suit: Suit::Any, forder: FaceOrder::Asc, sorder: SuitOrder::SameSuit },
        ],
        temp: None,
        cols: vec![
            ColConf { count: 1, up: 1, take_only: false },
            ColConf { count: 1, up: 1, take_only: false },
            ColConf { count: 1, up: 1, take_only: false },
            ColConf { count: 1, up: 1, take_only: false },
            ColConf { count: 1, up: 1, take_only: false },
            ColConf { count: 1, up: 1, take_only: false },
            ColConf { count: 1, up: 1, take_only: false },
            ColConf { count: 1, up: 1, take_only: false },
            ColConf { count: 1, up: 1, take_only: false },
            ColConf { count: 1, up: 1, take_only: false },
        ],
        col_forder: FaceOrder::Desc,
        col_sorder: SuitOrder::SameSuit,
        col_refill: Face::Any,
    };
    proof {
        reveal_with_fuel(cards_before, 11);
    }
    conf
}

/// Whether these are the rules of "Canfield": one pack, 4 foundations, 5 columns, a deck pile with a waste.
pub open spec fn is_canfield(conf: Conf) -> bool {
    &&& conf.name@ == "Canfield"@
    &&& conf.chance is None
    &&& conf.deck_count == 1
    &&& conf.playable == Playable::Any
    &&& conf.pile == Some(PileConf { deal_by: 3, redeals: -1i8, pile_to_cols: false })
    &&& conf.fnd@ =~= Seq::new(
        4,
        |i: int| FndSlot { first: Face::Column, suit: Suit::Any, forder: FaceOrder::Asc, sorder: SuitOrder::SameSuit },
    )
    &&& conf.temp is None
    &&& conf.cols@ =~= seq![
        ColConf { count: 14, up: 14, take_only: true },
        ColConf { count: 1, up: 1, take_only: false },
        ColConf { count: 1, up: 1, take_only: false },
        ColConf { count: 1, up: 1, take_only: false },
        ColConf { count: 1, up: 1, take_only: false },
    ]
    &&& conf.col_forder == FaceOrder::Desc
    &&& conf.col_sorder == SuitOrder::AlternateColor
    &&& conf.col_refill == Face::Any
}

/// The rules of "Canfield".
fn canfield() -> (conf: Conf)
    ensures
        is_canfield(conf),
        deals_out(conf),
        conf.valid(),
{
    let conf = Conf {
        name: String::from_str("Canfield"),
        chance: None,
        deck_count: 1,
        playable: Playable::Any,
        pile: Some(PileConf { deal_by: 3, redeals: -1, pile_to_cols: false }),
        fnd: vec![
            FndSlot { first: Face::Column, suit: Suit::Any, forder: FaceOrder::Asc, sorder: SuitOrder::SameSuit },
            FndSlot { first: Face::Column, suit: Suit::Any, forder: FaceOrder::Asc, sorder: SuitOrder::SameSuit },
            FndSlot { first: Face::Column, suit: Suit::Any, forder: FaceOrder::Asc, sorder: SuitOrder::SameSuit },
            FndSlot { first: Face::Column, suit: Suit::Any, forder: FaceOrder::Asc, sorder: SuitOrder::SameSuit },
        ],
        temp: None,
        cols: vec![
            ColConf { count: 14, up: 14, take_only: true },
            ColConf { count: 1, up: 1, take_only: false },
            ColConf { count: 1, up: 1, take_only: false },
            ColConf { count: 1, up: 1, take_only: false },
            ColConf { count: 1, up: 1, take_only: false },
        ],
        col_forder: FaceOrder::Desc,
        col_sorder: SuitOrder::AlternateColor,
        col_refill: Face::Any,
    };
    proof {
        reveal_with_fuel(cards_before, 11);
    }
    conf
}

/// Whether the fourteen solitaires that come with the engine stand in `rules`,
/// each at its place.
pub open spec fn is_builtin_table(rules: Seq<Conf>) -> bool {
    &&& rules.len() == 14
    &&& is_klondike_hard(rules[0])
    &&& is_klondike_easy(rules[1])
    &&& is_klondike_double(rules[2])
    &&& is_free_cell(rules[3])
    &&& is_russian_solitaire(rules[4])
    &&& is_pile_em_up(rules[5])
    &&& is_american_toad(rules[6])
    &&& is_auld_lang_syne(rules[7])
    &&& is_aunt_mary(rules[8])
    &&& is_batsford(rules[9])
    &&& is_blind_alleys(rules[10])
    &&& is_brigade(rules[11])
    &&& is_deuces(rules[12])
    &&& is_canfield(rules[13])
}

/// What tells the names of the table apart: the length of a name, its first
/// character and its eleventh, or a blank where it has none.
pub open spec fn name_mark(name: Seq<char>) -> (nat, char, char) {
    (
        name.len(),
        name[0],
        if name.len() > 10 {
            name[10]
        } else {
            ' '
        },
    )
}

/// No two solitaires of the table have one name, so that each can be found by
/// its name.
pub proof fn lemma_builtin_names(rules: Seq<Conf>)
    requires
        is_builtin_table(rules),
    ensures
        forall|i: int, j: int|
            0 <= i < j < rules.len() ==> (#[trigger] rules[i]).name@ != (#[trigger] rules[j]).name@,
{
    reveal_strlit("Klondike (hard)");
    reveal_strlit("Klondike (easy)");
    reveal_strlit("Klondike (double)");
    reveal_strlit("Free cell");
    reveal_strlit("Russian solitaire");
    reveal_strlit("Pile'em up");
    reveal_strlit("American toad");
    reveal_strlit("Auld lang syne");
    reveal_strlit("Aunt Mary");
    reveal_strlit("Batsford");
    reveal_strlit("Blind alleys");
    reveal_strlit("Brigade");
    reveal_strlit("Deuces");
    reveal_strlit("Canfield");
    assert(name_mark(rules[0].name@) == (15nat, 'K', 'h'));
    assert(name_mark(rules[1].name@) == (15nat, 'K', 'e'));
    assert(name_mark(rules[2].name@) == (17nat, 'K', 'd'));
    assert(name_mark(rules[3].name@) == (9nat, 'F', ' '));
    assert(name_mark(rules[4].name@) == (17nat, 'R', 'l'));
    assert(name_mark(rules[5].name@) == (10nat, 'P', ' '));
    assert(name_mark(rules[6].name@) == (13nat, 'A', 'o'));
    assert(name_mark(rules[7].name@) == (14nat, 'A', 's'));
    assert(name_mark(rules[8].name@) == (9nat, 'A', ' '));
    assert(name_mark(rules[9].name@) == (8nat, 'B', ' '));
    assert(name_mark(rules[10].name@) == (12nat, 'B', 'y'));
    assert(name_mark(rules[11].name@) == (7nat, 'B', ' '));
    assert(name_mark(rules[12].name@) == (6nat, 'D', ' '));
    assert(name_mark(rules[13].name@) == (8nat, 'C', ' '));
    assert forall|i: int, j: int| 0 <= i < j < rules.len() implies (#[trigger] rules[i]).name@ != (
    #[trigger] rules[j]).name@ by {
        assert(i == 0 || i == 1 || i == 2 || i == 3 || i == 4 || i == 5 || i == 6 || i == 7 || i
            == 8 || i == 9 || i == 10 || i == 11 || i == 12);
        assert(j == 1 || j == 2 || j == 3 || j == 4 || j == 5 || j == 6 || j == 7 || j == 8 || j
            == 9 || j == 10 || j == 11 || j == 12 || j == 13);
        assert(name_mark(rules[i].name@) != name_mark(rules[j].name@));
    }
}

/// The rules of every solitaire that comes with the engine, in a fixed order.
/// Each is a valid description with a name of its own, and a game can be
/// started by each.
pub fn builtin_rules() -> (r: Result<Vec<Conf>, SolError>)
    ensures
        r is Ok,
        is_builtin_table(r->Ok_0@),
        forall|i: int| 0 <= i < r->Ok_0@.len() ==> (#[trigger] r->Ok_0@[i]).valid(),
        forall|i: int| 0 <= i < r->Ok_0@.len() ==> deals_out(#[trigger] r->Ok_0@[i]),
        forall|i: int, j: int|
            0 <= i < j < r->Ok_0@.len() ==> (#[trigger] r->Ok_0@[i]).name@ != (
            #[trigger] r->Ok_0@[j]).name@,
{
    let mut rules: Vec<Conf> = Vec::new();
    rules.push(klondike_hard());
    rules.push(klondike_easy());
    rules.push(klondike_double());
    rules.push(free_cell());
    rules.push(russian_solitaire());
    rules.push(pile_em_up());
    rules.push(american_toad());
    rules.push(auld_lang_syne());
    rules.push(aunt_mary());
    rules.push(batsford());
    rules.push(blind_alleys());
    rules.push(brigade());
    rules.push(deuces());
    rules.push(canfield());
    proof {
        lemma_builtin_names(rules@);
    }
    Ok(rules)
}

} // verus!
