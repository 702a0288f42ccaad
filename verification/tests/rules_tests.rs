use solkit::card::Face;
use solkit::engine::Game;
use solkit::gconf::{FaceOrder, Playable, SuitOrder};
use solkit::rules::builtin_rules;

#[test]
fn the_built_in_solitaires_are_listed_in_order() {
    let names: Vec<String> = builtin_rules().unwrap().iter().map(|c| c.name.clone()).collect();
    assert_eq!(
        names,
        vec![
            "Klondike (hard)",
            "Klondike (easy)",
            "Klondike (double)",
            "Free cell",
            "Russian solitaire",
            "Pile'em up",
            "American toad",
            "Auld lang syne",
            "Aunt Mary",
            "Batsford",
            "Blind alleys",
            "Brigade",
            "Deuces",
            "Canfield"
        ]
    );
}

#[test]
fn every_built_in_solitaire_can_be_started() {
    for conf in builtin_rules().unwrap().iter() {
        assert!(!conf.cols.is_empty());
        let g = Game::init(conf).unwrap();
        let mut cards = 0;
        for i in 0..g.fnd_count() {
            assert!(g.fnd(i).unwrap().is_empty());
        }
        for i in 0..g.col_count() {
            let col = g.col(i).unwrap();
            assert_eq!(col.len(), conf.cols[i].count as usize);
            cards += col.len();
        }
        for i in 0..g.temp_count() {
            assert!(g.temp(i).unwrap().is_empty());
        }
        for i in 0..g.pile_count() {
            cards += g.pile(i).unwrap().len();
        }
        assert_eq!(cards, 52 * conf.deck_count as usize);
        assert_eq!(g.redeal_left(), conf.redeals());
        assert_eq!(g.selected_loc().col, conf.fnd.len());
        assert!(!g.is_completed());
    }
}

#[test]
fn the_built_in_solitaires_are_valid() {
    let rules = builtin_rules().unwrap();
    for conf in rules.iter() {
        assert_eq!(conf.validate(), Ok(()));
        assert!((1..=16).contains(&conf.deal_by()) || conf.pile.is_none());
    }
    let pile = rules[5].pile.unwrap();
    assert_eq!((pile.deal_by, pile.redeals, pile.pile_to_cols), (1, 0, true));
}

#[test]
fn the_built_in_solitaires_have_names_of_their_own() {
    let rules = builtin_rules().unwrap();
    let mut by_name = std::collections::HashMap::new();
    for conf in rules.iter() {
        assert!(by_name.insert(conf.name.clone(), conf).is_none());
    }
    assert_eq!(by_name.len(), 14);
    for (name, conf) in by_name.iter() {
        assert_eq!(name, &conf.name);
    }
}

#[test]
fn free_cell_is_described_as_it_is_played() {
    let rules = builtin_rules().unwrap();
    let conf = &rules[3];
    assert_eq!(conf.name, "Free cell");
    assert_eq!(conf.chance, None);
    assert_eq!(conf.deck_count, 1);
    assert_eq!(conf.playable, Playable::Top);
    assert!(conf.pile.is_none());
    assert_eq!(conf.temp.unwrap().count, 4);
    assert_eq!(conf.fnd.len(), 4);
    assert!(conf.fnd.iter().all(|f| f.first == Face::A
        && f.forder == FaceOrder::Asc
        && f.sorder == SuitOrder::SameSuit));
    let sizes: Vec<(u8, u8, bool)> = conf.cols.iter().map(|c| (c.count, c.up, c.take_only)).collect();
    assert_eq!(
        sizes,
        vec![
            (7, 7, false),
            (7, 7, false),
            (7, 7, false),
            (7, 7, false),
            (6, 6, false),
            (6, 6, false),
            (6, 6, false),
            (6, 6, false)
        ]
    );
    assert_eq!(conf.col_forder, FaceOrder::Desc);
    assert_eq!(conf.col_sorder, SuitOrder::AlternateColor);
    assert_eq!(conf.col_refill, Face::K);
    let g = Game::init(conf).unwrap();
    assert_eq!(g.column_count(), 16);
    assert!(!g.can_deal());
}

#[test]
fn canfield_keeps_a_reserve_that_only_gives() {
    let rules = builtin_rules().unwrap();
    let conf = &rules[13];
    assert_eq!(conf.name, "Canfield");
    assert!(conf.fnd.iter().all(|f| f.first == Face::Column));
    assert_eq!(conf.cols[0].count, 14);
    assert!(conf.cols[0].take_only);
    assert_eq!(conf.col_refill, Face::Any);
    let g = Game::init(conf).unwrap();
    assert!(g.slot_conf(4).unwrap().take_only);
    assert_eq!(g.col(0).unwrap().len(), 14);
    assert!(g.col(0).unwrap().iter().all(|c| c.up));
    assert_eq!(g.pile(0).unwrap().len() + g.pile(1).unwrap().len(), 34);
}
