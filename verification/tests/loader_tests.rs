use solkit::card::{Face, Suit};
use solkit::engine::Game;
use solkit::err::SolError;
use solkit::gconf::{Conf, FaceOrder, Playable, SuitOrder};
use solkit::loader::{load_config, parse_deck, parse_foundation, parse_global, parse_play, parse_temp};

fn lines(text: &str) -> Vec<String> {
    text.lines().map(|l| l.trim().to_lowercase()).filter(|l| !l.is_empty()).collect()
}

fn load(text: &str) -> Result<Conf, SolError> {
    load_config(&lines(text))
}

const KLONDIKE: &str = "
    [global]
    name = my klondike
    chance = 30
    decks = 1
    [deck]
    redeals = unlimited
    deal_by = 3
    deal_to = waste
    [foundation]
    column = a, any, asc, same suit
    column = a, any, asc, same suit
    column = a, any, asc, same suit
    column = a, any, asc, same suit
    [column]
    playable_card = any
    refill = k
    order = desc, alternate color
    column = 1, 1
    column = 2, 1
    column = 3, 2
    column = 4, 2
    column = 5, 3
    column = 6 , 3
    column = 7,4
";

#[test]
fn a_description_is_read() {
    let conf = load(KLONDIKE).unwrap();
    assert_eq!(conf.name, "my klondike");
    assert_eq!(conf.chance, Some(30));
    assert_eq!(conf.deck_count, 1);
    assert_eq!(conf.playable, Playable::Any);
    let pile = conf.pile.unwrap();
    assert_eq!((pile.deal_by, pile.redeals, pile.pile_to_cols), (3, -1, false));
    assert_eq!(conf.fnd.len(), 4);
    for f in conf.fnd.iter() {
        assert_eq!(
            (f.first, f.suit, f.forder, f.sorder),
            (Face::A, Suit::Any, FaceOrder::Asc, SuitOrder::SameSuit)
        );
    }
    assert!(conf.temp.is_none());
    let cols: Vec<(u8, u8, bool)> = conf.cols.iter().map(|c| (c.count, c.up, c.take_only)).collect();
    assert_eq!(
        cols,
        vec![
            (1, 1, false),
            (2, 1, false),
            (3, 2, false),
            (4, 2, false),
            (5, 3, false),
            (6, 3, false),
            (7, 4, false)
        ]
    );
    assert_eq!(conf.col_forder, FaceOrder::Desc);
    assert_eq!(conf.col_sorder, SuitOrder::AlternateColor);
    assert_eq!(conf.col_refill, Face::K);
    assert_eq!(conf.validate(), Ok(()));
    let g = Game::init(&conf).unwrap();
    assert_eq!(g.column_count(), 13);
    assert_eq!(g.pile(0).unwrap().len(), 21);
}

#[test]
fn no_lines_give_blank_rules() {
    let conf = load_config(&[]).unwrap();
    assert_eq!(conf.name, "");
    assert_eq!(conf.deck_count, 1);
    assert!(conf.fnd.is_empty() && conf.cols.is_empty());
    assert!(conf.pile.is_none() && conf.temp.is_none());
    assert_eq!(conf.col_refill, Face::Unavail);
}

#[test]
fn sections_add_to_one_another() {
    let conf = load(
        "[global]
         decks = 2
         [temp]
         slots = 3
         [deck]
         deal_to = columns
         deal_by = 1
         redeals = -5
         [temp]
         [foundation]
         column = 2 , hearts , any , none
         [column]
         column = 10, 0, take only
         column = 3, 9, takeonly
         column = 0, 0, take
         playable_card = ordered
         refill = none
         order = inc, any
         [global]
         name = second = name
         chance=+7",
    )
    .unwrap();
    assert_eq!(conf.deck_count, 2);
    assert_eq!(conf.temp.unwrap().count, 3);
    let pile = conf.pile.unwrap();
    assert_eq!((pile.deal_by, pile.redeals, pile.pile_to_cols), (1, -5, true));
    assert_eq!(conf.fnd.len(), 1);
    let f = conf.fnd[0];
    assert_eq!(
        (f.first, f.suit, f.forder, f.sorder),
        (Face::N2, Suit::Heart, FaceOrder::Any, SuitOrder::Forbid)
    );
    let cols: Vec<(u8, u8, bool)> = conf.cols.iter().map(|c| (c.count, c.up, c.take_only)).collect();
    assert_eq!(cols, vec![(10, 0, true), (3, 9, true), (0, 0, true)]);
    assert_eq!(conf.playable, Playable::Ordered);
    assert_eq!(conf.col_refill, Face::Unavail);
    assert_eq!(conf.col_forder, FaceOrder::Asc);
    assert_eq!(conf.col_sorder, SuitOrder::Any);
    assert_eq!(conf.name, "second = name");
    assert_eq!(conf.chance, Some(7));
}

#[test]
fn an_empty_temp_section_adds_no_free_cells() {
    let conf = load("[temp]\nslots = 0\n[column]\ncolumn = 52, 52").unwrap();
    assert!(conf.temp.is_none());
    let conf = load("[temp]\n[column]\ncolumn = 52, 52").unwrap();
    assert!(conf.temp.is_none());
    assert_eq!(load("[temp]\nslots = 5").unwrap_err(), SolError::InvalidTempNumber(5));
    assert_eq!(load("[temp]\nslots = 5\n[global]").unwrap_err(), SolError::InvalidTempNumber(5));
    assert_eq!(load("[temp]\nslots = 4").unwrap().temp.unwrap().count, 4);
}

fn value(name: &str, val: &str) -> SolError {
    SolError::InvalidConfOptionValue(name.to_string(), val.to_string())
}

fn option(section: &str, name: &str) -> SolError {
    SolError::InvalidConfOption(section.to_string(), name.to_string())
}

#[test]
fn lines_that_cannot_be_read_are_named() {
    assert_eq!(load("name = x").unwrap_err(), SolError::InvalidConfLine("name = x".to_string()));
    assert_eq!(load("[global]\nname").unwrap_err(), SolError::InvalidConfLine("name".to_string()));
    assert_eq!(load("[deck]\ndeal_by 3").unwrap_err(), SolError::InvalidConfLine("deal_by 3".to_string()));
    assert_eq!(load("[colum]").unwrap_err(), SolError::InvalidConfSection("colum".to_string()));
    assert_eq!(load("[]").unwrap_err(), SolError::InvalidConfSection(String::new()));
    assert_eq!(load("[ [temp] ] x").unwrap_err(), SolError::InvalidConfSection("temp] ] x".to_string()));
    assert_eq!(load("[global]\n= 2").unwrap_err(), option("global", ""));
    assert_eq!(load("[global]\nnames = 2").unwrap_err(), option("global", "names"));
    assert_eq!(load("[deck]\nname = 2").unwrap_err(), option("deck", "name"));
    assert_eq!(load("[foundation]\nslot = 2").unwrap_err(), option("foundation", "slot"));
    assert_eq!(load("[temp]\ncount = 2").unwrap_err(), option("temp", "count"));
    assert_eq!(load("[column]\ncolumns = 2").unwrap_err(), option("foundation", "columns"));
}

#[test]
fn values_that_cannot_be_read_are_named() {
    assert_eq!(load("[global]\nchance = 65536").unwrap_err(), value("chance", "65536"));
    assert_eq!(load("[global]\nchance = -1").unwrap_err(), value("chance", "-1"));
    assert_eq!(load("[global]\nchance =").unwrap_err(), value("chance", ""));
    assert_eq!(load("[global]\ndecks = 3").unwrap_err(), value("decks", "3"));
    assert_eq!(load("[global]\ndecks = 0").unwrap_err(), value("decks", "0"));
    assert_eq!(load("[global]\ndecks = two").unwrap_err(), value("decks", "two"));
    assert_eq!(load("[deck]\nredeals = 128").unwrap_err(), value("redeals", "128"));
    assert_eq!(load("[deck]\nredeals = many").unwrap_err(), value("redeals", "many"));
    assert_eq!(load("[deck]\ndeal_by = 256").unwrap_err(), value("deal_by", "256"));
    assert_eq!(load("[deck]\ndeal_to = pile").unwrap_err(), value("deal_to", "pile"));
    assert_eq!(load("[temp]\nslots = -1").unwrap_err(), value("slots", "-1"));
    assert_eq!(load("[column]\nplayable_card = all").unwrap_err(), value("playable_card", "all"));
    assert_eq!(load("[column]\norder = desc").unwrap_err(), value("order", "desc"));
    assert_eq!(load("[column]\norder = desc, any, any").unwrap_err(), value("order", "desc, any, any"));
    assert_eq!(load("[column]\ncolumn = 7").unwrap_err(), value("column", "7"));
    assert_eq!(load("[column]\ncolumn = 7,7,take,x").unwrap_err(), value("column", "7,7,take,x"));
    assert_eq!(load("[column]\ncolumn = a,7").unwrap_err(), value("column", "a,7"));
    assert_eq!(load("[column]\ncolumn = 7,256").unwrap_err(), value("column", "7,256"));
    assert_eq!(load("[column]\ncolumn = 7,7,give").unwrap_err(), value("column", "7,7,give"));
    assert_eq!(load("[foundation]\ncolumn = a, any, asc").unwrap_err(), value("column", "a, any, asc"));
    assert_eq!(
        load("[foundation]\ncolumn = a,any,asc,same,x").unwrap_err(), value("column", "a,any,asc,same,x"));
}

#[test]
fn names_that_name_nothing_are_named() {
    assert_eq!(load("[column]\nrefill = joker").unwrap_err(), SolError::InvalidFace("joker".to_string()));
    assert_eq!(load("[column]\norder = up, any").unwrap_err(), SolError::InvalidFaceOrder("up".to_string()));
    assert_eq!(
        load("[column]\norder = asc, all").unwrap_err(), SolError::InvalidSuitOrder("all".to_string()));
    assert_eq!(
        load("[foundation]\ncolumn = 1, any, asc, same").unwrap_err(), SolError::InvalidFace("1".to_string()));
    assert_eq!(
        load("[foundation]\ncolumn = a, red, asc, same").unwrap_err(), SolError::InvalidSuit("red".to_string()));
    assert_eq!(
        load("[foundation]\ncolumn = a, any, up, same").unwrap_err(), SolError::InvalidFaceOrder("up".to_string()));
    assert_eq!(
        load("[foundation]\ncolumn = a, any, asc, mixed").unwrap_err(), SolError::InvalidSuitOrder("mixed".to_string()));
}

#[test]
fn a_foundation_with_six_fields_is_never_read() {
    assert_eq!(
        load("[foundation]\ncolumn = a, any, asc, same, k, spade").unwrap_err(), SolError::InvalidSuit("k".to_string()));
    assert_eq!(
        load("[foundation]\ncolumn = a, any, asc, same, spade, k").unwrap_err(), SolError::InvalidFace("spade".to_string()));
    assert_eq!(
        load("[foundation]\ncolumn = a, any, asc, same, any, any").unwrap_err(), value("column initial card", "a, any, asc, same, any, any"));
}

#[test]
fn sections_are_checked_when_they_end() {
    assert_eq!(load("[deck]").unwrap_err(), SolError::InvalidDealBy(0));
    assert_eq!(load("[deck]\ndeal_by = 17\n[global]").unwrap_err(), SolError::InvalidDealBy(17));
    assert_eq!(load("[deck]\ndeal_by = 16").unwrap().pile.unwrap().deal_by, 16);
    assert_eq!(load("[foundation]").unwrap_err(), SolError::NoFoundation);
    assert_eq!(load("[foundation]\n[column]\ncolumn = 1,1").unwrap_err(), SolError::NoFoundation);
    assert_eq!(load("[column]").unwrap_err(), SolError::NoCols);
    assert_eq!(load("[column]\nrefill = any").unwrap_err(), SolError::NoCols);
    assert!(load("[column]\n[global]").is_ok());
    assert_eq!(load("[column]\n[global]\n[column]").unwrap_err(), SolError::NoCols);
}

#[test]
fn the_lines_of_a_file_are_made_ready() {
    let raw: Vec<String> = [
        "\u{feff}[Global]  ",
        "",
        "   ",
        "# a comment",
        "  # another",
        "\u{feff}\u{feff}\tName = My GAME \r",
        "\u{feff}",
        " \u{feff}x",
        "[COLUMN]",
        "Column = 52 , 1",
        "\u{feff} \u{feff}#",
        "\u{c9}cart\u{e9} = \u{130}",
    ]
    .iter()
    .map(|s| s.to_string())
    .collect();
    let got = solkit::loader::prepare_lines(&raw);
    assert_eq!(
        got,
        vec![
            "[global]",
            "name = my game",
            "\u{feff}x",
            "[column]",
            "column = 52 , 1",
            "\u{feff}#",
            "\u{e9}cart\u{e9} = i\u{307}"
        ]
    );
    assert!(solkit::loader::prepare_lines(&[]).is_empty());
    let conf = load_config(&got[..2]).unwrap();
    assert_eq!(conf.name, "my game");
}

#[test]
fn ready_lines_are_those_of_the_standard_library() {
    let raw: Vec<String> = KLONDIKE.lines().map(|l| format!("\u{feff}{} ", l.to_uppercase())).collect();
    let bom = "\u{feff}";
    let mut want: Vec<String> = Vec::new();
    for line in raw.iter() {
        let line = line.trim_start_matches(bom).trim();
        if line.is_empty() || line.starts_with('#') {
            continue;
        }
        want.push(line.to_lowercase());
    }
    let got = solkit::loader::prepare_lines(&raw);
    assert_eq!(got, want);
    assert_eq!(got, lines(KLONDIKE));
    assert!(load_config(&got).is_ok());
}

#[test]
fn a_section_read_past_the_last_line_ends_where_it_starts() {
    let data = lines("[global]\nname = x");
    for idx in [2usize, 3, 99, usize::MAX] {
        let mut conf = Conf::new();
        assert_eq!(parse_global(&mut conf, &data, idx), Ok(idx));
        assert_eq!(conf.name, "");
        assert_eq!(parse_temp(&mut conf, &data, idx), Ok(idx));
        assert!(conf.temp.is_none());
        assert_eq!(parse_deck(&mut conf, &data, idx), Err(SolError::InvalidDealBy(0)));
        assert_eq!(parse_foundation(&mut conf, &data, idx), Err(SolError::NoFoundation));
        assert_eq!(parse_play(&mut conf, &data, idx), Err(SolError::NoCols));
        conf.cols.push(solkit::gconf::ColConf { count: 1, up: 1, take_only: false });
        assert_eq!(parse_play(&mut conf, &data, idx), Ok(idx));
    }
    let mut conf = Conf::new();
    assert_eq!(parse_global(&mut conf, &data, 1), Ok(2));
    assert_eq!(conf.name, "x");
    assert_eq!(parse_global(&mut conf, &data, 0), Ok(0));
}
