//! Reading the rules of a solitaire from the lines of a description.
//!
//! A description is a list of sections. A section starts with a line that holds
//! its name in brackets, and goes on with one option on each line, written as a
//! name, `=` and a value. The sections are `global`, `deck`, `foundation`,
//! `temp` and `column`. The lines are read in lower case, without white space
//! at their ends, and without empty lines and comments between them:
//! [`prepare_lines`] makes the lines of a file so.
use crate::card::{face_of_name, str_to_face, str_to_suit, suit_of_name, Face, Suit};
use crate::err::{SolError, SolErrorView};
use crate::gconf::{
    face_order_of_name, str_to_face_order, str_to_suit_order, suit_order_of_name, ColConf, Conf,
    ConfView, FaceOrder, FndSlot, PileConf, Playable, SuitOrder, TempConf,
};
use crate::text::{
    find_char, index_of, number_within, parse_number, split, split_on, str_eq, strip, stripped,
    trim, trimmed,
};
use vstd::prelude::*;
use vstd::string::{StrSliceExecFns, StringExecFns};

verus! {

/// The sections of a description.
#[derive(Clone, Copy, PartialEq, Eq, Structural, Debug)]
pub enum Section {
    Global,
    Deck,
    Foundation,
    Temp,
    Column,
}

/// What has been read of a section: the rules so far, and what the section
/// itself has gathered.
pub struct Draft {
    pub conf: ConfView,
    pub pile: PileConf,
    pub fnd: Seq<FndSlot>,
    pub temp: TempConf,
}

/// The lines of a description as sequences of characters.
pub open spec fn lines_of(data: Seq<String>) -> Seq<Seq<char>> {
    Seq::new(data.len(), |i: int| data[i]@)
}

/// The rules before anything is read: one pack and nothing to play on.
pub open spec fn blank_rules() -> ConfView {
    ConfView {
        chance: None,
        name: Seq::empty(),
        deck_count: 1,
        playable: Playable::Top,
        pile: None,
        fnd: Seq::empty(),
        temp: None,
        cols: Seq::empty(),
        col_forder: FaceOrder::Desc,
        col_sorder: SuitOrder::SameSuit,
        col_refill: Face::Unavail,
    }
}

/// What a section starts from: the rules so far, a deck pile that deals no
/// card, no foundation, and no free cell.
pub open spec fn fresh_draft(conf: ConfView) -> Draft {
    Draft {
        conf,
        pile: PileConf { deal_by: 0, redeals: 0, pile_to_cols: false },
        fnd: Seq::empty(),
        temp: TempConf { count: 0 },
    }
}

/// Whether a line starts a section.
pub open spec fn starts_section(line: Seq<char>) -> bool {
    line.len() > 0 && line[0] == '['
}

/// The section that a name stands for.
pub open spec fn section_named(name: Seq<char>) -> Option<Section> {
    if name == "global"@ {
        Some(Section::Global)
    } else if name == "deck"@ {
        Some(Section::Deck)
    } else if name == "foundation"@ {
        Some(Section::Foundation)
    } else if name == "temp"@ {
        Some(Section::Temp)
    } else if name == "column"@ {
        Some(Section::Column)
    } else {
        None
    }
}

/// The name and the value of an option: what stands before and after the
/// first `=` of its line, without the white space around it.
pub open spec fn option_of(line: Seq<char>) -> Option<(Seq<char>, Seq<char>)> {
    let i = index_of(line, '=');
    if i >= line.len() {
        None
    } else {
        Some((trimmed(line.take(i as int)), trimmed(line.skip(i as int + 1))))
    }
}

/// The error for a value that an option does not take.
pub open spec fn bad_value(name: Seq<char>, val: Seq<char>) -> SolErrorView {
    SolErrorView::InvalidConfOptionValue(name, val)
}

/// An option of the section `global`: the name of the solitaire, the chance to
/// win it, or the number of packs, which is 1 or 2.
pub open spec fn global_option(c: ConfView, name: Seq<char>, val: Seq<char>) -> Result<
    ConfView,
    SolErrorView,
> {
    if name == "name"@ {
        Ok(ConfView { name: val, ..c })
    } else if name == "chance"@ {
        match number_within(val, 0, 65535) {
            Some(n) => Ok(ConfView { chance: Some(n as u16), ..c }),
            None => Err(bad_value(name, val)),
        }
    } else if name == "decks"@ {
        match number_within(val, 0, 255) {
            Some(n) => if n == 1 || n == 2 {
                Ok(ConfView { deck_count: n as u8, ..c })
            } else {
                Err(bad_value(name, val))
            },
            None => Err(bad_value(name, val)),
        }
    } else {
        Err(SolErrorView::InvalidConfOption("global"@, name))
    }
}

/// An option of the section `deck`: the number of redeals, which may be
/// `unlimited`; the number of cards dealt at a time; or where the cards are
/// dealt to.
pub open spec fn deck_option(p: PileConf, name: Seq<char>, val: Seq<char>) -> Result<
    PileConf,
    SolErrorView,
> {
    if name == "redeals"@ {
        if val == "unlimited"@ {
            Ok(PileConf { redeals: -1i8, ..p })
        } else {
            match number_within(val, -128, 127) {
                Some(n) => Ok(PileConf { redeals: n as i8, ..p }),
                None => Err(bad_value(name, val)),
            }
        }
    } else if name == "deal_by"@ {
        match number_within(val, 0, 255) {
            Some(n) => Ok(PileConf { deal_by: n as u8, ..p }),
            None => Err(bad_value(name, val)),
        }
    } else if name == "deal_to"@ {
        if val == "deck"@ || val == "side"@ || val == "waste"@ {
            Ok(PileConf { pile_to_cols: false, ..p })
        } else if val == "column"@ || val == "columns"@ {
            Ok(PileConf { pile_to_cols: true, ..p })
        } else {
            Err(bad_value(name, val))
        }
    } else {
        Err(SolErrorView::InvalidConfOption("deck"@, name))
    }
}

/// The foundation pile that the first four fields describe: the face and the
/// suit that start it, its face order and its suit order. The first field that
/// names nothing gives its error.
pub open spec fn slot_of(v: Seq<Seq<char>>) -> Result<FndSlot, SolErrorView> {
    match face_of_name(trimmed(v[0])) {
        None => Err(SolErrorView::InvalidFace(trimmed(v[0]))),
        Some(first) => match suit_of_name(trimmed(v[1])) {
            None => Err(SolErrorView::InvalidSuit(trimmed(v[1]))),
            Some(suit) => match face_order_of_name(trimmed(v[2])) {
                None => Err(SolErrorView::InvalidFaceOrder(trimmed(v[2]))),
                Some(forder) => match suit_order_of_name(trimmed(v[3])) {
                    None => Err(SolErrorView::InvalidSuitOrder(trimmed(v[3]))),
                    Some(sorder) => Ok(FndSlot { first, suit, forder, sorder }),
                },
            },
        },
    }
}

/// What the fifth field of a foundation with six fields comes to: it must
/// name a regular face and a regular suit at once.
pub open spec fn start_card_fault(s: Seq<char>, field: Seq<char>) -> Option<SolErrorView> {
    match face_of_name(field) {
        None => Some(SolErrorView::InvalidFace(field)),
        Some(face) => match suit_of_name(field) {
            None => Some(SolErrorView::InvalidSuit(field)),
            Some(suit) => if suit == Suit::Any || !face.is_regular() {
                Some(bad_value("column initial card"@, s))
            } else {
                None
            },
        },
    }
}

/// A foundation pile from its description: the face and the suit that start
/// it, its face order and its suit order, between commas; two more fields may
/// follow.
pub open spec fn fnd_slot_of(s: Seq<char>) -> Result<FndSlot, SolErrorView> {
    let v = split_on(s, ',');
    if v.len() != 4 && v.len() != 6 {
        Err(bad_value("column"@, s))
    } else {
        match slot_of(v) {
            Err(e) => Err(e),
            Ok(slot) => if v.len() == 6 {
                match start_card_fault(s, trimmed(v[4])) {
                    Some(e) => Err(e),
                    None => Ok(slot),
                }
            } else {
                Ok(slot)
            },
        }
    }
}

/// An option of the section `foundation`: one more foundation pile.
pub open spec fn foundation_option(fnd: Seq<FndSlot>, name: Seq<char>, val: Seq<char>) -> Result<
    Seq<FndSlot>,
    SolErrorView,
> {
    if name == "column"@ {
        match fnd_slot_of(val) {
            Ok(slot) => Ok(fnd.push(slot)),
            Err(e) => Err(e),
        }
    } else {
        Err(SolErrorView::InvalidConfOption("foundation"@, name))
    }
}

/// An option of the section `temp`: the number of free cells.
pub open spec fn temp_option(t: TempConf, name: Seq<char>, val: Seq<char>) -> Result<
    TempConf,
    SolErrorView,
> {
    if name == "slots"@ {
        match number_within(val, 0, 255) {
            Some(n) => Ok(TempConf { count: n as u8 }),
            None => Err(bad_value(name, val)),
        }
    } else {
        Err(SolErrorView::InvalidConfOption("temp"@, name))
    }
}

/// The face order and the suit order of the columns, between a comma.
pub open spec fn orders_of(c: ConfView, name: Seq<char>, val: Seq<char>) -> Result<
    ConfView,
    SolErrorView,
> {
    let v = split_on(val, ',');
    if v.len() != 2 {
        Err(bad_value(name, val))
    } else {
        match face_order_of_name(trimmed(v[0])) {
            None => Err(SolErrorView::InvalidFaceOrder(trimmed(v[0]))),
            Some(forder) => match suit_order_of_name(trimmed(v[1])) {
                None => Err(SolErrorView::InvalidSuitOrder(trimmed(v[1]))),
                Some(sorder) => Ok(ConfView { col_forder: forder, col_sorder: sorder, ..c }),
            },
        }
    }
}

/// A column from its description: the number of its cards and the number of
/// those that lie face-up, between a comma; a third field may say that it only
/// gives cards.
pub open spec fn column_of(name: Seq<char>, val: Seq<char>) -> Result<ColConf, SolErrorView> {
    let v = split_on(val, ',');
    if v.len() != 2 && v.len() != 3 {
        Err(bad_value(name, val))
    } else {
        match number_within(trimmed(v[0]), 0, 255) {
            None => Err(bad_value(name, val)),
            Some(count) => match number_within(trimmed(v[1]), 0, 255) {
                None => Err(bad_value(name, val)),
                Some(up) => if v.len() != 3 {
                    Ok(ColConf { count: count as u8, up: up as u8, take_only: false })
                } else if trimmed(v[2]) == "take"@ || trimmed(v[2]) == "takeonly"@ || trimmed(v[2])
                    == "take only"@ {
                    Ok(ColConf { count: count as u8, up: up as u8, take_only: true })
                } else {
                    Err(bad_value(name, val))
                },
            },
        }
    }
}

/// An option of the section `column`: which cards can be played, the face that
/// refills an empty column, the orders of the columns, or one more column.
pub open spec fn column_option(c: ConfView, name: Seq<char>, val: Seq<char>) -> Result<
    ConfView,
    SolErrorView,
> {
    if name == "playable_card"@ {
        if val == "top"@ {
            Ok(ConfView { playable: Playable::Top, ..c })
        } else if val == "any"@ {
            Ok(ConfView { playable: Playable::Any, ..c })
        } else if val == "order"@ || val == "ordered"@ {
            Ok(ConfView { playable: Playable::Ordered, ..c })
        } else {
            Err(bad_value(name, val))
        }
    } else if name == "refill"@ {
        match face_of_name(val) {
            Some(f) => Ok(ConfView { col_refill: f, ..c }),
            None => Err(SolErrorView::InvalidFace(val)),
        }
    } else if name == "order"@ {
        orders_of(c, name, val)
    } else if name == "column"@ {
        match column_of(name, val) {
            Ok(col) => Ok(ConfView { cols: c.cols.push(col), ..c }),
            Err(e) => Err(e),
        }
    } else {
        Err(SolErrorView::InvalidConfOption("foundation"@, name))
    }
}

/// What an option makes of a section.
pub open spec fn set_option(sec: Section, d: Draft, name: Seq<char>, val: Seq<char>) -> Result<
    Draft,
    SolErrorView,
> {
    match sec {
        Section::Global => match global_option(d.conf, name, val) {
            Ok(conf) => Ok(Draft { conf, ..d }),
            Err(e) => Err(e),
        },
        Section::Deck => match deck_option(d.pile, name, val) {
            Ok(pile) => Ok(Draft { pile, ..d }),
            Err(e) => Err(e),
        },
        Section::Foundation => match foundation_option(d.fnd, name, val) {
            Ok(fnd) => Ok(Draft { fnd, ..d }),
            Err(e) => Err(e),
        },
        Section::Temp => match temp_option(d.temp, name, val) {
            Ok(temp) => Ok(Draft { temp, ..d }),
            Err(e) => Err(e),
        },
        Section::Column => match column_option(d.conf, name, val) {
            Ok(conf) => Ok(Draft { conf, ..d }),
            Err(e) => Err(e),
        },
    }
}

/// The rules when a section ends, at the next section or at the end of the
/// description. A deck pile must deal 1 to 16 cards at a time. There must be
/// a foundation. Free cells are at most four, and none is as good as no
/// section. At the end of the description there must be a column.
pub open spec fn close_section(sec: Section, d: Draft, at_end: bool) -> Result<
    ConfView,
    SolErrorView,
> {
    match sec {
        Section::Global => Ok(d.conf),
        Section::Deck => if d.pile.valid() {
            Ok(ConfView { pile: Some(d.pile), ..d.conf })
        } else {
            Err(SolErrorView::InvalidDealBy(d.pile.deal_by))
        },
        Section::Foundation => if d.fnd.len() == 0 {
            Err(SolErrorView::NoFoundation)
        } else {
            Ok(ConfView { fnd: d.fnd, ..d.conf })
        },
        Section::Temp => if d.temp.count == 0 {
            Ok(d.conf)
        } else if d.temp.valid() {
            Ok(ConfView { temp: Some(d.temp), ..d.conf })
        } else {
            Err(SolErrorView::InvalidTempNumber(d.temp.count))
        },
        Section::Column => if at_end && d.conf.cols.len() == 0 {
            Err(SolErrorView::NoCols)
        } else {
            Ok(d.conf)
        },
    }
}

/// The rules after the options of a section from line `idx` on, and the line
/// at which the section ends.
pub open spec fn section_from(sec: Section, d: Draft, lines: Seq<Seq<char>>, idx: int) -> Result<
    (ConfView, int),
    SolErrorView,
>
    decreases lines.len() - idx,
{
    if idx < 0 || idx >= lines.len() {
        match close_section(sec, d, true) {
            Ok(conf) => Ok((conf, idx)),
            Err(e) => Err(e),
        }
    } else if starts_section(lines[idx]) {
        match close_section(sec, d, false) {
            Ok(conf) => Ok((conf, idx)),
            Err(e) => Err(e),
        }
    } else {
        match option_of(lines[idx]) {
            None => Err(SolErrorView::InvalidConfLine(lines[idx])),
            Some((name, val)) => match set_option(sec, d, name, val) {
                Ok(next) => section_from(sec, next, lines, idx + 1),
                Err(e) => Err(e),
            },
        }
    }
}

/// The rules after the sections from line `idx` on.
pub open spec fn config_from(c: ConfView, lines: Seq<Seq<char>>, idx: int) -> Result<
    ConfView,
    SolErrorView,
>
    decreases lines.len() - idx,
{
    if idx < 0 || idx >= lines.len() {
        Ok(c)
    } else if !starts_section(lines[idx]) {
        Err(SolErrorView::InvalidConfLine(lines[idx]))
    } else {
        match section_named(stripped(lines[idx], true)) {
            None => Err(SolErrorView::InvalidConfSection(stripped(lines[idx], true))),
            Some(sec) => match section_from(sec, fresh_draft(c), lines, idx + 1) {
                Err(e) => Err(e),
                Ok((conf, next)) => if idx < next <= lines.len() {
                    config_from(conf, lines, next)
                } else {
                    Ok(conf)
                },
            },
        }
    }
}

/// A section ends at or after the line it starts from, and within the
/// description if it starts there.
pub proof fn lemma_section_ends(sec: Section, d: Draft, lines: Seq<Seq<char>>, idx: int)
    requires
        0 <= idx,
    ensures
        section_from(sec, d, lines, idx) matches Ok((_, next)) ==> idx <= next && (idx
            <= lines.len() ==> next <= lines.len()) && (idx >= lines.len() ==> next == idx),
    decreases lines.len() - idx,
{
    if idx < lines.len() && !starts_section(lines[idx]) {
        match option_of(lines[idx]) {
            None => {},
            Some((name, val)) => match set_option(sec, d, name, val) {
                Ok(next) => {
                    lemma_section_ends(sec, next, lines, idx + 1);
                },
                Err(_) => {},
            },
        }
    }
}

/// Whether a line starts a section.
fn is_section_start(line: &str) -> (r: bool)
    ensures
        r == starts_section(line@),
{
    line.unicode_len() > 0 && line.get_char(0) == '['
}

/// The name and the value of an option.
fn split_option(line: &str) -> (r: Option<(&str, &str)>)
    ensures
        match option_of(line@) {
            Some((name, val)) => r matches Some(x) && x.0@ == name && x.1@ == val,
            None => r is None,
        },
{
    match find_char(line, '=') {
        None => None,
        Some(pos) => {
            let n = line.unicode_len();
            let name = trim(line.substring_char(0, pos));
            let val = trim(line.substring_char(pos + 1, n));
            assert(line@.subrange(0, pos as int) =~= line@.take(pos as int));
            assert(line@.subrange(pos + 1, n as int) =~= line@.skip(pos + 1));
            Some((name, val))
        },
    }
}

/// The error for a value that an option does not take.
fn value_error(name: &str, val: &str) -> (r: SolError)
    ensures
        r@ == bad_value(name@, val@),
{
    SolError::InvalidConfOptionValue(String::from_str(name), String::from_str(val))
}

/// The error for an option that a section does not have.
fn option_error(section: &str, name: &str) -> (r: SolError)
    ensures
        r@ == SolErrorView::InvalidConfOption(section@, name@),
{
    SolError::InvalidConfOption(String::from_str(section), String::from_str(name))
}

/// Reads a number from 0 to 255.
fn parse_u8(val: &str) -> (r: Option<u8>)
    ensures
        match number_within(val@, 0, 255) {
            Some(n) => r == Some(n as u8),
            None => r is None,
        },
{
    match parse_number(val, 0, 255) {
        Some(n) => Some(n as u8),
        None => None,
    }
}

/// Sets an option of the section `global`.
fn set_global(conf: &mut Conf, name: &str, val: &str) -> (r: Result<(), SolError>)
    ensures
        match global_option(old(conf)@, name@, val@) {
            Ok(c) => r is Ok && final(conf)@ == c,
            Err(e) => r matches Err(x) && x@ == e,
        },
{
    if str_eq(name, "name") {
        conf.name = String::from_str(val);
        Ok(())
    } else if str_eq(name, "chance") {
        match parse_number(val, 0, 65535) {
            Some(n) => {
                conf.chance = Some(n as u16);
                Ok(())
            },
            None => Err(value_error(name, val)),
        }
    } else if str_eq(name, "decks") {
        match parse_u8(val) {
            Some(n) => {
                if n == 1 || n == 2 {
                    conf.deck_count = n;
                    Ok(())
                } else {
                    Err(value_error(name, val))
                }
            },
            None => Err(value_error(name, val)),
        }
    } else {
        Err(option_error("global", name))
    }
}

/// Sets an option of the section `deck`.
fn set_deck(p: PileConf, name: &str, val: &str) -> (r: Result<PileConf, SolError>)
    ensures
        match deck_option(p, name@, val@) {
            Ok(q) => r matches Ok(x) && x == q,
            Err(e) => r matches Err(x) && x@ == e,
        },
{
    let mut pconf = p;
    if str_eq(name, "redeals") {
        if str_eq(val, "unlimited") {
            pconf.redeals = -1;
        } else {
            match parse_number(val, -128, 127) {
                Some(n) => {
                    pconf.redeals = n as i8;
                },
                None => {
                    return Err(value_error(name, val));
                },
            }
        }
    } else if str_eq(name, "deal_by") {
        match parse_u8(val) {
            Some(n) => {
                pconf.deal_by = n;
            },
            None => {
                return Err(value_error(name, val));
            },
        }
    } else if str_eq(name, "deal_to") {
        if str_eq(val, "deck") || str_eq(val, "side") || str_eq(val, "waste") {
            pconf.pile_to_cols = false;
        } else if str_eq(val, "column") || str_eq(val, "columns") {
            pconf.pile_to_cols = true;
        } else {
            return Err(value_error(name, val));
        }
    } else {
        return Err(option_error("deck", name));
    }
    Ok(pconf)
}

/// Reads the four fields that every foundation pile has.
fn read_slot(v: &Vec<&str>) -> (r: Result<FndSlot, SolError>)
    requires
        v@.len() >= 4,
    ensures
        match slot_of(Seq::new(v@.len(), |i: int| v@[i]@)) {
            Ok(slot) => r matches Ok(x) && x == slot,
            Err(e) => r matches Err(x) && x@ == e,
        },
{
    let first = match str_to_face(trim(v[0])) {
        Ok(f) => f,
        Err(e) => {
            return Err(e);
        },
    };
    let suit = match str_to_suit(trim(v[1])) {
        Ok(s) => s,
        Err(e) => {
            return Err(e);
        },
    };
    let forder = match str_to_face_order(trim(v[2])) {
        Ok(f) => f,
        Err(e) => {
            return Err(e);
        },
    };
    let sorder = match str_to_suit_order(trim(v[3])) {
        Ok(s) => s,
        Err(e) => {
            return Err(e);
        },
    };
    Ok(FndSlot { first, suit, forder, sorder })
}

/// Whether a face is one of a card that can be dealt, ace to king.
fn is_regular_face(face: Face) -> (r: bool)
    ensures
        r == face.is_regular(),
{
    match face {
        Face::Empty => false,
        Face::Any => false,
        Face::Unavail => false,
        Face::Column => false,
        _ => true,
    }
}

/// Reads a foundation pile from its description.
fn parse_fnd_slot(s: &str) -> (r: Result<FndSlot, SolError>)
    ensures
        match fnd_slot_of(s@) {
            Ok(slot) => r matches Ok(x) && x == slot,
            Err(e) => r matches Err(x) && x@ == e,
        },
{
    let v = split(s, ',');
    assert(Seq::new(v@.len(), |i: int| v@[i]@) =~= split_on(s@, ','));
    if v.len() != 4 && v.len() != 6 {
        return Err(value_error("column", s));
    }
    let slot = match read_slot(&v) {
        Ok(slot) => slot,
        Err(e) => {
            return Err(e);
        },
    };
    if v.len() == 6 {
        let face = match str_to_face(trim(v[4])) {
            Ok(f) => f,
            Err(e) => {
                return Err(e);
            },
        };
        let suit = match str_to_suit(trim(v[4])) {
            Ok(s) => s,
            Err(e) => {
                return Err(e);
            },
        };
        if suit == Suit::Any || !is_regular_face(face) {
            return Err(value_error("column initial card", s));
        }
    }
    Ok(slot)
}

/// Sets an option of the section `foundation`.
fn set_foundation(fnd: &mut Vec<FndSlot>, name: &str, val: &str) -> (r: Result<(), SolError>)
    ensures
        match foundation_option(old(fnd)@, name@, val@) {
            Ok(f) => r is Ok && final(fnd)@ == f,
            Err(e) => r matches Err(x) && x@ == e,
        },
{
    if str_eq(name, "column") {
        match parse_fnd_slot(val) {
            Ok(slot) => {
                fnd.push(slot);
                Ok(())
            },
            Err(e) => Err(e),
        }
    } else {
        Err(option_error("foundation", name))
    }
}

/// Sets an option of the section `temp`.
fn set_temp(t: TempConf, name: &str, val: &str) -> (r: Result<TempConf, SolError>)
    ensures
        match temp_option(t, name@, val@) {
            Ok(q) => r matches Ok(x) && x == q,
            Err(e) => r matches Err(x) && x@ == e,
        },
{
    if str_eq(name, "slots") {
        match parse_u8(val) {
            Some(n) => Ok(TempConf { count: n }),
            None => Err(value_error(name, val)),
        }
    } else {
        Err(option_error("temp", name))
    }
}

/// Reads the orders of the columns.
fn read_orders(conf: &mut Conf, name: &str, val: &str) -> (r: Result<(), SolError>)
    ensures
        match orders_of(old(conf)@, name@, val@) {
            Ok(c) => r is Ok && final(conf)@ == c,
            Err(e) => r matches Err(x) && x@ == e,
        },
{
    let v = split(val, ',');
    assert(Seq::new(v@.len(), |i: int| v@[i]@) =~= split_on(val@, ','));
    if v.len() != 2 {
        return Err(value_error(name, val));
    }
    let forder = match str_to_face_order(trim(v[0])) {
        Ok(f) => f,
        Err(e) => {
            return Err(e);
        },
    };
    let sorder = match str_to_suit_order(trim(v[1])) {
        Ok(s) => s,
        Err(e) => {
            return Err(e);
        },
    };
    conf.col_forder = forder;
    conf.col_sorder = sorder;
    Ok(())
}

/// Reads a column from its description.
fn read_column(name: &str, val: &str) -> (r: Result<ColConf, SolError>)
    ensures
        match column_of(name@, val@) {
            Ok(col) => r matches Ok(x) && x == col,
            Err(e) => r matches Err(x) && x@ == e,
        },
{
    let v = split(val, ',');
    assert(Seq::new(v@.len(), |i: int| v@[i]@) =~= split_on(val@, ','));
    if v.len() != 2 && v.len() != 3 {
        return Err(value_error(name, val));
    }
    let count = match parse_u8(trim(v[0])) {
        Some(n) => n,
        None => {
            return Err(value_error(name, val));
        },
    };
    let up = match parse_u8(trim(v[1])) {
        Some(n) => n,
        None => {
            return Err(value_error(name, val));
        },
    };
    let take_only = if v.len() != 3 {
        false
    } else {
        let third = trim(v[2]);
        if str_eq(third, "take") || str_eq(third, "takeonly") || str_eq(third, "take only") {
            true
        } else {
            return Err(value_error(name, val));
        }
    };
    Ok(ColConf { count, up, take_only })
}

/// Sets an option of the section `column`.
fn set_column(conf: &mut Conf, name: &str, val: &str) -> (r: Result<(), SolError>)
    ensures
        match column_option(old(conf)@, name@, val@) {
            Ok(c) => r is Ok && final(conf)@ == c,
            Err(e) => r matches Err(x) && x@ == e,
        },
{
    if str_eq(name, "playable_card") {
        if str_eq(val, "top") {
            conf.playable = Playable::Top;
        } else if str_eq(val, "any") {
            conf.playable = Playable::Any;
        } else if str_eq(val, "order") || str_eq(val, "ordered") {
            conf.playable = Playable::Ordered;
        } else {
            return Err(value_error(name, val));
        }
        Ok(())
    } else if str_eq(name, "refill") {
        match str_to_face(val) {
            Ok(f) => {
                conf.col_refill = f;
                Ok(())
            },
            Err(e) => Err(e),
        }
    } else if str_eq(name, "order") {
        read_orders(conf, name, val)
    } else if str_eq(name, "column") {
        match read_column(name, val) {
            Ok(col) => {
                conf.cols.push(col);
                Ok(())
            },
            Err(e) => Err(e),
        }
    } else {
        Err(option_error("foundation", name))
    }
}

/// Reads the section `global` from line `idx` on, and returns the line at
/// which it ends. Past the last line there is nothing to read, and the section
/// ends where it starts.
#[verifier::loop_isolation(false)]
pub fn parse_global(conf: &mut Conf, data: &[String], idx: usize) -> (r: Result<usize, SolError>)
    ensures
        match section_from(Section::Global, fresh_draft(old(conf)@), lines_of(data@), idx as int) {
            Ok((c, next)) => r == Ok::<usize, SolError>(next as usize) && final(conf)@ == c && idx
                <= next && (idx <= data@.len() ==> next <= data@.len()),
            Err(e) => r matches Err(x) && x@ == e,
        },
{
    let mut idx = idx;
    let ghost lines = lines_of(data@);
    let ghost first = fresh_draft(conf@);
    let ghost goal = section_from(Section::Global, first, lines, idx as int);
    proof {
        lemma_section_ends(Section::Global, first, lines, idx as int);
    }
    while idx < data.len()
        invariant
            lines == lines_of(data@),
            goal == section_from(
                Section::Global,
                Draft { conf: conf@, ..first },
                lines,
                idx as int,
            ),
        decreases data@.len() - idx,
    {
        let low = data[idx].as_str();
        assert(low@ == lines[idx as int]);
        if is_section_start(low) {
            return Ok(idx);
        }
        match split_option(low) {
            None => {
                return Err(SolError::InvalidConfLine(String::from_str(low)));
            },
            Some((name, val)) => match set_global(conf, name, val) {
                Ok(_) => {},
                Err(e) => {
                    return Err(e);
                },
            },
        }
        proof {
            lemma_section_ends(
                Section::Global,
                Draft { conf: conf@, ..first },
                lines,
                idx + 1,
            );
        }
        idx += 1;
    }
    Ok(idx)
}

/// Reads the section `deck` from line `idx` on, and returns the line at which
/// it ends.
#[verifier::loop_isolation(false)]
pub fn parse_deck(conf: &mut Conf, data: &[String], idx: usize) -> (r: Result<usize, SolError>)
    ensures
        match section_from(Section::Deck, fresh_draft(old(conf)@), lines_of(data@), idx as int) {
            Ok((c, next)) => r == Ok::<usize, SolError>(next as usize) && final(conf)@ == c && idx
                <= next && (idx <= data@.len() ==> next <= data@.len()),
            Err(e) => r matches Err(x) && x@ == e,
        },
{
    let mut idx = idx;
    let mut pconf = PileConf { deal_by: 0, redeals: 0, pile_to_cols: false };
    let ghost lines = lines_of(data@);
    let ghost first = fresh_draft(conf@);
    let ghost goal = section_from(Section::Deck, first, lines, idx as int);
    proof {
        lemma_section_ends(Section::Deck, first, lines, idx as int);
    }
    while idx < data.len()
        invariant
            lines == lines_of(data@),
            conf@ == first.conf,
            goal == section_from(Section::Deck, Draft { pile: pconf, ..first }, lines, idx as int),
        decreases data@.len() - idx,
    {
        let low = data[idx].as_str();
        assert(low@ == lines[idx as int]);
        if is_section_start(low) {
            match pconf.validate() {
                Ok(_) => {},
                Err(e) => {
                    return Err(e);
                },
            }
            conf.pile = Some(pconf);
            return Ok(idx);
        }
        match split_option(low) {
            None => {
                return Err(SolError::InvalidConfLine(String::from_str(low)));
            },
            Some((name, val)) => match set_deck(pconf, name, val) {
                Ok(p) => {
                    pconf = p;
                },
                Err(e) => {
                    return Err(e);
                },
            },
        }
        proof {
            lemma_section_ends(Section::Deck, Draft { pile: pconf, ..first }, lines, idx + 1);
        }
        idx += 1;
    }
    match pconf.validate() {
        Ok(_) => {},
        Err(e) => {
            return Err(e);
        },
    }
    conf.pile = Some(pconf);
    Ok(idx)
}

/// Reads the section `foundation` from line `idx` on, and returns the line at
/// which it ends.
#[verifier::loop_isolation(false)]
pub fn parse_foundation(conf: &mut Conf, data: &[String], idx: usize) -> (r: Result<
    usize,
    SolError,
>)
    ensures
        match section_from(
            Section::Foundation,
            fresh_draft(old(conf)@),
            lines_of(data@),
            idx as int,
        ) {
            Ok((c, next)) => r == Ok::<usize, SolError>(next as usize) && final(conf)@ == c && idx
                <= next && (idx <= data@.len() ==> next <= data@.len()),
            Err(e) => r matches Err(x) && x@ == e,
        },
{
    let mut idx = idx;
    let mut fnd: Vec<FndSlot> = Vec::new();
    let ghost lines = lines_of(data@);
    let ghost first = fresh_draft(conf@);
    let ghost goal = section_from(Section::Foundation, first, lines, idx as int);
    proof {
        lemma_section_ends(Section::Foundation, first, lines, idx as int);
        assert(fnd@ =~= first.fnd);
    }
    while idx < data.len()
        invariant
            lines == lines_of(data@),
            conf@ == first.conf,
            goal == section_from(
                Section::Foundation,
                Draft { fnd: fnd@, ..first },
                lines,
                idx as int,
            ),
        decreases data@.len() - idx,
    {
        let low = data[idx].as_str();
        assert(low@ == lines[idx as int]);
        if is_section_start(low) {
            if fnd.is_empty() {
                return Err(SolError::NoFoundation);
            }
            conf.fnd = fnd;
            return Ok(idx);
        }
        match split_option(low) {
            None => {
                return Err(SolError::InvalidConfLine(String::from_str(low)));
            },
            Some((name, val)) => match set_foundation(&mut fnd, name, val) {
                Ok(_) => {},
                Err(e) => {
                    return Err(e);
                },
            },
        }
        proof {
            lemma_section_ends(Section::Foundation, Draft { fnd: fnd@, ..first }, lines, idx + 1);
        }
        idx += 1;
    }
    if fnd.is_empty() {
        return Err(SolError::NoFoundation);
    }
    conf.fnd = fnd;
    Ok(idx)
}

/// Reads the section `temp` from line `idx` on, and returns the line at which
/// it ends.
#[verifier::loop_isolation(false)]
pub fn parse_temp(conf: &mut Conf, data: &[String], idx: usize) -> (r: Result<usize, SolError>)
    ensures
        match section_from(Section::Temp, fresh_draft(old(conf)@), lines_of(data@), idx as int) {
            Ok((c, next)) => r == Ok::<usize, SolError>(next as usize) && final(conf)@ == c && idx
                <= next && (idx <= data@.len() ==> next <= data@.len()),
            Err(e) => r matches Err(x) && x@ == e,
        },
{
    let mut idx = idx;
    let mut tconf = TempConf { count: 0 };
    let ghost lines = lines_of(data@);
    let ghost first = fresh_draft(conf@);
    let ghost goal = section_from(Section::Temp, first, lines, idx as int);
    proof {
        lemma_section_ends(Section::Temp, first, lines, idx as int);
    }
    while idx < data.len()
        invariant
            lines == lines_of(data@),
            conf@ == first.conf,
            goal == section_from(Section::Temp, Draft { temp: tconf, ..first }, lines, idx as int),
        decreases data@.len() - idx,
    {
        let low = data[idx].as_str();
        assert(low@ == lines[idx as int]);
        if is_section_start(low) {
            if tconf.count != 0 {
                match tconf.validate() {
                    Ok(_) => {},
                    Err(e) => {
                        return Err(e);
                    },
                }
                conf.temp = Some(tconf);
            }
            return Ok(idx);
        }
        match split_option(low) {
            None => {
                return Err(SolError::InvalidConfLine(String::from_str(low)));
            },
            Some((name, val)) => match set_temp(tconf, name, val) {
                Ok(t) => {
                    tconf = t;
                },
                Err(e) => {
                    return Err(e);
                },
            },
        }
        proof {
            lemma_section_ends(Section::Temp, Draft { temp: tconf, ..first }, lines, idx + 1);
        }
        idx += 1;
    }
    if tconf.count != 0 {
        match tconf.validate() {
            Ok(_) => {},
            Err(e) => {
                return Err(e);
            },
        }
        conf.temp = Some(tconf);
    }
    Ok(idx)
}

/// Reads the section `column` from line `idx` on, and returns the line at
/// which it ends.
#[verifier::loop_isolation(false)]
pub fn parse_play(conf: &mut Conf, data: &[String], idx: usize) -> (r: Result<usize, SolError>)
    ensures
        match section_from(Section::Column, fresh_draft(old(conf)@), lines_of(data@), idx as int) {
            Ok((c, next)) => r == Ok::<usize, SolError>(next as usize) && final(conf)@ == c && idx
                <= next && (idx <= data@.len() ==> next <= data@.len()),
            Err(e) => r matches Err(x) && x@ == e,
        },
{
    let mut idx = idx;
    let ghost lines = lines_of(data@);
    let ghost first = fresh_draft(conf@);
    let ghost goal = section_from(Section::Column, first, lines, idx as int);
    proof {
        lemma_section_ends(Section::Column, first, lines, idx as int);
    }
    while idx < data.len()
        invariant
            lines == lines_of(data@),
            goal == section_from(
                Section::Column,
                Draft { conf: conf@, ..first },
                lines,
                idx as int,
            ),
        decreases data@.len() - idx,
    {
        let low = data[idx].as_str();
        assert(low@ == lines[idx as int]);
        if is_section_start(low) {
            return Ok(idx);
        }
        match split_option(low) {
            None => {
                return Err(SolError::InvalidConfLine(String::from_str(low)));
            },
            Some((name, val)) => match set_column(conf, name, val) {
                Ok(_) => {},
                Err(e) => {
                    return Err(e);
                },
            },
        }
        proof {
            lemma_section_ends(
                Section::Column,
                Draft { conf: conf@, ..first },
                lines,
                idx + 1,
            );
        }
        idx += 1;
    }
    if conf.cols.is_empty() {
        return Err(SolError::NoCols);
    }
    Ok(idx)
}

/// Reads the rules of a solitaire from the lines of its description. The
/// rules start from one pack and nothing to play on; each section adds to
/// them. The first line that cannot be read ends the reading with its error.
#[verifier::loop_isolation(false)]
pub fn load_config(data: &[String]) -> (r: Result<Conf, SolError>)
    ensures
        match config_from(blank_rules(), lines_of(data@), 0) {
            Ok(c) => r matches Ok(conf) && conf@ == c,
            Err(e) => r matches Err(x) && x@ == e,
        },
{
    let mut conf = Conf::new();
    let mut idx: usize = 0;
    let ghost lines = lines_of(data@);
    let ghost goal = config_from(blank_rules(), lines, 0);
    assert(conf@ =~= blank_rules()) by {
        assert(conf.name@ =~= Seq::<char>::empty());
        assert(conf.fnd@ =~= Seq::<FndSlot>::empty());
        assert(conf.cols@ =~= Seq::<ColConf>::empty());
    }
    while idx < data.len()
        invariant
            idx <= data@.len(),
            lines == lines_of(data@),
            goal == config_from(conf@, lines, idx as int),
        decreases data@.len() - idx,
    {
        let low = data[idx].as_str();
        assert(low@ == lines[idx as int]);
        if !is_section_start(low) {
            return Err(SolError::InvalidConfLine(String::from_str(low)));
        }
        let section_name = strip(low, true);
        let next = if str_eq(section_name, "global") {
            parse_global(&mut conf, data, idx + 1)
        } else if str_eq(section_name, "deck") {
            parse_deck(&mut conf, data, idx + 1)
        } else if str_eq(section_name, "foundation") {
            parse_foundation(&mut conf, data, idx + 1)
        } else if str_eq(section_name, "temp") {
            parse_temp(&mut conf, data, idx + 1)
        } else if str_eq(section_name, "column") {
            parse_play(&mut conf, data, idx + 1)
        } else {
            return Err(SolError::InvalidConfSection(String::from_str(section_name)));
        };
        match next {
            Ok(n) => {
                idx = n;
            },
            Err(e) => {
                return Err(e);
            },
        }
    }
    Ok(conf)
}

/// A text in lower case, as the standard library turns it.
pub uninterp spec fn lowercase_of(s: Seq<char>) -> Seq<char>;

/// Turns a text into lower case.
///
/// This is `str::to_lowercase` of the standard library, which goes by the
/// tables of Unicode and by nothing else. All that is claimed here is that the
/// result is a function of the text.
#[verifier::external_body]
fn to_lowercase(s: &str) -> (r: String)
    ensures
        r@ == lowercase_of(s@),
{
    s.to_lowercase()
}

/// A text without the byte order marks at its start.
pub open spec fn without_marks(s: Seq<char>) -> Seq<char>
    decreases s.len(),
{
    if s.len() > 0 && s[0] == '\u{feff}' {
        without_marks(s.drop_first())
    } else {
        s
    }
}

/// A line of a file without byte order marks at its start and without white
/// space at its ends.
pub open spec fn cleaned(line: Seq<char>) -> Seq<char> {
    trimmed(without_marks(line))
}

/// Whether a line of a file belongs to the description: it is neither empty
/// nor a comment, which starts with `#`.
pub open spec fn is_rule_line(line: Seq<char>) -> bool {
    cleaned(line).len() > 0 && cleaned(line)[0] != '#'
}

/// The lines of a description as they are read: the lines of the file that
/// belong to it, cleaned and in lower case.
pub open spec fn prepared(raw: Seq<Seq<char>>) -> Seq<Seq<char>>
    decreases raw.len(),
{
    if raw.len() == 0 {
        Seq::empty()
    } else if is_rule_line(raw.last()) {
        prepared(raw.drop_last()).push(lowercase_of(cleaned(raw.last())))
    } else {
        prepared(raw.drop_last())
    }
}

/// Cuts the byte order marks off the start of a text.
fn skip_marks(s: &str) -> (r: &str)
    ensures
        r@ == without_marks(s@),
{
    let n = s.unicode_len();
    let mut a: usize = 0;
    assert(s@.skip(0) =~= s@);
    while a < n && s.get_char(a) == '\u{feff}'
        invariant
            a <= n,
            n == s@.len(),
            without_marks(s@) == without_marks(s@.skip(a as int)),
        decreases n - a,
    {
        assert(s@.skip(a as int).drop_first() =~= s@.skip(a + 1));
        a += 1;
    }
    let r = s.substring_char(a, n);
    assert(r@ =~= s@.skip(a as int));
    r
}

/// Makes the lines of a file ready to be read as a description: byte order
/// marks and white space around a line are cut off, empty lines and comments
/// are left out, and what is left is turned into lower case.
pub fn prepare_lines(raw: &[String]) -> (r: Vec<String>)
    ensures
        lines_of(r@) == prepared(lines_of(raw@)),
{
    let mut lines: Vec<String> = Vec::new();
    let mut i: usize = 0;
    let ghost all = lines_of(raw@);
    assert(all.take(0) =~= Seq::<Seq<char>>::empty());
    assert(lines_of(lines@) =~= prepared(all.take(0)));
    while i < raw.len()
        invariant
            i <= raw@.len(),
            all == lines_of(raw@),
            lines_of(lines@) == prepared(all.take(i as int)),
        decreases raw@.len() - i,
    {
        let ghost before = lines_of(lines@);
        let line = trim(skip_marks(raw[i].as_str()));
        proof {
            assert(all.take(i + 1).drop_last() =~= all.take(i as int));
            assert(all.take(i + 1).last() == raw@[i as int]@);
        }
        if line.unicode_len() > 0 && line.get_char(0) != '#' {
            lines.push(to_lowercase(line));
            assert(lines_of(lines@) =~= before.push(lowercase_of(line@)));
        }
        i += 1;
    }
    assert(all.take(raw@.len() as int) =~= all);
    lines
}

} // verus!
