//! The errors of the rule engine and of the code that feeds it.
use vstd::prelude::*;

verus! {

/// Everything that can go wrong while a variant is described, dealt or played.
#[derive(Debug, PartialEq, Eq)]
pub enum SolError {
    /// The number of decks is not 1 or 2.
    InvalidDeckNumber(u8),
    /// More than four free cells.
    InvalidTempNumber(u8),
    /// More than ten columns.
    InvalidColNumber(u8),
    /// The number of cards dealt at a time is not between 1 and 16.
    InvalidDealBy(u8),
    /// The number of redeals is not acceptable.
    InvalidRedeals(i8),
    /// No foundation is defined.
    NoFoundation,
    /// A foundation starts with the empty face.
    NoFoundationStart,
    /// No column is defined.
    NoCols,
    /// The deck ran out of cards while the named area was dealt.
    InsufficientFor(String),
    /// There is no deck pile, but cards are left after the deal.
    UnusedCards,
    /// The location does not exist.
    InvalidLocation,
    /// The destination does not exist.
    InvalidDestination,
    /// The move breaks the rules.
    InvalidMove,
    /// The card cannot be moved.
    Unplayable,
    /// No card is selected.
    NotSelected,
    /// No pile accepts the card.
    NoDestination,
    /// The text names no suit.
    InvalidSuit(String),
    /// The text names no face.
    InvalidFace(String),
    /// The text names no suit order.
    InvalidSuitOrder(String),
    /// The text names no face order.
    InvalidFaceOrder(String),
    /// The list of solitaires is empty.
    SolitaireListEmpty,
    /// A line of a rule file cannot be understood.
    InvalidConfLine(String),
    /// A rule file has an unknown section.
    InvalidConfSection(String),
    /// A section of a rule file has an unknown option.
    InvalidConfOption(String, String),
    /// An option of a rule file has an unacceptable value.
    InvalidConfOptionValue(String, String),
    /// A refillable free cell has no limit.
    InvalidConfTempLimit,
    /// A refillable free cell has no order.
    InvalidConfTempOrder,
    /// More than one free cell is refillable.
    InvalidConfTempSingleRefillable,
    /// The rule file does not exist.
    InvalidFileName,
    /// The rule file cannot be read.
    FailedToOpenRules,
    /// An error of another library, as text.
    Unexpected(String),
    /// The feature is not available yet.
    Unsupported(String),
}

/// An error as a value: the same kinds, with their texts as sequences of
/// characters.
pub enum SolErrorView {
    InvalidDeckNumber(u8),
    InvalidTempNumber(u8),
    InvalidColNumber(u8),
    InvalidDealBy(u8),
    InvalidRedeals(i8),
    NoFoundation,
    NoFoundationStart,
    NoCols,
    InsufficientFor(Seq<char>),
    UnusedCards,
    InvalidLocation,
    InvalidDestination,
    InvalidMove,
    Unplayable,
    NotSelected,
    NoDestination,
    InvalidSuit(Seq<char>),
    InvalidFace(Seq<char>),
    InvalidSuitOrder(Seq<char>),
    InvalidFaceOrder(Seq<char>),
    SolitaireListEmpty,
    InvalidConfLine(Seq<char>),
    InvalidConfSection(Seq<char>),
    InvalidConfOption(Seq<char>, Seq<char>),
    InvalidConfOptionValue(Seq<char>, Seq<char>),
    InvalidConfTempLimit,
    InvalidConfTempOrder,
    InvalidConfTempSingleRefillable,
    InvalidFileName,
    FailedToOpenRules,
    Unexpected(Seq<char>),
    Unsupported(Seq<char>),
}

impl View for SolError {
    type V = SolErrorView;

    open spec fn view(&self) -> SolErrorView {
        match *self {
            SolError::InvalidDeckNumber(a0) => SolErrorView::InvalidDeckNumber(a0),
            SolError::InvalidTempNumber(a0) => SolErrorView::InvalidTempNumber(a0),
            SolError::InvalidColNumber(a0) => SolErrorView::InvalidColNumber(a0),
            SolError::InvalidDealBy(a0) => SolErrorView::InvalidDealBy(a0),
            SolError::InvalidRedeals(a0) => SolErrorView::InvalidRedeals(a0),
            SolError::NoFoundation => SolErrorView::NoFoundation,
            SolError::NoFoundationStart => SolErrorView::NoFoundationStart,
            SolError::NoCols => SolErrorView::NoCols,
            SolError::InsufficientFor(a0) => SolErrorView::InsufficientFor(a0@),
            SolError::UnusedCards => SolErrorView::UnusedCards,
            SolError::InvalidLocation => SolErrorView::InvalidLocation,
            SolError::InvalidDestination => SolErrorView::InvalidDestination,
            SolError::InvalidMove => SolErrorView::InvalidMove,
            SolError::Unplayable => SolErrorView::Unplayable,
            SolError::NotSelected => SolErrorView::NotSelected,
            SolError::NoDestination => SolErrorView::NoDestination,
            SolError::InvalidSuit(a0) => SolErrorView::InvalidSuit(a0@),
            SolError::InvalidFace(a0) => SolErrorView::InvalidFace(a0@),
            SolError::InvalidSuitOrder(a0) => SolErrorView::InvalidSuitOrder(a0@),
            SolError::InvalidFaceOrder(a0) => SolErrorView::InvalidFaceOrder(a0@),
            SolError::SolitaireListEmpty => SolErrorView::SolitaireListEmpty,
            SolError::InvalidConfLine(a0) => SolErrorView::InvalidConfLine(a0@),
            SolError::InvalidConfSection(a0) => SolErrorView::InvalidConfSection(a0@),
            SolError::InvalidConfOption(a0, a1) => SolErrorView::InvalidConfOption(a0@, a1@),
            SolError::InvalidConfOptionValue(a0, a1) => SolErrorView::InvalidConfOptionValue(a0@, a1@),
            SolError::InvalidConfTempLimit => SolErrorView::InvalidConfTempLimit,
            SolError::InvalidConfTempOrder => SolErrorView::InvalidConfTempOrder,
            SolError::InvalidConfTempSingleRefillable => SolErrorView::InvalidConfTempSingleRefillable,
            SolError::InvalidFileName => SolErrorView::InvalidFileName,
            SolError::FailedToOpenRules => SolErrorView::FailedToOpenRules,
            SolError::Unexpected(a0) => SolErrorView::Unexpected(a0@),
            SolError::Unsupported(a0) => SolErrorView::Unsupported(a0@),
        }
    }
}

} // verus!
