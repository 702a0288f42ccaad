//! A rule engine for solitaire card games.
//!
//! One engine plays many variants: a [`gconf::Conf`] describes the variant, and
//! [`engine::Game`] deals the cards, checks and makes moves, moves the cursor,
//! and keeps the undo history. Every function is stated over the mathematical
//! model in [`model`], and the general laws of the engine are proved in [`laws`].
//!
//! Around the engine stand the solitaires that come with it ([`rules`]), the
//! reader of descriptions of further ones ([`loader`]), the marks and hints of
//! a player ([`gstate`]) and the player's actions ([`play`]).
pub mod bag;
pub mod card;
pub mod engine;
pub mod err;
pub mod gconf;
pub mod gstate;
pub mod laws;
pub mod loader;
pub mod model;
pub mod play;
pub mod rules;
pub mod stats;
pub mod text;
pub mod tidy;
