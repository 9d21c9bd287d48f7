//! Roster tracking and mention composition for a group-chat tagging bot.
//!
//! The crate decides; it does not act. It says which roster changes
//! follow from what is seen in a chat ([`events`]), what those changes do to
//! a roster ([`roster`]), how the message that mentions everybody is put
//! together ([`mention`], [`markdown`], [`text`]), and how the command that
//! sends it proceeds from one answer of the outside to the next
//! ([`command`]).

pub mod command;
pub mod events;
pub mod markdown;
pub mod mention;
pub mod roster;
pub mod text;

pub use crate::roster::User;
