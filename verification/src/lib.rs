//! Quotes of game characters, extracted from the wiki markup of their audio
//! pages.
//!
//! Raw markup goes through two stages. The [`normalizer`] expands the
//! templates of the markup to the text that a reader would see, one rule of
//! the [`rules`] catalog after another. The [`extractor`] then gathers the
//! quotes from the normalized text, in their order on the page:
//! [`extractor::parse_quotes`] runs both stages.
//!
//! Pattern matching is the `regex` crate's work and is reached through
//! [`capture`]. The remaining modules hold what the quote bot computes
//! around its quotes: the roster records ([`ddragon`]), the answers of its
//! commands ([`commands`]) and its settings ([`settings`]).
pub mod capture;
pub mod commands;
pub mod ddragon;
pub mod extractor;
pub mod normalizer;
pub mod rules;
pub mod settings;
pub mod text;
