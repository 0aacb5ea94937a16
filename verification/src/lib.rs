//! Phonetic spam-likelihood scoring for chat display names.
//!
//! A name is stripped of cosmetic separators, read character by character
//! into romanized syllables, and scored by the share of its characters that
//! read as one of a fixed set of suspect syllables. The score, an exact
//! fraction between zero and one, leads to one of three decisions: leave the
//! sender alone, tell the administrators, or remove the sender.

pub mod decision;
pub mod normalize;
pub mod reading;
pub mod score;
pub mod syllables;
