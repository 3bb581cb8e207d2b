//! Core of a text-paste sharing service: paste identity, time-based and
//! one-shot expiration semantics, and syntax-highlighted views.
//!
//! The storage layer owns the record set; an identifier codec converts
//! between numeric identifiers and short textual tokens; the rendering
//! layer produces highlighted markup for stored pastes.

use vstd::prelude::*;

pub mod cache;
pub mod form;
pub mod id;
pub mod store;

verus! {

/// Error kinds surfaced by the core.
#[derive(Clone, Copy, Debug, PartialEq, Eq)]
pub enum Error {
    /// Malformed identifier token during parsing.
    InvalidIdentifier,
    /// Non-ASCII extension token.
    IllegalCharacters,
    /// Insertion attempted with an identifier already occupied.
    IdentifierCollision,
    /// No live record for the requested identifier.
    NotFound,
    /// Deletion requested after the grace window.
    DeletionTimeExpired,
    /// Underlying storage medium failure.
    Unavailable,
}

/// One stored paste: content plus metadata.
#[derive(Clone, Debug)]
pub struct Entry {
    /// The raw content.
    pub text: String,
    /// Optional hint used to select a highlighting grammar.
    pub extension: Option<String>,
    /// Optional number of seconds after which the entry becomes
    /// unavailable; `None` or zero means "never expires".
    pub expires: Option<u32>,
    /// When true, the entry is deleted immediately after its first
    /// successful read.
    pub burn_after_reading: Option<bool>,
    /// Derived at read time from the creation timestamp; zero on a
    /// freshly built entry.
    pub seconds_since_creation: u32,
}

} // verus!
