//! The error taxonomy of the core: decoding errors for malformed text,
//! apply errors for entries that contradict the projected state, and replay
//! errors that tie one of the former to the position of the offending entry.

use vstd::prelude::*;

verus! {

/// Why a log line or one of its fields failed to decode. These are
/// deterministic properties of the input text, never transient conditions.
#[derive(Debug, Clone, PartialEq, Eq)]
pub enum DecodeError {
    /// The line holds fewer leading fields than the grammar requires.
    MissingField,
    /// An identifier field is not 32 hexadecimal digits.
    InvalidId,
    /// The line's timestamp field is not a readable RFC 3339 text.
    InvalidTimestamp,
    /// The verb is none of CREATE, SET, LOG (in any letter case).
    InvalidVerb,
    /// A parameter segment starts with a key outside the fixed table.
    UnknownParameterKey(String),
    /// A size, remaining or spent value is not an integer with unit `h` or `p`.
    MalformedQuantity,
    /// A priority value is none of the digits 1, 2, 3.
    MalformedPriority,
    /// An item-kind value is not one of the fixed kind tokens.
    MalformedKind,
    /// A status value is none of the fixed status tokens.
    MalformedStatus,
    /// A due-date value is not a readable RFC 3339 text.
    MalformedTimestamp,
}

/// The mathematical reading of a [`DecodeError`].
pub enum SpecDecodeError {
    MissingField,
    InvalidId,
    InvalidTimestamp,
    InvalidVerb,
    UnknownParameterKey(Seq<char>),
    MalformedQuantity,
    MalformedPriority,
    MalformedKind,
    MalformedStatus,
    MalformedTimestamp,
}

impl View for DecodeError {
    type V = SpecDecodeError;

    open spec fn view(&self) -> SpecDecodeError {
        match self {
            DecodeError::MissingField => SpecDecodeError::MissingField,
            DecodeError::InvalidId => SpecDecodeError::InvalidId,
            DecodeError::InvalidTimestamp => SpecDecodeError::InvalidTimestamp,
            DecodeError::InvalidVerb => SpecDecodeError::InvalidVerb,
            DecodeError::UnknownParameterKey(k) => SpecDecodeError::UnknownParameterKey(k@),
            DecodeError::MalformedQuantity => SpecDecodeError::MalformedQuantity,
            DecodeError::MalformedPriority => SpecDecodeError::MalformedPriority,
            DecodeError::MalformedKind => SpecDecodeError::MalformedKind,
            DecodeError::MalformedStatus => SpecDecodeError::MalformedStatus,
            DecodeError::MalformedTimestamp => SpecDecodeError::MalformedTimestamp,
        }
    }
}

/// Why applying one decoded entry to project state failed.
#[derive(Debug, Clone, Copy, PartialEq, Eq, Structural)]
pub enum ApplyError {
    /// A Set or Log entry names an item with no prior Create in the fold.
    ItemNotFound,
    /// A Create entry names an item id that already exists.
    DuplicateItem,
}

/// Why a full replay failed: what went wrong and at which position of the
/// entry sequence.
#[derive(Debug, Clone, PartialEq, Eq)]
pub enum ReplayError {
    Decode { index: usize, error: DecodeError },
    Apply { index: usize, error: ApplyError },
}

/// The mathematical reading of a [`ReplayError`].
pub enum SpecReplayError {
    Decode { index: int, error: SpecDecodeError },
    Apply { index: int, error: ApplyError },
}

impl View for ReplayError {
    type V = SpecReplayError;

    open spec fn view(&self) -> SpecReplayError {
        match self {
            ReplayError::Decode { index, error } => SpecReplayError::Decode {
                index: *index as int,
                error: error@,
            },
            ReplayError::Apply { index, error } => SpecReplayError::Apply {
                index: *index as int,
                error: *error,
            },
        }
    }
}

} // verus!
