//! The typed failures of the library, each with its short user-facing text.

use vstd::prelude::*;

verus! {

/// Everything that can go wrong across intake, retraction, broadcast and the
/// directory. `DispatchFailed` carries how many letters had already been sent
/// when a send failed.
#[derive(Clone, Copy, Debug, PartialEq, Eq, Structural)]
pub enum ServiceError {
    /// The intake gate is closed: no submissions are accepted right now.
    IntakeClosed,
    /// The author already has the maximum number of stored submissions.
    QuotaExceeded,
    /// The store could not accept another letter.
    PersistenceFailed,
    /// No stored letter carries the given correlation token.
    NotFound,
    /// A send during a broadcast failed; the count already sent is attached.
    DispatchFailed(usize),
    /// The directory already holds an entry with that name.
    DuplicateRecipient,
    /// The directory could not be read.
    LookupFailed,
}

/// The user-facing text of each error.
pub open spec fn message_spec(e: ServiceError) -> Seq<char> {
    match e {
        ServiceError::IntakeClosed => "Letter submissions are disabled"@,
        ServiceError::QuotaExceeded => "You have already sent two messages."@,
        ServiceError::PersistenceFailed => "Something went very wrong."@,
        ServiceError::NotFound => "No letter with that reference was found."@,
        ServiceError::DispatchFailed(_) => "Error sending a message."@,
        ServiceError::DuplicateRecipient => "Something went wrong while adding person"@,
        ServiceError::LookupFailed => "database error"@,
    }
}

impl ServiceError {
    /// The short human-readable statement shown to the user; internal detail
    /// stays out of it, only the dispatch partial count is carried separately.
    pub fn message(&self) -> (m: &'static str)
        ensures
            m@ == message_spec(*self),
    {
        match self {
            ServiceError::IntakeClosed => "Letter submissions are disabled",
            ServiceError::QuotaExceeded => "You have already sent two messages.",
            ServiceError::PersistenceFailed => "Something went very wrong.",
            ServiceError::NotFound => "No letter with that reference was found.",
            ServiceError::DispatchFailed(_) => "Error sending a message.",
            ServiceError::DuplicateRecipient => "Something went wrong while adding person",
            ServiceError::LookupFailed => "database error",
        }
    }
}

} // verus!
