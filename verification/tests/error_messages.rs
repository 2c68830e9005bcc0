//! Every failure maps to its short user-facing text.

use letterbox::error::ServiceError;

#[test]
fn each_error_has_its_message() {
    assert_eq!(
        ServiceError::IntakeClosed.message(),
        "Letter submissions are disabled"
    );
    assert_eq!(
        ServiceError::QuotaExceeded.message(),
        "You have already sent two messages."
    );
    assert_eq!(
        ServiceError::PersistenceFailed.message(),
        "Something went very wrong."
    );
    assert_eq!(
        ServiceError::NotFound.message(),
        "No letter with that reference was found."
    );
    assert_eq!(
        ServiceError::DispatchFailed(3).message(),
        "Error sending a message."
    );
    assert_eq!(
        ServiceError::DuplicateRecipient.message(),
        "Something went wrong while adding person"
    );
    assert_eq!(ServiceError::LookupFailed.message(), "database error");
}
