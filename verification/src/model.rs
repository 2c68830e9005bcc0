//! The data carried through the submission lifecycle: the intake request, the
//! stored letter, the insertion payload and a directory entry, each with a
//! mathematical view used by the contracts.

use vstd::prelude::*;

verus! {

/// An intake request as it arrives from the interaction platform: who sends,
/// under which stable identity, to whom, the body, and whether the sender
/// wants to stay anonymous when the letter is surfaced outward.
#[derive(Debug)]
pub struct ValentineLetter {
    pub sender: String,
    pub sender_id: String,
    pub recipient: String,
    pub letter: String,
    pub anon: bool,
}

/// A stored letter. `id` is assigned by the store on insert and never changes;
/// `message_id` is the optional correlation token of the audit message that
/// was posted for this letter, fixed at insertion time.
#[derive(Debug)]
pub struct Letter {
    pub id: i32,
    pub recipient: String,
    pub sender: String,
    pub anon: bool,
    pub content: String,
    pub message_id: Option<String>,
    pub sender_id: String,
}

/// The payload of one insertion: everything of a [`Letter`] except the `id`,
/// which the store chooses.
#[derive(Debug)]
pub struct NewLetter<'a> {
    pub recipient: &'a str,
    pub sender: &'a str,
    pub anon: bool,
    pub content: &'a str,
    pub message_id: Option<String>,
    pub sender_id: &'a str,
}

/// One directory entry: a recipient name usable for lookup, with an
/// informational flag saying whether the person is real.
#[derive(Debug)]
pub struct Recipient {
    pub fullname: String,
    pub is_real: bool,
}

/// The mathematical value of a stored letter.
#[verifier::ext_equal]
pub ghost struct LetterView {
    pub id: int,
    pub recipient: Seq<char>,
    pub sender: Seq<char>,
    pub anon: bool,
    pub content: Seq<char>,
    pub message_id: Option<Seq<char>>,
    pub sender_id: Seq<char>,
}

/// The mathematical value of a directory entry.
#[verifier::ext_equal]
pub ghost struct RecipientView {
    pub fullname: Seq<char>,
    pub is_real: bool,
}

/// The view of an optional correlation token.
pub open spec fn token_view(token: Option<String>) -> Option<Seq<char>> {
    match token {
        Some(t) => Some(t@),
        None => None,
    }
}

impl View for Letter {
    type V = LetterView;

    open spec fn view(&self) -> LetterView {
        LetterView {
            id: self.id as int,
            recipient: self.recipient@,
            sender: self.sender@,
            anon: self.anon,
            content: self.content@,
            message_id: token_view(self.message_id),
            sender_id: self.sender_id@,
        }
    }
}

impl<'a> NewLetter<'a> {
    /// The letter view this payload yields once the store assigns it `id`.
    pub open spec fn view_with_id(&self, id: int) -> LetterView {
        LetterView {
            id: id,
            recipient: self.recipient@,
            sender: self.sender@,
            anon: self.anon,
            content: self.content@,
            message_id: token_view(self.message_id),
            sender_id: self.sender_id@,
        }
    }
}

impl View for Recipient {
    type V = RecipientView;

    open spec fn view(&self) -> RecipientView {
        RecipientView { fullname: self.fullname@, is_real: self.is_real }
    }
}

} // verus!
