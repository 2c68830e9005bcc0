//! The user record of the key-value store: a user identifier and up to two
//! letters, with the capacity rule enforced by construction.

use vstd::prelude::*;

verus! {

/// One letter as the key-value store keeps it.
#[derive(Debug)]
pub struct Letter {
    pub anon: bool,
    pub recipient: String,
    pub content: String,
}

/// A user and the letters they have sent so far: two slots, either of which
/// may be free.
#[derive(Debug)]
pub struct User {
    pub user_id: String,
    pub letters: (Option<Letter>, Option<Letter>),
}

/// What can go wrong when a user record moves through a backing store.
#[derive(Debug)]
pub enum DbError {
    ItemNotFound,
    CantDeserialize,
    CantSerialize,
    ItemCantWrite,
}

/// Both letter slots are taken: the user cannot send another letter.
#[derive(Debug)]
pub struct NoSpaceError;

/// An exact copy of a stored letter.
fn copy_letter(l: &Letter) -> (r: Letter)
    ensures
        r == *l,
{
    Letter { anon: l.anon, recipient: l.recipient.clone(), content: l.content.clone() }
}

impl User {
    /// The user's identifier.
    pub fn id(&self) -> (r: String)
        ensures
            r == self.user_id,
    {
        self.user_id.clone()
    }

    /// The same user with `new` put into a free letter slot — the first free
    /// one — and everything else unchanged; fails with [`NoSpaceError`] when
    /// both slots are taken, so no user ever holds more than two letters.
    pub fn letter_added(&self, new: Letter) -> (r: Result<User, NoSpaceError>)
        ensures
            self.letters.0 is None && self.letters.1 is None ==> (r matches Ok(u) && u.user_id
                == self.user_id && u.letters == (Some(new), None::<Letter>)),
            self.letters.0 is Some && self.letters.1 is None ==> (r matches Ok(u) && u.user_id
                == self.user_id && u.letters == (self.letters.0, Some(new))),
            self.letters.0 is None && self.letters.1 is Some ==> (r matches Ok(u) && u.user_id
                == self.user_id && u.letters == (Some(new), self.letters.1)),
            self.letters.0 is Some && self.letters.1 is Some ==> r is Err,
    {
        match (&self.letters.0, &self.letters.1) {
            (None, None) => Ok(User { user_id: self.id(), letters: (Some(new), None) }),
            (Some(previous), None) => Ok(
                User { user_id: self.id(), letters: (Some(copy_letter(previous)), Some(new)) },
            ),
            (None, Some(previous)) => Ok(
                User { user_id: self.id(), letters: (Some(new), Some(copy_letter(previous))) },
            ),
            (Some(_), Some(_)) => Err(NoSpaceError),
        }
    }
}

} // verus!
