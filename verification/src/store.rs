//! The flat store of submissions. It assigns each inserted letter a fresh
//! identifier, counts letters per author, deletes by correlation token or by
//! identifier, and hands the whole contents out for a broadcast.
//!
//! The store guarantees that identifiers are unique and that at most one
//! stored letter carries any given correlation token; both are what makes
//! retraction act on exactly one letter.

use vstd::prelude::*;

use crate::error::ServiceError;
use crate::model::{Letter, LetterView, NewLetter};
use crate::text::str_eq;

verus! {

/// How many letters of `s` were sent under the author identity `author`.
pub open spec fn count_by_author(s: Seq<LetterView>, author: Seq<char>) -> nat
    decreases s.len(),
{
    if s.len() == 0 {
        0
    } else {
        count_by_author(s.drop_last(), author) + if s.last().sender_id == author {
            1nat
        } else {
            0nat
        }
    }
}

/// Some letter of `s` carries the correlation token `tok`.
pub open spec fn has_correlation(s: Seq<LetterView>, tok: Seq<char>) -> bool {
    exists|i: int| 0 <= i < s.len() && (#[trigger] s[i]).message_id == Some(tok)
}

/// Some letter of `s` has the identifier `id`.
pub open spec fn has_id(s: Seq<LetterView>, id: int) -> bool {
    exists|i: int| 0 <= i < s.len() && (#[trigger] s[i]).id == id
}

/// No two letters of `s` carry the same correlation token.
pub open spec fn correlations_unique(s: Seq<LetterView>) -> bool {
    forall|i: int, j: int|
        #![trigger s[i], s[j]]
        0 <= i < j < s.len() && s[i].message_id is Some ==> s[i].message_id != s[j].message_id
}

/// No two letters of `s` have the same identifier.
pub open spec fn ids_unique(s: Seq<LetterView>) -> bool {
    forall|i: int, j: int| #![trigger s[i], s[j]] 0 <= i < j < s.len() ==> s[i].id != s[j].id
}

/// The token of an insertion payload matches no letter already in `s`.
pub open spec fn token_fresh(s: Seq<LetterView>, token: Option<Seq<char>>) -> bool {
    match token {
        Some(t) => !has_correlation(s, t),
        None => true,
    }
}

/// A count never exceeds the length counted over.
pub proof fn lemma_count_le_len(s: Seq<LetterView>, author: Seq<char>)
    ensures
        count_by_author(s, author) <= s.len(),
    decreases s.len(),
{
    if s.len() > 0 {
        lemma_count_le_len(s.drop_last(), author);
    }
}

/// Appending one letter raises the count of its own author by one and leaves
/// every other author's count unchanged.
pub proof fn lemma_count_push(s: Seq<LetterView>, v: LetterView, author: Seq<char>)
    ensures
        count_by_author(s.push(v), author) == count_by_author(s, author) + if v.sender_id
            == author {
            1nat
        } else {
            0nat
        },
{
    assert(s.push(v).drop_last() =~= s);
}

/// One step of counting along a prefix.
pub proof fn lemma_count_take_step(s: Seq<LetterView>, author: Seq<char>, i: int)
    requires
        0 <= i < s.len(),
    ensures
        count_by_author(s.take(i + 1), author) == count_by_author(s.take(i), author) + if s[
            i
        ].sender_id == author {
            1nat
        } else {
            0nat
        },
{
    assert(s.take(i + 1).drop_last() =~= s.take(i));
    assert(s.take(i + 1).last() == s[i]);
}

/// Removing one letter lowers the count of its own author by one and leaves
/// every other author's count unchanged.
pub proof fn lemma_count_remove(s: Seq<LetterView>, author: Seq<char>, i: int)
    requires
        0 <= i < s.len(),
    ensures
        count_by_author(s, author) == count_by_author(s.remove(i), author) + if s[i].sender_id
            == author {
            1nat
        } else {
            0nat
        },
    decreases s.len(),
{
    if i == s.len() - 1 {
        assert(s.remove(i) =~= s.drop_last());
    } else {
        let s2 = s.remove(i);
        assert(s2.drop_last() =~= s.drop_last().remove(i));
        assert(s2.last() == s.last());
        lemma_count_remove(s.drop_last(), author, i);
        assert(s.drop_last()[i] == s[i]);
    }
}

/// The flat store: letters in insertion order, plus the next free identifier.
pub struct SubmissionStore {
    letters: Vec<Letter>,
    next_id: i32,
}

impl View for SubmissionStore {
    type V = Seq<LetterView>;

    closed spec fn view(&self) -> Seq<LetterView> {
        self.letters@.map_values(|l: Letter| l@)
    }
}

impl SubmissionStore {
    /// The identifier the next inserted letter will get.
    pub closed spec fn next_id(&self) -> int {
        self.next_id as int
    }

    /// The store has run out of identifiers and accepts no further letter.
    pub open spec fn is_full(&self) -> bool {
        self.next_id() == i32::MAX as int
    }

    /// Well-formed: identifiers are positive, below the next free one and
    /// unique, and no correlation token appears twice.
    pub closed spec fn wf(&self) -> bool {
        &&& 1 <= self.next_id as int <= i32::MAX as int
        &&& forall|i: int| 0 <= i < self@.len() ==> 1 <= (#[trigger] self@[i]).id < self.next_id as int
        &&& ids_unique(self@)
        &&& correlations_unique(self@)
    }

    /// A well-formed store never holds two letters with the same token.
    pub proof fn lemma_wf_correlations_unique(&self)
        requires
            self.wf(),
        ensures
            correlations_unique(self@),
    {
    }

    /// In a well-formed store the next identifier fits in its type.
    pub proof fn lemma_wf_next_id_bounds(&self)
        requires
            self.wf(),
        ensures
            1 <= self.next_id() <= i32::MAX as int,
    {
    }

    /// An empty store, handing out identifiers from 1 up.
    pub fn new() -> (s: Self)
        ensures
            s.wf(),
            s@ == Seq::<LetterView>::empty(),
            s.next_id() == 1,
    {
        let s = SubmissionStore { letters: Vec::new(), next_id: 1 };
        proof {
            assert(s@ =~= Seq::<LetterView>::empty());
        }
        s
    }

    /// How many letters are stored.
    pub fn len(&self) -> (n: usize)
        ensures
            n == self@.len(),
    {
        self.letters.len()
    }

    /// How many stored letters the author identity `sender_id` has.
    pub fn count_by_author(&self, sender_id: &str) -> (n: usize)
        ensures
            n == count_by_author(self@, sender_id@),
    {
        let mut n: usize = 0;
        let mut i: usize = 0;
        proof {
            assert(self@.take(0) =~= Seq::<LetterView>::empty());
        }
        while i < self.letters.len()
            invariant
                i <= self.letters.len(),
                self@.len() == self.letters@.len(),
                n == count_by_author(self@.take(i as int), sender_id@),
                n <= i,
            decreases self.letters.len() - i,
        {
            proof {
                lemma_count_take_step(self@, sender_id@, i as int);
            }
            if str_eq(self.letters[i].sender_id.as_str(), sender_id) {
                n = n + 1;
            }
            i = i + 1;
        }
        proof {
            assert(self@.take(self@.len() as int) =~= self@);
        }
        n
    }

    /// Inserts one letter, assigning it the next free identifier. Fails with
    /// `PersistenceFailed` exactly when the store has no identifier left.
    pub fn insert(&mut self, new: NewLetter<'_>) -> (r: Result<i32, ServiceError>)
        requires
            old(self).wf(),
            token_fresh(old(self)@, crate::model::token_view(new.message_id)),
        ensures
            final(self).wf(),
            old(self).is_full() ==> r == Err::<i32, ServiceError>(ServiceError::PersistenceFailed)
                && final(self)@ == old(self)@ && final(self).next_id() == old(self).next_id(),
            !old(self).is_full() ==> r == Ok::<i32, ServiceError>(old(self).next_id() as i32)
                && final(self)@ == old(self)@.push(new.view_with_id(old(self).next_id()))
                && final(self).next_id() == old(self).next_id() + 1,
    {
        if self.next_id == i32::MAX {
            return Err(ServiceError::PersistenceFailed);
        }
        let id = self.next_id;
        let letter = Letter {
            id,
            recipient: new.recipient.to_owned(),
            sender: new.sender.to_owned(),
            anon: new.anon,
            content: new.content.to_owned(),
            message_id: new.message_id,
            sender_id: new.sender_id.to_owned(),
        };
        proof {
            assert(letter@ =~= new.view_with_id(self.next_id as int));
        }
        let ghost pre = self@;
        self.letters.push(letter);
        self.next_id = id + 1;
        proof {
            assert(self@ =~= pre.push(new.view_with_id(id as int)));
            assert forall|i: int, j: int| #![trigger self@[i], self@[j]]
                0 <= i < j < self@.len() implies self@[i].id != self@[j].id by {
                if j < self@.len() - 1 {
                    assert(pre[i] == self@[i] && pre[j] == self@[j]);
                } else {
                    assert(self@[i] == pre[i] && 1 <= pre[i].id < id as int);
                }
            }
            assert forall|i: int, j: int| #![trigger self@[i], self@[j]]
                0 <= i < j < self@.len() && self@[i].message_id is Some implies self@[
                i
            ].message_id != self@[j].message_id by {
                if j < self@.len() - 1 {
                    assert(pre[i] == self@[i] && pre[j] == self@[j]);
                } else {
                    assert(self@[i] == pre[i]);
                    if self@[j].message_id is Some {
                        assert(!has_correlation(pre, self@[j].message_id->0));
                        assert(0 <= i < pre.len());
                    }
                }
            }
        }
        Ok(id)
    }

    /// Whether some stored letter carries the correlation token `token`.
    /// Intake callers use this to hand in only tokens no letter carries yet.
    pub fn contains_correlation(&self, token: &str) -> (b: bool)
        ensures
            b == has_correlation(self@, token@),
    {
        let mut i: usize = 0;
        while i < self.letters.len()
            invariant
                i <= self.letters.len(),
                self@.len() == self.letters@.len(),
                forall|j: int| 0 <= j < i ==> (#[trigger] self@[j]).message_id != Some(token@),
            decreases self.letters.len() - i,
        {
            let hit = match &self.letters[i].message_id {
                Some(m) => str_eq(m.as_str(), token),
                None => false,
            };
            if hit {
                proof {
                    assert((#[trigger] self@[i as int]).message_id == Some(token@));
                }
                return true;
            }
            i = i + 1;
        }
        false
    }

    /// Deletes the letter carrying the correlation token `token` and returns
    /// it; fails with `NotFound`, changing nothing, when no letter does.
    pub fn delete_by_correlation(&mut self, token: &str) -> (r: Result<Letter, ServiceError>)
        requires
            old(self).wf(),
        ensures
            final(self).wf(),
            final(self).next_id() == old(self).next_id(),
            r is Ok <==> has_correlation(old(self)@, token@),
            r matches Ok(l) ==> exists|i: int|
                0 <= i < old(self)@.len() && (#[trigger] old(self)@[i]).message_id == Some(token@)
                    && l@ == old(self)@[i] && final(self)@ == old(self)@.remove(i),
            r is Err ==> r == Err::<Letter, ServiceError>(ServiceError::NotFound) && final(self)@
                == old(self)@,
    {
        let mut i: usize = 0;
        while i < self.letters.len()
            invariant
                self == old(self),
                old(self).wf(),
                i <= self.letters.len(),
                self@.len() == self.letters@.len(),
                forall|j: int| 0 <= j < i ==> (#[trigger] self@[j]).message_id != Some(token@),
            decreases self.letters.len() - i,
        {
            let hit = match &self.letters[i].message_id {
                Some(m) => str_eq(m.as_str(), token),
                None => false,
            };
            if hit {
                let ghost pre = self@;
                let letter = self.letters.remove(i);
                proof {
                    assert(letter@ == pre[i as int]);
                    assert(self@ =~= pre.remove(i as int));
                    lemma_remove_keeps_wf(pre, i as int, old(self).next_id());
                }
                return Ok(letter);
            }
            i = i + 1;
        }
        Err(ServiceError::NotFound)
    }

    /// Deletes the letter with identifier `id` and returns it; fails with
    /// `NotFound`, changing nothing, when no letter has it.
    pub fn delete_by_id(&mut self, id: i32) -> (r: Result<Letter, ServiceError>)
        requires
            old(self).wf(),
        ensures
            final(self).wf(),
            final(self).next_id() == old(self).next_id(),
            r is Ok <==> has_id(old(self)@, id as int),
            r matches Ok(l) ==> exists|i: int|
                0 <= i < old(self)@.len() && (#[trigger] old(self)@[i]).id == id as int && l@
                    == old(self)@[i] && final(self)@ == old(self)@.remove(i),
            r is Err ==> r == Err::<Letter, ServiceError>(ServiceError::NotFound) && final(self)@
                == old(self)@,
    {
        let mut i: usize = 0;
        while i < self.letters.len()
            invariant
                self == old(self),
                old(self).wf(),
                i <= self.letters.len(),
                self@.len() == self.letters@.len(),
                forall|j: int| 0 <= j < i ==> (#[trigger] self@[j]).id != id as int,
            decreases self.letters.len() - i,
        {
            if self.letters[i].id == id {
                let ghost pre = self@;
                let letter = self.letters.remove(i);
                proof {
                    assert(letter@ == pre[i as int]);
                    assert(self@ =~= pre.remove(i as int));
                    lemma_remove_keeps_wf(pre, i as int, old(self).next_id());
                }
                return Ok(letter);
            }
            i = i + 1;
        }
        Err(ServiceError::NotFound)
    }

    /// The whole store in insertion order, for a broadcast snapshot.
    pub fn load_all(&self) -> (r: &Vec<Letter>)
        ensures
            r@.map_values(|l: Letter| l@) == self@,
    {
        &self.letters
    }
}

/// Removing one element keeps identifiers and correlation tokens unique and
/// keeps every identifier inside its bound.
proof fn lemma_remove_keeps_wf(s: Seq<LetterView>, at: int, bound: int)
    requires
        0 <= at < s.len(),
        forall|i: int| 0 <= i < s.len() ==> 1 <= (#[trigger] s[i]).id < bound,
        ids_unique(s),
        correlations_unique(s),
    ensures
        forall|i: int| 0 <= i < s.remove(at).len() ==> 1 <= (#[trigger] s.remove(at)[i]).id < bound,
        ids_unique(s.remove(at)),
        correlations_unique(s.remove(at)),
{
    let t = s.remove(at);
    assert forall|i: int| 0 <= i < t.len() implies 1 <= (#[trigger] t[i]).id < bound by {
        if i < at {
            assert(t[i] == s[i]);
        } else {
            assert(t[i] == s[i + 1]);
        }
    }
    assert forall|i: int, j: int| #![trigger t[i], t[j]] 0 <= i < j < t.len() implies t[i].id != t[
        j
    ].id by {
        let i0 = if i < at { i } else { i + 1 };
        let j0 = if j < at { j } else { j + 1 };
        assert(t[i] == s[i0] && t[j] == s[j0]);
    }
    assert forall|i: int, j: int| #![trigger t[i], t[j]]
        0 <= i < j < t.len() && t[i].message_id is Some implies t[i].message_id != t[
        j
    ].message_id by {
        let i0 = if i < at { i } else { i + 1 };
        let j0 = if j < at { j } else { j + 1 };
        assert(t[i] == s[i0] && t[j] == s[j0]);
    }
}

} // verus!
