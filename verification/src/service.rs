//! The submission service: the intake gate, the per-author quota, intake
//! itself, retraction through a correlation token, and the laws the whole
//! lifecycle obeys.
//!
//! Intake runs in two steps so the caller can talk to its audit sink in
//! between: [`SubmissionService::intake_check`] decides whether a request may
//! proceed (so a closed gate or an exhausted quota stops it before any audit
//! message is posted), and [`SubmissionService::intake`] re-checks and
//! persists, taking whatever correlation token the audit sink returned.

use vstd::prelude::*;

use crate::error::ServiceError;
use crate::model::{token_view, Letter, LetterView, NewLetter, ValentineLetter};
use crate::store::{
    correlations_unique, count_by_author, has_correlation, token_fresh, SubmissionStore,
};

verus! {

/// The fixed per-author submission quota.
pub const QUOTA: usize = 2;

/// The letter view an intake request yields once it is assigned `id` and the
/// correlation token `correlation`.
pub open spec fn stored_view(
    letter: ValentineLetter,
    correlation: Option<Seq<char>>,
    id: int,
) -> LetterView {
    LetterView {
        id: id,
        recipient: letter.recipient@,
        sender: letter.sender@,
        anon: letter.anon,
        content: letter.letter@,
        message_id: correlation,
        sender_id: letter.sender_id@,
    }
}

/// Every author identity is within the quota.
pub open spec fn quota_ok(s: Seq<LetterView>) -> bool {
    forall|author: Seq<char>| count_by_author(s, author) <= QUOTA as nat
}

/// Two service states hold the same letters and the same next identifier: a
/// rejected request leaves the service like this.
pub open spec fn same_contents(a: SubmissionService, b: SubmissionService) -> bool {
    a.letters() == b.letters() && a.next_id() == b.next_id()
}

/// The submission service: the stored letters plus the process-wide intake
/// gate, which defaults to open and is changed only by
/// [`SubmissionService::set_intake_allowed`].
pub struct SubmissionService {
    store: SubmissionStore,
    letters_allowed: bool,
}

impl SubmissionService {
    /// The stored letters, in insertion order.
    pub closed spec fn letters(&self) -> Seq<LetterView> {
        self.store@
    }

    /// Whether the intake gate is open.
    pub closed spec fn gate_open(&self) -> bool {
        self.letters_allowed
    }

    /// The identifier the next accepted letter will get.
    pub closed spec fn next_id(&self) -> int {
        self.store.next_id()
    }

    /// The store has run out of identifiers.
    pub open spec fn store_full(&self) -> bool {
        self.next_id() == i32::MAX as int
    }

    /// Well-formed: the store is well-formed and every author is within the
    /// quota.
    pub closed spec fn wf(&self) -> bool {
        &&& self.store.wf()
        &&& quota_ok(self.store@)
    }

    /// A fresh service: nothing stored, gate open.
    pub fn new() -> (s: Self)
        ensures
            s.wf(),
            s.letters() == Seq::<LetterView>::empty(),
            s.gate_open(),
            s.next_id() == 1,
    {
        let store = SubmissionStore::new();
        proof {
            assert forall|author: Seq<char>| count_by_author(store@, author) <= QUOTA as nat by {
                crate::store::lemma_count_le_len(store@, author);
            }
        }
        SubmissionService { store, letters_allowed: true }
    }

    /// Whether submissions are currently accepted.
    pub fn is_intake_allowed(&self) -> (b: bool)
        ensures
            b == self.gate_open(),
    {
        self.letters_allowed
    }

    /// Switches intake on or off and returns the old setting, leaving the
    /// stored letters untouched. Whether a caller may flip the switch is the
    /// platform's decision, not checked here.
    pub fn set_intake_allowed(&mut self, allowed: bool) -> (prev: bool)
        requires
            old(self).wf(),
        ensures
            final(self).wf(),
            prev == old(self).gate_open(),
            final(self).gate_open() == allowed,
            final(self).letters() == old(self).letters(),
            final(self).next_id() == old(self).next_id(),
    {
        let prev = self.letters_allowed;
        self.letters_allowed = allowed;
        prev
    }

    /// Decides whether an intake request from `sender_id` may proceed: a
    /// closed gate wins over everything, then the quota. A caller that posts
    /// an audit message does so only after `Ok`, so neither its audit sink
    /// nor the store is touched for a rejected request.
    pub fn intake_check(&self, sender_id: &str) -> (r: Result<(), ServiceError>)
        requires
            self.wf(),
        ensures
            !self.gate_open() ==> r == Err::<(), ServiceError>(ServiceError::IntakeClosed),
            self.gate_open() && count_by_author(self.letters(), sender_id@) >= QUOTA as nat ==> r
                == Err::<(), ServiceError>(ServiceError::QuotaExceeded),
            self.gate_open() && count_by_author(self.letters(), sender_id@) < QUOTA as nat ==> r
                == Ok::<(), ServiceError>(()),
    {
        if !self.letters_allowed {
            return Err(ServiceError::IntakeClosed);
        }
        if self.store.count_by_author(sender_id) >= QUOTA {
            return Err(ServiceError::QuotaExceeded);
        }
        Ok(())
    }

    /// Takes one submission in: gate check, then quota check, then persist
    /// with whatever correlation token the caller's audit step produced.
    /// Returns the stored letter. A rejected request leaves the store
    /// untouched; `PersistenceFailed` (no identifier left) can only follow a
    /// passed quota check, so a posted audit message may then be orphaned —
    /// that is accepted and surfaced, not rolled back.
    pub fn intake(&mut self, letter: &ValentineLetter, correlation: Option<String>) -> (r: Result<
        Letter,
        ServiceError,
    >)
        requires
            old(self).wf(),
            letter.sender_id@.len() > 0,
            letter.letter@.len() > 0,
            token_fresh(old(self).letters(), token_view(correlation)),
        ensures
            final(self).wf(),
            final(self).gate_open() == old(self).gate_open(),
            !old(self).gate_open() ==> r == Err::<Letter, ServiceError>(ServiceError::IntakeClosed)
                && same_contents(*old(self), *final(self)),
            old(self).gate_open() && count_by_author(old(self).letters(), letter.sender_id@)
                >= QUOTA as nat ==> r == Err::<Letter, ServiceError>(ServiceError::QuotaExceeded)
                && same_contents(*old(self), *final(self)),
            old(self).gate_open() && count_by_author(old(self).letters(), letter.sender_id@)
                < QUOTA as nat && old(self).store_full() ==> r == Err::<Letter, ServiceError>(
                ServiceError::PersistenceFailed,
            ) && same_contents(*old(self), *final(self)),
            old(self).gate_open() && count_by_author(old(self).letters(), letter.sender_id@)
                < QUOTA as nat && !old(self).store_full() ==> (r matches Ok(l)
                && l@ == stored_view(*letter, token_view(correlation), old(self).next_id())
                && final(self).letters() == old(self).letters().push(l@)
                && final(self).next_id() == old(self).next_id() + 1),
    {
        if !self.letters_allowed {
            return Err(ServiceError::IntakeClosed);
        }
        let count = self.store.count_by_author(letter.sender_id.as_str());
        if count >= QUOTA {
            return Err(ServiceError::QuotaExceeded);
        }
        let ghost corr = token_view(correlation);
        let returned_token = match &correlation {
            Some(t) => Some(t.clone()),
            None => None,
        };
        let new = NewLetter {
            recipient: letter.recipient.as_str(),
            sender: letter.sender.as_str(),
            anon: letter.anon,
            content: letter.letter.as_str(),
            message_id: correlation,
            sender_id: letter.sender_id.as_str(),
        };
        let ghost pre = self.store@;
        proof {
            self.store.lemma_wf_next_id_bounds();
        }
        match self.store.insert(new) {
            Ok(id) => {
                let stored = Letter {
                    id,
                    recipient: letter.recipient.clone(),
                    sender: letter.sender.clone(),
                    anon: letter.anon,
                    content: letter.letter.clone(),
                    message_id: returned_token,
                    sender_id: letter.sender_id.clone(),
                };
                proof {
                    assert(token_view(returned_token) == corr);
                    assert(stored@ =~= stored_view(*letter, corr, old(self).next_id()));
                    assert(self.store@ =~= pre.push(stored@));
                    assert forall|author: Seq<char>|
                        count_by_author(self.store@, author) <= QUOTA as nat by {
                        crate::store::lemma_count_push(pre, stored@, author);
                        if author == letter.sender_id@ {
                            assert(count_by_author(pre, author) < QUOTA as nat);
                        }
                    }
                }
                Ok(stored)
            },
            Err(e) => Err(e),
        }
    }

    /// Looks up and deletes the letter whose correlation token is `token`,
    /// returning it so the caller can annotate the matching audit message;
    /// `NotFound`, with the store unchanged, when no letter carries it. A
    /// second call with the same token therefore finds nothing.
    pub fn retract(&mut self, token: &str) -> (r: Result<Letter, ServiceError>)
        requires
            old(self).wf(),
        ensures
            final(self).wf(),
            final(self).gate_open() == old(self).gate_open(),
            final(self).next_id() == old(self).next_id(),
            r is Ok <==> has_correlation(old(self).letters(), token@),
            r matches Ok(l) ==> exists|i: int|
                0 <= i < old(self).letters().len()
                    && (#[trigger] old(self).letters()[i]).message_id == Some(token@)
                    && l@ == old(self).letters()[i]
                    && final(self).letters() == old(self).letters().remove(i),
            r is Err ==> r == Err::<Letter, ServiceError>(ServiceError::NotFound)
                && final(self).letters() == old(self).letters(),
    {
        let ghost pre = self.store@;
        let r = self.store.delete_by_correlation(token);
        proof {
            if r is Ok {
                let i = choose|i: int|
                    0 <= i < pre.len() && (#[trigger] pre[i]).message_id == Some(token@)
                        && r->Ok_0@ == pre[i] && self.store@ == pre.remove(i);
                assert forall|author: Seq<char>|
                    count_by_author(self.store@, author) <= QUOTA as nat by {
                    crate::store::lemma_count_remove(pre, author, i);
                }
            }
        }
        r
    }

    /// Whether some stored letter already carries the correlation token
    /// `token`: what a caller tests before handing a token to
    /// [`SubmissionService::intake`].
    pub fn has_token(&self, token: &str) -> (b: bool)
        ensures
            b == has_correlation(self.letters(), token@),
    {
        self.store.contains_correlation(token)
    }

    /// The whole store in insertion order: the snapshot a broadcast works on.
    pub fn load_all(&self) -> (r: &Vec<Letter>)
        ensures
            r@.map_values(|l: Letter| l@) == self.letters(),
    {
        self.store.load_all()
    }

}

/// Law: the per-author quota is an invariant of the service — in any
/// well-formed state, no author identity has more than [`QUOTA`] stored
/// letters, and every operation of the service keeps the state well-formed.
pub proof fn lemma_quota_invariant(s: &SubmissionService, author: Seq<char>)
    requires
        s.wf(),
    ensures
        count_by_author(s.letters(), author) <= QUOTA as nat,
{
}

/// A well-formed service never holds two letters with the same correlation
/// token.
pub proof fn lemma_wf_correlations_unique(s: &SubmissionService)
    requires
        s.wf(),
    ensures
        correlations_unique(s.letters()),
{
    s.store.lemma_wf_correlations_unique();
}

/// Law: retraction consumes its token. Removing the letter that carries a
/// token leaves no letter carrying it, so a second retraction with the same
/// token reports `NotFound` and changes nothing.
pub proof fn lemma_retract_consumes_token(s: Seq<LetterView>, tok: Seq<char>, i: int)
    requires
        correlations_unique(s),
        0 <= i < s.len(),
        s[i].message_id == Some(tok),
    ensures
        !has_correlation(s.remove(i), tok),
{
    let t = s.remove(i);
    assert forall|j: int| 0 <= j < t.len() implies (#[trigger] t[j]).message_id != Some(tok) by {
        let j0 = if j < i {
            j
        } else {
            j + 1
        };
        assert(t[j] == s[j0]);
        if j0 < i {
            assert(s[j0].message_id is Some ==> s[j0].message_id != s[i].message_id);
        } else {
            assert(s[i].message_id != s[j0].message_id);
        }
    }
}

/// Law: a letter accepted by intake and loaded back afterwards keeps its
/// anonymity flag and its author identity — intake appends exactly
/// [`stored_view`] of the request, and loading returns the store as it is.
pub proof fn lemma_intake_load_round_trip(
    pre: Seq<LetterView>,
    letter: ValentineLetter,
    correlation: Option<Seq<char>>,
    id: int,
)
    ensures
        pre.push(stored_view(letter, correlation, id)).last().anon == letter.anon,
        pre.push(stored_view(letter, correlation, id)).last().sender_id == letter.sender_id@,
{
}

} // verus!
