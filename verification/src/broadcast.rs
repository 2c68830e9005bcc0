//! Planning the throttled re-broadcast: the whole store is loaded once as a
//! snapshot, every letter is rendered down to exactly the fields that may be
//! shown, and one inter-item delay is computed so that the full run fits the
//! caller's time budget without ever exceeding the per-item cap.
//!
//! The caller performs the sends and the waits; [`record_send`] decides after
//! each send whether the run goes on or aborts with the partial count.

use vstd::prelude::*;

use crate::error::ServiceError;
use crate::model::{Letter, LetterView};

verus! {

/// What a broadcast may show of one letter: the body and the recipient
/// always, the author only for a letter that is not anonymous. An anonymous
/// letter's author — display name as well as identity — never reaches the
/// destination because this type has no place for it.
pub struct RenderedLetter {
    pub author: Option<String>,
    pub recipient: String,
    pub content: String,
}

/// The mathematical value of a rendered letter.
#[verifier::ext_equal]
pub ghost struct RenderedLetterView {
    pub author: Option<Seq<char>>,
    pub recipient: Seq<char>,
    pub content: Seq<char>,
}

impl View for RenderedLetter {
    type V = RenderedLetterView;

    open spec fn view(&self) -> RenderedLetterView {
        RenderedLetterView {
            author: match self.author {
                Some(a) => Some(a@),
                None => None,
            },
            recipient: self.recipient@,
            content: self.content@,
        }
    }
}

/// How a stored letter renders: anonymous letters lose their author.
pub open spec fn rendered_view(l: LetterView) -> RenderedLetterView {
    RenderedLetterView {
        author: if l.anon {
            None
        } else {
            Some(l.sender)
        },
        recipient: l.recipient,
        content: l.content,
    }
}

/// The delay before each of `n` letters: the even share of the total budget,
/// capped at the per-item maximum.
pub open spec fn per_item_delay(max_total_ms: u64, max_per_item_ms: u64, n: int) -> int
    recommends
        n > 0,
{
    let share = max_total_ms as int / n;
    if max_per_item_ms as int <= share {
        max_per_item_ms as int
    } else {
        share
    }
}

/// Renders one letter down to the fields that may be shown.
pub fn render_letter(l: &Letter) -> (r: RenderedLetter)
    ensures
        r@ == rendered_view(l@),
        l.anon ==> r@.author is None,
{
    let r = RenderedLetter {
        author: if l.anon {
            None
        } else {
            Some(l.sender.clone())
        },
        recipient: l.recipient.clone(),
        content: l.content.clone(),
    };
    proof {
        assert(r@ =~= rendered_view(l@));
    }
    r
}

/// The delay to wait before each letter; the caller guards `count > 0`, so
/// the even share involves no division by zero.
pub fn compute_delay(max_total_ms: u64, max_per_item_ms: u64, count: usize) -> (d: u64)
    requires
        count > 0,
    ensures
        d as int == per_item_delay(max_total_ms, max_per_item_ms, count as int),
{
    let share = max_total_ms / (count as u64);
    if max_per_item_ms <= share {
        max_per_item_ms
    } else {
        share
    }
}

/// A broadcast, planned: the rendered letters in store order and the delay to
/// wait before each one.
pub struct BroadcastPlan {
    pub delay_ms: u64,
    pub messages: Vec<RenderedLetter>,
}

/// Plans the broadcast of a loaded snapshot: one rendered message per stored
/// letter, in order, and the computed delay. With nothing stored there is
/// nothing to send, no delay and no division by the count.
pub fn plan_broadcast(letters: &Vec<Letter>, max_total_ms: u64, max_per_item_ms: u64) -> (p:
    BroadcastPlan)
    ensures
        p.messages@.len() == letters@.len(),
        forall|i: int|
            0 <= i < letters@.len() ==> (#[trigger] p.messages@[i])@ == rendered_view(
                letters@[i]@,
            ),
        letters@.len() == 0 ==> p.delay_ms == 0,
        letters@.len() > 0 ==> p.delay_ms as int == per_item_delay(
            max_total_ms,
            max_per_item_ms,
            letters@.len() as int,
        ),
{
    let n = letters.len();
    let delay_ms = if n == 0 {
        0
    } else {
        compute_delay(max_total_ms, max_per_item_ms, n)
    };
    let mut messages: Vec<RenderedLetter> = Vec::new();
    let mut i: usize = 0;
    while i < n
        invariant
            n == letters@.len(),
            i <= n,
            messages@.len() == i,
            forall|j: int|
                0 <= j < i ==> (#[trigger] messages@[j])@ == rendered_view(letters@[j]@),
        decreases n - i,
    {
        messages.push(render_letter(&letters[i]));
        i = i + 1;
    }
    BroadcastPlan { delay_ms, messages }
}

/// One step of the broadcast loop: a successful send advances the count of
/// letters already sent; a failed send aborts the whole run at once with the
/// partial count attached.
pub fn record_send(sent: usize, ok: bool) -> (r: Result<usize, ServiceError>)
    requires
        sent < usize::MAX,
    ensures
        ok ==> r == Ok::<usize, ServiceError>((sent + 1) as usize),
        !ok ==> r == Err::<usize, ServiceError>(ServiceError::DispatchFailed(sent)),
{
    if ok {
        Ok(sent + 1)
    } else {
        Err(ServiceError::DispatchFailed(sent))
    }
}

/// Law: the pacing fits the budget. With `n` letters to send, the planned
/// waiting time `n` times the delay never exceeds the total budget, and the
/// delay never exceeds the per-item cap.
pub proof fn lemma_pacing_within_budget(max_total_ms: u64, max_per_item_ms: u64, n: int)
    requires
        n > 0,
    ensures
        n * per_item_delay(max_total_ms, max_per_item_ms, n) <= max_total_ms as int,
        per_item_delay(max_total_ms, max_per_item_ms, n) <= max_per_item_ms as int,
{
    let share = max_total_ms as int / n;
    vstd::arithmetic::div_mod::lemma_fundamental_div_mod(max_total_ms as int, n);
    vstd::arithmetic::div_mod::lemma_mod_bound(max_total_ms as int, n);
    assert(n * share <= max_total_ms as int);
    if max_per_item_ms as int <= share {
        vstd::arithmetic::mul::lemma_mul_inequality(max_per_item_ms as int, share, n);
        assert(n * max_per_item_ms as int == max_per_item_ms as int * n) by {
            vstd::arithmetic::mul::lemma_mul_is_commutative(n, max_per_item_ms as int);
        }
        assert(share * n == n * share) by {
            vstd::arithmetic::mul::lemma_mul_is_commutative(share, n);
        }
    }
}

} // verus!
