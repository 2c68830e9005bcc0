//! The directory of known recipient names: add one entry under a unique
//! name, replace the whole directory at once, and look names up by a
//! case-insensitive substring match capped at a result limit.

use vstd::prelude::*;

use crate::error::ServiceError;
use crate::model::{Recipient, RecipientView};
use crate::text::{contains_ci, contains_ci_exec, str_eq};

verus! {

/// Some entry of `s` is named `name`.
pub open spec fn has_name(s: Seq<RecipientView>, name: Seq<char>) -> bool {
    exists|i: int| 0 <= i < s.len() && (#[trigger] s[i]).fullname == name
}

/// No two entries of `s` share a name.
pub open spec fn names_unique(s: Seq<RecipientView>) -> bool {
    forall|i: int, j: int|
        #![trigger s[i], s[j]]
        0 <= i < j < s.len() ==> s[i].fullname != s[j].fullname
}

/// What a lookup returns: the names of the entries matching `pat`, in
/// directory order, cut off after `limit` results.
pub open spec fn search_spec(s: Seq<RecipientView>, pat: Seq<char>, limit: nat) -> Seq<Seq<char>>
    decreases s.len(),
{
    if s.len() == 0 || limit == 0 {
        Seq::empty()
    } else if contains_ci(s[0].fullname, pat) {
        seq![s[0].fullname] + search_spec(s.drop_first(), pat, (limit - 1) as nat)
    } else {
        search_spec(s.drop_first(), pat, limit)
    }
}

/// A lookup never returns more than its limit.
pub proof fn lemma_search_spec_len(s: Seq<RecipientView>, pat: Seq<char>, limit: nat)
    ensures
        search_spec(s, pat, limit).len() <= limit,
    decreases s.len(),
{
    if s.len() != 0 && limit != 0 {
        if contains_ci(s[0].fullname, pat) {
            lemma_search_spec_len(s.drop_first(), pat, (limit - 1) as nat);
        } else {
            lemma_search_spec_len(s.drop_first(), pat, limit);
        }
    }
}

/// Unfolds one step of `search_spec` along a suffix of the directory.
proof fn lemma_search_step(s: Seq<RecipientView>, pat: Seq<char>, i: int, limit: nat)
    requires
        0 <= i < s.len(),
        limit > 0,
    ensures
        search_spec(s.skip(i), pat, limit) == if contains_ci(s[i].fullname, pat) {
            seq![s[i].fullname] + search_spec(s.skip(i + 1), pat, (limit - 1) as nat)
        } else {
            search_spec(s.skip(i + 1), pat, limit)
        },
{
    assert(s.skip(i)[0] == s[i]);
    assert(s.skip(i).drop_first() =~= s.skip(i + 1));
}

/// The directory store: entries in insertion order, names unique.
pub struct Directory {
    entries: Vec<Recipient>,
}

impl View for Directory {
    type V = Seq<RecipientView>;

    closed spec fn view(&self) -> Seq<RecipientView> {
        self.entries@.map_values(|r: Recipient| r@)
    }
}

impl Directory {
    /// Well-formed: no two entries share a name.
    pub closed spec fn wf(&self) -> bool {
        names_unique(self@)
    }

    /// An empty directory.
    pub fn new() -> (d: Self)
        ensures
            d.wf(),
            d@ == Seq::<RecipientView>::empty(),
    {
        let d = Directory { entries: Vec::new() };
        proof {
            assert(d@ =~= Seq::<RecipientView>::empty());
        }
        d
    }

    /// How many entries the directory holds.
    pub fn len(&self) -> (n: usize)
        ensures
            n == self@.len(),
    {
        self.entries.len()
    }

    /// Adds one recipient and returns the created entry; a name already
    /// present is refused as `DuplicateRecipient`, not overwritten, and the
    /// directory is unchanged.
    pub fn add_recipient(&mut self, fullname: String, is_real: bool) -> (r: Result<
        Recipient,
        ServiceError,
    >)
        requires
            old(self).wf(),
        ensures
            final(self).wf(),
            has_name(old(self)@, fullname@) ==> r == Err::<Recipient, ServiceError>(
                ServiceError::DuplicateRecipient,
            ) && final(self)@ == old(self)@,
            !has_name(old(self)@, fullname@) ==> (r matches Ok(entry)
                && entry@ == (RecipientView { fullname: fullname@, is_real })
                && final(self)@ == old(self)@.push(entry@)),
    {
        let mut i: usize = 0;
        while i < self.entries.len()
            invariant
                self == old(self),
                old(self).wf(),
                i <= self.entries.len(),
                self@.len() == self.entries@.len(),
                forall|j: int| 0 <= j < i ==> (#[trigger] self@[j]).fullname != fullname@,
            decreases self.entries.len() - i,
        {
            if str_eq(self.entries[i].fullname.as_str(), fullname.as_str()) {
                proof {
                    assert((#[trigger] self@[i as int]).fullname == fullname@);
                    assert(has_name(self@, fullname@));
                }
                return Err(ServiceError::DuplicateRecipient);
            }
            i = i + 1;
        }
        let ghost pre = self@;
        let ghost namev = fullname@;
        let entry = Recipient { fullname: fullname.clone(), is_real };
        self.entries.push(Recipient { fullname, is_real });
        proof {
            assert(entry@ =~= (RecipientView { fullname: namev, is_real }));
            assert(self@ =~= pre.push(RecipientView { fullname: namev, is_real }));
            assert forall|a: int, b: int| #![trigger self@[a], self@[b]]
                0 <= a < b < self@.len() implies self@[a].fullname != self@[b].fullname by {
                if b < self@.len() - 1 {
                    assert(pre[a] == self@[a] && pre[b] == self@[b]);
                } else {
                    assert(self@[a] == pre[a]);
                }
            }
        }
        Ok(entry)
    }

    /// Empties the directory and reinserts the given names, each with the
    /// default realness flag, returning how many entries the directory now
    /// holds. The names must be pairwise distinct — they become unique keys.
    pub fn replace_all(&mut self, names: &Vec<String>, default_is_real: bool) -> (count: usize)
        requires
            old(self).wf(),
            forall|i: int, j: int|
                #![trigger names@[i], names@[j]]
                0 <= i < j < names@.len() ==> names@[i]@ != names@[j]@,
        ensures
            final(self).wf(),
            count == names@.len(),
            final(self)@ == names@.map_values(
                |n: String| RecipientView { fullname: n@, is_real: default_is_real },
            ),
    {
        let ghost target = names@.map_values(
            |n: String| RecipientView { fullname: n@, is_real: default_is_real },
        );
        self.entries.clear();
        let mut i: usize = 0;
        proof {
            assert(self@ =~= target.take(0));
        }
        while i < names.len()
            invariant
                i <= names@.len(),
                target == names@.map_values(
                    |n: String| RecipientView { fullname: n@, is_real: default_is_real },
                ),
                self@ == target.take(i as int),
            decreases names@.len() - i,
        {
            let ghost pre = self@;
            let entry = Recipient { fullname: names[i].clone(), is_real: default_is_real };
            proof {
                assert(entry@ == target[i as int]);
            }
            self.entries.push(entry);
            proof {
                assert(self@ =~= pre.push(target[i as int]));
                assert(target.take(i + 1) =~= target.take(i as int).push(target[i as int]));
                assert(self@ =~= target.take(i + 1));
            }
            i = i + 1;
        }
        proof {
            assert(self@ =~= target);
            assert forall|a: int, b: int| #![trigger self@[a], self@[b]]
                0 <= a < b < self@.len() implies self@[a].fullname != self@[b].fullname by {
                assert(self@[a].fullname == names@[a]@ && self@[b].fullname == names@[b]@);
            }
        }
        names.len()
    }

    /// Looks up at most `limit` names containing `pat` up to ASCII case, in
    /// directory order: a pure read.
    pub fn search(&self, pat: &str, limit: usize) -> (r: Vec<String>)
        ensures
            r@.map_values(|n: String| n@) == search_spec(self@, pat@, limit as nat),
            r@.len() <= limit,
    {
        let mut results: Vec<String> = Vec::new();
        let mut i: usize = 0;
        proof {
            assert(self@.skip(0) =~= self@);
            assert(results@.map_values(|n: String| n@) + search_spec(self@, pat@, limit as nat)
                =~= search_spec(self@, pat@, limit as nat));
        }
        while i < self.entries.len() && results.len() < limit
            invariant
                i <= self.entries.len(),
                self@.len() == self.entries@.len(),
                results@.len() <= limit,
                results@.map_values(|n: String| n@) + search_spec(
                    self@.skip(i as int),
                    pat@,
                    (limit - results@.len()) as nat,
                ) == search_spec(self@, pat@, limit as nat),
            decreases self.entries.len() - i,
        {
            let ghost remaining = (limit - results@.len()) as nat;
            let ghost acc = results@.map_values(|n: String| n@);
            proof {
                lemma_search_step(self@, pat@, i as int, remaining);
            }
            if contains_ci_exec(self.entries[i].fullname.as_str(), pat) {
                results.push(self.entries[i].fullname.clone());
                proof {
                    assert(results@.map_values(|n: String| n@) =~= acc + seq![
                        self@[i as int].fullname,
                    ]);
                    assert((acc + seq![self@[i as int].fullname]) + search_spec(
                        self@.skip(i + 1),
                        pat@,
                        (remaining - 1) as nat,
                    ) =~= acc + (seq![self@[i as int].fullname] + search_spec(
                        self@.skip(i + 1),
                        pat@,
                        (remaining - 1) as nat,
                    )));
                }
            }
            i = i + 1;
        }
        proof {
            if i == self.entries.len() {
                assert(self@.skip(i as int) =~= Seq::<RecipientView>::empty());
            }
            assert(results@.map_values(|n: String| n@) + Seq::<Seq<char>>::empty() =~= results@
                .map_values(|n: String| n@));
        }
        results
    }
}

} // verus!
