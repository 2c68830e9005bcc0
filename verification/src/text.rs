//! Character-level string helpers: exact equality and the case-insensitive
//! substring match that the directory lookup is specified with.

use vstd::prelude::*;

verus! {

/// Exact equality of two string slices, character by character.
pub fn str_eq(a: &str, b: &str) -> (r: bool)
    ensures
        r == (a@ == b@),
{
    let a_len = a.unicode_len();
    let b_len = b.unicode_len();
    if a_len != b_len {
        return false;
    }
    let mut i: usize = 0;
    while i < a_len
        invariant
            a_len == a@.len(),
            a@.len() == b@.len(),
            i <= a_len,
            forall|j: int| 0 <= j < i ==> a@[j] == b@[j],
        decreases a_len - i,
    {
        if a.get_char(i) != b.get_char(i) {
            return false;
        }
        i = i + 1;
    }
    proof {
        assert(a@ =~= b@);
    }
    true
}

/// The ASCII-lowered code point of a character; characters outside `A`..`Z`
/// keep their own code point.
pub open spec fn lower_code(c: char) -> int {
    if 'A' as int <= c as int && c as int <= 'Z' as int {
        c as int + 32
    } else {
        c as int
    }
}

/// Two characters are equal up to ASCII case.
pub open spec fn char_eq_ci(a: char, b: char) -> bool {
    lower_code(a) == lower_code(b)
}

/// `pat` occurs in `hay` at offset `i`, up to ASCII case.
pub open spec fn matches_at(hay: Seq<char>, pat: Seq<char>, i: int) -> bool {
    forall|j: int| 0 <= j < pat.len() ==> char_eq_ci(hay[i + j], pat[j])
}

/// `pat` occurs somewhere in `hay`, up to ASCII case. The empty pattern
/// occurs in every string.
pub open spec fn contains_ci(hay: Seq<char>, pat: Seq<char>) -> bool {
    exists|i: int| 0 <= i <= hay.len() - pat.len() && matches_at(hay, pat, i)
}

/// Whether two characters are equal up to ASCII case.
pub fn char_ci_eq(a: char, b: char) -> (r: bool)
    ensures
        r == char_eq_ci(a, b),
{
    let ac = a as u32;
    let bc = b as u32;
    let al = if 'A' as u32 <= ac && ac <= 'Z' as u32 {
        ac + 32
    } else {
        ac
    };
    let bl = if 'A' as u32 <= bc && bc <= 'Z' as u32 {
        bc + 32
    } else {
        bc
    };
    al == bl
}

/// Whether `pat` occurs in `hay`, up to ASCII case.
pub fn contains_ci_exec(hay: &str, pat: &str) -> (r: bool)
    ensures
        r == contains_ci(hay@, pat@),
{
    let hay_len = hay.unicode_len();
    let pat_len = pat.unicode_len();
    if pat_len > hay_len {
        return false;
    }
    let mut i: usize = 0;
    while i <= hay_len - pat_len
        invariant
            hay_len == hay@.len(),
            pat_len == pat@.len(),
            pat_len <= hay_len,
            i <= hay_len - pat_len + 1,
            forall|k: int| 0 <= k < i ==> !matches_at(hay@, pat@, k),
        decreases hay_len + 1 - pat_len - i,
    {
        let mut j: usize = 0;
        let mut hit = true;
        while j < pat_len
            invariant
                hay_len == hay@.len(),
                pat_len == pat@.len(),
                pat_len <= hay_len,
                i <= hay_len - pat_len,
                j <= pat_len,
                hit ==> forall|m: int| 0 <= m < j ==> char_eq_ci(hay@[i + m], pat@[m]),
                !hit ==> !matches_at(hay@, pat@, i as int),
            decreases pat_len - j,
        {
            if !char_ci_eq(hay.get_char(i + j), pat.get_char(j)) {
                proof {
                    assert(!char_eq_ci(hay@[i + j], pat@[j as int]));
                }
                hit = false;
                j = pat_len;
            } else {
                j = j + 1;
            }
        }
        if hit {
            proof {
                assert(matches_at(hay@, pat@, i as int));
            }
            return true;
        }
        i = i + 1;
    }
    proof {
        assert(forall|k: int| 0 <= k <= hay@.len() - pat@.len() ==> !matches_at(hay@, pat@, k));
    }
    false
}

} // verus!
