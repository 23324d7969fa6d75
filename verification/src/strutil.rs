//! Small verified string utilities: ASCII case folding, string equality,
//! and substring search.
//!
//! Only ASCII letters change case here; that is all the callers need,
//! since everything compared against is plain ASCII.

use vstd::prelude::*;

verus! {

/// An ASCII capital letter folded to lower case; anything else unchanged.
pub open spec fn lower_char(c: char) -> char {
    if 'A' <= c && c <= 'Z' {
        ((c as u32) + 32) as char
    } else {
        c
    }
}

/// A character sequence folded to lower case, character by character.
pub open spec fn lower_seq(s: Seq<char>) -> Seq<char> {
    s.map_values(|c: char| lower_char(c))
}

/// `n` occurs in `h` starting at index `i`.
pub open spec fn contains_at(h: Seq<char>, n: Seq<char>, i: int) -> bool {
    0 <= i && i + n.len() <= h.len() && h.subrange(i, i + n.len()) == n
}

/// `n` occurs somewhere in `h`.
pub open spec fn contains_seq(h: Seq<char>, n: Seq<char>) -> bool {
    exists|i: int| contains_at(h, n, i)
}

/// Fold one character to lower case.
pub fn ascii_lower_char(c: char) -> (r: char)
    ensures
        r == lower_char(c),
{
    match c {
        'A' => 'a',
        'B' => 'b',
        'C' => 'c',
        'D' => 'd',
        'E' => 'e',
        'F' => 'f',
        'G' => 'g',
        'H' => 'h',
        'I' => 'i',
        'J' => 'j',
        'K' => 'k',
        'L' => 'l',
        'M' => 'm',
        'N' => 'n',
        'O' => 'o',
        'P' => 'p',
        'Q' => 'q',
        'R' => 'r',
        'S' => 's',
        'T' => 't',
        'U' => 'u',
        'V' => 'v',
        'W' => 'w',
        'X' => 'x',
        'Y' => 'y',
        'Z' => 'z',
        _ => c,
    }
}

/// Compare two strings character by character.
pub fn str_eq(a: &str, b: &str) -> (r: bool)
    ensures
        r == (a@ == b@),
{
    let na = a.unicode_len();
    let nb = b.unicode_len();
    if na != nb {
        return false;
    }
    let mut i: usize = 0;
    while i < na
        invariant
            i <= na,
            na == a@.len(),
            na == b@.len(),
            forall|j: int| 0 <= j < i ==> a@[j] == b@[j],
        decreases na - i,
    {
        if a.get_char(i) != b.get_char(i) {
            return false;
        }
        i = i + 1;
    }
    proof {
        assert(a@ =~= b@);
    }
    true
}

/// Does `a`, folded to lower case, equal `b`?
pub fn eq_lower(a: &str, b: &str) -> (r: bool)
    ensures
        r == (lower_seq(a@) == b@),
{
    let na = a.unicode_len();
    let nb = b.unicode_len();
    if na != nb {
        proof {
            assert(lower_seq(a@).len() == a@.len());
        }
        return false;
    }
    let mut i: usize = 0;
    while i < na
        invariant
            i <= na,
            na == a@.len(),
            na == b@.len(),
            forall|j: int| 0 <= j < i ==> lower_char(a@[j]) == b@[j],
        decreases na - i,
    {
        if ascii_lower_char(a.get_char(i)) != b.get_char(i) {
            proof {
                assert(lower_seq(a@)[i as int] == lower_char(a@[i as int]));
            }
            return false;
        }
        i = i + 1;
    }
    proof {
        assert(lower_seq(a@) =~= b@);
    }
    true
}

/// Does `hay`, folded to lower case, contain `needle`?
pub fn contains_lower(hay: &str, needle: &str) -> (r: bool)
    ensures
        r == contains_seq(lower_seq(hay@), needle@),
{
    let nh = hay.unicode_len();
    let nn = needle.unicode_len();
    if nn > nh {
        proof {
            assert(lower_seq(hay@).len() == hay@.len());
        }
        return false;
    }
    if nn == 0 {
        proof {
            assert(lower_seq(hay@).subrange(0, 0) =~= needle@);
            assert(contains_at(lower_seq(hay@), needle@, 0));
        }
        return true;
    }
    let mut i: usize = 0;
    while i < nh - nn + 1
        invariant
            1 <= nn <= nh,
            i <= nh - nn + 1,
            nh == hay@.len(),
            nn == needle@.len(),
            forall|k: int| 0 <= k < i ==> !contains_at(lower_seq(hay@), needle@, k),
        decreases nh - nn + 1 - i,
    {
        let mut j: usize = 0;
        let mut matched: bool = true;
        while j < nn
            invariant
                j <= nn,
                i + nn <= nh,
                nh == hay@.len(),
                nn == needle@.len(),
                matched ==> forall|l: int| 0 <= l < j ==> lower_char(hay@[i + l]) == needle@[l],
                !matched ==> !contains_at(lower_seq(hay@), needle@, i as int),
            decreases nn - j,
        {
            if matched {
                if ascii_lower_char(hay.get_char(i + j)) != needle.get_char(j) {
                    proof {
                        assert(lower_seq(hay@)[i + j] == lower_char(hay@[i + j]));
                        assert(lower_seq(hay@).subrange(i as int, i + nn)[j as int] == lower_seq(
                            hay@,
                        )[i + j]);
                    }
                    matched = false;
                }
            }
            j = j + 1;
        }
        if matched {
            proof {
                assert forall|l: int| 0 <= l < nn implies lower_seq(hay@)[i + l] == needle@[l] by {
                    assert(lower_char(hay@[i + l]) == needle@[l]);
                }
                assert(lower_seq(hay@).subrange(i as int, i + nn) =~= needle@);
                assert(contains_at(lower_seq(hay@), needle@, i as int));
            }
            return true;
        }
        i = i + 1;
    }
    proof {
        assert forall|k: int| !contains_at(lower_seq(hay@), needle@, k) by {
            if 0 <= k && k + needle@.len() <= hay@.len() {
                assert(!contains_at(lower_seq(hay@), needle@, k));
            }
        }
    }
    false
}

} // verus!
