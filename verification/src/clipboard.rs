//! The compute side of the clipboard boundary.
//!
//! Moving text to or from the platform clipboard is I/O and lives in the
//! embedding application; what is verified here is the rule on both
//! sides of that call: copying (and cutting, which is the same check)
//! demands non-empty text, and pasted text loses the trailing CRLF
//! artifacts a host shell may append.

use vstd::prelude::*;

verus! {

/// Failure of a clipboard operation.
#[derive(Debug)]
pub enum ClipboardError {
    /// No platform clipboard is available.
    NotAvailable,
    /// The platform refused the copy; holds its description.
    CopyFailed(String),
    /// The platform refused the paste; holds its description.
    PasteFailed(String),
    /// Copying nothing is refused.
    EmptyText,
}

/// A sequence with every trailing `"\r\n"` pair removed.
pub open spec fn spec_trim_crlf(s: Seq<char>) -> Seq<char>
    decreases s.len(),
{
    if s.len() >= 2 && s[s.len() - 2] == '\r' && s[s.len() - 1] == '\n' {
        spec_trim_crlf(s.subrange(0, s.len() - 2))
    } else {
        s
    }
}

/// Admit a copy (or cut) request: the payload to hand to the platform,
/// or the error for empty text, which is refused.
pub fn copy_check(text: &str) -> (r: Result<(), ClipboardError>)
    ensures
        r is Err <==> text@.len() == 0,
        r is Err ==> r == Err::<(), ClipboardError>(ClipboardError::EmptyText),
{
    if text.unicode_len() == 0 {
        Err(ClipboardError::EmptyText)
    } else {
        Ok(())
    }
}

/// Admit a cut request: defined identically to [`copy_check`]; deleting
/// the cut text is the caller's responsibility.
pub fn cut_check(text: &str) -> (r: Result<(), ClipboardError>)
    ensures
        r is Err <==> text@.len() == 0,
        r is Err ==> r == Err::<(), ClipboardError>(ClipboardError::EmptyText),
{
    copy_check(text)
}

/// Normalize pasted text: strip the trailing CRLF artifacts a host shell
/// introduces, and nothing else.
pub fn normalize_paste(text: &str) -> (r: String)
    ensures
        r@ == spec_trim_crlf(text@),
{
    let mut end = text.unicode_len();
    proof {
        assert(text@.subrange(0, end as int) =~= text@);
    }
    while end >= 2 && text.get_char(end - 2) == '\r' && text.get_char(end - 1) == '\n'
        invariant
            end <= text@.len(),
            spec_trim_crlf(text@) == spec_trim_crlf(text@.subrange(0, end as int)),
        decreases end,
    {
        proof {
            let cur = text@.subrange(0, end as int);
            assert(cur[end - 2] == text@[end - 2]);
            assert(cur[end - 1] == text@[end - 1]);
            assert(cur.subrange(0, cur.len() - 2) =~= text@.subrange(0, end - 2));
        }
        end = end - 2;
    }
    let out = text.substring_char(0, end);
    proof {
        let cur = text@.subrange(0, end as int);
        if end >= 2 {
            assert(cur[end - 2] == text@[end - 2]);
            assert(cur[end - 1] == text@[end - 1]);
        }
        assert(spec_trim_crlf(cur) == cur);
    }
    out.to_owned()
}

} // verus!
