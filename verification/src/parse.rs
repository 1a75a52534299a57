//! Decimal parsing and substring search on strings, verified against
//! character-sequence models.
//!
//! Parsing follows the standard library's unsigned integer parsing: an
//! optional leading `+`, then one or more ASCII digits, rejecting
//! anything else and every value out of range.

use vstd::prelude::*;
use vstd::string::StrSliceExecFns;

verus! {

/// Whether `c` is an ASCII decimal digit.
pub open spec fn is_ascii_digit(c: char) -> bool {
    48 <= c as int <= 57
}

/// Whether every character of `s` is an ASCII decimal digit.
pub open spec fn all_digits(s: Seq<char>) -> bool {
    forall|i: int| 0 <= i < s.len() ==> is_ascii_digit(s[i])
}

/// The value of a digit string, most significant digit first.
pub open spec fn digits_value(s: Seq<char>) -> int
    decreases s.len(),
{
    if s.len() == 0 {
        0
    } else {
        digits_value(s.drop_last()) * 10 + (s.last() as int - 48)
    }
}

/// The digits of `s` after an optional leading `+`.
pub open spec fn spec_number_body(s: Seq<char>) -> Seq<char> {
    if s.len() > 0 && s[0] == '+' {
        s.drop_first()
    } else {
        s
    }
}

/// What parsing `s` as a `u64` yields.
pub open spec fn spec_parse_u64(s: Seq<char>) -> Option<u64> {
    let body = spec_number_body(s);
    if body.len() > 0 && all_digits(body) && digits_value(body) <= u64::MAX {
        Some(digits_value(body) as u64)
    } else {
        None
    }
}

/// What parsing `s` as a `u32` yields.
pub open spec fn spec_parse_u32(s: Seq<char>) -> Option<u32> {
    let body = spec_number_body(s);
    if body.len() > 0 && all_digits(body) && digits_value(body) <= u32::MAX {
        Some(digits_value(body) as u32)
    } else {
        None
    }
}

/// The value of a digit string is never negative.
pub proof fn lemma_digits_value_nonneg(s: Seq<char>)
    requires
        all_digits(s),
    ensures
        digits_value(s) >= 0,
    decreases s.len(),
{
    if s.len() > 0 {
        lemma_digits_value_nonneg(s.drop_last());
    }
}

/// Extending a digit string never lowers its value.
pub proof fn lemma_digits_value_prefix_le(s: Seq<char>, j: int)
    requires
        all_digits(s),
        0 <= j <= s.len(),
    ensures
        digits_value(s.take(j)) <= digits_value(s),
    decreases s.len() - j,
{
    if j < s.len() {
        lemma_digits_value_prefix_le(s, j + 1);
        let t = s.take(j + 1);
        assert(t.drop_last() =~= s.take(j));
        lemma_digits_value_nonneg(s.take(j));
        assert(digits_value(s.take(j)) <= digits_value(t));
    } else {
        assert(s.take(j) =~= s);
    }
}

/// Parse `s` as a `u64`: an optional `+`, then decimal digits.
pub fn parse_u64(s: &str) -> (r: Option<u64>)
    ensures
        r == spec_parse_u64(s@),
{
    let len = s.unicode_len();
    let ghost body = spec_number_body(s@);
    let mut i: usize = 0;
    if len > 0 && s.get_char(0) == '+' {
        i = 1;
    }
    let ghost start = i as int;
    proof {
        assert(body =~= s@.skip(start));
    }
    if i == len {
        return None;
    }
    let mut val: u64 = 0;
    while i < len
        invariant
            0 <= start <= i <= len,
            len == s@.len(),
            body == s@.skip(start),
            body == spec_number_body(s@),
            all_digits(body.take(i - start)),
            val == digits_value(body.take(i - start)),
        decreases len - i,
    {
        let c = s.get_char(i);
        let d = c as u32;
        let ghost taken = body.take(i - start);
        let ghost taken_next = body.take(i + 1 - start);
        proof {
            assert(body.len() == len - start);
            assert(taken_next.drop_last() =~= taken);
            assert(taken_next.last() == body[i - start]);
            assert(body[i - start] == s@[i as int]);
        }
        if d < 48 || d > 57 {
            proof {
                assert(c as int == d as int);
                assert(!is_ascii_digit(body[i - start]));
                assert(!all_digits(body));
            }
            return None;
        }
        proof {
            assert(c as int == d as int);
            assert(is_ascii_digit(body[i - start]));
            assert forall|k: int| 0 <= k < taken_next.len() implies is_ascii_digit(
                taken_next[k],
            ) by {
                if k < taken.len() {
                    assert(taken[k] == taken_next[k]);
                }
            }
        }
        let step = match val.checked_mul(10) {
            Some(x) => x.checked_add((d - 48) as u64),
            None => None,
        };
        match step {
            Some(x) => {
                val = x;
            },
            None => {
                proof {
                    assert(digits_value(taken_next) > u64::MAX);
                    if all_digits(body) {
                        lemma_digits_value_prefix_le(body, i + 1 - start);
                        assert(digits_value(body) > u64::MAX);
                    }
                }
                return None;
            },
        }
        i += 1;
    }
    proof {
        assert(body.take(body.len() as int) =~= body);
        assert(body.len() == len - start);
        assert(body.take(i - start) =~= body);
    }
    Some(val)
}

/// Parse `s` as a `u32`: an optional `+`, then decimal digits.
pub fn parse_u32(s: &str) -> (r: Option<u32>)
    ensures
        r == spec_parse_u32(s@),
{
    let ghost body = spec_number_body(s@);
    match parse_u64(s) {
        Some(v) => {
            proof {
                lemma_digits_value_nonneg(body);
            }
            if v <= 0xFFFF_FFFF {
                Some(v as u32)
            } else {
                None
            }
        },
        None => {
            proof {
                if body.len() > 0 && all_digits(body) && digits_value(body) <= u32::MAX {
                    assert(digits_value(body) <= u64::MAX);
                }
            }
            None
        },
    }
}

/// Whether `needle` occurs in `haystack` starting at position `at`.
pub open spec fn spec_occurs_at(haystack: Seq<char>, needle: Seq<char>, at: int) -> bool {
    &&& 0 <= at
    &&& at + needle.len() <= haystack.len()
    &&& haystack.subrange(at, at + needle.len()) == needle
}

/// Whether `needle` occurs anywhere in `haystack`.
pub open spec fn spec_contains_str(haystack: Seq<char>, needle: Seq<char>) -> bool {
    exists|at: int| spec_occurs_at(haystack, needle, at)
}

/// Whether `needle` occurs in `haystack` starting at position `at`.
fn occurs_at(haystack: &str, needle: &str, at: usize) -> (r: bool)
    requires
        at + needle@.len() <= haystack@.len(),
    ensures
        r == spec_occurs_at(haystack@, needle@, at as int),
{
    let hl = haystack.unicode_len();
    let nl = needle.unicode_len();
    let mut j: usize = 0;
    while j < nl
        invariant
            j <= nl,
            hl == haystack@.len(),
            nl == needle@.len(),
            at + nl <= haystack@.len(),
            forall|k: int| 0 <= k < j ==> haystack@[at + k] == needle@[k],
        decreases nl - j,
    {
        if haystack.get_char(at + j) != needle.get_char(j) {
            proof {
                if spec_occurs_at(haystack@, needle@, at as int) {
                    assert(haystack@.subrange(at as int, at + nl)[j as int] == needle@[j as int]);
                }
            }
            return false;
        }
        j += 1;
    }
    proof {
        assert(haystack@.subrange(at as int, at + nl) =~= needle@);
    }
    true
}

/// Whether `needle` occurs anywhere in `haystack`, as the standard
/// substring test has it; an empty needle occurs in every string.
pub fn contains_str(haystack: &str, needle: &str) -> (r: bool)
    ensures
        r == spec_contains_str(haystack@, needle@),
{
    let hl = haystack.unicode_len();
    let nl = needle.unicode_len();
    if nl > hl {
        proof {
            if spec_contains_str(haystack@, needle@) {
                let at = choose|at: int| spec_occurs_at(haystack@, needle@, at);
                assert(false);
            }
        }
        return false;
    }
    if nl == 0 {
        proof {
            assert(haystack@.subrange(0, 0) =~= needle@);
            assert(spec_occurs_at(haystack@, needle@, 0));
        }
        return true;
    }
    let mut i: usize = 0;
    while i <= hl - nl
        invariant
            1 <= nl <= hl,
            hl == haystack@.len(),
            nl == needle@.len(),
            i <= hl - nl + 1,
            forall|at: int| 0 <= at < i ==> !spec_occurs_at(haystack@, needle@, at),
        decreases hl - nl - i + 1,
    {
        if occurs_at(haystack, needle, i) {
            return true;
        }
        i += 1;
    }
    proof {
        assert(!spec_contains_str(haystack@, needle@)) by {
            if spec_contains_str(haystack@, needle@) {
                let at = choose|at: int| spec_occurs_at(haystack@, needle@, at);
                assert(at < i);
            }
        }
    }
    false
}

} // verus!
