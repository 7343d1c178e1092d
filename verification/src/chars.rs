//! Character and segment predicates: what counts as a separator, which
//! characters a segment may hold, and the 255-byte bound on a segment.

use vstd::prelude::*;

use crate::error::{PathError, SpecErr};
use crate::strutil::string_of;

verus! {

/// Both slash characters act as separators on input, on every platform.
pub open spec fn spec_is_slash(c: char) -> bool {
    c == '/' || c == '\\'
}

/// Exec twin of [`spec_is_slash`].
pub fn is_slash(c: char) -> (r: bool)
    ensures
        r == spec_is_slash(c),
{
    c == '/' || c == '\\'
}

/// ASCII control characters are never allowed in a segment.
pub open spec fn spec_is_control(c: char) -> bool {
    (c as u32) < 0x20 || (c as u32) == 0x7f
}

/// Characters forbidden in a path segment: ASCII control characters and `:`.
pub open spec fn spec_is_forbidden(c: char) -> bool {
    spec_is_control(c) || c == ':'
}

/// Exec twin of [`spec_is_forbidden`].
pub fn is_forbidden_in_path(c: char) -> (r: bool)
    ensures
        r == spec_is_forbidden(c),
{
    (c as u32) < 0x20 || (c as u32) == 0x7f || c == ':'
}

/// Characters allowed in an environment-variable name: ASCII upper case,
/// ASCII digits and `_`.
pub open spec fn spec_is_env_char(c: char) -> bool {
    ('A' <= c && c <= 'Z') || ('0' <= c && c <= '9') || c == '_'
}

/// Exec twin of [`spec_is_env_char`].
pub fn is_allowed_in_environment_var(c: char) -> (r: bool)
    ensures
        r == spec_is_env_char(c),
{
    ('A' <= c && c <= 'Z') || ('0' <= c && c <= '9') || c == '_'
}

/// How many bytes the UTF-8 encoding of one character takes.
pub open spec fn spec_char_len(c: char) -> nat {
    if (c as u32) < 0x80 { 1 } else if (c as u32) < 0x800 { 2 }
    else if (c as u32) < 0x10000 { 3 } else { 4 }
}

/// The UTF-8 byte length of a character sequence.
pub open spec fn spec_utf8_len(s: Seq<char>) -> nat
    decreases s.len(),
{
    if s.len() == 0 {
        0
    } else {
        spec_utf8_len(s.drop_last()) + spec_char_len(s.last())
    }
}

fn char_len(c: char) -> (r: u64)
    ensures
        r == spec_char_len(c),
{
    if (c as u32) < 0x80 { 1 } else if (c as u32) < 0x800 { 2 }
    else if (c as u32) < 0x10000 { 3 } else { 4 }
}

/// The UTF-8 byte length of `v`, saturating at `u64::MAX`.
pub open spec fn spec_utf8_len_sat(s: Seq<char>) -> u64 {
    if spec_utf8_len(s) > u64::MAX { u64::MAX } else { spec_utf8_len(s) as u64 }
}

/// Compute the UTF-8 byte length of `v`, saturating at `u64::MAX`.
pub fn utf8_len_of(v: &Vec<char>) -> (r: u64)
    ensures
        r == spec_utf8_len_sat(v@),
{
    let mut sum: u64 = 0;
    let mut i: usize = 0;
    while i < v.len()
        invariant
            i <= v@.len(),
            sum == spec_utf8_len_sat(v@.take(i as int)),
        decreases v@.len() - i,
    {
        let cl = char_len(v[i]);
        proof {
            assert(v@.take(i as int + 1).drop_last() =~= v@.take(i as int));
            assert(v@.take(i as int + 1).last() == v@[i as int]);
        }
        if u64::MAX - sum < cl {
            sum = u64::MAX;
        } else {
            sum = sum + cl;
        }
        i = i + 1;
    }
    proof {
        assert(v@.take(v@.len() as int) =~= v@);
    }
    sum
}

/// The index of the first forbidden character of `s`, or `s.len()` when
/// every character is allowed.
pub open spec fn spec_first_forbidden(s: Seq<char>) -> int
    decreases s.len(),
{
    if s.len() == 0 {
        0
    } else if spec_is_forbidden(s[0]) {
        0
    } else {
        1 + spec_first_forbidden(s.skip(1))
    }
}

pub proof fn lemma_first_forbidden(s: Seq<char>)
    ensures
        0 <= spec_first_forbidden(s) <= s.len(),
        forall|j: int| 0 <= j < spec_first_forbidden(s) ==> !spec_is_forbidden(s[j]),
        spec_first_forbidden(s) < s.len() ==> spec_is_forbidden(s[spec_first_forbidden(s)]),
    decreases s.len(),
{
    if s.len() > 0 && !spec_is_forbidden(s[0]) {
        lemma_first_forbidden(s.skip(1));
        assert forall|j: int| 0 <= j < spec_first_forbidden(s) implies !spec_is_forbidden(s[j]) by {
            if j > 0 {
                assert(s[j] == s.skip(1)[j - 1]);
            }
        }
    }
}

/// A segment is valid when it stays within 255 bytes and holds no
/// forbidden character.
pub open spec fn spec_valid_segment(s: Seq<char>) -> bool {
    spec_utf8_len(s) <= 255 && forall|i: int| 0 <= i < s.len() ==> !spec_is_forbidden(s[i])
}

/// The error that segment validation raises on `s`, when any: the length
/// bound is checked first, then the first forbidden character decides
/// between the control-character error and the plain one.
pub open spec fn spec_check_segment(s: Seq<char>) -> Option<SpecErr> {
    if spec_utf8_len(s) > 255 {
        Some(SpecErr::TooLong { segment: s, len: spec_utf8_len_sat(s) })
    } else if spec_first_forbidden(s) < s.len() {
        let c = s[spec_first_forbidden(s)];
        if spec_is_control(c) {
            Some(SpecErr::Control { segment: s, code: c as u32 })
        } else {
            Some(SpecErr::Char { segment: s, ch: c })
        }
    } else {
        None
    }
}

/// Segment validation succeeds exactly on valid segments.
pub proof fn lemma_check_none_iff_valid(s: Seq<char>)
    ensures
        spec_check_segment(s) is None <==> spec_valid_segment(s),
{
    lemma_first_forbidden(s);
    if spec_valid_segment(s) {
        if spec_first_forbidden(s) < s.len() {
            assert(spec_is_forbidden(s[spec_first_forbidden(s)]));
        }
    }
}

/// Validate one path segment: at most 255 bytes, no forbidden character.
pub fn check_segment(seg: &Vec<char>) -> (r: Result<(), PathError>)
    ensures
        r is Ok <==> spec_check_segment(seg@) is None,
        r is Ok <==> spec_valid_segment(seg@),
        r matches Err(e) ==> crate::error::err_matches(e, spec_check_segment(seg@).unwrap()),
{
    proof {
        lemma_first_forbidden(seg@);
    }
    let len = utf8_len_of(seg);
    if len > 255 {
        return Err(PathError::SegmentTooLong { segment: string_of(seg), len });
    }
    let mut i: usize = 0;
    while i < seg.len()
        invariant
            i <= seg@.len(),
            spec_utf8_len(seg@) <= 255,
            forall|j: int| 0 <= j < i ==> !spec_is_forbidden(seg@[j]),
            spec_first_forbidden(seg@) >= i,
        decreases seg@.len() - i,
    {
        let c = seg[i];
        if is_forbidden_in_path(c) {
            proof {
                lemma_first_forbidden(seg@);
                assert(spec_first_forbidden(seg@) == i);
            }
            if (c as u32) < 0x20 || (c as u32) == 0x7f {
                return Err(PathError::SegmentForbiddenControl {
                    segment: string_of(seg),
                    code: c as u32,
                });
            } else {
                return Err(PathError::SegmentForbiddenChar {
                    segment: string_of(seg),
                    ch: c,
                });
            }
        }
        i = i + 1;
        proof {
            lemma_first_forbidden_step(seg@, i as int);
        }
    }
    Ok(())
}

proof fn lemma_first_forbidden_step(s: Seq<char>, i: int)
    requires
        0 <= i <= s.len(),
        forall|j: int| 0 <= j < i ==> !spec_is_forbidden(s[j]),
    ensures
        spec_first_forbidden(s) >= i,
{
    lemma_first_forbidden(s);
    if spec_first_forbidden(s) < i {
        assert(spec_is_forbidden(s[spec_first_forbidden(s)]));
    }
}

} // verus!
