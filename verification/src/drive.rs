//! Windows drive-letter handling: detecting a `X:` prefix, stripping it on
//! Posix, and transferring it (upper-cased) to the canonical text on
//! Windows.

use vstd::prelude::*;

use crate::chars::{is_slash, spec_is_slash};
use crate::platform::{Os, Platform};
use crate::strutil::{chars_of, string_of};
use vstd::string::StringExecFns;

verus! {

/// Is `c` an ASCII letter?
pub open spec fn spec_is_alpha(c: char) -> bool {
    ('a' <= c && c <= 'z') || ('A' <= c && c <= 'Z')
}

/// Exec twin of [`spec_is_alpha`].
pub fn is_alpha(c: char) -> (r: bool)
    ensures
        r == spec_is_alpha(c),
{
    ('a' <= c && c <= 'z') || ('A' <= c && c <= 'Z')
}

/// The ASCII upper-case form of a letter.
pub open spec fn spec_upper(c: char) -> char {
    if 'a' <= c && c <= 'z' {
        (((c as u8) - 32) as char)
    } else {
        c
    }
}

/// Exec twin of [`spec_upper`].
pub fn to_upper(c: char) -> (r: char)
    requires
        spec_is_alpha(c),
    ensures
        r == spec_upper(c),
{
    if 'a' <= c && c <= 'z' {
        ((c as u8) - 32) as char
    } else {
        c
    }
}

/// The ASCII lower-case form of a letter.
pub open spec fn spec_lower(c: char) -> char {
    if 'A' <= c && c <= 'Z' {
        (((c as u8) + 32) as char)
    } else {
        c
    }
}

/// Exec twin of [`spec_lower`].
pub fn to_lower(c: char) -> (r: char)
    requires
        spec_is_alpha(c),
    ensures
        r == spec_lower(c),
{
    if 'A' <= c && c <= 'Z' {
        ((c as u8) + 32) as char
    } else {
        c
    }
}

/// Does the text begin with a drive prefix: a letter followed by `:`?
pub open spec fn spec_has_drive(s: Seq<char>) -> bool {
    s.len() >= 2 && spec_is_alpha(s[0]) && s[1] == ':'
}

/// Exec twin of [`spec_has_drive`] on a character vector.
pub fn chars_have_drive(v: &Vec<char>) -> (r: bool)
    ensures
        r == spec_has_drive(v@),
{
    v.len() >= 2 && is_alpha(v[0]) && v[1] == ':'
}

/// Does the path string begin with a drive prefix?
pub fn has_drive(path: &str) -> (r: bool)
    ensures
        r == spec_has_drive(path@),
{
    let v = chars_of(path);
    chars_have_drive(&v)
}

/// The upper-cased drive letter of the path, when it has a drive prefix.
pub fn win_drive(path: &str) -> (r: Option<char>)
    ensures
        spec_has_drive(path@) ==> r == Some(spec_upper(path@[0])),
        !spec_has_drive(path@) ==> r is None,
{
    let v = chars_of(path);
    if chars_have_drive(&v) {
        Some(to_upper(v[0]))
    } else {
        None
    }
}

/// The drive letter the platform is currently on.
pub fn current_drive(plat: &Platform) -> (r: char)
    ensures
        r == plat.drive,
{
    plat.drive
}

/// What drive processing makes of the expanded text: the canonical drive
/// prefix (empty on Posix) and the text that remains for the resolver.
pub open spec fn spec_process_drive(os: Os, drive: char, s: Seq<char>) -> (Seq<char>, Seq<char>) {
    match os {
        Os::Posix => {
            if spec_has_drive(s) {
                (seq![], s.skip(2))
            } else {
                (seq![], s)
            }
        },
        Os::Windows => {
            if spec_has_drive(s) {
                (seq![spec_upper(s[0]), ':'], s.skip(2))
            } else {
                (seq![spec_upper(drive), ':'], s)
            }
        },
    }
}

/// The upper-case form of a letter is in the upper-case range.
pub proof fn lemma_upper_range(c: char)
    requires
        spec_is_alpha(c),
    ensures
        'A' <= spec_upper(c) && spec_upper(c) <= 'Z',
        !spec_is_slash(spec_upper(c)),
        spec_upper(c) != ':',
{
}

/// Split the expanded text into the canonical drive prefix and the rest.
pub fn process_drive(plat: &Platform, v: &Vec<char>) -> (r: (Vec<char>, Vec<char>))
    requires
        plat.wf(),
    ensures
        (r.0@, r.1@) == spec_process_drive(plat.os, plat.drive, v@),
{
    let stripped = if chars_have_drive(v) {
        crate::expand::sub_chars(v, 2, v.len())
    } else {
        crate::expand::sub_chars(v, 0, v.len())
    };
    proof {
        if spec_has_drive(v@) {
            assert(stripped@ =~= v@.skip(2));
        } else {
            assert(stripped@ =~= v@);
        }
    }
    match plat.os {
        Os::Posix => {
            let prefix: Vec<char> = Vec::new();
            (prefix, stripped)
        },
        Os::Windows => {
            let mut prefix: Vec<char> = Vec::new();
            if chars_have_drive(v) {
                prefix.push(to_upper(v[0]));
            } else {
                prefix.push(to_upper(plat.drive));
            }
            prefix.push(':');
            proof {
                if spec_has_drive(v@) {
                    assert(prefix@ =~= seq![spec_upper(v@[0]), ':']);
                } else {
                    assert(prefix@ =~= seq![spec_upper(plat.drive), ':']);
                }
            }
            (prefix, stripped)
        },
    }
}

/// A drive letter extracted from a raw path, or the mark that it had none.
pub enum Drive {
    Win(char),
    NoDrive,
}

impl Drive {
    /// A Windows drive letter, stored lower-cased.
    pub fn win(ch: char) -> (r: Drive)
        requires
            spec_is_alpha(ch),
        ensures
            r == Drive::Win(spec_lower(ch)),
    {
        Drive::Win(to_lower(ch))
    }

    /// Does this value mark the absence of a drive?
    pub fn is_empty(&self) -> (r: bool)
        ensures
            r == (*self is NoDrive),
    {
        match self {
            Drive::NoDrive => true,
            Drive::Win(_) => false,
        }
    }

    /// The text a drive prefix contributes on the given platform: the
    /// letter and separator on Windows, a bare separator elsewhere.
    pub fn display_string(&self, os: Os) -> (r: String)
        ensures
            match *self {
                Drive::NoDrive => r@ == Seq::<char>::empty(),
                Drive::Win(c) => match os {
                    Os::Windows => r@ == seq![c, ':', crate::platform::spec_sep(os)],
                    Os::Posix => r@ == seq![crate::platform::spec_sep(os)],
                },
            },
    {
        match self {
            Drive::NoDrive => String::new(),
            Drive::Win(c) => {
                let mut v: Vec<char> = Vec::new();
                match os {
                    Os::Windows => {
                        v.push(*c);
                        v.push(':');
                        v.push(crate::platform::sep_of(os));
                    },
                    Os::Posix => {
                        v.push(crate::platform::sep_of(os));
                    },
                }
                string_of(&v)
            },
        }
    }
}

/// What [`windows_drive`] yields for a raw path: the drive mark and the
/// text whose resolution continues. A `X:` prefix followed by a slash is an
/// absolute path on that drive; followed by more text it is relative to the
/// given current directory; alone it stands for the drive itself.
pub open spec fn spec_windows_drive(s: Seq<char>, cwd: Seq<char>) -> (Drive, Seq<char>) {
    if s.len() >= 2 && spec_is_alpha(s[0]) && s[1] == ':' {
        let d = Drive::Win(spec_lower(s[0]));
        if s.len() >= 3 && spec_is_slash(s[2]) {
            (d, s.skip(2))
        } else if s.len() >= 3 {
            (d, cwd + s.skip(2))
        } else {
            (d, seq![])
        }
    } else {
        (Drive::NoDrive, s)
    }
}

/// Extract a Windows drive prefix from a raw path, expanding a
/// drive-relative path against the given current directory.
pub fn windows_drive(path: &str, cwd: &str) -> (r: (Drive, String))
    ensures
        (r.0, r.1@) == spec_windows_drive(path@, cwd@),
{
    let v = chars_of(path);
    if v.len() >= 2 && is_alpha(v[0]) && v[1] == ':' {
        let d = Drive::win(v[0]);
        if v.len() >= 3 && is_slash(v[2]) {
            let rest = crate::expand::sub_chars(&v, 2, v.len());
            proof {
                assert(rest@ =~= v@.skip(2));
            }
            (d, string_of(&rest))
        } else if v.len() >= 3 {
            let mut out = chars_of(cwd);
            let ghost base = out@;
            let rest = crate::expand::sub_chars(&v, 2, v.len());
            proof {
                assert(rest@ =~= v@.skip(2));
            }
            let mut i: usize = 0;
            while i < rest.len()
                invariant
                    i <= rest@.len(),
                    out@ == base + rest@.take(i as int),
                decreases rest@.len() - i,
            {
                out.push(rest[i]);
                i = i + 1;
                proof {
                    assert(out@ =~= base + rest@.take(i as int));
                }
            }
            proof {
                assert(rest@.take(rest@.len() as int) =~= rest@);
            }
            (d, string_of(&out))
        } else {
            let empty: Vec<char> = Vec::new();
            (d, string_of(&empty))
        }
    } else {
        let s = String::from_str(path);
        (Drive::NoDrive, s)
    }
}

} // verus!
