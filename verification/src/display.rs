//! Rendering a canonical path for people: the contracted form replaces a
//! leading home- or current-directory prefix with `~` or `.`; the debug
//! form additionally strips a Windows drive and always uses `/`.

use vstd::prelude::*;

use crate::chars::{is_slash, spec_is_slash};
use crate::drive::spec_has_drive;
use crate::error::PathError;
use crate::expand::sub_chars;
use crate::inner::{spec_is_absolute, spec_is_folder, PathInner};
use crate::platform::{sep_of, spec_sep, Platform};
use crate::strutil::{append_chars, chars_of, string_of};

verus! {

/// Strip `start` off the front of `path`, and one following separator, if
/// `path` begins with `start`.
pub open spec fn spec_remove_abs_start(path: Seq<char>, start: Seq<char>, sep: char) -> Option<
    Seq<char>,
> {
    if path.len() >= start.len() && path.take(start.len() as int) == start {
        if path.len() > start.len() && path[start.len() as int] == sep {
            Some(path.skip(start.len() as int + 1))
        } else {
            Some(path.skip(start.len() as int))
        }
    } else {
        None
    }
}

/// The contracted form of an absolute text: the shorter of the home- and
/// cwd-relative tails, marked with `~` or `.`; the text itself when neither
/// prefix matches or a capability is missing.
pub open spec fn spec_contract(plat: Platform, text: Seq<char>) -> (Option<char>, Seq<char>) {
    match (plat.home, plat.cwd) {
        (Some(h), Some(c)) => {
            let hr = spec_remove_abs_start(text, h@, spec_sep(plat.os));
            let cr = spec_remove_abs_start(text, c@, spec_sep(plat.os));
            match (hr, cr) {
                (Some(ht), Some(ct)) => {
                    if ht.len() < ct.len() {
                        (Some('~'), ht)
                    } else {
                        (Some('.'), ct)
                    }
                },
                (Some(ht), None) => (Some('~'), ht),
                (None, Some(ct)) => (Some('.'), ct),
                (None, None) => (None, text),
            }
        },
        _ => (None, text),
    }
}

/// The contraction applied only to absolute paths, and only on demand.
pub open spec fn spec_as_contracted(plat: Platform, text: Seq<char>, do_contract: bool) -> (
    Option<char>,
    Seq<char>,
) {
    if do_contract && spec_is_absolute(text, plat.os) {
        spec_contract(plat, text)
    } else {
        (None, text)
    }
}

/// The human-facing rendering: the contraction mark and its separator,
/// then the tail, in platform-native separators.
pub open spec fn spec_display(plat: Platform, text: Seq<char>, do_contract: bool) -> Seq<char> {
    let (chr, tail) = spec_as_contracted(plat, text, do_contract);
    match chr {
        Some(c) => seq![c, spec_sep(plat.os)] + tail,
        None => tail,
    }
}

/// Every backslash replaced by a forward slash.
pub open spec fn spec_map_slash(s: Seq<char>) -> Seq<char> {
    s.map_values(|c: char| if c == '\\' { '/' } else { c })
}

/// The text without a leading drive prefix.
pub open spec fn spec_strip_drive(s: Seq<char>) -> Seq<char> {
    if spec_has_drive(s) {
        s.skip(2)
    } else {
        s
    }
}

/// The test-friendly rendering: contracted on demand, drive stripped,
/// slashes normalized to `/`, and the contraction mark written `~/` or
/// `./`.
pub open spec fn spec_debug(plat: Platform, text: Seq<char>, do_contract: bool) -> Seq<char> {
    let (chr, tail) = spec_as_contracted(plat, text, do_contract);
    let t2 = spec_map_slash(spec_strip_drive(tail));
    match chr {
        Some(c) => seq![c, '/'] + t2,
        None => t2,
    }
}

/// Match `start` at the front of `v` and cut it off, with one following
/// separator.
fn remove_abs_start(v: &Vec<char>, start: &str, sep: char) -> (r: Option<Vec<char>>)
    ensures
        match r {
            Some(t) => spec_remove_abs_start(v@, start@, sep) == Some(t@),
            None => spec_remove_abs_start(v@, start@, sep) is None,
        },
{
    let sv = chars_of(start);
    if sv.len() > v.len() {
        return None;
    }
    let mut i: usize = 0;
    while i < sv.len()
        invariant
            sv@.len() <= v@.len(),
            i <= sv@.len(),
            sv@ == start@,
            forall|m: int| 0 <= m < i ==> v@[m] == sv@[m],
        decreases sv@.len() - i,
    {
        if v[i] != sv[i] {
            proof {
                assert(v@.take(start@.len() as int)[i as int] == v@[i as int]);
            }
            return None;
        }
        i = i + 1;
    }
    proof {
        assert(v@.take(start@.len() as int) =~= start@);
    }
    let pos = if sv.len() < v.len() && v[sv.len()] == sep {
        sv.len() + 1
    } else {
        sv.len()
    };
    let tail = sub_chars(v, pos, v.len());
    proof {
        assert(tail@ =~= v@.skip(pos as int));
    }
    Some(tail)
}

impl PathInner {
    /// The contraction of this path under the platform's home and cwd.
    pub fn as_contracted(&self, plat: &Platform, do_contract: bool) -> (r: (Option<char>, Vec<
        char,
    >))
        requires
            plat.os == self.os,
        ensures
            (r.0, r.1@) == spec_as_contracted(*plat, self.path@, do_contract),
    {
        let v = chars_of(self.path.as_str());
        if !(do_contract && self.is_absolute()) {
            return (None, v);
        }
        let sep = sep_of(plat.os);
        match (&plat.home, &plat.cwd) {
            (Some(h), Some(c)) => {
                let hr = remove_abs_start(&v, h.as_str(), sep);
                let cr = remove_abs_start(&v, c.as_str(), sep);
                match (hr, cr) {
                    (Some(ht), Some(ct)) => {
                        if ht.len() < ct.len() {
                            (Some('~'), ht)
                        } else {
                            (Some('.'), ct)
                        }
                    },
                    (Some(ht), None) => (Some('~'), ht),
                    (None, Some(ct)) => (Some('.'), ct),
                    (None, None) => (None, v),
                }
            },
            _ => (None, v),
        }
    }

    /// The display rendering: contracted, platform-native separators.
    pub fn display_string(&self, plat: &Platform) -> (r: String)
        requires
            plat.os == self.os,
        ensures
            r@ == spec_display(*plat, self.path@, true),
    {
        let (chr, tail) = self.as_contracted(plat, true);
        match chr {
            Some(c) => {
                let mut out: Vec<char> = Vec::new();
                out.push(c);
                out.push(sep_of(plat.os));
                append_chars(&mut out, &tail);
                proof {
                    assert(out@ =~= seq![c, spec_sep(plat.os)] + tail@);
                }
                string_of(&out)
            },
            None => string_of(&tail),
        }
    }

    /// The alternate display rendering: the full canonical text.
    pub fn display_alt_string(&self) -> (r: String)
        ensures
            r@ == self.path@,
    {
        self.path.clone()
    }

    /// The debug rendering: contracted, drive stripped, `/` separators.
    pub fn debug_string(&self, plat: &Platform) -> (r: String)
        requires
            plat.os == self.os,
        ensures
            r@ == spec_debug(*plat, self.path@, true),
    {
        let (chr, tail) = self.as_contracted(plat, true);
        let t2 = strip_and_map(&tail);
        match chr {
            Some(c) => {
                let mut out: Vec<char> = Vec::new();
                out.push(c);
                out.push('/');
                append_chars(&mut out, &t2);
                proof {
                    assert(out@ =~= seq![c, '/'] + t2@);
                }
                string_of(&out)
            },
            None => string_of(&t2),
        }
    }

    /// The alternate debug rendering: the full text, drive stripped, `/`
    /// separators, without contraction.
    pub fn debug_alt_string(&self) -> (r: String)
        ensures
            r@ == spec_map_slash(spec_strip_drive(self.path@)),
    {
        let v = chars_of(self.path.as_str());
        let t2 = strip_and_map(&v);
        string_of(&t2)
    }

    /// Fail unless the path is absolute; the message carries the
    /// contracted display form.
    pub fn ensure_absolute(&self, plat: &Platform) -> (r: Result<(), PathError>)
        requires
            plat.os == self.os,
        ensures
            r is Ok <==> spec_is_absolute(self.path@, self.os),
            r matches Err(e) ==> (e matches PathError::NotAbsolute { path: p } && p@
                == spec_display(*plat, self.path@, true)),
    {
        if self.is_absolute() {
            Ok(())
        } else {
            Err(PathError::NotAbsolute { path: self.display_string(plat) })
        }
    }

    /// Fail unless the path is relative.
    pub fn ensure_relative(&self, plat: &Platform) -> (r: Result<(), PathError>)
        requires
            plat.os == self.os,
        ensures
            r is Ok <==> !spec_is_absolute(self.path@, self.os),
            r matches Err(e) ==> (e matches PathError::NotRelative { path: p } && p@
                == spec_display(*plat, self.path@, true)),
    {
        if self.is_absolute() {
            Err(PathError::NotRelative { path: self.display_string(plat) })
        } else {
            Ok(())
        }
    }

    /// Fail unless the path denotes a file.
    pub fn ensure_file(&self, plat: &Platform) -> (r: Result<(), PathError>)
        requires
            plat.os == self.os,
        ensures
            r is Ok <==> !spec_is_folder(self.path@),
            r matches Err(e) ==> (e matches PathError::NotFile { path: p } && p@ == spec_display(
                *plat,
                self.path@,
                true,
            )),
    {
        if self.is_folder() {
            Err(PathError::NotFile { path: self.display_string(plat) })
        } else {
            Ok(())
        }
    }

    /// Fail unless the path denotes a folder.
    pub fn ensure_folder(&self, plat: &Platform) -> (r: Result<(), PathError>)
        requires
            plat.os == self.os,
        ensures
            r is Ok <==> spec_is_folder(self.path@),
            r matches Err(e) ==> (e matches PathError::NotFolder { path: p } && p@
                == spec_display(*plat, self.path@, true)),
    {
        if self.is_folder() {
            Ok(())
        } else {
            Err(PathError::NotFolder { path: self.display_string(plat) })
        }
    }
}

/// Strip a drive prefix and map backslashes to forward slashes.
fn strip_and_map(v: &Vec<char>) -> (r: Vec<char>)
    ensures
        r@ == spec_map_slash(spec_strip_drive(v@)),
{
    let stripped = if crate::drive::chars_have_drive(v) {
        sub_chars(v, 2, v.len())
    } else {
        sub_chars(v, 0, v.len())
    };
    proof {
        if spec_has_drive(v@) {
            assert(stripped@ =~= v@.skip(2));
        } else {
            assert(stripped@ =~= v@);
        }
    }
    let ghost sv = stripped@;
    let mut out: Vec<char> = Vec::new();
    let mut i: usize = 0;
    while i < stripped.len()
        invariant
            i <= sv.len(),
            sv == stripped@,
            out@ == spec_map_slash(sv.take(i as int)),
        decreases sv.len() - i,
    {
        let c = stripped[i];
        if c == '\\' {
            out.push('/');
        } else {
            out.push(c);
        }
        i = i + 1;
        proof {
            assert(out@ =~= spec_map_slash(sv.take(i as int)));
        }
    }
    proof {
        assert(sv.take(sv.len() as int) =~= sv);
    }
    out
}

} // verus!
