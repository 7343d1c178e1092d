//! The error taxonomy of the crate.
//!
//! Every failure of a path operation is one of these variants; `message`
//! renders the human-readable text, which always carries the offending
//! path or segment.

use vstd::prelude::*;
use vstd::string::StringExecFns;

use crate::strutil::push_char;

verus! {

/// Everything that can go wrong while parsing or manipulating a path.
#[derive(Debug)]
pub enum PathError {
    /// A native path could not be decoded as UTF-8.
    NonUtf8Path { path: String },
    /// A segment exceeds 255 bytes.
    SegmentTooLong { segment: String, len: u64 },
    /// A segment contains an ASCII control character.
    SegmentForbiddenControl { segment: String, code: u32 },
    /// A segment contains another forbidden character.
    SegmentForbiddenChar { segment: String, ch: char },
    /// An empty filename was handed to a setter.
    EmptyFilename,
    /// A filename handed to a setter contains a separator.
    FilenameHasSeparator { name: String },
    /// An empty file stem was handed to a setter.
    EmptyFileStem,
    /// A guard demanded an absolute path.
    NotAbsolute { path: String },
    /// A guard demanded a relative path.
    NotRelative { path: String },
    /// A guard demanded a file path.
    NotFile { path: String },
    /// A guard demanded a folder path.
    NotFolder { path: String },
    /// The input held `${}` or `%%`.
    EnvVarEmpty { path: String },
    /// An environment variable was not defined.
    EnvVarUndefined { name: String },
    /// The home directory capability is unavailable.
    HomeUnresolvable,
    /// The current-directory capability is unavailable.
    CwdUnresolvable,
    /// A filesystem probe found nothing at the path.
    DoesNotExist { path: String },
    /// A filesystem probe found the path but it is not a file.
    NotAFile { path: String },
    /// A filesystem probe found the path but it is not a folder.
    NotAFolder { path: String },
}

/// The spec-level image of the errors that the parsing pipeline can raise.
/// Contracts state which of these a stage produces; `err_matches` ties the
/// image to the executable `PathError` value actually returned.
pub ghost enum SpecErr {
    TooLong { segment: Seq<char>, len: u64 },
    Control { segment: Seq<char>, code: u32 },
    Char { segment: Seq<char>, ch: char },
    EnvEmpty { path: Seq<char> },
    EnvUndef { name: Seq<char> },
    Home,
    Cwd,
}

/// Does the executable error `e` carry exactly the data of the spec-level
/// error `t`?
pub open spec fn err_matches(e: PathError, t: SpecErr) -> bool {
    match t {
        SpecErr::TooLong { segment, len } =>
            e matches PathError::SegmentTooLong { segment: s, len: l }
                && s@ == segment && l == len,
        SpecErr::Control { segment, code } =>
            e matches PathError::SegmentForbiddenControl { segment: s, code: c }
                && s@ == segment && c == code,
        SpecErr::Char { segment, ch } =>
            e matches PathError::SegmentForbiddenChar { segment: s, ch: c }
                && s@ == segment && c == ch,
        SpecErr::EnvEmpty { path } =>
            e matches PathError::EnvVarEmpty { path: p } && p@ == path,
        SpecErr::EnvUndef { name } =>
            e matches PathError::EnvVarUndefined { name: n } && n@ == name,
        SpecErr::Home => e is HomeUnresolvable,
        SpecErr::Cwd => e is CwdUnresolvable,
    }
}

/// The decimal digit characters.
pub open spec fn spec_digit_char(d: nat) -> char {
    if d == 0 { '0' } else if d == 1 { '1' } else if d == 2 { '2' }
    else if d == 3 { '3' } else if d == 4 { '4' } else if d == 5 { '5' }
    else if d == 6 { '6' } else if d == 7 { '7' } else if d == 8 { '8' }
    else if d == 9 { '9' } else if d == 10 { 'a' } else if d == 11 { 'b' }
    else if d == 12 { 'c' } else if d == 13 { 'd' } else if d == 14 { 'e' }
    else { 'f' }
}

/// The decimal rendering of a number, most significant digit first.
pub open spec fn spec_dec(n: nat) -> Seq<char>
    decreases n,
{
    if n < 10 {
        seq![spec_digit_char(n)]
    } else {
        spec_dec(n / 10).push(spec_digit_char(n % 10))
    }
}

/// The lower-case hexadecimal rendering of a number, without a prefix.
pub open spec fn spec_hex(n: nat) -> Seq<char>
    decreases n,
{
    if n < 16 {
        seq![spec_digit_char(n)]
    } else {
        spec_hex(n / 16).push(spec_digit_char(n % 16))
    }
}

fn digit(d: u64) -> (r: char)
    requires
        d < 16,
    ensures
        r == spec_digit_char(d as nat),
{
    if d == 0 { '0' } else if d == 1 { '1' } else if d == 2 { '2' }
    else if d == 3 { '3' } else if d == 4 { '4' } else if d == 5 { '5' }
    else if d == 6 { '6' } else if d == 7 { '7' } else if d == 8 { '8' }
    else if d == 9 { '9' } else if d == 10 { 'a' } else if d == 11 { 'b' }
    else if d == 12 { 'c' } else if d == 13 { 'd' } else if d == 14 { 'e' }
    else { 'f' }
}

/// Append the decimal rendering of `n` to `out`.
pub fn append_dec(out: &mut String, n: u64)
    ensures
        final(out)@ == old(out)@ + spec_dec(n as nat),
    decreases n,
{
    if n < 10 {
        push_char(out, digit(n));
    } else {
        append_dec(out, n / 10);
        push_char(out, digit(n % 10));
        proof {
            assert(out@ =~= old(out)@ + spec_dec(n as nat));
        }
    }
}

/// Append the hexadecimal rendering of `n` to `out`.
pub fn append_hex(out: &mut String, n: u32)
    ensures
        final(out)@ == old(out)@ + spec_hex(n as nat),
    decreases n,
{
    if n < 16 {
        push_char(out, digit(n as u64));
    } else {
        append_hex(out, n / 16);
        push_char(out, digit((n % 16) as u64));
        proof {
            assert(out@ =~= old(out)@ + spec_hex(n as nat));
        }
    }
}

/// The text that `message` produces for each error.
pub open spec fn spec_message(e: PathError) -> Seq<char> {
    match e {
        PathError::NonUtf8Path { path } => "non UTF-8 characters in path: "@ + path@,
        PathError::SegmentTooLong { segment, len } =>
            "path components can have a maximum length of 255 characters but was "@
                + spec_dec(len as nat) + ": "@ + segment@,
        PathError::SegmentForbiddenControl { segment, code } =>
            "forbidden ascii control character 0x"@ + spec_hex(code as nat)
                + " in path segment: "@ + segment@,
        PathError::SegmentForbiddenChar { segment, ch } =>
            "forbidden ascii character "@ + seq![ch] + " in path segment: "@ + segment@,
        PathError::EmptyFilename => "An empty filename is not valid"@,
        PathError::FilenameHasSeparator { name } =>
            "A file name cannot contain slashes: "@ + name@,
        PathError::EmptyFileStem => "An empty file stem is not valid"@,
        PathError::NotAbsolute { path } =>
            "path is not absolute (it should start with a slash): "@ + path@,
        PathError::NotRelative { path } =>
            "path is not relative (it should not start with a slash): "@ + path@,
        PathError::NotFile { path } =>
            "path is not a file (it should not end with a slash): "@ + path@,
        PathError::NotFolder { path } =>
            "path is not a folder (it doesn't end with a slash): "@ + path@,
        PathError::EnvVarEmpty { path } =>
            "empty environment variable in path: "@ + path@,
        PathError::EnvVarUndefined { name } =>
            "environment variable '"@ + name@ + "' is not defined"@,
        PathError::HomeUnresolvable =>
            "could not resolve the user's home directory"@,
        PathError::CwdUnresolvable =>
            "could not resolve the current working directory"@,
        PathError::DoesNotExist { path } => "path doesn't exist: "@ + path@,
        PathError::NotAFile { path } => "not a file: "@ + path@,
        PathError::NotAFolder { path } => "not a folder: "@ + path@,
    }
}

impl PathError {
    /// Render the human-readable message for this error.
    pub fn message(&self) -> (r: String)
        ensures
            r@ == spec_message(*self),
    {
        match self {
            PathError::NonUtf8Path { path } => {
                let mut out = String::from_str("non UTF-8 characters in path: ");
                out.append(path.as_str());
                out
            },
            PathError::SegmentTooLong { segment, len } => {
                let mut out = String::from_str(
                    "path components can have a maximum length of 255 characters but was ",
                );
                append_dec(&mut out, *len);
                out.append(": ");
                out.append(segment.as_str());
                proof {
                    assert(out@ =~= spec_message(*self));
                }
                out
            },
            PathError::SegmentForbiddenControl { segment, code } => {
                let mut out = String::from_str("forbidden ascii control character 0x");
                append_hex(&mut out, *code);
                out.append(" in path segment: ");
                out.append(segment.as_str());
                proof {
                    assert(out@ =~= spec_message(*self));
                }
                out
            },
            PathError::SegmentForbiddenChar { segment, ch } => {
                let mut out = String::from_str("forbidden ascii character ");
                push_char(&mut out, *ch);
                out.append(" in path segment: ");
                out.append(segment.as_str());
                proof {
                    assert(out@ =~= spec_message(*self));
                }
                out
            },
            PathError::EmptyFilename => String::from_str("An empty filename is not valid"),
            PathError::FilenameHasSeparator { name } => {
                let mut out = String::from_str("A file name cannot contain slashes: ");
                out.append(name.as_str());
                out
            },
            PathError::EmptyFileStem => String::from_str("An empty file stem is not valid"),
            PathError::NotAbsolute { path } => {
                let mut out = String::from_str(
                    "path is not absolute (it should start with a slash): ",
                );
                out.append(path.as_str());
                out
            },
            PathError::NotRelative { path } => {
                let mut out = String::from_str(
                    "path is not relative (it should not start with a slash): ",
                );
                out.append(path.as_str());
                out
            },
            PathError::NotFile { path } => {
                let mut out = String::from_str(
                    "path is not a file (it should not end with a slash): ",
                );
                out.append(path.as_str());
                out
            },
            PathError::NotFolder { path } => {
                let mut out = String::from_str(
                    "path is not a folder (it doesn't end with a slash): ",
                );
                out.append(path.as_str());
                out
            },
            PathError::EnvVarEmpty { path } => {
                let mut out = String::from_str("empty environment variable in path: ");
                out.append(path.as_str());
                out
            },
            PathError::EnvVarUndefined { name } => {
                let mut out = String::from_str("environment variable '");
                out.append(name.as_str());
                out.append("' is not defined");
                proof {
                    assert(out@ =~= spec_message(*self));
                }
                out
            },
            PathError::HomeUnresolvable => {
                String::from_str("could not resolve the user's home directory")
            },
            PathError::CwdUnresolvable => {
                String::from_str("could not resolve the current working directory")
            },
            PathError::DoesNotExist { path } => {
                let mut out = String::from_str("path doesn't exist: ");
                out.append(path.as_str());
                out
            },
            PathError::NotAFile { path } => {
                let mut out = String::from_str("not a file: ");
                out.append(path.as_str());
                out
            },
            PathError::NotAFolder { path } => {
                let mut out = String::from_str("not a folder: ");
                out.append(path.as_str());
                out
            },
        }
    }
}

} // verus!
