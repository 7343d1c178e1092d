//! The typed path lattice: nine wrapper types over the canonical path
//! value, split by absolute vs. relative and folder vs. file. Construction
//! runs the parser and the guards of the type; conversions move along the
//! legal edges of the lattice; narrowing inspects the value and delivers a
//! tagged variant.

use vstd::prelude::*;

use crate::display::{spec_debug, spec_display};
use crate::error::{err_matches, PathError, SpecErr};
use crate::inner::{spec_is_absolute, spec_is_folder, spec_new, PathInner};
use crate::platform::Platform;
use crate::segiter::Segments;
use crate::strutil::append_chars;
use vstd::string::StringExecFns;

verus! {

/// Append `body` and a closing parenthesis to `name`: the wrapped debug
/// form of a path type.
pub fn wrap_name(name: &str, body: &String) -> (r: String)
    ensures
        r@ == name@ + body@ + seq![')'],
{
    let mut out = String::from_str(name);
    out.append(body.as_str());
    out.append(")");
    proof {
        assert(")"@ =~= seq![')']) by {
            reveal_strlit(")");
        }
        assert(out@ =~= name@ + body@ + seq![')']);
    }
    out
}

/// A narrowing result: which concrete corner of the lattice a path
/// belongs to.
pub enum ConcretePath {
    AbsFolder(AbsoluteFolderPath),
    RelFolder(RelativeFolderPath),
    AbsFile(AbsoluteFilePath),
    RelFile(RelativeFilePath),
}

/// A path of the `AbsoluteFolderPath` corner of the lattice.
#[derive(Clone, Debug)]
pub struct AbsoluteFolderPath(pub PathInner);

/// A path of the `AbsoluteFilePath` corner of the lattice.
#[derive(Clone, Debug)]
pub struct AbsoluteFilePath(pub PathInner);

/// A path of the `AbsolutePath` corner of the lattice.
#[derive(Clone, Debug)]
pub struct AbsolutePath(pub PathInner);

/// A path of the `RelativeFolderPath` corner of the lattice.
#[derive(Clone, Debug)]
pub struct RelativeFolderPath(pub PathInner);

/// A path of the `RelativeFilePath` corner of the lattice.
#[derive(Clone, Debug)]
pub struct RelativeFilePath(pub PathInner);

/// A path of the `RelativePath` corner of the lattice.
#[derive(Clone, Debug)]
pub struct RelativePath(pub PathInner);

/// A path of the `AnyFolderPath` corner of the lattice.
#[derive(Clone, Debug)]
pub struct AnyFolderPath(pub PathInner);

/// A path of the `AnyFilePath` corner of the lattice.
#[derive(Clone, Debug)]
pub struct AnyFilePath(pub PathInner);

/// A path of the `AnyPath` corner of the lattice.
#[derive(Clone, Debug)]
pub struct AnyPath(pub PathInner);

impl AbsoluteFolderPath {
    /// Parse a raw path and demand the kind this type stands for.
    pub fn new(plat: &Platform, path: &str) -> (r: Result<AbsoluteFolderPath, PathError>)
        requires
            plat.wf(),
        ensures
            r matches Ok(p) ==> Ok::<Seq<char>, SpecErr>(p.0.path@) == spec_new(*plat, path@)
                && p.0.os == plat.os && p.0.strong(),
            r is Ok <==> (spec_new(*plat, path@) matches Ok(t) && spec_is_absolute(t, plat.os) && spec_is_folder(t)),
            r matches Err(e) ==> match spec_new(*plat, path@) {
                Err(t) => err_matches(e, t),
                Ok(t) =>
                    (!(spec_is_absolute(t, plat.os)) ==> e is NotAbsolute) &&
                    (spec_is_absolute(t, plat.os) && !(spec_is_folder(t)) ==> e is NotFolder),
            },
    {
        let inner = match PathInner::new(plat, path) {
            Ok(p) => p,
            Err(e) => {
                return Err(e);
            },
        };
        match inner.ensure_absolute(plat) {
            Ok(()) => {},
            Err(e) => {
                return Err(e);
            },
        }
        match inner.ensure_folder(plat) {
            Ok(()) => {},
            Err(e) => {
                return Err(e);
            },
        }
        Ok(AbsoluteFolderPath(inner))
    }

    /// The canonical text.
    pub fn as_str(&self) -> (r: &str)
        ensures
            r@ == self.0.path@,
    {
        self.0.as_str()
    }

    /// A cursor over the segments of the relative portion.
    pub fn segments(&self) -> (r: Segments)
        ensures
            crate::segiter::str_views(r.parts@) == crate::resolve::drop_empty(
                crate::inner::spec_segments(self.0.path@, self.0.os),
            ),
            r.cursor() == -1,
            r.wf(),
    {
        self.0.segments()
    }

    /// The wrapped contracted debug form.
    pub fn debug_string(&self, plat: &Platform) -> (r: String)
        requires
            plat.os == self.0.os,
        ensures
            r@ == "AbsoluteFolderPath("@ + spec_debug(*plat, self.0.path@, true) + seq![')'],
    {
        let body = self.0.debug_string(plat);
        wrap_name("AbsoluteFolderPath(", &body)
    }

    /// The wrapped uncontracted debug form.
    pub fn debug_alt_string(&self) -> (r: String)
        ensures
            r@ == "AbsoluteFolderPath("@ + crate::display::spec_map_slash(
                crate::display::spec_strip_drive(self.0.path@),
            ) + seq![')'],
    {
        let body = self.0.debug_alt_string();
        wrap_name("AbsoluteFolderPath(", &body)
    }

    /// The contracted display form.
    pub fn display_string(&self, plat: &Platform) -> (r: String)
        requires
            plat.os == self.0.os,
        ensures
            r@ == spec_display(*plat, self.0.path@, true),
    {
        self.0.display_string(plat)
    }
}

impl AbsoluteFilePath {
    /// Parse a raw path and demand the kind this type stands for.
    pub fn new(plat: &Platform, path: &str) -> (r: Result<AbsoluteFilePath, PathError>)
        requires
            plat.wf(),
        ensures
            r matches Ok(p) ==> Ok::<Seq<char>, SpecErr>(p.0.path@) == spec_new(*plat, path@)
                && p.0.os == plat.os && p.0.strong(),
            r is Ok <==> (spec_new(*plat, path@) matches Ok(t) && spec_is_absolute(t, plat.os) && !spec_is_folder(t)),
            r matches Err(e) ==> match spec_new(*plat, path@) {
                Err(t) => err_matches(e, t),
                Ok(t) =>
                    (!(spec_is_absolute(t, plat.os)) ==> e is NotAbsolute) &&
                    (spec_is_absolute(t, plat.os) && !(!spec_is_folder(t)) ==> e is NotFile),
            },
    {
        let inner = match PathInner::new(plat, path) {
            Ok(p) => p,
            Err(e) => {
                return Err(e);
            },
        };
        match inner.ensure_absolute(plat) {
            Ok(()) => {},
            Err(e) => {
                return Err(e);
            },
        }
        match inner.ensure_file(plat) {
            Ok(()) => {},
            Err(e) => {
                return Err(e);
            },
        }
        Ok(AbsoluteFilePath(inner))
    }

    /// The canonical text.
    pub fn as_str(&self) -> (r: &str)
        ensures
            r@ == self.0.path@,
    {
        self.0.as_str()
    }

    /// A cursor over the segments of the relative portion.
    pub fn segments(&self) -> (r: Segments)
        ensures
            crate::segiter::str_views(r.parts@) == crate::resolve::drop_empty(
                crate::inner::spec_segments(self.0.path@, self.0.os),
            ),
            r.cursor() == -1,
            r.wf(),
    {
        self.0.segments()
    }

    /// The wrapped contracted debug form.
    pub fn debug_string(&self, plat: &Platform) -> (r: String)
        requires
            plat.os == self.0.os,
        ensures
            r@ == "AbsoluteFilePath("@ + spec_debug(*plat, self.0.path@, true) + seq![')'],
    {
        let body = self.0.debug_string(plat);
        wrap_name("AbsoluteFilePath(", &body)
    }

    /// The wrapped uncontracted debug form.
    pub fn debug_alt_string(&self) -> (r: String)
        ensures
            r@ == "AbsoluteFilePath("@ + crate::display::spec_map_slash(
                crate::display::spec_strip_drive(self.0.path@),
            ) + seq![')'],
    {
        let body = self.0.debug_alt_string();
        wrap_name("AbsoluteFilePath(", &body)
    }

    /// The contracted display form.
    pub fn display_string(&self, plat: &Platform) -> (r: String)
        requires
            plat.os == self.0.os,
        ensures
            r@ == spec_display(*plat, self.0.path@, true),
    {
        self.0.display_string(plat)
    }
}

impl AbsolutePath {
    /// Parse a raw path and demand the kind this type stands for.
    pub fn new(plat: &Platform, path: &str) -> (r: Result<AbsolutePath, PathError>)
        requires
            plat.wf(),
        ensures
            r matches Ok(p) ==> Ok::<Seq<char>, SpecErr>(p.0.path@) == spec_new(*plat, path@)
                && p.0.os == plat.os && p.0.strong(),
            r is Ok <==> (spec_new(*plat, path@) matches Ok(t) && spec_is_absolute(t, plat.os)),
            r matches Err(e) ==> match spec_new(*plat, path@) {
                Err(t) => err_matches(e, t),
                Ok(t) =>
                    (!(spec_is_absolute(t, plat.os)) ==> e is NotAbsolute),
            },
    {
        let inner = match PathInner::new(plat, path) {
            Ok(p) => p,
            Err(e) => {
                return Err(e);
            },
        };
        match inner.ensure_absolute(plat) {
            Ok(()) => {},
            Err(e) => {
                return Err(e);
            },
        }
        Ok(AbsolutePath(inner))
    }

    /// The canonical text.
    pub fn as_str(&self) -> (r: &str)
        ensures
            r@ == self.0.path@,
    {
        self.0.as_str()
    }

    /// A cursor over the segments of the relative portion.
    pub fn segments(&self) -> (r: Segments)
        ensures
            crate::segiter::str_views(r.parts@) == crate::resolve::drop_empty(
                crate::inner::spec_segments(self.0.path@, self.0.os),
            ),
            r.cursor() == -1,
            r.wf(),
    {
        self.0.segments()
    }

    /// The wrapped contracted debug form.
    pub fn debug_string(&self, plat: &Platform) -> (r: String)
        requires
            plat.os == self.0.os,
        ensures
            r@ == "AbsolutePath("@ + spec_debug(*plat, self.0.path@, true) + seq![')'],
    {
        let body = self.0.debug_string(plat);
        wrap_name("AbsolutePath(", &body)
    }

    /// The wrapped uncontracted debug form.
    pub fn debug_alt_string(&self) -> (r: String)
        ensures
            r@ == "AbsolutePath("@ + crate::display::spec_map_slash(
                crate::display::spec_strip_drive(self.0.path@),
            ) + seq![')'],
    {
        let body = self.0.debug_alt_string();
        wrap_name("AbsolutePath(", &body)
    }

    /// The contracted display form.
    pub fn display_string(&self, plat: &Platform) -> (r: String)
        requires
            plat.os == self.0.os,
        ensures
            r@ == spec_display(*plat, self.0.path@, true),
    {
        self.0.display_string(plat)
    }
}

impl RelativeFolderPath {
    /// Parse a raw path and demand the kind this type stands for.
    pub fn new(plat: &Platform, path: &str) -> (r: Result<RelativeFolderPath, PathError>)
        requires
            plat.wf(),
        ensures
            r matches Ok(p) ==> Ok::<Seq<char>, SpecErr>(p.0.path@) == spec_new(*plat, path@)
                && p.0.os == plat.os && p.0.strong(),
            r is Ok <==> (spec_new(*plat, path@) matches Ok(t) && !spec_is_absolute(t, plat.os) && spec_is_folder(t)),
            r matches Err(e) ==> match spec_new(*plat, path@) {
                Err(t) => err_matches(e, t),
                Ok(t) =>
                    (!(!spec_is_absolute(t, plat.os)) ==> e is NotRelative) &&
                    (!spec_is_absolute(t, plat.os) && !(spec_is_folder(t)) ==> e is NotFolder),
            },
    {
        let inner = match PathInner::new(plat, path) {
            Ok(p) => p,
            Err(e) => {
                return Err(e);
            },
        };
        match inner.ensure_relative(plat) {
            Ok(()) => {},
            Err(e) => {
                return Err(e);
            },
        }
        match inner.ensure_folder(plat) {
            Ok(()) => {},
            Err(e) => {
                return Err(e);
            },
        }
        Ok(RelativeFolderPath(inner))
    }

    /// The canonical text.
    pub fn as_str(&self) -> (r: &str)
        ensures
            r@ == self.0.path@,
    {
        self.0.as_str()
    }

    /// A cursor over the segments of the relative portion.
    pub fn segments(&self) -> (r: Segments)
        ensures
            crate::segiter::str_views(r.parts@) == crate::resolve::drop_empty(
                crate::inner::spec_segments(self.0.path@, self.0.os),
            ),
            r.cursor() == -1,
            r.wf(),
    {
        self.0.segments()
    }

    /// The wrapped contracted debug form.
    pub fn debug_string(&self, plat: &Platform) -> (r: String)
        requires
            plat.os == self.0.os,
        ensures
            r@ == "RelativeFolderPath("@ + spec_debug(*plat, self.0.path@, true) + seq![')'],
    {
        let body = self.0.debug_string(plat);
        wrap_name("RelativeFolderPath(", &body)
    }

    /// The wrapped uncontracted debug form.
    pub fn debug_alt_string(&self) -> (r: String)
        ensures
            r@ == "RelativeFolderPath("@ + crate::display::spec_map_slash(
                crate::display::spec_strip_drive(self.0.path@),
            ) + seq![')'],
    {
        let body = self.0.debug_alt_string();
        wrap_name("RelativeFolderPath(", &body)
    }

    /// The contracted display form.
    pub fn display_string(&self, plat: &Platform) -> (r: String)
        requires
            plat.os == self.0.os,
        ensures
            r@ == spec_display(*plat, self.0.path@, true),
    {
        self.0.display_string(plat)
    }
}

impl RelativeFilePath {
    /// Parse a raw path and demand the kind this type stands for.
    pub fn new(plat: &Platform, path: &str) -> (r: Result<RelativeFilePath, PathError>)
        requires
            plat.wf(),
        ensures
            r matches Ok(p) ==> Ok::<Seq<char>, SpecErr>(p.0.path@) == spec_new(*plat, path@)
                && p.0.os == plat.os && p.0.strong(),
            r is Ok <==> (spec_new(*plat, path@) matches Ok(t) && !spec_is_absolute(t, plat.os) && !spec_is_folder(t)),
            r matches Err(e) ==> match spec_new(*plat, path@) {
                Err(t) => err_matches(e, t),
                Ok(t) =>
                    (!(!spec_is_absolute(t, plat.os)) ==> e is NotRelative) &&
                    (!spec_is_absolute(t, plat.os) && !(!spec_is_folder(t)) ==> e is NotFile),
            },
    {
        let inner = match PathInner::new(plat, path) {
            Ok(p) => p,
            Err(e) => {
                return Err(e);
            },
        };
        match inner.ensure_relative(plat) {
            Ok(()) => {},
            Err(e) => {
                return Err(e);
            },
        }
        match inner.ensure_file(plat) {
            Ok(()) => {},
            Err(e) => {
                return Err(e);
            },
        }
        Ok(RelativeFilePath(inner))
    }

    /// The canonical text.
    pub fn as_str(&self) -> (r: &str)
        ensures
            r@ == self.0.path@,
    {
        self.0.as_str()
    }

    /// A cursor over the segments of the relative portion.
    pub fn segments(&self) -> (r: Segments)
        ensures
            crate::segiter::str_views(r.parts@) == crate::resolve::drop_empty(
                crate::inner::spec_segments(self.0.path@, self.0.os),
            ),
            r.cursor() == -1,
            r.wf(),
    {
        self.0.segments()
    }

    /// The wrapped contracted debug form.
    pub fn debug_string(&self, plat: &Platform) -> (r: String)
        requires
            plat.os == self.0.os,
        ensures
            r@ == "RelativeFilePath("@ + spec_debug(*plat, self.0.path@, true) + seq![')'],
    {
        let body = self.0.debug_string(plat);
        wrap_name("RelativeFilePath(", &body)
    }

    /// The wrapped uncontracted debug form.
    pub fn debug_alt_string(&self) -> (r: String)
        ensures
            r@ == "RelativeFilePath("@ + crate::display::spec_map_slash(
                crate::display::spec_strip_drive(self.0.path@),
            ) + seq![')'],
    {
        let body = self.0.debug_alt_string();
        wrap_name("RelativeFilePath(", &body)
    }

    /// The contracted display form.
    pub fn display_string(&self, plat: &Platform) -> (r: String)
        requires
            plat.os == self.0.os,
        ensures
            r@ == spec_display(*plat, self.0.path@, true),
    {
        self.0.display_string(plat)
    }
}

impl RelativePath {
    /// Parse a raw path and demand the kind this type stands for.
    pub fn new(plat: &Platform, path: &str) -> (r: Result<RelativePath, PathError>)
        requires
            plat.wf(),
        ensures
            r matches Ok(p) ==> Ok::<Seq<char>, SpecErr>(p.0.path@) == spec_new(*plat, path@)
                && p.0.os == plat.os && p.0.strong(),
            r is Ok <==> (spec_new(*plat, path@) matches Ok(t) && !spec_is_absolute(t, plat.os)),
            r matches Err(e) ==> match spec_new(*plat, path@) {
                Err(t) => err_matches(e, t),
                Ok(t) =>
                    (!(!spec_is_absolute(t, plat.os)) ==> e is NotRelative),
            },
    {
        let inner = match PathInner::new(plat, path) {
            Ok(p) => p,
            Err(e) => {
                return Err(e);
            },
        };
        match inner.ensure_relative(plat) {
            Ok(()) => {},
            Err(e) => {
                return Err(e);
            },
        }
        Ok(RelativePath(inner))
    }

    /// The canonical text.
    pub fn as_str(&self) -> (r: &str)
        ensures
            r@ == self.0.path@,
    {
        self.0.as_str()
    }

    /// A cursor over the segments of the relative portion.
    pub fn segments(&self) -> (r: Segments)
        ensures
            crate::segiter::str_views(r.parts@) == crate::resolve::drop_empty(
                crate::inner::spec_segments(self.0.path@, self.0.os),
            ),
            r.cursor() == -1,
            r.wf(),
    {
        self.0.segments()
    }

    /// The wrapped contracted debug form.
    pub fn debug_string(&self, plat: &Platform) -> (r: String)
        requires
            plat.os == self.0.os,
        ensures
            r@ == "RelativePath("@ + spec_debug(*plat, self.0.path@, true) + seq![')'],
    {
        let body = self.0.debug_string(plat);
        wrap_name("RelativePath(", &body)
    }

    /// The wrapped uncontracted debug form.
    pub fn debug_alt_string(&self) -> (r: String)
        ensures
            r@ == "RelativePath("@ + crate::display::spec_map_slash(
                crate::display::spec_strip_drive(self.0.path@),
            ) + seq![')'],
    {
        let body = self.0.debug_alt_string();
        wrap_name("RelativePath(", &body)
    }

    /// The contracted display form.
    pub fn display_string(&self, plat: &Platform) -> (r: String)
        requires
            plat.os == self.0.os,
        ensures
            r@ == spec_display(*plat, self.0.path@, true),
    {
        self.0.display_string(plat)
    }
}

impl AnyFolderPath {
    /// Parse a raw path and demand the kind this type stands for.
    pub fn new(plat: &Platform, path: &str) -> (r: Result<AnyFolderPath, PathError>)
        requires
            plat.wf(),
        ensures
            r matches Ok(p) ==> Ok::<Seq<char>, SpecErr>(p.0.path@) == spec_new(*plat, path@)
                && p.0.os == plat.os && p.0.strong(),
            r is Ok <==> (spec_new(*plat, path@) matches Ok(t) && spec_is_folder(t)),
            r matches Err(e) ==> match spec_new(*plat, path@) {
                Err(t) => err_matches(e, t),
                Ok(t) =>
                    (!(spec_is_folder(t)) ==> e is NotFolder),
            },
    {
        let inner = match PathInner::new(plat, path) {
            Ok(p) => p,
            Err(e) => {
                return Err(e);
            },
        };
        match inner.ensure_folder(plat) {
            Ok(()) => {},
            Err(e) => {
                return Err(e);
            },
        }
        Ok(AnyFolderPath(inner))
    }

    /// The canonical text.
    pub fn as_str(&self) -> (r: &str)
        ensures
            r@ == self.0.path@,
    {
        self.0.as_str()
    }

    /// A cursor over the segments of the relative portion.
    pub fn segments(&self) -> (r: Segments)
        ensures
            crate::segiter::str_views(r.parts@) == crate::resolve::drop_empty(
                crate::inner::spec_segments(self.0.path@, self.0.os),
            ),
            r.cursor() == -1,
            r.wf(),
    {
        self.0.segments()
    }

    /// The wrapped contracted debug form.
    pub fn debug_string(&self, plat: &Platform) -> (r: String)
        requires
            plat.os == self.0.os,
        ensures
            r@ == "AnyFolderPath("@ + spec_debug(*plat, self.0.path@, true) + seq![')'],
    {
        let body = self.0.debug_string(plat);
        wrap_name("AnyFolderPath(", &body)
    }

    /// The wrapped uncontracted debug form.
    pub fn debug_alt_string(&self) -> (r: String)
        ensures
            r@ == "AnyFolderPath("@ + crate::display::spec_map_slash(
                crate::display::spec_strip_drive(self.0.path@),
            ) + seq![')'],
    {
        let body = self.0.debug_alt_string();
        wrap_name("AnyFolderPath(", &body)
    }

    /// The contracted display form.
    pub fn display_string(&self, plat: &Platform) -> (r: String)
        requires
            plat.os == self.0.os,
        ensures
            r@ == spec_display(*plat, self.0.path@, true),
    {
        self.0.display_string(plat)
    }
}

impl AnyFilePath {
    /// Parse a raw path and demand the kind this type stands for.
    pub fn new(plat: &Platform, path: &str) -> (r: Result<AnyFilePath, PathError>)
        requires
            plat.wf(),
        ensures
            r matches Ok(p) ==> Ok::<Seq<char>, SpecErr>(p.0.path@) == spec_new(*plat, path@)
                && p.0.os == plat.os && p.0.strong(),
            r is Ok <==> (spec_new(*plat, path@) matches Ok(t) && !spec_is_folder(t)),
            r matches Err(e) ==> match spec_new(*plat, path@) {
                Err(t) => err_matches(e, t),
                Ok(t) =>
                    (!(!spec_is_folder(t)) ==> e is NotFile),
            },
    {
        let inner = match PathInner::new(plat, path) {
            Ok(p) => p,
            Err(e) => {
                return Err(e);
            },
        };
        match inner.ensure_file(plat) {
            Ok(()) => {},
            Err(e) => {
                return Err(e);
            },
        }
        Ok(AnyFilePath(inner))
    }

    /// The canonical text.
    pub fn as_str(&self) -> (r: &str)
        ensures
            r@ == self.0.path@,
    {
        self.0.as_str()
    }

    /// A cursor over the segments of the relative portion.
    pub fn segments(&self) -> (r: Segments)
        ensures
            crate::segiter::str_views(r.parts@) == crate::resolve::drop_empty(
                crate::inner::spec_segments(self.0.path@, self.0.os),
            ),
            r.cursor() == -1,
            r.wf(),
    {
        self.0.segments()
    }

    /// The wrapped contracted debug form.
    pub fn debug_string(&self, plat: &Platform) -> (r: String)
        requires
            plat.os == self.0.os,
        ensures
            r@ == "AnyFilePath("@ + spec_debug(*plat, self.0.path@, true) + seq![')'],
    {
        let body = self.0.debug_string(plat);
        wrap_name("AnyFilePath(", &body)
    }

    /// The wrapped uncontracted debug form.
    pub fn debug_alt_string(&self) -> (r: String)
        ensures
            r@ == "AnyFilePath("@ + crate::display::spec_map_slash(
                crate::display::spec_strip_drive(self.0.path@),
            ) + seq![')'],
    {
        let body = self.0.debug_alt_string();
        wrap_name("AnyFilePath(", &body)
    }

    /// The contracted display form.
    pub fn display_string(&self, plat: &Platform) -> (r: String)
        requires
            plat.os == self.0.os,
        ensures
            r@ == spec_display(*plat, self.0.path@, true),
    {
        self.0.display_string(plat)
    }
}

impl AnyPath {
    /// Parse a raw path and demand the kind this type stands for.
    pub fn new(plat: &Platform, path: &str) -> (r: Result<AnyPath, PathError>)
        requires
            plat.wf(),
        ensures
            r matches Ok(p) ==> Ok::<Seq<char>, SpecErr>(p.0.path@) == spec_new(*plat, path@)
                && p.0.os == plat.os && p.0.strong(),
            r is Ok <==> (spec_new(*plat, path@) matches Ok(t) && true),
            r matches Err(e) ==> match spec_new(*plat, path@) {
                Err(t) => err_matches(e, t),
                Ok(t) =>
                    true,
            },
    {
        let inner = match PathInner::new(plat, path) {
            Ok(p) => p,
            Err(e) => {
                return Err(e);
            },
        };

        Ok(AnyPath(inner))
    }

    /// The canonical text.
    pub fn as_str(&self) -> (r: &str)
        ensures
            r@ == self.0.path@,
    {
        self.0.as_str()
    }

    /// A cursor over the segments of the relative portion.
    pub fn segments(&self) -> (r: Segments)
        ensures
            crate::segiter::str_views(r.parts@) == crate::resolve::drop_empty(
                crate::inner::spec_segments(self.0.path@, self.0.os),
            ),
            r.cursor() == -1,
            r.wf(),
    {
        self.0.segments()
    }

    /// The wrapped contracted debug form.
    pub fn debug_string(&self, plat: &Platform) -> (r: String)
        requires
            plat.os == self.0.os,
        ensures
            r@ == "AnyPath("@ + spec_debug(*plat, self.0.path@, true) + seq![')'],
    {
        let body = self.0.debug_string(plat);
        wrap_name("AnyPath(", &body)
    }

    /// The wrapped uncontracted debug form.
    pub fn debug_alt_string(&self) -> (r: String)
        ensures
            r@ == "AnyPath("@ + crate::display::spec_map_slash(
                crate::display::spec_strip_drive(self.0.path@),
            ) + seq![')'],
    {
        let body = self.0.debug_alt_string();
        wrap_name("AnyPath(", &body)
    }

    /// The contracted display form.
    pub fn display_string(&self, plat: &Platform) -> (r: String)
        requires
            plat.os == self.0.os,
        ensures
            r@ == spec_display(*plat, self.0.path@, true),
    {
        self.0.display_string(plat)
    }
}

/// Do two canonical path values carry the same text and platform?
pub open spec fn same_inner(a: PathInner, b: PathInner) -> bool {
    a.path@ == b.path@ && a.os == b.os
}

impl AbsoluteFolderPath {
    /// Remove the last `count` segments, clamped at the root.
    pub fn pop(&mut self, count: usize)
        ensures
            final(self).0.os == old(self).0.os,
            final(self).0.path@ == crate::ops::spec_pop(old(self).0.path@, old(self).0.os, count as int),
            old(self).0.strong() ==> final(self).0.strong(),
    {
        self.0.pop(count);
    }

    /// A copy with the last `count` segments removed.
    pub fn popping(&self, count: usize) -> (r: AbsoluteFolderPath)
        ensures
            r.0.os == self.0.os,
            r.0.path@ == crate::ops::spec_pop(self.0.path@, self.0.os, count as int),
            self.0.strong() ==> r.0.strong(),
    {
        AbsoluteFolderPath(self.0.popping(count))
    }

    /// Join raw values onto the path and normalize; on failure the path is
    /// unchanged.
    pub fn join(&mut self, values: &Vec<String>) -> (r: Result<(), PathError>)
        ensures
            final(self).0.os == old(self).0.os,
            r is Ok <==> crate::ops::spec_join_vals(old(self).0.path@, old(self).0.os, values@.map_values(|x: String| x@)) is Ok,
            r is Ok ==> Ok::<Seq<char>, SpecErr>(final(self).0.path@) == crate::ops::spec_join_vals(old(self).0.path@, old(self).0.os, values@.map_values(|x: String| x@)),
            r matches Err(e) ==> final(self).0.path@ == old(self).0.path@ && (crate::ops::spec_join_vals(old(self).0.path@, old(self).0.os, values@.map_values(|x: String| x@)) matches Err(t) && err_matches(e, t)),
            old(self).0.strong() && r is Ok ==> final(self).0.strong(),
    {
        self.0.join(values)
    }

    /// A copy with the values joined on.
    pub fn joining(&self, values: &Vec<String>) -> (r: Result<AbsoluteFolderPath, PathError>)
        ensures
            r is Ok <==> crate::ops::spec_join_vals(self.0.path@, self.0.os, values@.map_values(|x: String| x@)) is Ok,
            r matches Ok(p) ==> p.0.os == self.0.os && Ok::<Seq<char>, SpecErr>(p.0.path@) == crate::ops::spec_join_vals(self.0.path@, self.0.os, values@.map_values(|x: String| x@)) && (self.0.strong() ==> p.0.strong()),
    {
        match self.0.joining(values) {
            Ok(p) => Ok(AbsoluteFolderPath(p)),
            Err(e) => Err(e),
        }
    }

    /// The folder without its last segment; `None` only for a root.
    pub fn parent(&self) -> (r: Option<AbsoluteFolderPath>)
        ensures
            match r {
                Some(p) => crate::ops::spec_parent(self.0.path@, self.0.os) == Some(p.0.path@)
                    && p.0.os == self.0.os && (self.0.strong() ==> p.0.strong()),
                None => crate::ops::spec_parent(self.0.path@, self.0.os) is None,
            },
    {
        match self.0.parent() {
            Some(p) => Some(AbsoluteFolderPath(p)),
            None => None,
        }
    }
}

impl RelativeFolderPath {
    /// Remove the last `count` segments, clamped at the root.
    pub fn pop(&mut self, count: usize)
        ensures
            final(self).0.os == old(self).0.os,
            final(self).0.path@ == crate::ops::spec_pop(old(self).0.path@, old(self).0.os, count as int),
            old(self).0.strong() ==> final(self).0.strong(),
    {
        self.0.pop(count);
    }

    /// A copy with the last `count` segments removed.
    pub fn popping(&self, count: usize) -> (r: RelativeFolderPath)
        ensures
            r.0.os == self.0.os,
            r.0.path@ == crate::ops::spec_pop(self.0.path@, self.0.os, count as int),
            self.0.strong() ==> r.0.strong(),
    {
        RelativeFolderPath(self.0.popping(count))
    }

    /// Join raw values onto the path and normalize; on failure the path is
    /// unchanged.
    pub fn join(&mut self, values: &Vec<String>) -> (r: Result<(), PathError>)
        ensures
            final(self).0.os == old(self).0.os,
            r is Ok <==> crate::ops::spec_join_vals(old(self).0.path@, old(self).0.os, values@.map_values(|x: String| x@)) is Ok,
            r is Ok ==> Ok::<Seq<char>, SpecErr>(final(self).0.path@) == crate::ops::spec_join_vals(old(self).0.path@, old(self).0.os, values@.map_values(|x: String| x@)),
            r matches Err(e) ==> final(self).0.path@ == old(self).0.path@ && (crate::ops::spec_join_vals(old(self).0.path@, old(self).0.os, values@.map_values(|x: String| x@)) matches Err(t) && err_matches(e, t)),
            old(self).0.strong() && r is Ok ==> final(self).0.strong(),
    {
        self.0.join(values)
    }

    /// A copy with the values joined on.
    pub fn joining(&self, values: &Vec<String>) -> (r: Result<RelativeFolderPath, PathError>)
        ensures
            r is Ok <==> crate::ops::spec_join_vals(self.0.path@, self.0.os, values@.map_values(|x: String| x@)) is Ok,
            r matches Ok(p) ==> p.0.os == self.0.os && Ok::<Seq<char>, SpecErr>(p.0.path@) == crate::ops::spec_join_vals(self.0.path@, self.0.os, values@.map_values(|x: String| x@)) && (self.0.strong() ==> p.0.strong()),
    {
        match self.0.joining(values) {
            Ok(p) => Ok(RelativeFolderPath(p)),
            Err(e) => Err(e),
        }
    }

    /// The folder without its last segment; `None` only for a root.
    pub fn parent(&self) -> (r: Option<RelativeFolderPath>)
        ensures
            match r {
                Some(p) => crate::ops::spec_parent(self.0.path@, self.0.os) == Some(p.0.path@)
                    && p.0.os == self.0.os && (self.0.strong() ==> p.0.strong()),
                None => crate::ops::spec_parent(self.0.path@, self.0.os) is None,
            },
    {
        match self.0.parent() {
            Some(p) => Some(RelativeFolderPath(p)),
            None => None,
        }
    }
}

impl AnyFolderPath {
    /// Remove the last `count` segments, clamped at the root.
    pub fn pop(&mut self, count: usize)
        ensures
            final(self).0.os == old(self).0.os,
            final(self).0.path@ == crate::ops::spec_pop(old(self).0.path@, old(self).0.os, count as int),
            old(self).0.strong() ==> final(self).0.strong(),
    {
        self.0.pop(count);
    }

    /// A copy with the last `count` segments removed.
    pub fn popping(&self, count: usize) -> (r: AnyFolderPath)
        ensures
            r.0.os == self.0.os,
            r.0.path@ == crate::ops::spec_pop(self.0.path@, self.0.os, count as int),
            self.0.strong() ==> r.0.strong(),
    {
        AnyFolderPath(self.0.popping(count))
    }

    /// Join raw values onto the path and normalize; on failure the path is
    /// unchanged.
    pub fn join(&mut self, values: &Vec<String>) -> (r: Result<(), PathError>)
        ensures
            final(self).0.os == old(self).0.os,
            r is Ok <==> crate::ops::spec_join_vals(old(self).0.path@, old(self).0.os, values@.map_values(|x: String| x@)) is Ok,
            r is Ok ==> Ok::<Seq<char>, SpecErr>(final(self).0.path@) == crate::ops::spec_join_vals(old(self).0.path@, old(self).0.os, values@.map_values(|x: String| x@)),
            r matches Err(e) ==> final(self).0.path@ == old(self).0.path@ && (crate::ops::spec_join_vals(old(self).0.path@, old(self).0.os, values@.map_values(|x: String| x@)) matches Err(t) && err_matches(e, t)),
            old(self).0.strong() && r is Ok ==> final(self).0.strong(),
    {
        self.0.join(values)
    }

    /// A copy with the values joined on.
    pub fn joining(&self, values: &Vec<String>) -> (r: Result<AnyFolderPath, PathError>)
        ensures
            r is Ok <==> crate::ops::spec_join_vals(self.0.path@, self.0.os, values@.map_values(|x: String| x@)) is Ok,
            r matches Ok(p) ==> p.0.os == self.0.os && Ok::<Seq<char>, SpecErr>(p.0.path@) == crate::ops::spec_join_vals(self.0.path@, self.0.os, values@.map_values(|x: String| x@)) && (self.0.strong() ==> p.0.strong()),
    {
        match self.0.joining(values) {
            Ok(p) => Ok(AnyFolderPath(p)),
            Err(e) => Err(e),
        }
    }

    /// The folder without its last segment; `None` only for a root.
    pub fn parent(&self) -> (r: Option<AnyFolderPath>)
        ensures
            match r {
                Some(p) => crate::ops::spec_parent(self.0.path@, self.0.os) == Some(p.0.path@)
                    && p.0.os == self.0.os && (self.0.strong() ==> p.0.strong()),
                None => crate::ops::spec_parent(self.0.path@, self.0.os) is None,
            },
    {
        match self.0.parent() {
            Some(p) => Some(AnyFolderPath(p)),
            None => None,
        }
    }
}

impl AbsoluteFilePath {
    /// An iterator over the extension pieces of the filename.
    pub fn extensions(&self) -> (r: crate::segiter::Extensions)
        ensures
            crate::segiter::str_views(r.parts@) == crate::segiter::spec_extensions(self.0.path@, self.0.os),
            r.pos == 0,
    {
        self.0.extensions()
    }

    /// Replace the extensions.
    pub fn set_extensions(&mut self, extensions: &Vec<String>)
        ensures
            final(self).0.os == old(self).0.os,
            ({
                let cut = crate::ops::spec_first_dot_from(old(self).0.path@, crate::ops::spec_after_last_slash(old(self).0.path@));
                let e = crate::strutil::seq_join(extensions@.map_values(|x: String| x@), '.');
                final(self).0.path@ == old(self).0.path@.take(cut) + if e.len() == 0 { Seq::<char>::empty() } else { seq!['.'] + e }
            }),
    {
        self.0.set_extensions(extensions);
    }

    /// A copy with the extensions replaced.
    pub fn with_extension(&self, extensions: &Vec<String>) -> (r: AbsoluteFilePath)
        ensures
            r.0.os == self.0.os,
            ({
                let cut = crate::ops::spec_first_dot_from(self.0.path@, crate::ops::spec_after_last_slash(self.0.path@));
                let e = crate::strutil::seq_join(extensions@.map_values(|x: String| x@), '.');
                r.0.path@ == self.0.path@.take(cut) + if e.len() == 0 { Seq::<char>::empty() } else { seq!['.'] + e }
            }),
    {
        AbsoluteFilePath(self.0.with_extension(extensions))
    }

    /// The filename: the text after the last separator.
    pub fn file_name(&self) -> (r: String)
        ensures
            r@ == self.0.path@.skip(crate::ops::spec_file_name_start(self.0.path@, self.0.os)),
    {
        self.0.file_name()
    }

    /// Replace the filename.
    pub fn set_file_name(&mut self, file_name: &str) -> (r: Result<(), PathError>)
        ensures
            final(self).0.os == old(self).0.os,
            r is Ok <==> (file_name@.len() > 0 && crate::resolve::no_slash_seg(file_name@)),
            r is Ok ==> final(self).0.path@ == old(self).0.path@.take(crate::ops::spec_file_name_start(old(self).0.path@, old(self).0.os)) + file_name@,
            r is Err ==> final(self).0.path@ == old(self).0.path@,
    {
        self.0.set_file_name(file_name)
    }

    /// A copy with the filename replaced.
    pub fn with_file_name(&self, file_name: &str) -> (r: Result<AbsoluteFilePath, PathError>)
        ensures
            r is Ok <==> (file_name@.len() > 0 && crate::resolve::no_slash_seg(file_name@)),
            r matches Ok(p) ==> p.0.os == self.0.os && p.0.path@ == self.0.path@.take(crate::ops::spec_file_name_start(self.0.path@, self.0.os)) + file_name@,
    {
        match self.0.with_file_name(file_name) {
            Ok(p) => Ok(AbsoluteFilePath(p)),
            Err(e) => Err(e),
        }
    }

    /// The file stem: the filename up to its first dot.
    pub fn file_stem(&self) -> (r: String)
        ensures
            ({
                let start = crate::ops::spec_file_name_start(self.0.path@, self.0.os);
                let end = crate::ops::spec_first_dot_from(self.0.path@, start);
                r@ == self.0.path@.subrange(start, end)
            }),
    {
        self.0.file_stem()
    }

    /// Replace the file stem.
    pub fn set_file_stem(&mut self, file_stem: &str) -> (r: Result<(), PathError>)
        ensures
            final(self).0.os == old(self).0.os,
            r is Ok <==> file_stem@.len() > 0,
            r is Ok ==> ({
                let start = crate::ops::spec_file_name_start(old(self).0.path@, old(self).0.os);
                let end = crate::ops::spec_first_dot_from(old(self).0.path@, start);
                final(self).0.path@ == old(self).0.path@.take(start) + file_stem@ + old(self).0.path@.skip(end)
            }),
            r is Err ==> final(self).0.path@ == old(self).0.path@,
    {
        self.0.set_file_stem(file_stem)
    }

    /// A copy with the file stem replaced.
    pub fn with_file_stem(&self, file_stem: &str) -> (r: Result<AbsoluteFilePath, PathError>)
        ensures
            r is Ok <==> file_stem@.len() > 0,
            r matches Ok(p) ==> p.0.os == self.0.os && ({
                let start = crate::ops::spec_file_name_start(self.0.path@, self.0.os);
                let end = crate::ops::spec_first_dot_from(self.0.path@, start);
                p.0.path@ == self.0.path@.take(start) + file_stem@ + self.0.path@.skip(end)
            }),
    {
        match self.0.with_file_stem(file_stem) {
            Ok(p) => Ok(AbsoluteFilePath(p)),
            Err(e) => Err(e),
        }
    }
}

impl RelativeFilePath {
    /// An iterator over the extension pieces of the filename.
    pub fn extensions(&self) -> (r: crate::segiter::Extensions)
        ensures
            crate::segiter::str_views(r.parts@) == crate::segiter::spec_extensions(self.0.path@, self.0.os),
            r.pos == 0,
    {
        self.0.extensions()
    }

    /// Replace the extensions.
    pub fn set_extensions(&mut self, extensions: &Vec<String>)
        ensures
            final(self).0.os == old(self).0.os,
            ({
                let cut = crate::ops::spec_first_dot_from(old(self).0.path@, crate::ops::spec_after_last_slash(old(self).0.path@));
                let e = crate::strutil::seq_join(extensions@.map_values(|x: String| x@), '.');
                final(self).0.path@ == old(self).0.path@.take(cut) + if e.len() == 0 { Seq::<char>::empty() } else { seq!['.'] + e }
            }),
    {
        self.0.set_extensions(extensions);
    }

    /// A copy with the extensions replaced.
    pub fn with_extension(&self, extensions: &Vec<String>) -> (r: RelativeFilePath)
        ensures
            r.0.os == self.0.os,
            ({
                let cut = crate::ops::spec_first_dot_from(self.0.path@, crate::ops::spec_after_last_slash(self.0.path@));
                let e = crate::strutil::seq_join(extensions@.map_values(|x: String| x@), '.');
                r.0.path@ == self.0.path@.take(cut) + if e.len() == 0 { Seq::<char>::empty() } else { seq!['.'] + e }
            }),
    {
        RelativeFilePath(self.0.with_extension(extensions))
    }

    /// The filename: the text after the last separator.
    pub fn file_name(&self) -> (r: String)
        ensures
            r@ == self.0.path@.skip(crate::ops::spec_file_name_start(self.0.path@, self.0.os)),
    {
        self.0.file_name()
    }

    /// Replace the filename.
    pub fn set_file_name(&mut self, file_name: &str) -> (r: Result<(), PathError>)
        ensures
            final(self).0.os == old(self).0.os,
            r is Ok <==> (file_name@.len() > 0 && crate::resolve::no_slash_seg(file_name@)),
            r is Ok ==> final(self).0.path@ == old(self).0.path@.take(crate::ops::spec_file_name_start(old(self).0.path@, old(self).0.os)) + file_name@,
            r is Err ==> final(self).0.path@ == old(self).0.path@,
    {
        self.0.set_file_name(file_name)
    }

    /// A copy with the filename replaced.
    pub fn with_file_name(&self, file_name: &str) -> (r: Result<RelativeFilePath, PathError>)
        ensures
            r is Ok <==> (file_name@.len() > 0 && crate::resolve::no_slash_seg(file_name@)),
            r matches Ok(p) ==> p.0.os == self.0.os && p.0.path@ == self.0.path@.take(crate::ops::spec_file_name_start(self.0.path@, self.0.os)) + file_name@,
    {
        match self.0.with_file_name(file_name) {
            Ok(p) => Ok(RelativeFilePath(p)),
            Err(e) => Err(e),
        }
    }

    /// The file stem: the filename up to its first dot.
    pub fn file_stem(&self) -> (r: String)
        ensures
            ({
                let start = crate::ops::spec_file_name_start(self.0.path@, self.0.os);
                let end = crate::ops::spec_first_dot_from(self.0.path@, start);
                r@ == self.0.path@.subrange(start, end)
            }),
    {
        self.0.file_stem()
    }

    /// Replace the file stem.
    pub fn set_file_stem(&mut self, file_stem: &str) -> (r: Result<(), PathError>)
        ensures
            final(self).0.os == old(self).0.os,
            r is Ok <==> file_stem@.len() > 0,
            r is Ok ==> ({
                let start = crate::ops::spec_file_name_start(old(self).0.path@, old(self).0.os);
                let end = crate::ops::spec_first_dot_from(old(self).0.path@, start);
                final(self).0.path@ == old(self).0.path@.take(start) + file_stem@ + old(self).0.path@.skip(end)
            }),
            r is Err ==> final(self).0.path@ == old(self).0.path@,
    {
        self.0.set_file_stem(file_stem)
    }

    /// A copy with the file stem replaced.
    pub fn with_file_stem(&self, file_stem: &str) -> (r: Result<RelativeFilePath, PathError>)
        ensures
            r is Ok <==> file_stem@.len() > 0,
            r matches Ok(p) ==> p.0.os == self.0.os && ({
                let start = crate::ops::spec_file_name_start(self.0.path@, self.0.os);
                let end = crate::ops::spec_first_dot_from(self.0.path@, start);
                p.0.path@ == self.0.path@.take(start) + file_stem@ + self.0.path@.skip(end)
            }),
    {
        match self.0.with_file_stem(file_stem) {
            Ok(p) => Ok(RelativeFilePath(p)),
            Err(e) => Err(e),
        }
    }
}

impl AnyFilePath {
    /// An iterator over the extension pieces of the filename.
    pub fn extensions(&self) -> (r: crate::segiter::Extensions)
        ensures
            crate::segiter::str_views(r.parts@) == crate::segiter::spec_extensions(self.0.path@, self.0.os),
            r.pos == 0,
    {
        self.0.extensions()
    }

    /// Replace the extensions.
    pub fn set_extensions(&mut self, extensions: &Vec<String>)
        ensures
            final(self).0.os == old(self).0.os,
            ({
                let cut = crate::ops::spec_first_dot_from(old(self).0.path@, crate::ops::spec_after_last_slash(old(self).0.path@));
                let e = crate::strutil::seq_join(extensions@.map_values(|x: String| x@), '.');
                final(self).0.path@ == old(self).0.path@.take(cut) + if e.len() == 0 { Seq::<char>::empty() } else { seq!['.'] + e }
            }),
    {
        self.0.set_extensions(extensions);
    }

    /// A copy with the extensions replaced.
    pub fn with_extension(&self, extensions: &Vec<String>) -> (r: AnyFilePath)
        ensures
            r.0.os == self.0.os,
            ({
                let cut = crate::ops::spec_first_dot_from(self.0.path@, crate::ops::spec_after_last_slash(self.0.path@));
                let e = crate::strutil::seq_join(extensions@.map_values(|x: String| x@), '.');
                r.0.path@ == self.0.path@.take(cut) + if e.len() == 0 { Seq::<char>::empty() } else { seq!['.'] + e }
            }),
    {
        AnyFilePath(self.0.with_extension(extensions))
    }

    /// The filename: the text after the last separator.
    pub fn file_name(&self) -> (r: String)
        ensures
            r@ == self.0.path@.skip(crate::ops::spec_file_name_start(self.0.path@, self.0.os)),
    {
        self.0.file_name()
    }

    /// Replace the filename.
    pub fn set_file_name(&mut self, file_name: &str) -> (r: Result<(), PathError>)
        ensures
            final(self).0.os == old(self).0.os,
            r is Ok <==> (file_name@.len() > 0 && crate::resolve::no_slash_seg(file_name@)),
            r is Ok ==> final(self).0.path@ == old(self).0.path@.take(crate::ops::spec_file_name_start(old(self).0.path@, old(self).0.os)) + file_name@,
            r is Err ==> final(self).0.path@ == old(self).0.path@,
    {
        self.0.set_file_name(file_name)
    }

    /// A copy with the filename replaced.
    pub fn with_file_name(&self, file_name: &str) -> (r: Result<AnyFilePath, PathError>)
        ensures
            r is Ok <==> (file_name@.len() > 0 && crate::resolve::no_slash_seg(file_name@)),
            r matches Ok(p) ==> p.0.os == self.0.os && p.0.path@ == self.0.path@.take(crate::ops::spec_file_name_start(self.0.path@, self.0.os)) + file_name@,
    {
        match self.0.with_file_name(file_name) {
            Ok(p) => Ok(AnyFilePath(p)),
            Err(e) => Err(e),
        }
    }

    /// The file stem: the filename up to its first dot.
    pub fn file_stem(&self) -> (r: String)
        ensures
            ({
                let start = crate::ops::spec_file_name_start(self.0.path@, self.0.os);
                let end = crate::ops::spec_first_dot_from(self.0.path@, start);
                r@ == self.0.path@.subrange(start, end)
            }),
    {
        self.0.file_stem()
    }

    /// Replace the file stem.
    pub fn set_file_stem(&mut self, file_stem: &str) -> (r: Result<(), PathError>)
        ensures
            final(self).0.os == old(self).0.os,
            r is Ok <==> file_stem@.len() > 0,
            r is Ok ==> ({
                let start = crate::ops::spec_file_name_start(old(self).0.path@, old(self).0.os);
                let end = crate::ops::spec_first_dot_from(old(self).0.path@, start);
                final(self).0.path@ == old(self).0.path@.take(start) + file_stem@ + old(self).0.path@.skip(end)
            }),
            r is Err ==> final(self).0.path@ == old(self).0.path@,
    {
        self.0.set_file_stem(file_stem)
    }

    /// A copy with the file stem replaced.
    pub fn with_file_stem(&self, file_stem: &str) -> (r: Result<AnyFilePath, PathError>)
        ensures
            r is Ok <==> file_stem@.len() > 0,
            r matches Ok(p) ==> p.0.os == self.0.os && ({
                let start = crate::ops::spec_file_name_start(self.0.path@, self.0.os);
                let end = crate::ops::spec_first_dot_from(self.0.path@, start);
                p.0.path@ == self.0.path@.take(start) + file_stem@ + self.0.path@.skip(end)
            }),
    {
        match self.0.with_file_stem(file_stem) {
            Ok(p) => Ok(AnyFilePath(p)),
            Err(e) => Err(e),
        }
    }
}

impl vstd::std_specs::convert::FromSpecImpl<RelativeFolderPath> for AnyPath {
    open spec fn obeys_from_spec() -> bool {
        true
    }

    open spec fn from_spec(v: RelativeFolderPath) -> AnyPath {
        AnyPath(v.0)
    }
}

impl From<RelativeFolderPath> for AnyPath {
    fn from(value: RelativeFolderPath) -> (r: AnyPath) {
        AnyPath(value.0)
    }
}

impl vstd::std_specs::convert::FromSpecImpl<AbsoluteFolderPath> for AnyPath {
    open spec fn obeys_from_spec() -> bool {
        true
    }

    open spec fn from_spec(v: AbsoluteFolderPath) -> AnyPath {
        AnyPath(v.0)
    }
}

impl From<AbsoluteFolderPath> for AnyPath {
    fn from(value: AbsoluteFolderPath) -> (r: AnyPath) {
        AnyPath(value.0)
    }
}

impl vstd::std_specs::convert::FromSpecImpl<RelativeFilePath> for AnyPath {
    open spec fn obeys_from_spec() -> bool {
        true
    }

    open spec fn from_spec(v: RelativeFilePath) -> AnyPath {
        AnyPath(v.0)
    }
}

impl From<RelativeFilePath> for AnyPath {
    fn from(value: RelativeFilePath) -> (r: AnyPath) {
        AnyPath(value.0)
    }
}

impl vstd::std_specs::convert::FromSpecImpl<AbsoluteFilePath> for AnyPath {
    open spec fn obeys_from_spec() -> bool {
        true
    }

    open spec fn from_spec(v: AbsoluteFilePath) -> AnyPath {
        AnyPath(v.0)
    }
}

impl From<AbsoluteFilePath> for AnyPath {
    fn from(value: AbsoluteFilePath) -> (r: AnyPath) {
        AnyPath(value.0)
    }
}

impl vstd::std_specs::convert::FromSpecImpl<AnyFolderPath> for AnyPath {
    open spec fn obeys_from_spec() -> bool {
        true
    }

    open spec fn from_spec(v: AnyFolderPath) -> AnyPath {
        AnyPath(v.0)
    }
}

impl From<AnyFolderPath> for AnyPath {
    fn from(value: AnyFolderPath) -> (r: AnyPath) {
        AnyPath(value.0)
    }
}

impl vstd::std_specs::convert::FromSpecImpl<AnyFilePath> for AnyPath {
    open spec fn obeys_from_spec() -> bool {
        true
    }

    open spec fn from_spec(v: AnyFilePath) -> AnyPath {
        AnyPath(v.0)
    }
}

impl From<AnyFilePath> for AnyPath {
    fn from(value: AnyFilePath) -> (r: AnyPath) {
        AnyPath(value.0)
    }
}

impl vstd::std_specs::convert::FromSpecImpl<AbsoluteFolderPath> for AbsolutePath {
    open spec fn obeys_from_spec() -> bool {
        true
    }

    open spec fn from_spec(v: AbsoluteFolderPath) -> AbsolutePath {
        AbsolutePath(v.0)
    }
}

impl From<AbsoluteFolderPath> for AbsolutePath {
    fn from(value: AbsoluteFolderPath) -> (r: AbsolutePath) {
        AbsolutePath(value.0)
    }
}

impl vstd::std_specs::convert::FromSpecImpl<AbsoluteFilePath> for AbsolutePath {
    open spec fn obeys_from_spec() -> bool {
        true
    }

    open spec fn from_spec(v: AbsoluteFilePath) -> AbsolutePath {
        AbsolutePath(v.0)
    }
}

impl From<AbsoluteFilePath> for AbsolutePath {
    fn from(value: AbsoluteFilePath) -> (r: AbsolutePath) {
        AbsolutePath(value.0)
    }
}

impl vstd::std_specs::convert::FromSpecImpl<RelativeFolderPath> for RelativePath {
    open spec fn obeys_from_spec() -> bool {
        true
    }

    open spec fn from_spec(v: RelativeFolderPath) -> RelativePath {
        RelativePath(v.0)
    }
}

impl From<RelativeFolderPath> for RelativePath {
    fn from(value: RelativeFolderPath) -> (r: RelativePath) {
        RelativePath(value.0)
    }
}

impl vstd::std_specs::convert::FromSpecImpl<RelativeFilePath> for RelativePath {
    open spec fn obeys_from_spec() -> bool {
        true
    }

    open spec fn from_spec(v: RelativeFilePath) -> RelativePath {
        RelativePath(v.0)
    }
}

impl From<RelativeFilePath> for RelativePath {
    fn from(value: RelativeFilePath) -> (r: RelativePath) {
        RelativePath(value.0)
    }
}

impl vstd::std_specs::convert::FromSpecImpl<RelativeFolderPath> for AnyFolderPath {
    open spec fn obeys_from_spec() -> bool {
        true
    }

    open spec fn from_spec(v: RelativeFolderPath) -> AnyFolderPath {
        AnyFolderPath(v.0)
    }
}

impl From<RelativeFolderPath> for AnyFolderPath {
    fn from(value: RelativeFolderPath) -> (r: AnyFolderPath) {
        AnyFolderPath(value.0)
    }
}

impl vstd::std_specs::convert::FromSpecImpl<AbsoluteFolderPath> for AnyFolderPath {
    open spec fn obeys_from_spec() -> bool {
        true
    }

    open spec fn from_spec(v: AbsoluteFolderPath) -> AnyFolderPath {
        AnyFolderPath(v.0)
    }
}

impl From<AbsoluteFolderPath> for AnyFolderPath {
    fn from(value: AbsoluteFolderPath) -> (r: AnyFolderPath) {
        AnyFolderPath(value.0)
    }
}

impl vstd::std_specs::convert::FromSpecImpl<RelativeFilePath> for AnyFilePath {
    open spec fn obeys_from_spec() -> bool {
        true
    }

    open spec fn from_spec(v: RelativeFilePath) -> AnyFilePath {
        AnyFilePath(v.0)
    }
}

impl From<RelativeFilePath> for AnyFilePath {
    fn from(value: RelativeFilePath) -> (r: AnyFilePath) {
        AnyFilePath(value.0)
    }
}

impl vstd::std_specs::convert::FromSpecImpl<AbsoluteFilePath> for AnyFilePath {
    open spec fn obeys_from_spec() -> bool {
        true
    }

    open spec fn from_spec(v: AbsoluteFilePath) -> AnyFilePath {
        AnyFilePath(v.0)
    }
}

impl From<AbsoluteFilePath> for AnyFilePath {
    fn from(value: AbsoluteFilePath) -> (r: AnyFilePath) {
        AnyFilePath(value.0)
    }
}

impl AbsoluteFolderPath {
    /// Does a directory stand at this path on disk? The two probe answers
    /// are combined by the verified conjunction.
    pub fn exists_on_disk(&self) -> bool {
        let found = crate::fs::fs_exists(self.0.as_str());
        let is_dir = crate::fs::fs_is_dir(self.0.as_str());
        crate::fs::probe_conjunction(found, is_dir)
    }

    /// Fail unless a directory stands at this path on disk: the verdict
    /// over the two probe answers, with the contracted display in the
    /// error.
    pub fn validate_fs(&self, plat: &Platform) -> (r: Result<(), PathError>)
        requires
            plat.os == self.0.os,
        ensures
            r matches Err(e) ==> ((e matches PathError::DoesNotExist { path } && path@
                == spec_display(*plat, self.0.path@, true)) || (e matches PathError::NotAFolder {
                path,
            } && path@ == spec_display(*plat, self.0.path@, true))),
    {
        let found = crate::fs::fs_exists(self.0.as_str());
        let is_dir = crate::fs::fs_is_dir(self.0.as_str());
        crate::fs::folder_probe_verdict(found, is_dir, self.0.display_string(plat))
    }

    /// Strip a folder prefix, leaving the relative remainder.
    pub fn removing_root(&self, root: &AbsoluteFolderPath) -> (r: Option<RelativeFolderPath>)
        ensures
            r is Some <==> (root.0.path@.len() <= self.0.path@.len() && self.0.path@.take(
                root.0.path@.len() as int,
            ) == root.0.path@),
            r matches Some(p) ==> p.0.os == self.0.os && p.0.path@ == self.0.path@.skip(
                root.0.path@.len() as int,
            ),
    {
        match self.0.remove_root(root.0.as_str()) {
            Some(p) => Some(RelativeFolderPath(p)),
            None => None,
        }
    }

    /// Append a relative file, yielding the absolute file it names.
    pub fn with_file(&self, file: &RelativeFilePath) -> (r: AbsoluteFilePath)
        ensures
            r.0.os == self.0.os,
            r.0.path@ == self.0.path@ + file.0.path@,
            crate::laws::concat_keeps_canonical(self.0.path@, file.0.path@, self.0.os)
                ==> r.0.strong(),
    {
        proof {
            if crate::laws::concat_keeps_canonical(self.0.path@, file.0.path@, self.0.os) {
                crate::laws::lemma_concat_strong(self.0.path@, file.0.path@, self.0.os);
            }
        }
        AbsoluteFilePath(self.0.appending(file.0.as_str()))
    }

    /// Append a relative folder.
    pub fn with_folder(&self, folder: &RelativeFolderPath) -> (r: AbsoluteFolderPath)
        ensures
            r.0.os == self.0.os,
            r.0.path@ == self.0.path@ + folder.0.path@,
            crate::laws::concat_keeps_canonical(self.0.path@, folder.0.path@, self.0.os)
                ==> r.0.strong(),
    {
        proof {
            if crate::laws::concat_keeps_canonical(self.0.path@, folder.0.path@, self.0.os) {
                crate::laws::lemma_concat_strong(self.0.path@, folder.0.path@, self.0.os);
            }
        }
        AbsoluteFolderPath(self.0.appending(folder.0.as_str()))
    }

    /// Widen to a path that may be folder or file.
    pub fn to_absolute(&self) -> (r: AbsolutePath)
        ensures
            same_inner(r.0, self.0),
    {
        AbsolutePath(PathInner { path: self.0.path.clone(), os: self.0.os })
    }

    /// Parse a path known to name a folder: a missing trailing separator
    /// is appended rather than rejected.
    pub fn try_from_folder(plat: &Platform, path: &str) -> (r: Result<AbsoluteFolderPath, PathError>)
        requires
            plat.wf(),
        ensures
            r is Ok <==> (spec_new(*plat, path@) matches Ok(t) && spec_is_absolute(t, plat.os)),
            r matches Ok(p) ==> p.0.os == plat.os && p.0.strong() && ({
                let t = spec_new(*plat, path@)->Ok_0;
                p.0.path@ == if t.len() > 0 && crate::chars::spec_is_slash(t.last()) {
                    t
                } else {
                    t.push(crate::platform::spec_sep(plat.os))
                }
            }),
            r matches Err(e) ==> match spec_new(*plat, path@) {
                Err(t) => err_matches(e, t),
                Ok(t) => !spec_is_absolute(t, plat.os) && e is NotAbsolute,
            },
    {
        let inner = match PathInner::new(plat, path) {
            Ok(p) => p,
            Err(e) => {
                return Err(e);
            },
        };
        match inner.ensure_absolute(plat) {
            Ok(()) => {},
            Err(e) => {
                return Err(e);
            },
        }
        let v = crate::strutil::chars_of(inner.as_str());
        let ends = v.len() >= 1 && crate::chars::is_slash(v[v.len() - 1]);
        proof {
            if v@.len() >= 1 {
                assert(v@[v@.len() - 1] == v@.last());
            }
        }
        if ends {
            Ok(AbsoluteFolderPath(inner))
        } else {
            let mut v2 = v;
            v2.push(crate::platform::sep_of(plat.os));
            proof {
                let text = inner.path@;
                let os = plat.os;
                crate::ops::lemma_decompose(text, os);
                let segs = crate::inner::spec_segments(text, os);
                crate::inner::lemma_render_strong(
                    os,
                    crate::inner::spec_drive_prefix(text, os),
                    crate::inner::spec_has_root(text, os),
                    segs,
                    true,
                );
                assert(crate::inner::spec_rel(text, os).len() > 0 ==> crate::inner::spec_rel(
                    text,
                    os,
                ).last() == text.last());
                assert(v2@ =~= text.push(crate::platform::spec_sep(os)));
                assert(crate::inner::spec_render(
                    os,
                    crate::inner::spec_drive_prefix(text, os),
                    crate::inner::spec_has_root(text, os),
                    segs,
                    true,
                ) =~= v2@);
            }
            Ok(AbsoluteFolderPath(PathInner { path: crate::strutil::string_of(&v2), os: inner.os }))
        }
    }
}

impl AbsoluteFilePath {
    /// Does a regular file stand at this path on disk? The two probe
    /// answers are combined by the verified conjunction.
    pub fn exists_on_disk(&self) -> bool {
        let found = crate::fs::fs_exists(self.0.as_str());
        let is_file = crate::fs::fs_is_file(self.0.as_str());
        crate::fs::probe_conjunction(found, is_file)
    }

    /// Fail unless a regular file stands at this path on disk: the verdict
    /// over the two probe answers, with the contracted display in the
    /// error.
    pub fn validate_fs(&self, plat: &Platform) -> (r: Result<(), PathError>)
        requires
            plat.os == self.0.os,
        ensures
            r matches Err(e) ==> ((e matches PathError::DoesNotExist { path } && path@
                == spec_display(*plat, self.0.path@, true)) || (e matches PathError::NotAFile {
                path,
            } && path@ == spec_display(*plat, self.0.path@, true))),
    {
        let found = crate::fs::fs_exists(self.0.as_str());
        let is_file = crate::fs::fs_is_file(self.0.as_str());
        crate::fs::file_probe_verdict(found, is_file, self.0.display_string(plat))
    }

    /// The folder this file stands in: the text up to the filename.
    pub fn dropping_file(&self) -> (r: AbsoluteFolderPath)
        ensures
            r.0.os == self.0.os,
            r.0.path@ == self.0.path@.take(crate::ops::spec_file_name_start(self.0.path@, self.0.os)),
            self.0.strong() ==> r.0.strong(),
    {
        proof {
            if self.0.strong() {
                crate::ops::lemma_drop_file_strong(self.0.path@, self.0.os);
            }
        }
        let v = crate::strutil::chars_of(self.0.as_str());
        let start = self.0.file_name_start();
        let head = crate::expand::sub_chars(&v, 0, start);
        proof {
            assert(head@ =~= self.0.path@.take(crate::ops::spec_file_name_start(self.0.path@, self.0.os)));
        }
        AbsoluteFolderPath(PathInner { path: crate::strutil::string_of(&head), os: self.0.os })
    }

    /// Strip a folder prefix, leaving the relative file.
    pub fn removing_root(&self, root: &AbsoluteFolderPath) -> (r: Option<RelativeFilePath>)
        ensures
            r is Some <==> (root.0.path@.len() <= self.0.path@.len() && self.0.path@.take(
                root.0.path@.len() as int,
            ) == root.0.path@),
            r matches Some(p) ==> p.0.os == self.0.os && p.0.path@ == self.0.path@.skip(
                root.0.path@.len() as int,
            ),
    {
        match self.0.remove_root(root.0.as_str()) {
            Some(p) => Some(RelativeFilePath(p)),
            None => None,
        }
    }

    /// The segments from the given index on, as a plain relative folder.
    pub fn to_relative(self, from_segment_index: usize) -> (r: RelativeFolderPath)
        ensures
            r.0.os == self.0.os,
            ({
                let segs = crate::resolve::drop_empty(crate::inner::spec_segments(self.0.path@, self.0.os));
                let ss = if from_segment_index <= segs.len() {
                    segs.skip(from_segment_index as int)
                } else {
                    Seq::<Seq<char>>::empty()
                };
                r.0.path@ == crate::strutil::seq_join(ss, crate::platform::spec_sep(self.0.os))
            }),
    {
        RelativeFolderPath(self.0.relative_from(from_segment_index))
    }

    /// Widen to a path that may be folder or file.
    pub fn to_absolute(self) -> (r: AbsolutePath)
        ensures
            same_inner(r.0, self.0),
    {
        AbsolutePath(self.0)
    }

    /// Widen to a file that may be absolute or relative.
    pub fn to_any_file(self) -> (r: AnyFilePath)
        ensures
            same_inner(r.0, self.0),
    {
        AnyFilePath(self.0)
    }
}

impl AbsolutePath {
    /// Does anything stand at this path on disk? The one probe answer is
    /// returned unchanged; there is nothing to decide.
    pub fn exists_on_disk(&self) -> bool {
        crate::fs::fs_exists(self.0.as_str())
    }

    /// Fail unless something stands at this path on disk: the verdict over
    /// the one probe answer, with the contracted display in the error.
    pub fn validate_fs(&self, plat: &Platform) -> (r: Result<(), PathError>)
        requires
            plat.os == self.0.os,
        ensures
            r matches Err(e) ==> (e matches PathError::DoesNotExist { path } && path@
                == spec_display(*plat, self.0.path@, true)),
    {
        let found = crate::fs::fs_exists(self.0.as_str());
        crate::fs::exists_probe_verdict(found, self.0.display_string(plat))
    }

    /// Narrow by inspection: a folder or a file, both absolute.
    pub fn to_concrete(self) -> (r: ConcretePath)
        ensures
            spec_is_folder(self.0.path@) ==> (r matches ConcretePath::AbsFolder(p) && same_inner(
                p.0,
                self.0,
            )),
            !spec_is_folder(self.0.path@) ==> (r matches ConcretePath::AbsFile(p) && same_inner(
                p.0,
                self.0,
            )),
    {
        if self.0.is_folder() {
            ConcretePath::AbsFolder(AbsoluteFolderPath(self.0))
        } else {
            ConcretePath::AbsFile(AbsoluteFilePath(self.0))
        }
    }

    /// Widen to a path of any kind.
    pub fn to_any(self) -> (r: AnyPath)
        ensures
            same_inner(r.0, self.0),
    {
        AnyPath(self.0)
    }
}

impl RelativePath {
    /// Narrow by inspection: a folder or a file, both relative.
    pub fn to_concrete(&self) -> (r: ConcretePath)
        ensures
            spec_is_folder(self.0.path@) ==> (r matches ConcretePath::RelFolder(p) && same_inner(
                p.0,
                self.0,
            )),
            !spec_is_folder(self.0.path@) ==> (r matches ConcretePath::RelFile(p) && same_inner(
                p.0,
                self.0,
            )),
    {
        let me = PathInner { path: self.0.path.clone(), os: self.0.os };
        if self.0.is_folder() {
            ConcretePath::RelFolder(RelativeFolderPath(me))
        } else {
            ConcretePath::RelFile(RelativeFilePath(me))
        }
    }

    /// Widen to a path of any kind.
    pub fn to_any(&self) -> (r: AnyPath)
        ensures
            same_inner(r.0, self.0),
    {
        AnyPath(PathInner { path: self.0.path.clone(), os: self.0.os })
    }
}

impl RelativeFilePath {
    /// The folder this file stands in.
    pub fn dropping_file(&self) -> (r: RelativeFolderPath)
        ensures
            r.0.os == self.0.os,
            r.0.path@ == self.0.path@.take(crate::ops::spec_file_name_start(self.0.path@, self.0.os)),
            self.0.strong() ==> r.0.strong(),
    {
        proof {
            if self.0.strong() {
                crate::ops::lemma_drop_file_strong(self.0.path@, self.0.os);
            }
        }
        let v = crate::strutil::chars_of(self.0.as_str());
        let start = self.0.file_name_start();
        let head = crate::expand::sub_chars(&v, 0, start);
        proof {
            assert(head@ =~= self.0.path@.take(crate::ops::spec_file_name_start(self.0.path@, self.0.os)));
        }
        RelativeFolderPath(PathInner { path: crate::strutil::string_of(&head), os: self.0.os })
    }

    /// Put this file under an absolute folder.
    pub fn with_root(&self, root: &AbsoluteFolderPath) -> (r: AbsoluteFilePath)
        ensures
            r.0.os == self.0.os,
            r.0.path@ == root.0.path@ + self.0.path@,
            crate::laws::concat_keeps_canonical(root.0.path@, self.0.path@, self.0.os)
                ==> r.0.strong(),
    {
        proof {
            if crate::laws::concat_keeps_canonical(root.0.path@, self.0.path@, self.0.os) {
                crate::laws::lemma_concat_strong(root.0.path@, self.0.path@, self.0.os);
            }
        }
        AbsoluteFilePath(self.0.with_root(root.0.as_str()))
    }

    /// Widen to a relative path that may be folder or file.
    pub fn to_relative(&self) -> (r: RelativePath)
        ensures
            same_inner(r.0, self.0),
    {
        RelativePath(PathInner { path: self.0.path.clone(), os: self.0.os })
    }
}

impl RelativeFolderPath {
    /// Put this folder under an absolute folder.
    pub fn with_root(&self, root: &AbsoluteFolderPath) -> (r: AbsoluteFolderPath)
        ensures
            r.0.os == self.0.os,
            r.0.path@ == root.0.path@ + self.0.path@,
            crate::laws::concat_keeps_canonical(root.0.path@, self.0.path@, self.0.os)
                ==> r.0.strong(),
    {
        proof {
            if crate::laws::concat_keeps_canonical(root.0.path@, self.0.path@, self.0.os) {
                crate::laws::lemma_concat_strong(root.0.path@, self.0.path@, self.0.os);
            }
        }
        AbsoluteFolderPath(self.0.with_root(root.0.as_str()))
    }

    /// Append a relative file.
    pub fn with_file(&self, file: &RelativeFilePath) -> (r: RelativeFilePath)
        ensures
            r.0.os == self.0.os,
            r.0.path@ == self.0.path@ + file.0.path@,
            crate::laws::concat_keeps_canonical(self.0.path@, file.0.path@, self.0.os)
                ==> r.0.strong(),
    {
        proof {
            if crate::laws::concat_keeps_canonical(self.0.path@, file.0.path@, self.0.os) {
                crate::laws::lemma_concat_strong(self.0.path@, file.0.path@, self.0.os);
            }
        }
        RelativeFilePath(self.0.appending(file.0.as_str()))
    }

    /// Append a relative folder.
    pub fn with_folder(&self, folder: &RelativeFolderPath) -> (r: RelativeFolderPath)
        ensures
            r.0.os == self.0.os,
            r.0.path@ == self.0.path@ + folder.0.path@,
            crate::laws::concat_keeps_canonical(self.0.path@, folder.0.path@, self.0.os)
                ==> r.0.strong(),
    {
        proof {
            if crate::laws::concat_keeps_canonical(self.0.path@, folder.0.path@, self.0.os) {
                crate::laws::lemma_concat_strong(self.0.path@, folder.0.path@, self.0.os);
            }
        }
        RelativeFolderPath(self.0.appending(folder.0.as_str()))
    }

    /// Widen to a relative path that may be folder or file.
    pub fn to_relative(self) -> (r: RelativePath)
        ensures
            same_inner(r.0, self.0),
    {
        RelativePath(self.0)
    }
}

impl AnyFolderPath {
    /// Narrow by inspection: an absolute or a relative folder.
    pub fn to_concrete(&self) -> (r: ConcretePath)
        ensures
            spec_is_absolute(self.0.path@, self.0.os) ==> (r matches ConcretePath::AbsFolder(p)
                && same_inner(p.0, self.0)),
            !spec_is_absolute(self.0.path@, self.0.os) ==> (r matches ConcretePath::RelFolder(p)
                && same_inner(p.0, self.0)),
    {
        let me = PathInner { path: self.0.path.clone(), os: self.0.os };
        if self.0.is_absolute() {
            ConcretePath::AbsFolder(AbsoluteFolderPath(me))
        } else {
            ConcretePath::RelFolder(RelativeFolderPath(me))
        }
    }

    /// Anchor at the root when relative; keep an absolute folder as it is.
    pub fn to_absolute(&self, root: &AbsoluteFolderPath) -> (r: AbsoluteFolderPath)
        ensures
            spec_is_absolute(self.0.path@, self.0.os) ==> same_inner(r.0, self.0),
            !spec_is_absolute(self.0.path@, self.0.os) ==> (r.0.os == root.0.os && r.0.path@
                == root.0.path@ + self.0.path@),
    {
        if self.0.is_absolute() {
            AbsoluteFolderPath(PathInner { path: self.0.path.clone(), os: self.0.os })
        } else {
            AbsoluteFolderPath(root.0.appending(self.0.as_str()))
        }
    }

    /// Append a relative file, yielding a file of either kind.
    pub fn with_file(&self, file: &RelativeFilePath) -> (r: AnyFilePath)
        ensures
            r.0.os == self.0.os,
            r.0.path@ == self.0.path@ + file.0.path@,
            crate::laws::concat_keeps_canonical(self.0.path@, file.0.path@, self.0.os)
                ==> r.0.strong(),
    {
        proof {
            if crate::laws::concat_keeps_canonical(self.0.path@, file.0.path@, self.0.os) {
                crate::laws::lemma_concat_strong(self.0.path@, file.0.path@, self.0.os);
            }
        }
        AnyFilePath(self.0.appending(file.0.as_str()))
    }

    /// Append a relative folder.
    pub fn with_folder(&self, folder: &RelativeFolderPath) -> (r: AnyFolderPath)
        ensures
            r.0.os == self.0.os,
            r.0.path@ == self.0.path@ + folder.0.path@,
            crate::laws::concat_keeps_canonical(self.0.path@, folder.0.path@, self.0.os)
                ==> r.0.strong(),
    {
        proof {
            if crate::laws::concat_keeps_canonical(self.0.path@, folder.0.path@, self.0.os) {
                crate::laws::lemma_concat_strong(self.0.path@, folder.0.path@, self.0.os);
            }
        }
        AnyFolderPath(self.0.appending(folder.0.as_str()))
    }
}

impl AnyFilePath {
    /// Narrow by inspection: an absolute or a relative file.
    pub fn to_concrete(&self) -> (r: ConcretePath)
        ensures
            spec_is_absolute(self.0.path@, self.0.os) ==> (r matches ConcretePath::AbsFile(p)
                && same_inner(p.0, self.0)),
            !spec_is_absolute(self.0.path@, self.0.os) ==> (r matches ConcretePath::RelFile(p)
                && same_inner(p.0, self.0)),
    {
        let me = PathInner { path: self.0.path.clone(), os: self.0.os };
        if self.0.is_absolute() {
            ConcretePath::AbsFile(AbsoluteFilePath(me))
        } else {
            ConcretePath::RelFile(RelativeFilePath(me))
        }
    }

    /// Anchor at the root when relative; keep an absolute file as it is.
    pub fn to_absolute_file(&self, root: &AbsoluteFolderPath) -> (r: AbsoluteFilePath)
        ensures
            spec_is_absolute(self.0.path@, self.0.os) ==> same_inner(r.0, self.0),
            !spec_is_absolute(self.0.path@, self.0.os) ==> (r.0.os == root.0.os && r.0.path@
                == root.0.path@ + self.0.path@),
    {
        if self.0.is_absolute() {
            AbsoluteFilePath(PathInner { path: self.0.path.clone(), os: self.0.os })
        } else {
            AbsoluteFilePath(root.0.appending(self.0.as_str()))
        }
    }

    /// The folder this file stands in.
    pub fn drop_file(&self) -> (r: AnyFolderPath)
        ensures
            r.0.os == self.0.os,
            r.0.path@ == self.0.path@.take(crate::ops::spec_file_name_start(self.0.path@, self.0.os)),
            self.0.strong() ==> r.0.strong(),
    {
        proof {
            if self.0.strong() {
                crate::ops::lemma_drop_file_strong(self.0.path@, self.0.os);
            }
        }
        let v = crate::strutil::chars_of(self.0.as_str());
        let start = self.0.file_name_start();
        let head = crate::expand::sub_chars(&v, 0, start);
        proof {
            assert(head@ =~= self.0.path@.take(crate::ops::spec_file_name_start(self.0.path@, self.0.os)));
        }
        AnyFolderPath(PathInner { path: crate::strutil::string_of(&head), os: self.0.os })
    }
}

impl AnyPath {
    /// Is this path absolute?
    pub fn is_absolute(&self) -> (r: bool)
        ensures
            r == spec_is_absolute(self.0.path@, self.0.os),
    {
        self.0.is_absolute()
    }

    /// Is this path relative?
    pub fn is_relative(&self) -> (r: bool)
        ensures
            r == !spec_is_absolute(self.0.path@, self.0.os),
    {
        self.0.is_relative()
    }

    /// Does this path denote a folder?
    pub fn is_folder(&self) -> (r: bool)
        ensures
            r == spec_is_folder(self.0.path@),
    {
        self.0.is_folder()
    }

    /// Does this path denote a file?
    pub fn is_file(&self) -> (r: bool)
        ensures
            r == !spec_is_folder(self.0.path@),
    {
        self.0.is_file()
    }

    /// Narrow by inspection to the concrete corner of the lattice.
    pub fn to_concrete(self) -> (r: ConcretePath)
        ensures
            ({
                let abs = spec_is_absolute(self.0.path@, self.0.os);
                let fol = spec_is_folder(self.0.path@);
                match r {
                    ConcretePath::AbsFolder(p) => abs && fol && same_inner(p.0, self.0),
                    ConcretePath::RelFolder(p) => !abs && fol && same_inner(p.0, self.0),
                    ConcretePath::AbsFile(p) => abs && !fol && same_inner(p.0, self.0),
                    ConcretePath::RelFile(p) => !abs && !fol && same_inner(p.0, self.0),
                }
            }),
    {
        let abs = self.0.is_absolute();
        let fol = self.0.is_folder();
        if abs && fol {
            ConcretePath::AbsFolder(AbsoluteFolderPath(self.0))
        } else if fol {
            ConcretePath::RelFolder(RelativeFolderPath(self.0))
        } else if abs {
            ConcretePath::AbsFile(AbsoluteFilePath(self.0))
        } else {
            ConcretePath::RelFile(RelativeFilePath(self.0))
        }
    }
}

} // verus!
