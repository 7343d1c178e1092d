//! The compact wrapper family over the canonical path value: the same
//! lattice corners under short names, each with the conversions that make
//! sense from its corner.

use vstd::prelude::*;

use crate::display::{spec_debug, spec_display};
use crate::error::{err_matches, PathError, SpecErr};
use crate::inner::{spec_is_absolute, spec_is_folder, spec_new, PathInner};
use crate::paths_long::{same_inner, wrap_name, ConcretePath};
use crate::platform::Platform;
use crate::segiter::Segments;

verus! {

/// A path of the `AbsDir` corner of the lattice, under its short name.
#[derive(Clone, Debug)]
pub struct AbsDir(pub PathInner);

/// A path of the `AbsFile` corner of the lattice, under its short name.
#[derive(Clone, Debug)]
pub struct AbsFile(pub PathInner);

/// A path of the `AbsPath` corner of the lattice, under its short name.
#[derive(Clone, Debug)]
pub struct AbsPath(pub PathInner);

/// A path of the `RelDir` corner of the lattice, under its short name.
#[derive(Clone, Debug)]
pub struct RelDir(pub PathInner);

/// A path of the `RelFile` corner of the lattice, under its short name.
#[derive(Clone, Debug)]
pub struct RelFile(pub PathInner);

/// A path of the `RelPath` corner of the lattice, under its short name.
#[derive(Clone, Debug)]
pub struct RelPath(pub PathInner);

/// A path of the `AnyDir` corner of the lattice, under its short name.
#[derive(Clone, Debug)]
pub struct AnyDir(pub PathInner);

/// A path of the `AnyFile` corner of the lattice, under its short name.
#[derive(Clone, Debug)]
pub struct AnyFile(pub PathInner);

impl AbsDir {
    /// Parse a raw path and demand the kind this type stands for.
    pub fn new(plat: &Platform, path: &str) -> (r: Result<AbsDir, PathError>)
        requires
            plat.wf(),
        ensures
            r matches Ok(p) ==> Ok::<Seq<char>, SpecErr>(p.0.path@) == spec_new(*plat, path@)
                && p.0.os == plat.os && p.0.strong(),
            r is Ok <==> (spec_new(*plat, path@) matches Ok(t) && spec_is_absolute(t, plat.os) && spec_is_folder(t)),
            r matches Err(e) ==> match spec_new(*plat, path@) {
                Err(t) => err_matches(e, t),
                Ok(t) =>
                    (!(spec_is_absolute(t, plat.os)) ==> e is NotAbsolute) &&
                    (spec_is_absolute(t, plat.os) && !(spec_is_folder(t)) ==> e is NotFolder),
            },
    {
        let inner = match PathInner::new(plat, path) {
            Ok(p) => p,
            Err(e) => {
                return Err(e);
            },
        };
        match inner.ensure_absolute(plat) {
            Ok(()) => {},
            Err(e) => {
                return Err(e);
            },
        }
        match inner.ensure_folder(plat) {
            Ok(()) => {},
            Err(e) => {
                return Err(e);
            },
        }
        Ok(AbsDir(inner))
    }

    /// The canonical text.
    pub fn as_str(&self) -> (r: &str)
        ensures
            r@ == self.0.path@,
    {
        self.0.as_str()
    }

    /// A cursor over the segments of the relative portion.
    pub fn segments(&self) -> (r: Segments)
        ensures
            crate::segiter::str_views(r.parts@) == crate::resolve::drop_empty(
                crate::inner::spec_segments(self.0.path@, self.0.os),
            ),
            r.cursor() == -1,
            r.wf(),
    {
        self.0.segments()
    }

    /// The wrapped contracted debug form.
    pub fn debug_string(&self, plat: &Platform) -> (r: String)
        requires
            plat.os == self.0.os,
        ensures
            r@ == "AbsDir("@ + spec_debug(*plat, self.0.path@, true) + seq![')'],
    {
        let body = self.0.debug_string(plat);
        wrap_name("AbsDir(", &body)
    }

    /// The contracted display form.
    pub fn display_string(&self, plat: &Platform) -> (r: String)
        requires
            plat.os == self.0.os,
        ensures
            r@ == spec_display(*plat, self.0.path@, true),
    {
        self.0.display_string(plat)
    }
}

impl AbsFile {
    /// Parse a raw path and demand the kind this type stands for.
    pub fn new(plat: &Platform, path: &str) -> (r: Result<AbsFile, PathError>)
        requires
            plat.wf(),
        ensures
            r matches Ok(p) ==> Ok::<Seq<char>, SpecErr>(p.0.path@) == spec_new(*plat, path@)
                && p.0.os == plat.os && p.0.strong(),
            r is Ok <==> (spec_new(*plat, path@) matches Ok(t) && spec_is_absolute(t, plat.os) && !spec_is_folder(t)),
            r matches Err(e) ==> match spec_new(*plat, path@) {
                Err(t) => err_matches(e, t),
                Ok(t) =>
                    (!(spec_is_absolute(t, plat.os)) ==> e is NotAbsolute) &&
                    (spec_is_absolute(t, plat.os) && !(!spec_is_folder(t)) ==> e is NotFile),
            },
    {
        let inner = match PathInner::new(plat, path) {
            Ok(p) => p,
            Err(e) => {
                return Err(e);
            },
        };
        match inner.ensure_absolute(plat) {
            Ok(()) => {},
            Err(e) => {
                return Err(e);
            },
        }
        match inner.ensure_file(plat) {
            Ok(()) => {},
            Err(e) => {
                return Err(e);
            },
        }
        Ok(AbsFile(inner))
    }

    /// The canonical text.
    pub fn as_str(&self) -> (r: &str)
        ensures
            r@ == self.0.path@,
    {
        self.0.as_str()
    }

    /// A cursor over the segments of the relative portion.
    pub fn segments(&self) -> (r: Segments)
        ensures
            crate::segiter::str_views(r.parts@) == crate::resolve::drop_empty(
                crate::inner::spec_segments(self.0.path@, self.0.os),
            ),
            r.cursor() == -1,
            r.wf(),
    {
        self.0.segments()
    }

    /// The wrapped contracted debug form.
    pub fn debug_string(&self, plat: &Platform) -> (r: String)
        requires
            plat.os == self.0.os,
        ensures
            r@ == "AbsFile("@ + spec_debug(*plat, self.0.path@, true) + seq![')'],
    {
        let body = self.0.debug_string(plat);
        wrap_name("AbsFile(", &body)
    }

    /// The contracted display form.
    pub fn display_string(&self, plat: &Platform) -> (r: String)
        requires
            plat.os == self.0.os,
        ensures
            r@ == spec_display(*plat, self.0.path@, true),
    {
        self.0.display_string(plat)
    }
}

impl AbsPath {
    /// Parse a raw path and demand the kind this type stands for.
    pub fn new(plat: &Platform, path: &str) -> (r: Result<AbsPath, PathError>)
        requires
            plat.wf(),
        ensures
            r matches Ok(p) ==> Ok::<Seq<char>, SpecErr>(p.0.path@) == spec_new(*plat, path@)
                && p.0.os == plat.os && p.0.strong(),
            r is Ok <==> (spec_new(*plat, path@) matches Ok(t) && spec_is_absolute(t, plat.os)),
            r matches Err(e) ==> match spec_new(*plat, path@) {
                Err(t) => err_matches(e, t),
                Ok(t) =>
                    (!(spec_is_absolute(t, plat.os)) ==> e is NotAbsolute),
            },
    {
        let inner = match PathInner::new(plat, path) {
            Ok(p) => p,
            Err(e) => {
                return Err(e);
            },
        };
        match inner.ensure_absolute(plat) {
            Ok(()) => {},
            Err(e) => {
                return Err(e);
            },
        }
        Ok(AbsPath(inner))
    }

    /// The canonical text.
    pub fn as_str(&self) -> (r: &str)
        ensures
            r@ == self.0.path@,
    {
        self.0.as_str()
    }

    /// A cursor over the segments of the relative portion.
    pub fn segments(&self) -> (r: Segments)
        ensures
            crate::segiter::str_views(r.parts@) == crate::resolve::drop_empty(
                crate::inner::spec_segments(self.0.path@, self.0.os),
            ),
            r.cursor() == -1,
            r.wf(),
    {
        self.0.segments()
    }

    /// The wrapped contracted debug form.
    pub fn debug_string(&self, plat: &Platform) -> (r: String)
        requires
            plat.os == self.0.os,
        ensures
            r@ == "AbsPath("@ + spec_debug(*plat, self.0.path@, true) + seq![')'],
    {
        let body = self.0.debug_string(plat);
        wrap_name("AbsPath(", &body)
    }

    /// The contracted display form.
    pub fn display_string(&self, plat: &Platform) -> (r: String)
        requires
            plat.os == self.0.os,
        ensures
            r@ == spec_display(*plat, self.0.path@, true),
    {
        self.0.display_string(plat)
    }
}

impl RelDir {
    /// Parse a raw path and demand the kind this type stands for.
    pub fn new(plat: &Platform, path: &str) -> (r: Result<RelDir, PathError>)
        requires
            plat.wf(),
        ensures
            r matches Ok(p) ==> Ok::<Seq<char>, SpecErr>(p.0.path@) == spec_new(*plat, path@)
                && p.0.os == plat.os && p.0.strong(),
            r is Ok <==> (spec_new(*plat, path@) matches Ok(t) && !spec_is_absolute(t, plat.os) && spec_is_folder(t)),
            r matches Err(e) ==> match spec_new(*plat, path@) {
                Err(t) => err_matches(e, t),
                Ok(t) =>
                    (!(!spec_is_absolute(t, plat.os)) ==> e is NotRelative) &&
                    (!spec_is_absolute(t, plat.os) && !(spec_is_folder(t)) ==> e is NotFolder),
            },
    {
        let inner = match PathInner::new(plat, path) {
            Ok(p) => p,
            Err(e) => {
                return Err(e);
            },
        };
        match inner.ensure_relative(plat) {
            Ok(()) => {},
            Err(e) => {
                return Err(e);
            },
        }
        match inner.ensure_folder(plat) {
            Ok(()) => {},
            Err(e) => {
                return Err(e);
            },
        }
        Ok(RelDir(inner))
    }

    /// The canonical text.
    pub fn as_str(&self) -> (r: &str)
        ensures
            r@ == self.0.path@,
    {
        self.0.as_str()
    }

    /// A cursor over the segments of the relative portion.
    pub fn segments(&self) -> (r: Segments)
        ensures
            crate::segiter::str_views(r.parts@) == crate::resolve::drop_empty(
                crate::inner::spec_segments(self.0.path@, self.0.os),
            ),
            r.cursor() == -1,
            r.wf(),
    {
        self.0.segments()
    }

    /// The wrapped contracted debug form.
    pub fn debug_string(&self, plat: &Platform) -> (r: String)
        requires
            plat.os == self.0.os,
        ensures
            r@ == "RelDir("@ + spec_debug(*plat, self.0.path@, true) + seq![')'],
    {
        let body = self.0.debug_string(plat);
        wrap_name("RelDir(", &body)
    }

    /// The contracted display form.
    pub fn display_string(&self, plat: &Platform) -> (r: String)
        requires
            plat.os == self.0.os,
        ensures
            r@ == spec_display(*plat, self.0.path@, true),
    {
        self.0.display_string(plat)
    }
}

impl RelFile {
    /// Parse a raw path and demand the kind this type stands for.
    pub fn new(plat: &Platform, path: &str) -> (r: Result<RelFile, PathError>)
        requires
            plat.wf(),
        ensures
            r matches Ok(p) ==> Ok::<Seq<char>, SpecErr>(p.0.path@) == spec_new(*plat, path@)
                && p.0.os == plat.os && p.0.strong(),
            r is Ok <==> (spec_new(*plat, path@) matches Ok(t) && !spec_is_absolute(t, plat.os) && !spec_is_folder(t)),
            r matches Err(e) ==> match spec_new(*plat, path@) {
                Err(t) => err_matches(e, t),
                Ok(t) =>
                    (!(!spec_is_absolute(t, plat.os)) ==> e is NotRelative) &&
                    (!spec_is_absolute(t, plat.os) && !(!spec_is_folder(t)) ==> e is NotFile),
            },
    {
        let inner = match PathInner::new(plat, path) {
            Ok(p) => p,
            Err(e) => {
                return Err(e);
            },
        };
        match inner.ensure_relative(plat) {
            Ok(()) => {},
            Err(e) => {
                return Err(e);
            },
        }
        match inner.ensure_file(plat) {
            Ok(()) => {},
            Err(e) => {
                return Err(e);
            },
        }
        Ok(RelFile(inner))
    }

    /// The canonical text.
    pub fn as_str(&self) -> (r: &str)
        ensures
            r@ == self.0.path@,
    {
        self.0.as_str()
    }

    /// A cursor over the segments of the relative portion.
    pub fn segments(&self) -> (r: Segments)
        ensures
            crate::segiter::str_views(r.parts@) == crate::resolve::drop_empty(
                crate::inner::spec_segments(self.0.path@, self.0.os),
            ),
            r.cursor() == -1,
            r.wf(),
    {
        self.0.segments()
    }

    /// The wrapped contracted debug form.
    pub fn debug_string(&self, plat: &Platform) -> (r: String)
        requires
            plat.os == self.0.os,
        ensures
            r@ == "RelFile("@ + spec_debug(*plat, self.0.path@, true) + seq![')'],
    {
        let body = self.0.debug_string(plat);
        wrap_name("RelFile(", &body)
    }

    /// The contracted display form.
    pub fn display_string(&self, plat: &Platform) -> (r: String)
        requires
            plat.os == self.0.os,
        ensures
            r@ == spec_display(*plat, self.0.path@, true),
    {
        self.0.display_string(plat)
    }
}

impl RelPath {
    /// Parse a raw path and demand the kind this type stands for.
    pub fn new(plat: &Platform, path: &str) -> (r: Result<RelPath, PathError>)
        requires
            plat.wf(),
        ensures
            r matches Ok(p) ==> Ok::<Seq<char>, SpecErr>(p.0.path@) == spec_new(*plat, path@)
                && p.0.os == plat.os && p.0.strong(),
            r is Ok <==> (spec_new(*plat, path@) matches Ok(t) && !spec_is_absolute(t, plat.os)),
            r matches Err(e) ==> match spec_new(*plat, path@) {
                Err(t) => err_matches(e, t),
                Ok(t) =>
                    (!(!spec_is_absolute(t, plat.os)) ==> e is NotRelative),
            },
    {
        let inner = match PathInner::new(plat, path) {
            Ok(p) => p,
            Err(e) => {
                return Err(e);
            },
        };
        match inner.ensure_relative(plat) {
            Ok(()) => {},
            Err(e) => {
                return Err(e);
            },
        }
        Ok(RelPath(inner))
    }

    /// The canonical text.
    pub fn as_str(&self) -> (r: &str)
        ensures
            r@ == self.0.path@,
    {
        self.0.as_str()
    }

    /// A cursor over the segments of the relative portion.
    pub fn segments(&self) -> (r: Segments)
        ensures
            crate::segiter::str_views(r.parts@) == crate::resolve::drop_empty(
                crate::inner::spec_segments(self.0.path@, self.0.os),
            ),
            r.cursor() == -1,
            r.wf(),
    {
        self.0.segments()
    }

    /// The wrapped contracted debug form.
    pub fn debug_string(&self, plat: &Platform) -> (r: String)
        requires
            plat.os == self.0.os,
        ensures
            r@ == "RelPath("@ + spec_debug(*plat, self.0.path@, true) + seq![')'],
    {
        let body = self.0.debug_string(plat);
        wrap_name("RelPath(", &body)
    }

    /// The contracted display form.
    pub fn display_string(&self, plat: &Platform) -> (r: String)
        requires
            plat.os == self.0.os,
        ensures
            r@ == spec_display(*plat, self.0.path@, true),
    {
        self.0.display_string(plat)
    }
}

impl AnyDir {
    /// Parse a raw path and demand the kind this type stands for.
    pub fn new(plat: &Platform, path: &str) -> (r: Result<AnyDir, PathError>)
        requires
            plat.wf(),
        ensures
            r matches Ok(p) ==> Ok::<Seq<char>, SpecErr>(p.0.path@) == spec_new(*plat, path@)
                && p.0.os == plat.os && p.0.strong(),
            r is Ok <==> (spec_new(*plat, path@) matches Ok(t) && spec_is_folder(t)),
            r matches Err(e) ==> match spec_new(*plat, path@) {
                Err(t) => err_matches(e, t),
                Ok(t) =>
                    (!(spec_is_folder(t)) ==> e is NotFolder),
            },
    {
        let inner = match PathInner::new(plat, path) {
            Ok(p) => p,
            Err(e) => {
                return Err(e);
            },
        };
        match inner.ensure_folder(plat) {
            Ok(()) => {},
            Err(e) => {
                return Err(e);
            },
        }
        Ok(AnyDir(inner))
    }

    /// The canonical text.
    pub fn as_str(&self) -> (r: &str)
        ensures
            r@ == self.0.path@,
    {
        self.0.as_str()
    }

    /// A cursor over the segments of the relative portion.
    pub fn segments(&self) -> (r: Segments)
        ensures
            crate::segiter::str_views(r.parts@) == crate::resolve::drop_empty(
                crate::inner::spec_segments(self.0.path@, self.0.os),
            ),
            r.cursor() == -1,
            r.wf(),
    {
        self.0.segments()
    }

    /// The wrapped contracted debug form.
    pub fn debug_string(&self, plat: &Platform) -> (r: String)
        requires
            plat.os == self.0.os,
        ensures
            r@ == "AnyDir("@ + spec_debug(*plat, self.0.path@, true) + seq![')'],
    {
        let body = self.0.debug_string(plat);
        wrap_name("AnyDir(", &body)
    }

    /// The contracted display form.
    pub fn display_string(&self, plat: &Platform) -> (r: String)
        requires
            plat.os == self.0.os,
        ensures
            r@ == spec_display(*plat, self.0.path@, true),
    {
        self.0.display_string(plat)
    }
}

impl AnyFile {
    /// Parse a raw path and demand the kind this type stands for.
    pub fn new(plat: &Platform, path: &str) -> (r: Result<AnyFile, PathError>)
        requires
            plat.wf(),
        ensures
            r matches Ok(p) ==> Ok::<Seq<char>, SpecErr>(p.0.path@) == spec_new(*plat, path@)
                && p.0.os == plat.os && p.0.strong(),
            r is Ok <==> (spec_new(*plat, path@) matches Ok(t) && !spec_is_folder(t)),
            r matches Err(e) ==> match spec_new(*plat, path@) {
                Err(t) => err_matches(e, t),
                Ok(t) =>
                    (!(!spec_is_folder(t)) ==> e is NotFile),
            },
    {
        let inner = match PathInner::new(plat, path) {
            Ok(p) => p,
            Err(e) => {
                return Err(e);
            },
        };
        match inner.ensure_file(plat) {
            Ok(()) => {},
            Err(e) => {
                return Err(e);
            },
        }
        Ok(AnyFile(inner))
    }

    /// The canonical text.
    pub fn as_str(&self) -> (r: &str)
        ensures
            r@ == self.0.path@,
    {
        self.0.as_str()
    }

    /// A cursor over the segments of the relative portion.
    pub fn segments(&self) -> (r: Segments)
        ensures
            crate::segiter::str_views(r.parts@) == crate::resolve::drop_empty(
                crate::inner::spec_segments(self.0.path@, self.0.os),
            ),
            r.cursor() == -1,
            r.wf(),
    {
        self.0.segments()
    }

    /// The wrapped contracted debug form.
    pub fn debug_string(&self, plat: &Platform) -> (r: String)
        requires
            plat.os == self.0.os,
        ensures
            r@ == "AnyFile("@ + spec_debug(*plat, self.0.path@, true) + seq![')'],
    {
        let body = self.0.debug_string(plat);
        wrap_name("AnyFile(", &body)
    }

    /// The contracted display form.
    pub fn display_string(&self, plat: &Platform) -> (r: String)
        requires
            plat.os == self.0.os,
        ensures
            r@ == spec_display(*plat, self.0.path@, true),
    {
        self.0.display_string(plat)
    }
}

impl AbsDir {
    /// Fail unless a directory stands at this path on disk: the verdict
    /// over the two probe answers, with the contracted display in the
    /// error.
    pub fn exists_on_disk(&self, plat: &Platform) -> (r: Result<(), PathError>)
        requires
            plat.os == self.0.os,
        ensures
            r matches Err(e) ==> ((e matches PathError::DoesNotExist { path } && path@
                == spec_display(*plat, self.0.path@, true)) || (e matches PathError::NotAFolder {
                path,
            } && path@ == spec_display(*plat, self.0.path@, true))),
    {
        let found = crate::fs::fs_exists(self.0.as_str());
        let is_dir = crate::fs::fs_is_dir(self.0.as_str());
        crate::fs::folder_probe_verdict(found, is_dir, self.0.display_string(plat))
    }

    /// Append a relative file, yielding the absolute file it names.
    pub fn with_file(&self, file: &RelFile) -> (r: AbsFile)
        ensures
            r.0.os == self.0.os,
            r.0.path@ == self.0.path@ + file.0.path@,
    {
        AbsFile(self.0.appending(file.0.as_str()))
    }

    /// Strip a folder prefix, leaving the relative remainder.
    pub fn remove_root(&self, root: &AbsDir) -> (r: Option<RelDir>)
        ensures
            r is Some <==> (root.0.path@.len() <= self.0.path@.len() && self.0.path@.take(
                root.0.path@.len() as int,
            ) == root.0.path@),
            r matches Some(p) ==> p.0.os == self.0.os && p.0.path@ == self.0.path@.skip(
                root.0.path@.len() as int,
            ),
    {
        match self.0.remove_root(root.0.as_str()) {
            Some(p) => Some(RelDir(p)),
            None => None,
        }
    }
}

impl AbsFile {
    /// Fail unless a regular file stands at this path on disk: the verdict
    /// over the two probe answers, with the contracted display in the
    /// error.
    pub fn exists_on_disk(&self, plat: &Platform) -> (r: Result<(), PathError>)
        requires
            plat.os == self.0.os,
        ensures
            r matches Err(e) ==> ((e matches PathError::DoesNotExist { path } && path@
                == spec_display(*plat, self.0.path@, true)) || (e matches PathError::NotAFile {
                path,
            } && path@ == spec_display(*plat, self.0.path@, true))),
    {
        let found = crate::fs::fs_exists(self.0.as_str());
        let is_file = crate::fs::fs_is_file(self.0.as_str());
        crate::fs::file_probe_verdict(found, is_file, self.0.display_string(plat))
    }

    /// The folder this file stands in.
    pub fn drop_file(&self) -> (r: AbsDir)
        ensures
            r.0.os == self.0.os,
            r.0.path@ == self.0.path@.take(crate::ops::spec_file_name_start(self.0.path@, self.0.os)),
            self.0.strong() ==> r.0.strong(),
    {
        proof {
            if self.0.strong() {
                crate::ops::lemma_drop_file_strong(self.0.path@, self.0.os);
            }
        }
        let v = crate::strutil::chars_of(self.0.as_str());
        let start = self.0.file_name_start();
        let head = crate::expand::sub_chars(&v, 0, start);
        proof {
            assert(head@ =~= self.0.path@.take(crate::ops::spec_file_name_start(self.0.path@, self.0.os)));
        }
        AbsDir(PathInner { path: crate::strutil::string_of(&head), os: self.0.os })
    }

    /// Strip a folder prefix, leaving the relative remainder.
    pub fn remove_root(&self, root: &AbsDir) -> (r: Option<RelDir>)
        ensures
            r is Some <==> (root.0.path@.len() <= self.0.path@.len() && self.0.path@.take(
                root.0.path@.len() as int,
            ) == root.0.path@),
            r matches Some(p) ==> p.0.os == self.0.os && p.0.path@ == self.0.path@.skip(
                root.0.path@.len() as int,
            ),
    {
        match self.0.remove_root(root.0.as_str()) {
            Some(p) => Some(RelDir(p)),
            None => None,
        }
    }

    /// The segments from the given index on, as a plain relative path.
    pub fn relative_from(&self, segment: usize) -> (r: RelDir)
        ensures
            r.0.os == self.0.os,
            ({
                let segs = crate::resolve::drop_empty(crate::inner::spec_segments(self.0.path@, self.0.os));
                let ss = if segment <= segs.len() {
                    segs.skip(segment as int)
                } else {
                    Seq::<Seq<char>>::empty()
                };
                r.0.path@ == crate::strutil::seq_join(ss, crate::platform::spec_sep(self.0.os))
            }),
    {
        RelDir(self.0.relative_from(segment))
    }
}

impl AbsPath {
    /// Fail unless something stands at this path on disk: the verdict over
    /// the one probe answer, with the contracted display in the error.
    pub fn exists_on_disk(&self, plat: &Platform) -> (r: Result<(), PathError>)
        requires
            plat.os == self.0.os,
        ensures
            r matches Err(e) ==> (e matches PathError::DoesNotExist { path } && path@
                == spec_display(*plat, self.0.path@, true)),
    {
        let found = crate::fs::fs_exists(self.0.as_str());
        crate::fs::exists_probe_verdict(found, self.0.display_string(plat))
    }

    /// Narrow by inspection: an absolute folder or an absolute file.
    pub fn to_concrete(self) -> (r: ConcretePath)
        ensures
            spec_is_folder(self.0.path@) ==> (r matches ConcretePath::AbsFolder(p) && same_inner(
                p.0,
                self.0,
            )),
            !spec_is_folder(self.0.path@) ==> (r matches ConcretePath::AbsFile(p) && same_inner(
                p.0,
                self.0,
            )),
    {
        if self.0.is_folder() {
            ConcretePath::AbsFolder(crate::paths_long::AbsoluteFolderPath(self.0))
        } else {
            ConcretePath::AbsFile(crate::paths_long::AbsoluteFilePath(self.0))
        }
    }
}

impl RelDir {
    /// Put this folder under an absolute folder.
    pub fn with_root(&self, root: &AbsDir) -> (r: AbsDir)
        ensures
            r.0.os == self.0.os,
            r.0.path@ == root.0.path@ + self.0.path@,
    {
        AbsDir(self.0.with_root(root.0.as_str()))
    }

    /// Append a relative file.
    pub fn with_file(&self, file: &RelFile) -> (r: RelFile)
        ensures
            r.0.os == self.0.os,
            r.0.path@ == self.0.path@ + file.0.path@,
    {
        RelFile(self.0.appending(file.0.as_str()))
    }
}

impl RelFile {
    /// The folder this file stands in.
    pub fn drop_file(&self) -> (r: RelDir)
        ensures
            r.0.os == self.0.os,
            r.0.path@ == self.0.path@.take(crate::ops::spec_file_name_start(self.0.path@, self.0.os)),
            self.0.strong() ==> r.0.strong(),
    {
        proof {
            if self.0.strong() {
                crate::ops::lemma_drop_file_strong(self.0.path@, self.0.os);
            }
        }
        let v = crate::strutil::chars_of(self.0.as_str());
        let start = self.0.file_name_start();
        let head = crate::expand::sub_chars(&v, 0, start);
        proof {
            assert(head@ =~= self.0.path@.take(crate::ops::spec_file_name_start(self.0.path@, self.0.os)));
        }
        RelDir(PathInner { path: crate::strutil::string_of(&head), os: self.0.os })
    }

    /// Put this file under an absolute folder.
    pub fn with_root(&self, root: &AbsDir) -> (r: AbsFile)
        ensures
            r.0.os == self.0.os,
            r.0.path@ == root.0.path@ + self.0.path@,
    {
        AbsFile(self.0.with_root(root.0.as_str()))
    }
}

impl RelPath {
    /// Narrow by inspection: a relative folder or a relative file.
    pub fn to_concrete(self) -> (r: ConcretePath)
        ensures
            spec_is_folder(self.0.path@) ==> (r matches ConcretePath::RelFolder(p) && same_inner(
                p.0,
                self.0,
            )),
            !spec_is_folder(self.0.path@) ==> (r matches ConcretePath::RelFile(p) && same_inner(
                p.0,
                self.0,
            )),
    {
        if self.0.is_folder() {
            ConcretePath::RelFolder(crate::paths_long::RelativeFolderPath(self.0))
        } else {
            ConcretePath::RelFile(crate::paths_long::RelativeFilePath(self.0))
        }
    }
}

impl AnyDir {
    /// Narrow by inspection: an absolute or a relative folder.
    pub fn to_concrete(self) -> (r: ConcretePath)
        ensures
            spec_is_absolute(self.0.path@, self.0.os) ==> (r matches ConcretePath::AbsFolder(p)
                && same_inner(p.0, self.0)),
            !spec_is_absolute(self.0.path@, self.0.os) ==> (r matches ConcretePath::RelFolder(p)
                && same_inner(p.0, self.0)),
    {
        if self.0.is_absolute() {
            ConcretePath::AbsFolder(crate::paths_long::AbsoluteFolderPath(self.0))
        } else {
            ConcretePath::RelFolder(crate::paths_long::RelativeFolderPath(self.0))
        }
    }

    /// Append a file of either kind.
    pub fn with_file(&self, file: &AnyFile) -> (r: AnyFile)
        ensures
            r.0.os == self.0.os,
            r.0.path@ == self.0.path@ + file.0.path@,
    {
        AnyFile(self.0.appending(file.0.as_str()))
    }
}

impl AnyFile {
    /// Narrow by inspection: an absolute or a relative file.
    pub fn to_concrete(self) -> (r: ConcretePath)
        ensures
            spec_is_absolute(self.0.path@, self.0.os) ==> (r matches ConcretePath::AbsFile(p)
                && same_inner(p.0, self.0)),
            !spec_is_absolute(self.0.path@, self.0.os) ==> (r matches ConcretePath::RelFile(p)
                && same_inner(p.0, self.0)),
    {
        if self.0.is_absolute() {
            ConcretePath::AbsFile(crate::paths_long::AbsoluteFilePath(self.0))
        } else {
            ConcretePath::RelFile(crate::paths_long::RelativeFilePath(self.0))
        }
    }

    /// The folder this file stands in.
    pub fn drop_file(&self) -> (r: AnyDir)
        ensures
            r.0.os == self.0.os,
            r.0.path@ == self.0.path@.take(crate::ops::spec_file_name_start(self.0.path@, self.0.os)),
            self.0.strong() ==> r.0.strong(),
    {
        proof {
            if self.0.strong() {
                crate::ops::lemma_drop_file_strong(self.0.path@, self.0.os);
            }
        }
        let v = crate::strutil::chars_of(self.0.as_str());
        let start = self.0.file_name_start();
        let head = crate::expand::sub_chars(&v, 0, start);
        proof {
            assert(head@ =~= self.0.path@.take(crate::ops::spec_file_name_start(self.0.path@, self.0.os)));
        }
        AnyDir(PathInner { path: crate::strutil::string_of(&head), os: self.0.os })
    }
}

} // verus!
