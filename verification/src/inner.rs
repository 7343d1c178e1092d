//! The canonical path value: an owned, normalized text plus the platform
//! tag it was normalized for. Construction runs the whole pipeline —
//! expansion, drive handling, segment resolution — and the result satisfies
//! the canonical-form invariants stated here.

use vstd::prelude::*;

use crate::chars::{is_slash, spec_is_slash, spec_valid_segment};
use crate::drive::{spec_has_drive, spec_process_drive};
use crate::error::{err_matches, PathError, SpecErr};
use crate::expand::spec_expand;
use crate::platform::{sep_of, spec_sep, Os, Platform};
use crate::resolve::{
    is_dot, is_dotdot, no_slash_seg, resolved_list, spec_check_pieces, spec_resolve,
    spec_split_slashes, views,
};
use crate::strutil::{chars_of, seq_join, string_of};

verus! {

/// Where the relative portion of a canonical text starts: after a leading
/// separator, a drive with root, or a bare drive.
pub open spec fn spec_rel_start(text: Seq<char>, os: Os) -> int {
    match os {
        Os::Posix => {
            if text.len() >= 1 && text[0] == '/' {
                1
            } else {
                0
            }
        },
        Os::Windows => {
            if text.len() >= 1 && text[0] == '\\' {
                1
            } else if text.len() >= 3 && text[1] == ':' && text[2] == '\\' {
                3
            } else if text.len() >= 2 && text[1] == ':' {
                2
            } else {
                0
            }
        },
    }
}

/// Is the canonical text absolute: rooted at a separator, or at a drive
/// with a root?
pub open spec fn spec_is_absolute(text: Seq<char>, os: Os) -> bool {
    match os {
        Os::Posix => text.len() >= 1 && text[0] == '/',
        Os::Windows => (text.len() >= 1 && text[0] == '\\') || (text.len() >= 3 && text[1] == ':'
            && text[2] == '\\'),
    }
}

/// Does the text denote a folder: it ends with a separator, or it is one of
/// the bare sentinels.
pub open spec fn spec_is_folder(text: Seq<char>) -> bool {
    (text.len() >= 1 && spec_is_slash(text.last())) || text =~= seq!['.'] || text =~= seq!['~']
}

/// The relative portion of the text: everything after the root.
pub open spec fn spec_rel(text: Seq<char>, os: Os) -> Seq<char> {
    text.skip(spec_rel_start(text, os))
}

/// The relative portion without its trailing separator, if any.
pub open spec fn spec_core(text: Seq<char>, os: Os) -> Seq<char> {
    let rel = spec_rel(text, os);
    if rel.len() >= 1 && spec_is_slash(rel.last()) {
        rel.drop_last()
    } else {
        rel
    }
}

/// The segments of a canonical text: the slash-split pieces of its core.
pub open spec fn spec_segments(text: Seq<char>, os: Os) -> Seq<Seq<char>> {
    let core = spec_core(text, os);
    if core.len() == 0 {
        seq![]
    } else {
        spec_split_slashes(core)
    }
}

/// The structural invariant every path value keeps: separators are exactly
/// the platform's preferred one, and the relative portion neither starts
/// with a separator nor holds two in a row.
pub open spec fn wf_text(text: Seq<char>, os: Os) -> bool {
    let rel = spec_rel(text, os);
    &&& forall|i: int|
        0 <= i < text.len() && spec_is_slash(#[trigger] text[i]) ==> text[i] == spec_sep(os)
    &&& rel.len() > 0 ==> !spec_is_slash(rel[0])
    &&& forall|i: int|
        0 <= i < rel.len() - 1 ==> !(#[trigger] spec_is_slash(rel[i]) && spec_is_slash(
            rel[i + 1],
        ))
}

/// The full canonical invariant that construction establishes: structure
/// plus fully resolved, valid segments and an upper-case drive letter.
pub open spec fn strong_text(text: Seq<char>, os: Os) -> bool {
    &&& wf_text(text, os)
    &&& resolved_list(spec_segments(text, os))
    &&& os is Windows && text.len() >= 2 && text[1] == ':' ==> 'A' <= text[0] && text[0] <= 'Z'
}

/// The drive part of the canonical text, without any root separator.
pub open spec fn spec_drive_prefix(text: Seq<char>, os: Os) -> Seq<char> {
    if os is Windows && spec_rel_start(text, os) >= 2 {
        text.take(2)
    } else {
        seq![]
    }
}

/// Does the canonical text carry a root separator?
pub open spec fn spec_has_root(text: Seq<char>, os: Os) -> bool {
    match os {
        Os::Posix => spec_rel_start(text, os) == 1,
        Os::Windows => spec_rel_start(text, os) == 1 || spec_rel_start(text, os) == 3,
    }
}

/// A canonical path: the normalized text and the platform it belongs to.
#[derive(Debug, Clone)]
pub struct PathInner {
    pub path: String,
    pub os: Os,
}

/// What the rendering step makes of the pipeline's parts: drive prefix,
/// root separator if the input was rooted, the segments joined by the
/// separator, and a trailing separator if the input ended with a slash and
/// the text does not already end with one.
pub open spec fn spec_render(
    os: Os,
    prefix: Seq<char>,
    root: bool,
    segs: Seq<Seq<char>>,
    trailing: bool,
) -> Seq<char> {
    let base = if root {
        prefix + seq![spec_sep(os)] + seq_join(segs, spec_sep(os))
    } else {
        prefix + seq_join(segs, spec_sep(os))
    };
    if trailing && !(base.len() > 0 && spec_is_slash(base.last())) {
        base.push(spec_sep(os))
    } else {
        base
    }
}

/// What the whole construction pipeline makes of the raw input `s`.
pub open spec fn spec_new(plat: Platform, s: Seq<char>) -> Result<Seq<char>, SpecErr> {
    match spec_expand(plat, s) {
        Err(e) => Err(e),
        Ok(x) => {
            let (prefix, rest) = spec_process_drive(plat.os, plat.drive, x);
            let root = rest.len() > 0 && spec_is_slash(rest[0]);
            let trailing = rest.len() > 0 && spec_is_slash(rest.last());
            let pieces = spec_split_slashes(rest);
            match spec_check_pieces(pieces) {
                Some(e) => Err(e),
                None => Ok(
                    spec_render(plat.os, prefix, root, spec_resolve(pieces), trailing),
                ),
            }
        },
    }
}

/// The structural shape a drive prefix may have: empty, or on Windows a
/// non-separator letter-like character followed by `:`.
pub open spec fn weak_prefix_shape(prefix: Seq<char>, os: Os) -> bool {
    match os {
        Os::Posix => prefix.len() == 0,
        Os::Windows => prefix.len() == 0 || (prefix.len() == 2 && prefix[1] == ':'
            && !spec_is_slash(prefix[0]) && prefix[0] != ':'),
    }
}

/// The canonical shape: empty, or an upper-case drive letter and `:`.
pub open spec fn strong_prefix_shape(prefix: Seq<char>, os: Os) -> bool {
    match os {
        Os::Posix => prefix.len() == 0,
        Os::Windows => prefix.len() == 0 || (prefix.len() == 2 && 'A' <= prefix[0] && prefix[0]
            <= 'Z' && prefix[1] == ':'),
    }
}

/// Segments that can be rendered: each nonempty and slash-free.
pub open spec fn plain_segs(segs: Seq<Seq<char>>) -> bool {
    &&& forall|i: int| 0 <= i < segs.len() ==> #[trigger] segs[i].len() > 0
    &&& forall|i: int| 0 <= i < segs.len() ==> no_slash_seg(#[trigger] segs[i])
}

/// No segment holds a colon.
pub open spec fn colon_free(segs: Seq<Seq<char>>) -> bool {
    forall|i: int, k: int|
        0 <= i < segs.len() && 0 <= k < segs[i].len() ==> #[trigger] segs[i][k] != ':'
}

/// Valid segments hold no colon.
pub proof fn lemma_valid_colon_free(segs: Seq<Seq<char>>)
    requires
        forall|i: int| 0 <= i < segs.len() ==> #[trigger] spec_valid_segment(segs[i]),
    ensures
        colon_free(segs),
{
    assert forall|i: int, k: int|
        0 <= i < segs.len() && 0 <= k < segs[i].len() implies #[trigger] segs[i][k] != ':' by {
        assert(spec_valid_segment(segs[i]));
        assert(!crate::chars::spec_is_forbidden(segs[i][k]));
    }
}

/// Rendering plain segments behind a well-shaped prefix yields a
/// well-formed text whose segments are exactly those segments.
#[verifier::rlimit(100)]
#[verifier::spinoff_prover]
pub proof fn lemma_render_wf(
    os: Os,
    prefix: Seq<char>,
    root: bool,
    segs: Seq<Seq<char>>,
    trailing: bool,
)
    requires
        plain_segs(segs),
        weak_prefix_shape(prefix, os),
        os is Windows && prefix.len() == 0 ==> colon_free(segs),
    ensures
        ({
            let text = spec_render(os, prefix, root, segs, trailing);
            &&& wf_text(text, os)
            &&& spec_segments(text, os) == segs
            &&& ((text.len() > 0 && spec_is_slash(text.last())) <==> (trailing || (root
                && segs.len() == 0)))
        }),
{
    let sep = spec_sep(os);
    let j = seq_join(segs, sep);
    crate::resolve::lemma_join_props(segs, sep);
    crate::resolve::lemma_join_len_at_least(segs, sep);
    if os is Windows && prefix.len() == 0 {
        lemma_join_colon_free(segs, sep);
    }
    let base = if root {
        prefix + seq![sep] + j
    } else {
        prefix + j
    };
    let text = spec_render(os, prefix, root, segs, trailing);
    assert(!spec_is_slash(':'));
    if segs.len() == 0 {
        assert(j =~= Seq::<char>::empty());
        if root {
            assert(base =~= prefix + seq![sep]);
            assert(base.last() == sep);
            assert(text == base);
        } else {
            assert(base =~= prefix);
            if trailing && !(base.len() > 0 && spec_is_slash(base.last())) {
                assert(text == base.push(sep));
            } else {
                assert(text == base);
            }
        }
        // in every empty-segments case the relative portion is empty
        assert(spec_rel(text, os) =~= Seq::<char>::empty()) by {
            match os {
                Os::Posix => {
                    if text.len() > 0 {
                        assert(text[0] == sep);
                        assert(spec_rel_start(text, os) == 1);
                    }
                },
                Os::Windows => {
                    if text.len() == 2 {
                        assert(text[1] == ':');
                        assert(spec_rel_start(text, os) == 2);
                    } else if text.len() == 3 {
                        assert(text[2] == sep);
                        assert(spec_rel_start(text, os) == 3);
                    } else if text.len() == 1 {
                        assert(text[0] == sep);
                        assert(spec_rel_start(text, os) == 1);
                    }
                },
            }
        }
        assert(spec_core(text, os) =~= Seq::<char>::empty());
        assert(spec_segments(text, os) =~= segs);
        assert(wf_text(text, os));
        if text.len() > 0 {
            assert(text.last() == text[text.len() - 1]);
        }
    } else {
        assert(j.len() > 0);
        assert(segs[0].len() > 0);
        assert(!spec_is_slash(j[0]) && !spec_is_slash(j.last()));
        let tail = if trailing {
            j + seq![sep]
        } else {
            j
        };
        assert(base.last() == j.last());
        assert(!spec_is_slash(base.last()));
        if trailing {
            assert(text == base.push(sep));
        } else {
            assert(text == base);
        }
        // the relative portion is exactly tail
        let rs = spec_rel_start(text, os);
        match os {
            Os::Posix => {
                if root {
                    assert(text[0] == sep);
                    assert(rs == 1);
                } else {
                    assert(text[0] == j[0]);
                    assert(rs == 0);
                }
            },
            Os::Windows => {
                if prefix.len() == 2 {
                    assert(text[0] == prefix[0]);
                    assert(text[1] == prefix[1]);
                    if root {
                        assert(text[2] == sep);
                        assert(rs == 3);
                    } else {
                        assert(text[2] == j[0]);
                        assert(!spec_is_slash(j[0]));
                        assert(text[2] != '\\');
                        assert(rs == 2);
                    }
                } else {
                    if root {
                        assert(text[0] == sep);
                        assert(rs == 1);
                    } else {
                        assert(text[0] == j[0]);
                        assert(!spec_is_slash(text[0]));
                        if text.len() >= 2 {
                            assert(text[1] == tail[1]);
                            assert(text[1] != ':') by {
                                if 1 < j.len() {
                                    assert(tail[1] == j[1]);
                                } else {
                                    assert(tail[1] == sep);
                                }
                            }
                        }
                        assert(rs == 0);
                    }
                }
            },
        }
        assert(spec_rel(text, os) =~= tail);
        if trailing {
            assert(tail.last() == sep);
            assert(spec_core(text, os) =~= j);
        } else {
            assert(!spec_is_slash(tail.last()));
            assert(spec_core(text, os) =~= j);
        }
        crate::resolve::lemma_split_join(segs, sep);
        assert(spec_segments(text, os) == segs);
        // well-formedness
        assert(wf_text(text, os)) by {
            assert(forall|i: int|
                0 <= i < text.len() && spec_is_slash(#[trigger] text[i]) ==> text[i] == sep);
            assert(!spec_is_slash(tail[0]));
            assert(forall|i: int|
                0 <= i < j.len() - 1 ==> !(#[trigger] spec_is_slash(j[i]) && spec_is_slash(
                    j[i + 1],
                )));
            assert forall|i: int|
                0 <= i < tail.len() - 1 implies !(#[trigger] spec_is_slash(tail[i])
                && spec_is_slash(tail[i + 1])) by {
                if i < j.len() - 1 {
                    assert(tail[i] == j[i] && tail[i + 1] == j[i + 1]);
                } else if i == j.len() - 1 {
                    assert(tail[i] == j.last());
                }
            }
        }
        assert(text.last() == text[text.len() - 1]);
        if trailing {
            assert(spec_is_slash(text.last()));
        } else {
            assert(text.last() == j.last());
        }
    }
}

/// Rendering fully resolved segments behind a canonical prefix yields a
/// text with the full canonical invariant.
pub proof fn lemma_render_strong(
    os: Os,
    prefix: Seq<char>,
    root: bool,
    segs: Seq<Seq<char>>,
    trailing: bool,
)
    requires
        resolved_list(segs),
        strong_prefix_shape(prefix, os),
    ensures
        strong_text(spec_render(os, prefix, root, segs, trailing), os),
        spec_segments(spec_render(os, prefix, root, segs, trailing), os) == segs,
        ({
            let text = spec_render(os, prefix, root, segs, trailing);
            (text.len() > 0 && spec_is_slash(text.last())) <==> (trailing || (root && segs.len()
                == 0))
        }),
{
    lemma_valid_colon_free(segs);
    lemma_render_wf(os, prefix, root, segs, trailing);
    let sep = spec_sep(os);
    let j = seq_join(segs, sep);
    crate::resolve::lemma_join_props(segs, sep);
    crate::resolve::lemma_join_len_at_least(segs, sep);
    lemma_join_colon_free(segs, sep);
    let text = spec_render(os, prefix, root, segs, trailing);
    if os is Windows && text.len() >= 2 && text[1] == ':' {
        let base = if root {
            prefix + seq![sep] + j
        } else {
            prefix + j
        };
        if prefix.len() == 2 {
            assert(text[0] == prefix[0]);
        } else {
            // a colon cannot stand at the second position without a prefix
            if root {
                if j.len() == 0 {
                    assert(base =~= seq![sep]);
                    if text.len() >= 2 {
                        assert(text == base.push(sep));
                        assert(text[1] == sep);
                    }
                } else {
                    assert(base =~= seq![sep] + j);
                    assert(base[1] == j[0]);
                    if text == base {
                        assert(text[1] != ':');
                    } else {
                        assert(text == base.push(sep));
                        if text.len() >= 2 {
                            assert(text[1] == base[1] || text.len() - 1 == 1);
                        }
                    }
                }
                assert(false);
            } else {
                if j.len() == 0 {
                    assert(base =~= Seq::<char>::empty());
                    assert(text.len() <= 1);
                } else {
                    assert(base =~= j);
                    if text.len() >= 2 {
                        if 1 < j.len() {
                            assert(text[1] == j[1]);
                        } else {
                            assert(text[1] == sep);
                        }
                    }
                }
                assert(false);
            }
        }
    }
}

/// A join of colon-free segments holds no colon besides the separator.
pub proof fn lemma_join_colon_free(segs: Seq<Seq<char>>, sep: char)
    requires
        sep != ':',
        colon_free(segs),
    ensures
        forall|k: int| 0 <= k < seq_join(segs, sep).len() ==> #[trigger] seq_join(segs, sep)[k]
            != ':',
    decreases segs.len(),
{
    let j = seq_join(segs, sep);
    if segs.len() == 1 {
        assert(j == segs[0]);
        assert forall|k: int| 0 <= k < j.len() implies #[trigger] j[k] != ':' by {
            assert(segs[0][k] != ':');
        }
    } else if segs.len() > 1 {
        assert(colon_free(segs.drop_last())) by {
            assert(forall|i: int|
                0 <= i < segs.len() - 1 ==> segs.drop_last()[i] == #[trigger] segs[i]);
        }
        lemma_join_colon_free(segs.drop_last(), sep);
        let h = seq_join(segs.drop_last(), sep);
        let t = segs.last();
        assert(j == h + seq![sep] + t);
        assert forall|k: int| 0 <= k < j.len() implies #[trigger] j[k] != ':' by {
            if k < h.len() {
                assert(j[k] == h[k]);
            } else if k == h.len() {
                assert(j[k] == sep);
            } else {
                assert(j[k] == t[k - h.len() - 1]);
                assert(segs[segs.len() - 1][k - h.len() - 1] != ':');
            }
        }
    }
}

impl PathInner {
    /// The canonical text as a character sequence.
    pub open spec fn text(&self) -> Seq<char> {
        self.path@
    }

    /// The structural invariant.
    pub open spec fn wf(&self) -> bool {
        wf_text(self.path@, self.os)
    }

    /// The full canonical invariant.
    pub open spec fn strong(&self) -> bool {
        strong_text(self.path@, self.os)
    }

    /// The empty path.
    pub fn empty(os: Os) -> (r: PathInner)
        ensures
            r.path@ == Seq::<char>::empty(),
            r.os == os,
            r.strong(),
    {
        let r = PathInner { path: String::new(), os };
        proof {
            assert(spec_rel(r.path@, os) =~= Seq::<char>::empty());
            assert(r.strong());
        }
        r
    }

    /// The canonical text as a string slice.
    pub fn as_str(&self) -> (r: &str)
        ensures
            r@ == self.path@,
    {
        self.path.as_str()
    }

    /// Where the relative portion starts.
    pub fn relative_start(&self) -> (r: usize)
        ensures
            r == spec_rel_start(self.path@, self.os),
            r <= self.path@.len(),
    {
        let v = chars_of(self.path.as_str());
        match self.os {
            Os::Posix => {
                if v.len() >= 1 && v[0] == '/' {
                    1
                } else {
                    0
                }
            },
            Os::Windows => {
                if v.len() >= 1 && v[0] == '\\' {
                    1
                } else if v.len() >= 3 && v[1] == ':' && v[2] == '\\' {
                    3
                } else if v.len() >= 2 && v[1] == ':' {
                    2
                } else {
                    0
                }
            },
        }
    }

    /// Is this path absolute?
    pub fn is_absolute(&self) -> (r: bool)
        ensures
            r == spec_is_absolute(self.path@, self.os),
    {
        let v = chars_of(self.path.as_str());
        match self.os {
            Os::Posix => v.len() >= 1 && v[0] == '/',
            Os::Windows => (v.len() >= 1 && v[0] == '\\') || (v.len() >= 3 && v[1] == ':'
                && v[2] == '\\'),
        }
    }

    /// Is this path relative?
    pub fn is_relative(&self) -> (r: bool)
        ensures
            r == !spec_is_absolute(self.path@, self.os),
    {
        !self.is_absolute()
    }

    /// Does this path denote a folder?
    pub fn is_folder(&self) -> (r: bool)
        ensures
            r == spec_is_folder(self.path@),
    {
        let v = chars_of(self.path.as_str());
        if v.len() >= 1 && is_slash(v[v.len() - 1]) {
            proof {
                assert(v@[v@.len() - 1] == v@.last());
            }
            true
        } else {
            proof {
                if v@.len() >= 1 {
                    assert(v@[v@.len() - 1] == v@.last());
                }
                if v@.len() == 1 {
                    assert((v@ =~= seq!['.']) == (v@[0] == '.'));
                    assert((v@ =~= seq!['~']) == (v@[0] == '~'));
                }
            }
            v.len() == 1 && (v[0] == '.' || v[0] == '~')
        }
    }

    /// Does this path denote a file?
    pub fn is_file(&self) -> (r: bool)
        ensures
            r == !spec_is_folder(self.path@),
    {
        !self.is_folder()
    }

    /// Parse and normalize a raw path string against the platform: expand
    /// sentinels and variables, handle the drive prefix, resolve the
    /// segments and render the canonical text. `Ok` exactly when expansion
    /// and every segment check succeed.
    pub fn new(plat: &Platform, path: &str) -> (r: Result<PathInner, PathError>)
        requires
            plat.wf(),
        ensures
            r is Ok <==> spec_new(*plat, path@) is Ok,
            r matches Ok(p) ==> p.os == plat.os && Ok::<Seq<char>, SpecErr>(p.path@) == spec_new(
                *plat,
                path@,
            ) && p.strong() && spec_segments(p.path@, p.os) == pipeline_segments(*plat, path@),
            r matches Err(e) ==> spec_new(*plat, path@) matches Err(t) && err_matches(e, t),
    {
        let input = chars_of(path);
        let expanded = match crate::expand::expand(plat, &input) {
            Ok(x) => x,
            Err(e) => {
                return Err(e);
            },
        };
        let (prefix, rest) = crate::drive::process_drive(plat, &expanded);
        let root = rest.len() >= 1 && is_slash(rest[0]);
        let trailing = rest.len() >= 1 && is_slash(rest[rest.len() - 1]);
        proof {
            if rest@.len() >= 1 {
                assert(rest@[rest@.len() - 1] == rest@.last());
            }
        }
        let pieces = crate::resolve::split_slashes(&rest);
        let segs = match crate::resolve::resolve_segments(&pieces) {
            Ok(s) => s,
            Err(e) => {
                return Err(e);
            },
        };
        let text = render(plat.os, &prefix, root, &segs, trailing);
        proof {
            crate::resolve::lemma_check_pieces_all_valid(views(pieces@));
            crate::resolve::lemma_split_no_slash(rest@);
            crate::resolve::lemma_resolve_resolved(views(pieces@));
            if plat.os is Windows {
                crate::drive::lemma_upper_range(plat.drive);
                if spec_has_drive(expanded@) {
                    crate::drive::lemma_upper_range(expanded@[0]);
                }
            }
            lemma_render_strong(plat.os, prefix@, root, views(segs@), trailing);
        }
        Ok(PathInner { path: string_of(&text), os: plat.os })
    }
}

/// The segments that the pipeline retains for an input, when it succeeds.
pub open spec fn pipeline_segments(plat: Platform, s: Seq<char>) -> Seq<Seq<char>> {
    match spec_expand(plat, s) {
        Err(_) => seq![],
        Ok(x) => {
            let (prefix, rest) = spec_process_drive(plat.os, plat.drive, x);
            spec_resolve(spec_split_slashes(rest))
        },
    }
}

/// Render the canonical text out of the pipeline's parts.
pub fn render(os: Os, prefix: &Vec<char>, root: bool, segs: &Vec<Vec<char>>, trailing: bool) -> (r:
    Vec<char>)
    ensures
        r@ == spec_render(os, prefix@, root, views(segs@), trailing),
{
    let sep = sep_of(os);
    let mut out = crate::expand::sub_chars(prefix, 0, prefix.len());
    proof {
        assert(out@ =~= prefix@);
    }
    if root {
        out.push(sep);
    }
    let ghost head = out@;
    let ghost vs = views(segs@);
    let mut i: usize = 0;
    while i < segs.len()
        invariant
            i <= segs@.len(),
            vs == views(segs@),
            out@ == head + seq_join(vs.take(i as int), spec_sep(os)),
            sep == spec_sep(os),
        decreases segs@.len() - i,
    {
        proof {
            assert(vs.take(i as int + 1).drop_last() =~= vs.take(i as int));
            assert(vs.take(i as int + 1).last() == segs@[i as int]@);
        }
        if i > 0 {
            out.push(sep);
        }
        let ghost mid = out@;
        let seg = &segs[i];
        let mut k: usize = 0;
        while k < seg.len()
            invariant
                k <= seg@.len(),
                out@ == mid + seg@.take(k as int),
            decreases seg@.len() - k,
        {
            out.push(seg[k]);
            k = k + 1;
            proof {
                assert(out@ =~= mid + seg@.take(k as int));
            }
        }
        proof {
            assert(seg@.take(seg@.len() as int) =~= seg@);
            if i > 0 {
                assert(out@ =~= head + (seq_join(vs.take(i as int), spec_sep(os)) + seq![sep]
                    + seg@));
                assert(seq_join(vs.take(i as int + 1), spec_sep(os)) == seq_join(
                    vs.take(i as int),
                    spec_sep(os),
                ) + seq![sep] + seg@);
                assert(out@ =~= head + seq_join(vs.take(i as int + 1), spec_sep(os)));
            } else {
                assert(seq_join(vs.take(1), spec_sep(os)) == vs.take(1)[0]);
                assert(out@ =~= head + seq_join(vs.take(1), spec_sep(os)));
            }
        }
        i = i + 1;
    }
    proof {
        assert(vs.take(vs.len() as int) =~= vs);
    }
    let ends_sep = out.len() >= 1 && is_slash(out[out.len() - 1]);
    proof {
        if out@.len() >= 1 {
            assert(out@[out@.len() - 1] == out@.last());
        }
    }
    if trailing && !ends_sep {
        out.push(sep);
    }
    out
}

} // verus!
