//! Operations on an existing canonical path: removing segments from the
//! end, taking the parent, and cutting the text into drive, root and
//! segments and rendering it back.

use vstd::prelude::*;

use crate::chars::{is_slash, spec_is_slash};
use crate::error::{err_matches, PathError, SpecErr};
use crate::expand::sub_chars;
use crate::inner::{
    render, spec_core, spec_drive_prefix, spec_has_root, spec_is_folder, spec_rel,
    spec_rel_start, spec_render, spec_segments, strong_prefix_shape, strong_text, wf_text,
    PathInner,
};
use crate::platform::{sep_of, spec_sep, Os, Platform};
use crate::resolve::{
    drop_empty, is_dotdot, lemma_drop_empty_id, lemma_join_split, lemma_split_no_slash, no_slash_seg,
    resolved_list, spec_split_slashes, split_slashes,
    views,
};
use crate::strutil::{chars_of, seq_join, string_of};

verus! {

/// A canonical text is the rendering of its own parts.
pub proof fn lemma_decompose(text: Seq<char>, os: Os)
    requires
        strong_text(text, os),
    ensures
        strong_prefix_shape(spec_drive_prefix(text, os), os),
        text == spec_render(
            os,
            spec_drive_prefix(text, os),
            spec_has_root(text, os),
            spec_segments(text, os),
            spec_rel(text, os).len() > 0 && spec_is_slash(spec_rel(text, os).last()),
        ),
{
    let rs = spec_rel_start(text, os);
    let rel = spec_rel(text, os);
    let core = spec_core(text, os);
    let segs = spec_segments(text, os);
    let dp = spec_drive_prefix(text, os);
    let root = spec_has_root(text, os);
    let sep = spec_sep(os);
    let flag = rel.len() > 0 && spec_is_slash(rel.last());
    assert(text =~= text.take(rs) + rel);
    // the head of the text is the drive prefix plus the root separator
    match os {
        Os::Posix => {
            if rs == 1 {
                assert(text[0] == '/');
                assert(text.take(1) =~= seq![sep]);
            } else {
                assert(text.take(0) =~= Seq::<char>::empty());
            }
        },
        Os::Windows => {
            if rs == 1 {
                assert(text[0] == '\\');
                assert(text.take(1) =~= seq![sep]);
            } else if rs == 3 {
                assert(text[1] == ':' && text[2] == '\\');
                assert(text.take(3) =~= text.take(2) + seq![sep]);
                assert('A' <= text[0] && text[0] <= 'Z');
            } else if rs == 2 {
                assert(text[1] == ':');
                assert('A' <= text[0] && text[0] <= 'Z');
            } else {
                assert(text.take(0) =~= Seq::<char>::empty());
            }
        },
    }
    if core.len() == 0 {
        // an empty core means an empty relative portion
        if rel.len() > 0 {
            assert(spec_is_slash(rel.last()));
            assert(rel.drop_last().len() == 0);
            assert(rel[0] == rel.last());
            assert(!spec_is_slash(rel[0]));
            assert(false);
        }
        assert(segs =~= Seq::<Seq<char>>::empty());
        assert(seq_join(segs, sep) =~= Seq::<char>::empty());
        assert(!flag);
        if root {
            assert(spec_render(os, dp, root, segs, flag) =~= dp + seq![sep]);
        } else {
            assert(spec_render(os, dp, root, segs, flag) =~= dp);
        }
        assert(text =~= spec_render(os, dp, root, segs, flag));
    } else {
        assert(rel.len() > 0);
        assert(core[0] == rel[0]);
        assert(!spec_is_slash(core[0]));
        assert(core.last() == core[core.len() - 1]);
        assert(!spec_is_slash(core.last())) by {
            if rel.len() >= 1 && spec_is_slash(rel.last()) {
                assert(core == rel.drop_last());
                assert(core.last() == rel[rel.len() - 2]);
                assert(!(spec_is_slash(rel[rel.len() - 2]) && spec_is_slash(
                    rel[rel.len() - 2 + 1],
                )));
            }
        }
        assert(forall|i: int|
            0 <= i < core.len() && spec_is_slash(#[trigger] core[i]) ==> core[i] == sep) by {
            assert(forall|i: int| 0 <= i < core.len() ==> core[i] == #[trigger] text[i + rs]);
        }
        lemma_join_split(core, sep);
        assert(segs == spec_split_slashes(core));
        assert(seq_join(segs, sep) == core);
        let base = if root {
            dp + seq![sep] + seq_join(segs, sep)
        } else {
            dp + seq_join(segs, sep)
        };
        assert(base =~= text.take(rs) + core);
        assert(base.len() > 0);
        assert(base.last() == core.last());
        if flag {
            assert(rel =~= core + seq![rel.last()]);
            assert(rel.last() == sep) by {
                assert(rel.last() == text[text.len() - 1]);
            }
            assert(spec_render(os, dp, root, segs, flag) == base.push(sep));
            assert(text =~= base.push(sep));
        } else {
            assert(rel =~= core);
            assert(spec_render(os, dp, root, segs, flag) == base);
            assert(text =~= base);
        }
    }
}

/// A prefix of a resolved segment list is resolved.
pub proof fn lemma_resolved_take(segs: Seq<Seq<char>>, n: int)
    requires
        resolved_list(segs),
        0 <= n <= segs.len(),
    ensures
        resolved_list(segs.take(n)),
{
    assert(forall|i: int| 0 <= i < n ==> segs.take(n)[i] == #[trigger] segs[i]);
}

/// A suffix of a resolved segment list is resolved.
pub proof fn lemma_resolved_skip(segs: Seq<Seq<char>>, n: int)
    requires
        resolved_list(segs),
        0 <= n <= segs.len(),
    ensures
        resolved_list(segs.skip(n)),
{
    assert(forall|i: int| 0 <= i < segs.len() - n ==> segs.skip(n)[i] == #[trigger] segs[i + n]);
    assert forall|i: int, j: int|
        0 <= j < i < segs.skip(n).len() && is_dotdot(#[trigger] segs.skip(n)[i]) implies is_dotdot(
        #[trigger] segs.skip(n)[j],
    ) by {
        assert(segs.skip(n)[i] == segs[i + n]);
        assert(segs.skip(n)[j] == segs[j + n]);
    }
}

/// The text that removing the last `count` segments leaves.
pub open spec fn spec_pop(text: Seq<char>, os: Os, count: int) -> Seq<char> {
    let segs = drop_empty(spec_segments(text, os));
    let cnt: int = if segs.len() >= count {
        segs.len() - count
    } else {
        0
    };
    spec_render(
        os,
        spec_drive_prefix(text, os),
        spec_has_root(text, os),
        segs.take(cnt),
        cnt > 0 && count > 0,
    )
}

/// The text with the last segment removed: the remaining segments behind
/// the drive and root, ending in a separator while segments remain. `None`
/// only for a root, which has no segment to remove.
pub open spec fn spec_parent(text: Seq<char>, os: Os) -> Option<Seq<char>> {
    let segs = drop_empty(spec_segments(text, os));
    if segs.len() >= 1 {
        Some(
            spec_render(
                os,
                spec_drive_prefix(text, os),
                spec_has_root(text, os),
                segs.drop_last(),
                segs.len() >= 2,
            ),
        )
    } else {
        None
    }
}

impl PathInner {
    /// The nonempty segments of the path, as character vectors.
    pub fn seg_vecs(&self) -> (r: Vec<Vec<char>>)
        ensures
            views(r@) == drop_empty(spec_segments(self.path@, self.os)),
    {
        let v = chars_of(self.path.as_str());
        let rs = self.relative_start();
        let mut core = sub_chars(&v, rs, v.len());
        proof {
            assert(core@ =~= spec_rel(self.path@, self.os));
        }
        let rel_len = core.len();
        if rel_len >= 1 && is_slash(core[rel_len - 1]) {
            proof {
                assert(core@[core@.len() - 1] == core@.last());
            }
            core.pop();
            proof {
                assert(core@ =~= spec_rel(self.path@, self.os).drop_last());
            }
        }
        proof {
            assert(core@ == spec_core(self.path@, self.os));
        }
        if core.len() == 0 {
            let r: Vec<Vec<char>> = Vec::new();
            proof {
                assert(views(r@) =~= drop_empty(spec_segments(self.path@, self.os)));
            }
            return r;
        }
        let pieces = split_slashes(&core);
        let ghost ps = views(pieces@);
        let mut out: Vec<Vec<char>> = Vec::new();
        let mut i: usize = 0;
        proof {
            assert(ps.take(0) =~= Seq::<Seq<char>>::empty());
            assert(views(out@) =~= drop_empty(ps.take(0)));
        }
        while i < pieces.len()
            invariant
                i <= pieces@.len(),
                ps == views(pieces@),
                views(out@) == drop_empty(ps.take(i as int)),
            decreases pieces@.len() - i,
        {
            proof {
                assert(ps.take(i as int + 1).drop_last() =~= ps.take(i as int));
                assert(ps.take(i as int + 1).last() == pieces@[i as int]@);
            }
            if pieces[i].len() > 0 {
                let piece = pieces[i].clone();
                proof {
                    assert(piece@ == pieces@[i as int]@);
                }
                out.push(piece);
                proof {
                    assert(views(out@) =~= drop_empty(ps.take(i as int)).push(
                        pieces@[i as int]@,
                    ));
                }
            }
            i = i + 1;
        }
        proof {
            assert(ps.take(ps.len() as int) =~= ps);
        }
        out
    }

    /// The drive prefix and root flag of the path.
    pub fn split_head(&self) -> (r: (Vec<char>, bool))
        ensures
            r.0@ == spec_drive_prefix(self.path@, self.os),
            r.1 == spec_has_root(self.path@, self.os),
    {
        let v = chars_of(self.path.as_str());
        let rs = self.relative_start();
        match self.os {
            Os::Posix => {
                let prefix: Vec<char> = Vec::new();
                (prefix, rs == 1)
            },
            Os::Windows => {
                if rs >= 2 {
                    let prefix = sub_chars(&v, 0, 2);
                    proof {
                        assert(prefix@ =~= self.path@.take(2));
                    }
                    (prefix, rs == 3)
                } else {
                    let prefix: Vec<char> = Vec::new();
                    (prefix, rs == 1)
                }
            },
        }
    }

    /// Remove the last `count` segments, clamped at the root; the root and
    /// drive stay. Removing a positive number of segments leaves a folder,
    /// unless nothing remains of the relative portion.
    pub fn pop(&mut self, count: usize)
        ensures
            final(self).os == old(self).os,
            ({
                let segs = drop_empty(spec_segments(old(self).path@, old(self).os));
                let cnt = if segs.len() >= count {
                    segs.len() - count
                } else {
                    0
                };
                final(self).path@ == spec_render(
                    old(self).os,
                    spec_drive_prefix(old(self).path@, old(self).os),
                    spec_has_root(old(self).path@, old(self).os),
                    segs.take(cnt as int),
                    cnt > 0 && count > 0,
                )
            }),
            final(self).path@ == spec_pop(old(self).path@, old(self).os, count as int),
            old(self).strong() ==> final(self).strong(),
    {
        let mut segs = self.seg_vecs();
        let n = segs.len();
        let cnt = if n >= count {
            n - count
        } else {
            0
        };
        segs.truncate(cnt);
        proof {
            assert(views(segs@) =~= drop_empty(
                spec_segments(self.path@, self.os),
            ).take(cnt as int));
        }
        let (prefix, root) = self.split_head();
        let trailing = cnt > 0 && count > 0;
        let text = render(self.os, &prefix, root, &segs, trailing);
        proof {
            if old(self).strong() {
                let all = spec_segments(self.path@, self.os);
                lemma_decompose(self.path@, self.os);
                lemma_drop_empty_id(all);
                lemma_resolved_take(all, cnt as int);
                crate::inner::lemma_render_strong(
                    self.os,
                    spec_drive_prefix(self.path@, self.os),
                    spec_has_root(self.path@, self.os),
                    all.take(cnt as int),
                    trailing,
                );
            }
        }
        self.path = string_of(&text);
    }

    /// A copy with the last `count` segments removed.
    pub fn popping(&self, count: usize) -> (r: PathInner)
        ensures
            r.os == self.os,
            ({
                let segs = drop_empty(spec_segments(self.path@, self.os));
                let cnt = if segs.len() >= count {
                    segs.len() - count
                } else {
                    0
                };
                r.path@ == spec_render(
                    self.os,
                    spec_drive_prefix(self.path@, self.os),
                    spec_has_root(self.path@, self.os),
                    segs.take(cnt as int),
                    cnt > 0 && count > 0,
                )
            }),
            r.path@ == spec_pop(self.path@, self.os, count as int),
            self.strong() ==> r.strong(),
    {
        let mut me = PathInner { path: self.path.clone(), os: self.os };
        me.pop(count);
        me
    }

    /// The path without its last segment; `None` only for a root, which
    /// has none to remove. With two or more segments the result keeps a
    /// trailing separator; removing the only segment leaves the bare head.
    pub fn parent(&self) -> (r: Option<PathInner>)
        ensures
            ({
                let segs = drop_empty(spec_segments(self.path@, self.os));
                &&& (r is Some <==> segs.len() >= 1)
                &&& (r matches Some(p) ==> p.os == self.os && (self.strong() ==> p.strong()))
            }),
            ({
                match r {
                    Some(p) => spec_parent(self.path@, self.os) == Some(p.path@),
                    None => spec_parent(self.path@, self.os) is None,
                }
            }),
    {
        let mut segs = self.seg_vecs();
        if segs.len() == 0 {
            return None;
        }
        let n = segs.len();
        segs.truncate(n - 1);
        proof {
            assert(views(segs@) =~= drop_empty(
                spec_segments(self.path@, self.os),
            ).drop_last());
        }
        let (prefix, root) = self.split_head();
        let text = render(self.os, &prefix, root, &segs, n >= 2);
        proof {
            if self.strong() {
                let all = spec_segments(self.path@, self.os);
                lemma_decompose(self.path@, self.os);
                lemma_drop_empty_id(all);
                lemma_resolved_take(all, all.len() - 1);
                assert(all.take(all.len() - 1) == all.drop_last());
                crate::inner::lemma_render_strong(
                    self.os,
                    spec_drive_prefix(self.path@, self.os),
                    spec_has_root(self.path@, self.os),
                    all.drop_last(),
                    n >= 2,
                );
            }
        }
        Some(PathInner { path: string_of(&text), os: self.os })
    }
}

/// The position right after the last slash of `s`, or 0 when it has none.
pub open spec fn spec_after_last_slash(s: Seq<char>) -> int
    decreases s.len(),
{
    if s.len() == 0 {
        0
    } else if spec_is_slash(s.last()) {
        s.len() as int
    } else {
        spec_after_last_slash(s.drop_last())
    }
}

/// Where the filename of the text starts: right after the last separator
/// of the relative portion, or at its start.
pub open spec fn spec_file_name_start(text: Seq<char>, os: Os) -> int {
    spec_rel_start(text, os) + spec_after_last_slash(spec_rel(text, os))
}

/// The index of the first `.` at or after `pos`, or the length when there
/// is none.
pub open spec fn spec_first_dot_from(s: Seq<char>, pos: int) -> int
    decreases s.len() - pos when pos <= s.len()
{
    if pos >= s.len() {
        s.len() as int
    } else if s[pos] == '.' {
        pos
    } else {
        spec_first_dot_from(s, pos + 1)
    }
}

pub proof fn lemma_after_last_slash_bounds(s: Seq<char>)
    ensures
        0 <= spec_after_last_slash(s) <= s.len(),
    decreases s.len(),
{
    if s.len() > 0 && !spec_is_slash(s.last()) {
        lemma_after_last_slash_bounds(s.drop_last());
    }
}

pub proof fn lemma_first_dot_bounds(s: Seq<char>, pos: int)
    requires
        0 <= pos <= s.len(),
    ensures
        pos <= spec_first_dot_from(s, pos) <= s.len(),
    decreases s.len() - pos,
{
    if pos < s.len() && s[pos] != '.' {
        lemma_first_dot_bounds(s, pos + 1);
    }
}

/// Find the position right after the last slash of `v`.
fn after_last_slash(v: &Vec<char>) -> (r: usize)
    ensures
        r == spec_after_last_slash(v@),
        r <= v@.len(),
{
    let mut k = v.len();
    proof {
        assert(v@.take(v@.len() as int) =~= v@);
    }
    while k > 0
        invariant
            k <= v@.len(),
            spec_after_last_slash(v@) == spec_after_last_slash(v@.take(k as int)),
        decreases k,
    {
        proof {
            assert(v@.take(k as int).last() == v@[k as int - 1]);
            assert(v@.take(k as int).drop_last() =~= v@.take(k as int - 1));
        }
        if is_slash(v[k - 1]) {
            proof {
                lemma_after_last_slash_bounds(v@);
            }
            return k;
        }
        k = k - 1;
    }
    proof {
        assert(v@.take(0) =~= Seq::<char>::empty());
        lemma_after_last_slash_bounds(v@);
    }
    0
}

/// Find the first `.` of `v` at or after `pos`.
pub fn first_dot_from(v: &Vec<char>, pos: usize) -> (r: usize)
    requires
        pos <= v@.len(),
    ensures
        r == spec_first_dot_from(v@, pos as int),
        pos <= r <= v@.len(),
{
    let mut i = pos;
    while i < v.len()
        invariant
            pos <= i <= v@.len(),
            spec_first_dot_from(v@, pos as int) == spec_first_dot_from(v@, i as int),
        decreases v@.len() - i,
    {
        if v[i] == '.' {
            proof {
                lemma_first_dot_bounds(v@, pos as int);
            }
            return i;
        }
        i = i + 1;
    }
    proof {
        lemma_first_dot_bounds(v@, pos as int);
    }
    v.len()
}

/// What joining a list of raw values onto the path yields: the old
/// relative portion, a separator and the values joined by separators are
/// resolved together and rendered behind the old drive and root. `Err`
/// exactly when a piece of that combined text fails validation.
pub open spec fn spec_join_vals(text: Seq<char>, os: Os, vals: Seq<Seq<char>>) -> Result<
    Seq<char>,
    SpecErr,
> {
    let sep = spec_sep(os);
    let rel2 = spec_rel(text, os) + seq![sep] + seq_join(vals, sep);
    let pieces = spec_split_slashes(rel2);
    match crate::resolve::spec_check_pieces(pieces) {
        Some(e) => Err(e),
        None => Ok(
            spec_render(
                os,
                spec_drive_prefix(text, os),
                spec_has_root(text, os),
                crate::resolve::spec_resolve(pieces),
                rel2.len() > 0 && spec_is_slash(rel2.last()),
            ),
        ),
    }
}

impl PathInner {
    /// Where the filename starts in the canonical text.
    pub fn file_name_start(&self) -> (r: usize)
        ensures
            r == spec_file_name_start(self.path@, self.os),
            r <= self.path@.len(),
    {
        let v = chars_of(self.path.as_str());
        let rs = self.relative_start();
        let rel = sub_chars(&v, rs, v.len());
        proof {
            assert(rel@ =~= spec_rel(self.path@, self.os));
            lemma_after_last_slash_bounds(rel@);
        }
        rs + after_last_slash(&rel)
    }

    /// The text after the last separator: the filename, empty for folders.
    pub fn file_name(&self) -> (r: String)
        ensures
            r@ == self.path@.skip(spec_file_name_start(self.path@, self.os)),
    {
        let v = chars_of(self.path.as_str());
        let start = self.file_name_start();
        let tail = sub_chars(&v, start, v.len());
        proof {
            assert(tail@ =~= self.path@.skip(spec_file_name_start(self.path@, self.os)));
        }
        string_of(&tail)
    }

    /// Replace the filename. The new name must be nonempty and free of
    /// slashes; on failure the path is unchanged.
    pub fn set_file_name(&mut self, file_name: &str) -> (r: Result<(), PathError>)
        ensures
            final(self).os == old(self).os,
            r is Ok <==> (file_name@.len() > 0 && crate::resolve::no_slash_seg(file_name@)),
            file_name@.len() == 0 ==> (r matches Err(e) && e is EmptyFilename),
            file_name@.len() > 0 && !crate::resolve::no_slash_seg(file_name@) ==> (r matches Err(
                e,
            ) && e matches PathError::FilenameHasSeparator { name } && name@ == file_name@),
            r is Ok ==> final(self).path@ == old(self).path@.take(
                spec_file_name_start(old(self).path@, old(self).os),
            ) + file_name@,
            r is Err ==> final(self).path@ == old(self).path@,
    {
        let name = chars_of(file_name);
        if name.len() == 0 {
            return Err(PathError::EmptyFilename);
        }
        let mut k: usize = 0;
        while k < name.len()
            invariant
                k <= name@.len(),
                name@ == file_name@,
                name@.len() > 0,
                forall|m: int| 0 <= m < k ==> !spec_is_slash(name@[m]),
            decreases name@.len() - k,
        {
            if is_slash(name[k]) {
                proof {
                    assert(spec_is_slash(name@[k as int]));
                    assert(!crate::resolve::no_slash_seg(name@));
                }
                return Err(PathError::FilenameHasSeparator { name: string_of(&name) });
            }
            k = k + 1;
        }
        let v = chars_of(self.path.as_str());
        let start = self.file_name_start();
        let mut head = sub_chars(&v, 0, start);
        crate::strutil::append_chars(&mut head, &name);
        proof {
            assert(head@ =~= old(self).path@.take(
                spec_file_name_start(old(self).path@, old(self).os),
            ) + file_name@);
        }
        self.path = string_of(&head);
        Ok(())
    }

    /// A copy with the filename replaced.
    pub fn with_file_name(&self, file_name: &str) -> (r: Result<PathInner, PathError>)
        ensures
            r is Ok <==> (file_name@.len() > 0 && crate::resolve::no_slash_seg(file_name@)),
            r matches Ok(p) ==> p.os == self.os && p.path@ == self.path@.take(
                spec_file_name_start(self.path@, self.os),
            ) + file_name@,
    {
        let mut me = PathInner { path: self.path.clone(), os: self.os };
        match me.set_file_name(file_name) {
            Ok(()) => Ok(me),
            Err(e) => Err(e),
        }
    }

    /// The file stem: the text between the last separator and the first
    /// `.` after it.
    pub fn file_stem(&self) -> (r: String)
        ensures
            ({
                let start = spec_file_name_start(self.path@, self.os);
                let end = spec_first_dot_from(self.path@, start);
                r@ == self.path@.subrange(start, end)
            }),
    {
        let v = chars_of(self.path.as_str());
        let start = self.file_name_start();
        let end = first_dot_from(&v, start);
        let stem = sub_chars(&v, start, end);
        string_of(&stem)
    }

    /// Replace the file stem, keeping everything from the first dot on.
    /// An empty stem is rejected; on failure the path is unchanged.
    pub fn set_file_stem(&mut self, file_stem: &str) -> (r: Result<(), PathError>)
        ensures
            final(self).os == old(self).os,
            r is Ok <==> file_stem@.len() > 0,
            file_stem@.len() == 0 ==> (r matches Err(e) && e is EmptyFileStem),
            r is Ok ==> ({
                let start = spec_file_name_start(old(self).path@, old(self).os);
                let end = spec_first_dot_from(old(self).path@, start);
                final(self).path@ == old(self).path@.take(start) + file_stem@ + old(
                    self,
                ).path@.skip(end)
            }),
            r is Err ==> final(self).path@ == old(self).path@,
    {
        let stem = chars_of(file_stem);
        if stem.len() == 0 {
            return Err(PathError::EmptyFileStem);
        }
        let v = chars_of(self.path.as_str());
        let start = self.file_name_start();
        let end = first_dot_from(&v, start);
        let mut head = sub_chars(&v, 0, start);
        crate::strutil::append_chars(&mut head, &stem);
        let tail = sub_chars(&v, end, v.len());
        crate::strutil::append_chars(&mut head, &tail);
        proof {
            let s = spec_file_name_start(old(self).path@, old(self).os);
            let e = spec_first_dot_from(old(self).path@, s);
            assert(head@ =~= old(self).path@.take(s) + file_stem@ + old(self).path@.skip(e));
        }
        self.path = string_of(&head);
        Ok(())
    }

    /// A copy with the file stem replaced.
    pub fn with_file_stem(&self, file_stem: &str) -> (r: Result<PathInner, PathError>)
        ensures
            r is Ok <==> file_stem@.len() > 0,
            r matches Ok(p) ==> p.os == self.os && ({
                let start = spec_file_name_start(self.path@, self.os);
                let end = spec_first_dot_from(self.path@, start);
                p.path@ == self.path@.take(start) + file_stem@ + self.path@.skip(end)
            }),
    {
        let mut me = PathInner { path: self.path.clone(), os: self.os };
        match me.set_file_stem(file_stem) {
            Ok(()) => Ok(me),
            Err(e) => Err(e),
        }
    }

    /// Replace the extensions: cut the text at the first dot after its
    /// last slash, then append the given extensions joined by dots, or
    /// nothing when they join to an empty text.
    pub fn set_extensions(&mut self, extensions: &Vec<String>)
        ensures
            final(self).os == old(self).os,
            ({
                let cut = spec_first_dot_from(
                    old(self).path@,
                    spec_after_last_slash(old(self).path@),
                );
                let e = seq_join(extensions@.map_values(|x: String| x@), '.');
                final(self).path@ == old(self).path@.take(cut) + if e.len() == 0 {
                    Seq::<char>::empty()
                } else {
                    seq!['.'] + e
                }
            }),
    {
        let v = chars_of(self.path.as_str());
        let start = after_last_slash(&v);
        let cut = first_dot_from(&v, start);
        let mut head = sub_chars(&v, 0, cut);
        proof {
            assert(head@ =~= old(self).path@.take(
                spec_first_dot_from(old(self).path@, spec_after_last_slash(old(self).path@)),
            ));
        }
        let ghost evs = extensions@.map_values(|x: String| x@);
        let mut joined: Vec<char> = Vec::new();
        let mut i: usize = 0;
        proof {
            assert(evs.take(0) =~= Seq::<Seq<char>>::empty());
        }
        while i < extensions.len()
            invariant
                i <= extensions@.len(),
                evs == extensions@.map_values(|x: String| x@),
                joined@ == seq_join(evs.take(i as int), '.'),
            decreases extensions@.len() - i,
        {
            proof {
                assert(evs.take(i as int + 1).drop_last() =~= evs.take(i as int));
                assert(evs.take(i as int + 1).last() == extensions@[i as int]@);
            }
            if i > 0 {
                joined.push('.');
            }
            let ghost mid = joined@;
            let piece = chars_of(extensions[i].as_str());
            crate::strutil::append_chars(&mut joined, &piece);
            proof {
                if i > 0 {
                    assert(joined@ =~= seq_join(evs.take(i as int), '.') + seq!['.']
                        + extensions@[i as int]@);
                    assert(seq_join(evs.take(i as int + 1), '.') == seq_join(
                        evs.take(i as int),
                        '.',
                    ) + seq!['.'] + evs.take(i as int + 1).last());
                } else {
                    assert(joined@ =~= extensions@[0]@);
                    assert(seq_join(evs.take(1), '.') == evs.take(1)[0]);
                }
            }
            i = i + 1;
        }
        proof {
            assert(evs.take(evs.len() as int) =~= evs);
        }
        if joined.len() > 0 {
            head.push('.');
            crate::strutil::append_chars(&mut head, &joined);
        }
        proof {
            let cut = spec_first_dot_from(
                old(self).path@,
                spec_after_last_slash(old(self).path@),
            );
            let e = seq_join(evs, '.');
            if e.len() == 0 {
                assert(head@ =~= old(self).path@.take(cut));
            } else {
                assert(head@ =~= old(self).path@.take(cut) + (seq!['.'] + e));
            }
        }
        self.path = string_of(&head);
    }

    /// A copy with the extensions replaced.
    pub fn with_extension(&self, extensions: &Vec<String>) -> (r: PathInner)
        ensures
            r.os == self.os,
            ({
                let cut = spec_first_dot_from(self.path@, spec_after_last_slash(self.path@));
                let e = seq_join(extensions@.map_values(|x: String| x@), '.');
                r.path@ == self.path@.take(cut) + if e.len() == 0 {
                    Seq::<char>::empty()
                } else {
                    seq!['.'] + e
                }
            }),
    {
        let mut me = PathInner { path: self.path.clone(), os: self.os };
        me.set_extensions(extensions);
        me
    }

    /// A copy with `root` prepended to the text.
    pub fn with_root(&self, root: &str) -> (r: PathInner)
        ensures
            r.os == self.os,
            r.path@ == root@ + self.path@,
    {
        let mut head = chars_of(root);
        let v = chars_of(self.path.as_str());
        crate::strutil::append_chars(&mut head, &v);
        PathInner { path: string_of(&head), os: self.os }
    }

    /// A copy with `path` appended to the text.
    pub fn appending(&self, path: &str) -> (r: PathInner)
        ensures
            r.os == self.os,
            r.path@ == self.path@ + path@,
    {
        let mut head = chars_of(self.path.as_str());
        let tail = chars_of(path);
        crate::strutil::append_chars(&mut head, &tail);
        PathInner { path: string_of(&head), os: self.os }
    }

    /// Strip `root` off the front of the text, when it is a prefix.
    pub fn remove_root(&self, root: &str) -> (r: Option<PathInner>)
        ensures
            r is Some <==> (root@.len() <= self.path@.len() && self.path@.take(root@.len() as int)
                == root@),
            r matches Some(p) ==> p.os == self.os && p.path@ == self.path@.skip(
                root@.len() as int,
            ),
    {
        let v = chars_of(self.path.as_str());
        let rv = chars_of(root);
        if rv.len() > v.len() {
            proof {
                assert(root@.len() > self.path@.len());
            }
            return None;
        }
        let mut i: usize = 0;
        while i < rv.len()
            invariant
                rv@.len() <= v@.len(),
                i <= rv@.len(),
                v@ == self.path@,
                rv@ == root@,
                forall|m: int| 0 <= m < i ==> v@[m] == rv@[m],
            decreases rv@.len() - i,
        {
            if v[i] != rv[i] {
                proof {
                    assert(self.path@[i as int] != root@[i as int]);
                    assert(self.path@.take(root@.len() as int)[i as int] == self.path@[
                        i as int
                    ]);
                }
                return None;
            }
            i = i + 1;
        }
        proof {
            assert(self.path@.take(root@.len() as int) =~= root@);
        }
        let tail = sub_chars(&v, rv.len(), v.len());
        proof {
            assert(tail@ =~= self.path@.skip(root@.len() as int));
        }
        Some(PathInner { path: string_of(&tail), os: self.os })
    }

    /// The path's segments from index `count` on, joined as a plain
    /// relative path without drive, root or trailing separator.
    pub fn relative_from(&self, count: usize) -> (r: PathInner)
        ensures
            r.os == self.os,
            ({
                let segs = drop_empty(spec_segments(self.path@, self.os));
                let ss = if count <= segs.len() {
                    segs.skip(count as int)
                } else {
                    Seq::<Seq<char>>::empty()
                };
                r.path@ == seq_join(ss, spec_sep(self.os))
            }),
            self.strong() ==> r.strong(),
    {
        let segs = self.seg_vecs();
        let mut tail: Vec<Vec<char>> = Vec::new();
        let mut i: usize = if count <= segs.len() {
            count
        } else {
            segs.len()
        };
        let ghost start = i as int;
        let ghost all = views(segs@);
        while i < segs.len()
            invariant
                0 <= start <= i <= segs@.len(),
                all == views(segs@),
                views(tail@) == all.subrange(start, i as int),
            decreases segs@.len() - i,
        {
            let piece = segs[i].clone();
            proof {
                assert(piece@ =~= segs@[i as int]@);
            }
            tail.push(piece);
            proof {
                assert(views(tail@) =~= all.subrange(start, i as int).push(all[i as int]));
                assert(all.subrange(start, i as int + 1) =~= all.subrange(start, i as int).push(
                    all[i as int],
                ));
            }
            i = i + 1;
        }
        proof {
            assert(views(tail@) =~= all.skip(start));
            if count as int > all.len() {
                assert(all.skip(start) =~= Seq::<Seq<char>>::empty());
            }
        }
        let empty: Vec<char> = Vec::new();
        let text = render(self.os, &empty, false, &tail, false);
        proof {
            assert(text@ =~= seq_join(views(tail@), spec_sep(self.os)));
            if self.strong() {
                let allspec = spec_segments(self.path@, self.os);
                lemma_drop_empty_id(allspec);
                lemma_resolved_skip(allspec, start);
                crate::inner::lemma_render_strong(
                    self.os,
                    Seq::<char>::empty(),
                    false,
                    allspec.skip(start),
                    false,
                );
            }
        }
        PathInner { path: string_of(&text), os: self.os }
    }

    /// Append raw values to the path and normalize: the old relative
    /// portion and the values are resolved together behind the old drive
    /// and root. Fails, leaving the path unchanged, exactly when a piece
    /// of the combined text is no valid segment.
    pub fn join(&mut self, values: &Vec<String>) -> (r: Result<(), PathError>)
        ensures
            final(self).os == old(self).os,
            r is Ok <==> spec_join_vals(
                old(self).path@,
                old(self).os,
                values@.map_values(|x: String| x@),
            ) is Ok,
            r is Ok ==> Ok::<Seq<char>, SpecErr>(final(self).path@) == spec_join_vals(
                old(self).path@,
                old(self).os,
                values@.map_values(|x: String| x@),
            ),
            r matches Err(e) ==> final(self).path@ == old(self).path@ && (spec_join_vals(
                old(self).path@,
                old(self).os,
                values@.map_values(|x: String| x@),
            ) matches Err(t) && err_matches(e, t)),
            old(self).strong() && r is Ok ==> final(self).strong(),
    {
        let ghost vals = values@.map_values(|x: String| x@);
        let v = chars_of(self.path.as_str());
        let rs = self.relative_start();
        let mut rel2 = sub_chars(&v, rs, v.len());
        proof {
            assert(rel2@ =~= spec_rel(self.path@, self.os));
        }
        let sep = sep_of(self.os);
        rel2.push(sep);
        let ghost mid = rel2@;
        let mut i: usize = 0;
        proof {
            assert(vals.take(0) =~= Seq::<Seq<char>>::empty());
        }
        while i < values.len()
            invariant
                i <= values@.len(),
                vals == values@.map_values(|x: String| x@),
                rel2@ == mid + seq_join(vals.take(i as int), spec_sep(self.os)),
                sep == spec_sep(self.os),
            decreases values@.len() - i,
        {
            proof {
                assert(vals.take(i as int + 1).drop_last() =~= vals.take(i as int));
                assert(vals.take(i as int + 1).last() == values@[i as int]@);
            }
            if i > 0 {
                rel2.push(sep);
            }
            let ghost before = rel2@;
            let piece = chars_of(values[i].as_str());
            crate::strutil::append_chars(&mut rel2, &piece);
            proof {
                if i > 0 {
                    assert(rel2@ =~= mid + (seq_join(vals.take(i as int), spec_sep(self.os))
                        + seq![sep] + values@[i as int]@));
                    assert(seq_join(vals.take(i as int + 1), spec_sep(self.os)) == seq_join(
                        vals.take(i as int),
                        spec_sep(self.os),
                    ) + seq![sep] + vals.take(i as int + 1).last());
                    assert(rel2@ =~= mid + seq_join(vals.take(i as int + 1), spec_sep(self.os)));
                } else {
                    assert(seq_join(vals.take(1), spec_sep(self.os)) == vals.take(1)[0]);
                    assert(rel2@ =~= mid + seq_join(vals.take(1), spec_sep(self.os)));
                }
            }
            i = i + 1;
        }
        proof {
            assert(vals.take(vals.len() as int) =~= vals);
            assert(rel2@ =~= spec_rel(self.path@, self.os) + seq![spec_sep(self.os)] + seq_join(
                vals,
                spec_sep(self.os),
            ));
        }
        let pieces = split_slashes(&rel2);
        let segs = match crate::resolve::resolve_segments(&pieces) {
            Ok(s) => s,
            Err(e) => {
                return Err(e);
            },
        };
        let (prefix, root) = self.split_head();
        let trailing = rel2.len() >= 1 && is_slash(rel2[rel2.len() - 1]);
        proof {
            assert(rel2@[rel2@.len() - 1] == rel2@.last());
        }
        let text = render(self.os, &prefix, root, &segs, trailing);
        proof {
            if old(self).strong() {
                lemma_decompose(self.path@, self.os);
                crate::resolve::lemma_check_pieces_all_valid(views(pieces@));
                lemma_split_no_slash(rel2@);
                crate::resolve::lemma_resolve_resolved(views(pieces@));
                crate::inner::lemma_render_strong(
                    self.os,
                    spec_drive_prefix(self.path@, self.os),
                    spec_has_root(self.path@, self.os),
                    crate::resolve::spec_resolve(views(pieces@)),
                    trailing,
                );
            }
        }
        self.path = string_of(&text);
        Ok(())
    }

    /// A copy with the values joined on.
    pub fn joining(&self, values: &Vec<String>) -> (r: Result<PathInner, PathError>)
        ensures
            r is Ok <==> spec_join_vals(
                self.path@,
                self.os,
                values@.map_values(|x: String| x@),
            ) is Ok,
            r matches Ok(p) ==> p.os == self.os && Ok::<Seq<char>, SpecErr>(p.path@)
                == spec_join_vals(self.path@, self.os, values@.map_values(|x: String| x@)) && (
            self.strong() ==> p.strong()),
            r matches Err(e) ==> (spec_join_vals(
                self.path@,
                self.os,
                values@.map_values(|x: String| x@),
            ) matches Err(t) && err_matches(e, t)),
    {
        let mut me = PathInner { path: self.path.clone(), os: self.os };
        match me.join(values) {
            Ok(()) => Ok(me),
            Err(e) => Err(e),
        }
    }

    /// Validate a segment and push its text onto the path unchanged.
    pub fn push_segment(&mut self, segment: &str) -> (r: Result<(), PathError>)
        ensures
            final(self).os == old(self).os,
            r is Ok <==> crate::chars::spec_valid_segment(segment@),
            r is Ok ==> final(self).path@ == old(self).path@ + segment@,
            r matches Err(e) ==> final(self).path@ == old(self).path@ && err_matches(
                e,
                crate::chars::spec_check_segment(segment@).unwrap(),
            ),
    {
        let seg = chars_of(segment);
        match crate::chars::check_segment(&seg) {
            Ok(()) => {},
            Err(e) => {
                proof {
                    crate::chars::lemma_check_none_iff_valid(segment@);
                }
                return Err(e);
            },
        }
        proof {
            crate::chars::lemma_check_none_iff_valid(segment@);
        }
        let mut head = chars_of(self.path.as_str());
        crate::strutil::append_chars(&mut head, &seg);
        self.path = string_of(&head);
        Ok(())
    }
}

/// Does `hay` contain `needle` as a contiguous part?
pub open spec fn spec_contains(hay: Seq<char>, needle: Seq<char>) -> bool {
    exists|i: int|
        0 <= i <= hay.len() - needle.len() && #[trigger] hay.subrange(i, i + needle.len())
            == needle
}

impl PathInner {
    /// Does the canonical text start with `base`?
    pub fn starts_with(&self, base: &str) -> (r: bool)
        ensures
            r == (base@.len() <= self.path@.len() && self.path@.take(base@.len() as int)
                == base@),
    {
        let v = chars_of(self.path.as_str());
        let bv = chars_of(base);
        if bv.len() > v.len() {
            return false;
        }
        let mut i: usize = 0;
        while i < bv.len()
            invariant
                bv@.len() <= v@.len(),
                i <= bv@.len(),
                v@ == self.path@,
                bv@ == base@,
                forall|m: int| 0 <= m < i ==> v@[m] == bv@[m],
            decreases bv@.len() - i,
        {
            if v[i] != bv[i] {
                proof {
                    assert(self.path@.take(base@.len() as int)[i as int] == self.path@[i as int]);
                }
                return false;
            }
            i = i + 1;
        }
        proof {
            assert(self.path@.take(base@.len() as int) =~= base@);
        }
        true
    }

    /// Does the canonical text end with `tail`?
    pub fn ends_with(&self, tail: &str) -> (r: bool)
        ensures
            r == (tail@.len() <= self.path@.len() && self.path@.skip(
                self.path@.len() - tail@.len(),
            ) == tail@),
    {
        let v = chars_of(self.path.as_str());
        let tv = chars_of(tail);
        if tv.len() > v.len() {
            return false;
        }
        let off = v.len() - tv.len();
        let mut i: usize = 0;
        while i < tv.len()
            invariant
                tv@.len() <= v@.len(),
                v@.len() <= usize::MAX,
                off == v@.len() - tv@.len(),
                i <= tv@.len(),
                v@ == self.path@,
                tv@ == tail@,
                forall|m: int| 0 <= m < i ==> v@[m + off] == tv@[m],
            decreases tv@.len() - i,
        {
            if v[off + i] != tv[i] {
                proof {
                    assert(self.path@.skip(self.path@.len() - tail@.len())[i as int]
                        == self.path@[i as int + off]);
                }
                return false;
            }
            i = i + 1;
        }
        proof {
            assert(self.path@.skip(self.path@.len() - tail@.len()) =~= tail@);
        }
        true
    }

    /// Does the canonical text contain `needle` anywhere?
    pub fn contains(&self, needle: &str) -> (r: bool)
        ensures
            r == spec_contains(self.path@, needle@),
    {
        let v = chars_of(self.path.as_str());
        let nv = chars_of(needle);
        if nv.len() > v.len() {
            proof {
                assert(!spec_contains(self.path@, needle@));
            }
            return false;
        }
        let mut i: usize = 0;
        while i <= v.len() - nv.len()
            invariant
                nv@.len() <= v@.len(),
                i <= v@.len() - nv@.len() + 1,
                v@ == self.path@,
                nv@ == needle@,
                forall|m: int|
                    0 <= m < i ==> #[trigger] v@.subrange(m, m + nv@.len()) != needle@,
            decreases v@.len() - nv@.len() + 1 - i,
        {
            let mut k: usize = 0;
            let mut hit = true;
            while k < nv.len()
                invariant
                    nv@.len() <= v@.len(),
                    v@.len() <= usize::MAX,
                    i + nv@.len() <= v@.len(),
                    k <= nv@.len(),
                    v@ == self.path@,
                    nv@ == needle@,
                    hit == (forall|m: int| 0 <= m < k ==> v@[i + m] == nv@[m]),
                decreases nv@.len() - k,
            {
                if v[i + k] != nv[k] {
                    hit = false;
                    proof {
                        assert(v@[i as int + k as int] != nv@[k as int]);
                    }
                    k = nv.len();
                } else {
                    proof {
                        assert(v@[i as int + k as int] == nv@[k as int]);
                    }
                    k = k + 1;
                }
            }
            if hit {
                proof {
                    assert(v@.subrange(i as int, i as int + nv@.len()) =~= needle@);
                }
                return true;
            }
            proof {
                if v@.subrange(i as int, i as int + nv@.len()) == needle@ {
                    assert forall|m: int| 0 <= m < nv@.len() implies v@[i + m] == nv@[m] by {
                        assert(v@.subrange(i as int, i as int + nv@.len())[m] == v@[i + m]);
                    }
                    assert(false);
                }
            }
            i = i + 1;
        }
        proof {
            assert(!spec_contains(self.path@, needle@));
        }
        false
    }

    /// Construct a path from several raw values, joined with the
    /// platform's separator before resolution.
    pub fn new_from_strings(plat: &Platform, values: &Vec<String>) -> (r: Result<
        PathInner,
        PathError,
    >)
        requires
            plat.wf(),
        ensures
            ({
                let joined = seq_join(values@.map_values(|x: String| x@), spec_sep(plat.os));
                &&& (r is Ok <==> crate::inner::spec_new(*plat, joined) is Ok)
                &&& (r matches Ok(p) ==> p.os == plat.os && Ok::<
                    Seq<char>,
                    crate::error::SpecErr,
                >(p.path@) == crate::inner::spec_new(*plat, joined) && p.strong())
                &&& (r matches Err(e) ==> crate::inner::spec_new(*plat, joined) matches Err(t)
                    && err_matches(e, t))
            }),
    {
        let ghost vals = values@.map_values(|x: String| x@);
        let sep = sep_of(plat.os);
        let mut joined: Vec<char> = Vec::new();
        let mut i: usize = 0;
        proof {
            assert(vals.take(0) =~= Seq::<Seq<char>>::empty());
        }
        while i < values.len()
            invariant
                i <= values@.len(),
                vals == values@.map_values(|x: String| x@),
                joined@ == seq_join(vals.take(i as int), spec_sep(plat.os)),
                sep == spec_sep(plat.os),
            decreases values@.len() - i,
        {
            proof {
                assert(vals.take(i as int + 1).drop_last() =~= vals.take(i as int));
                assert(vals.take(i as int + 1).last() == values@[i as int]@);
            }
            if i > 0 {
                joined.push(sep);
            }
            let piece = chars_of(values[i].as_str());
            crate::strutil::append_chars(&mut joined, &piece);
            proof {
                if i > 0 {
                    assert(joined@ =~= seq_join(vals.take(i as int), spec_sep(plat.os))
                        + seq![sep] + values@[i as int]@);
                    assert(seq_join(vals.take(i as int + 1), spec_sep(plat.os)) == seq_join(
                        vals.take(i as int),
                        spec_sep(plat.os),
                    ) + seq![sep] + vals.take(i as int + 1).last());
                    assert(joined@ =~= seq_join(vals.take(i as int + 1), spec_sep(plat.os)));
                } else {
                    assert(seq_join(vals.take(1), spec_sep(plat.os)) == vals.take(1)[0]);
                    assert(joined@ =~= seq_join(vals.take(1), spec_sep(plat.os)));
                }
            }
            i = i + 1;
        }
        proof {
            assert(vals.take(vals.len() as int) =~= vals);
        }
        let js = string_of(&joined);
        PathInner::new(plat, js.as_str())
    }
}

impl PartialEq for PathInner {
    /// Two paths are equal when their texts and platforms are.
    fn eq(&self, other: &PathInner) -> (r: bool) {
        self.path.eq(&other.path) && self.os == other.os
    }
}

impl vstd::std_specs::cmp::PartialEqSpecImpl for PathInner {
    open spec fn obeys_eq_spec() -> bool {
        true
    }

    open spec fn eq_spec(&self, other: &PathInner) -> bool {
        self.path@ == other.path@ && self.os == other.os
    }
}

/// A slash-free text has its last slash nowhere: the filename starts at
/// the front.
pub proof fn lemma_after_last_slash_none(s: Seq<char>)
    requires
        no_slash_seg(s),
    ensures
        spec_after_last_slash(s) == 0,
    decreases s.len(),
{
    if s.len() > 0 {
        assert(s.last() == s[s.len() - 1]);
        assert(no_slash_seg(s.drop_last()));
        lemma_after_last_slash_none(s.drop_last());
    }
}

/// The last slash of `a ++ [sep] ++ b` is that separator, when `b` holds
/// no slash.
pub proof fn lemma_after_last_slash_concat(a: Seq<char>, b: Seq<char>, sep: char)
    requires
        spec_is_slash(sep),
        no_slash_seg(b),
    ensures
        spec_after_last_slash(a + seq![sep] + b) == a.len() + 1,
    decreases b.len(),
{
    let s = a + seq![sep] + b;
    if b.len() == 0 {
        assert(s =~= a.push(sep));
        assert(s.last() == sep);
    } else {
        assert(s.last() == b.last());
        assert(!spec_is_slash(s.last()));
        assert(s.drop_last() =~= a + seq![sep] + b.drop_last());
        assert(no_slash_seg(b.drop_last()));
        lemma_after_last_slash_concat(a, b.drop_last(), sep);
    }
}

/// Cutting a canonical text at its filename start leaves a canonical
/// folder text (or the bare head when there is no separator to keep).
#[verifier::rlimit(100)]
#[verifier::spinoff_prover]
pub proof fn lemma_drop_file_strong(text: Seq<char>, os: Os)
    requires
        strong_text(text, os),
    ensures
        strong_text(text.take(spec_file_name_start(text, os)), os),
{
    let rs = spec_rel_start(text, os);
    let rel = spec_rel(text, os);
    let segs = spec_segments(text, os);
    let sep = spec_sep(os);
    let fns = spec_file_name_start(text, os);
    lemma_decompose(text, os);
    if rel.len() > 0 && spec_is_slash(rel.last()) {
        // a folder keeps its whole text
        assert(spec_after_last_slash(rel) == rel.len());
        assert(fns == text.len());
        assert(text.take(fns) =~= text);
    } else if rel.len() == 0 {
        assert(spec_after_last_slash(rel) == 0);
        assert(fns == rs);
        lemma_head_strong(text, os);
    } else {
        // a file: the core is the whole relative portion
        let core = spec_core(text, os);
        assert(core == rel);
        assert(forall|i: int|
            0 <= i < core.len() && spec_is_slash(#[trigger] core[i]) ==> core[i] == sep) by {
            assert(forall|i: int| 0 <= i < core.len() ==> core[i] == #[trigger] text[i + rs]);
        }
        lemma_join_split(core, sep);
        assert(seq_join(segs, sep) == core);
        if segs.len() <= 1 {
            assert(segs.len() == 1);
            assert(seq_join(segs, sep) == segs[0]);
            assert(no_slash_seg(core)) by {
                assert(no_slash_seg(segs[0]));
            }
            lemma_after_last_slash_none(rel);
            assert(fns == rs);
            lemma_head_strong(text, os);
        } else {
            let h = seq_join(segs.drop_last(), sep);
            assert(seq_join(segs, sep) == h + seq![sep] + segs.last());
            assert(no_slash_seg(segs.last()));
            lemma_after_last_slash_concat(h, segs.last(), sep);
            assert(spec_after_last_slash(rel) == h.len() + 1);
            assert(fns == rs + h.len() + 1);
            let cut = text.take(fns);
            assert(cut =~= text.take(rs) + h + seq![sep]);
            lemma_resolved_take(segs, segs.len() - 1);
            assert(segs.take(segs.len() - 1) == segs.drop_last());
            crate::inner::lemma_render_strong(
                os,
                spec_drive_prefix(text, os),
                spec_has_root(text, os),
                segs.drop_last(),
                true,
            );
            crate::resolve::lemma_join_len_at_least(segs.drop_last(), sep);
            crate::resolve::lemma_join_props(segs.drop_last(), sep);
            assert(cut =~= spec_render(
                os,
                spec_drive_prefix(text, os),
                spec_has_root(text, os),
                segs.drop_last(),
                true,
            ));
        }
    }
}

/// The head of a canonical text — drive and root alone — is canonical.
proof fn lemma_head_strong(text: Seq<char>, os: Os)
    requires
        strong_text(text, os),
    ensures
        strong_text(text.take(spec_rel_start(text, os)), os),
{
    let rs = spec_rel_start(text, os);
    let head = text.take(rs);
    assert(forall|i: int| 0 <= i < rs ==> head[i] == #[trigger] text[i]);
    match os {
        Os::Posix => {
            if rs == 1 {
                assert(head =~= seq!['/']);
                assert(spec_rel_start(head, os) == 1);
                assert(spec_rel(head, os) =~= Seq::<char>::empty());
                assert(spec_core(head, os) =~= Seq::<char>::empty());
            } else {
                assert(head =~= Seq::<char>::empty());
                assert(spec_rel(head, os) =~= Seq::<char>::empty());
            }
        },
        Os::Windows => {
            if rs == 1 {
                assert(head =~= seq!['\\'].update(0, text[0]));
                assert(head[0] == '\\');
                assert(spec_rel_start(head, os) == 1);
                assert(spec_rel(head, os) =~= Seq::<char>::empty());
            } else if rs == 2 {
                assert(head.len() == 2 && head[1] == ':');
                assert(head[0] != '\\');
                assert(spec_rel_start(head, os) == 2);
                assert(spec_rel(head, os) =~= Seq::<char>::empty());
            } else if rs == 3 {
                assert(head.len() == 3 && head[1] == ':' && head[2] == '\\');
                assert(head[0] != '\\') by {
                    assert('A' <= text[0] && text[0] <= 'Z');
                }
                assert(spec_rel_start(head, os) == 3);
                assert(spec_rel(head, os) =~= Seq::<char>::empty());
            } else {
                assert(head =~= Seq::<char>::empty());
                assert(spec_rel(head, os) =~= Seq::<char>::empty());
            }
        },
    }
    assert(spec_core(head, os) =~= Seq::<char>::empty());
    assert(spec_segments(head, os) =~= Seq::<Seq<char>>::empty());
}

} // verus!
