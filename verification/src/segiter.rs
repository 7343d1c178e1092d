//! Walking a path: a cursor over the segments of the relative portion that
//! moves from either end, an iterator over the dot-separated extensions of
//! the filename, and the raw-piece iterator the resolver's tests exercise.

use vstd::prelude::*;

use crate::expand::sub_chars;
use crate::inner::PathInner;
use crate::ops::{spec_file_name_start, spec_first_dot_from};
use crate::resolve::{drop_empty, spec_split_slashes, split_slashes, views};
use crate::strutil::{chars_of, string_of};

verus! {

/// The views of a vector of strings.
pub open spec fn str_views(parts: Seq<String>) -> Seq<Seq<char>> {
    parts.map_values(|p: String| p@)
}

pub proof fn lemma_str_views_push(s: Seq<String>, x: String)
    ensures
        str_views(s.push(x)) == str_views(s).push(x@),
{
    assert forall|j: int| 0 <= j < s.len() + 1 implies str_views(s.push(x))[j] == str_views(
        s,
    ).push(x@)[j] by {
        if j < s.len() {
            assert(s.push(x)[j] == s[j]);
        } else {
            assert(s.push(x)[j] == x);
        }
    }
    assert(str_views(s.push(x)) =~= str_views(s).push(x@));
}

/// Turn a vector of character vectors into strings.
fn to_strings(parts: &Vec<Vec<char>>) -> (r: Vec<String>)
    ensures
        str_views(r@) == views(parts@),
{
    let mut r: Vec<String> = Vec::new();
    let mut i: usize = 0;
    proof {
        assert(str_views(r@) =~= views(parts@).take(0));
    }
    while i < parts.len()
        invariant
            i <= parts@.len(),
            str_views(r@) == views(parts@).take(i as int),
        decreases parts@.len() - i,
    {
        let sstr = string_of(&parts[i]);
        let ghost prev = r@;
        let ghost sv = sstr@;
        proof {
            assert(sv == parts@[i as int]@);
        }
        r.push(sstr);
        i = i + 1;
        proof {
            lemma_str_views_push(prev, r@[r@.len() - 1]);
            assert(r@ == prev.push(r@[r@.len() - 1]));
            assert(str_views(r@) =~= views(parts@).take(i as int));
        }
    }
    proof {
        assert(views(parts@).take(parts@.len() as int) =~= views(parts@));
    }
    r
}

/// A cursor over the segments of a path. One position moves through the
/// list: `next` advances it and yields the segment it reaches, `next_back`
/// moves it backwards; the two directions share the one position.
pub struct Segments {
    pub parts: Vec<String>,
    pub before: bool,
    pub pos: usize,
}

impl Segments {
    /// The cursor position: the index of the last segment yielded by
    /// `next`, `-1` before the start.
    pub open spec fn cursor(&self) -> int {
        if self.before {
            -1
        } else {
            self.pos as int
        }
    }

    /// The cursor stays between just-before-the-start and the length.
    pub open spec fn wf(&self) -> bool {
        -1 <= self.cursor() <= self.parts@.len()
    }

    /// A cursor at the start of the given segments.
    pub fn new_from_parts(parts: Vec<String>) -> (r: Segments)
        ensures
            r.parts@ == parts@,
            r.cursor() == -1,
            r.wf(),
    {
        Segments { parts, before: true, pos: 0 }
    }

    /// How many segments the cursor walks.
    pub fn len(&self) -> (r: usize)
        ensures
            r == self.parts@.len(),
    {
        self.parts.len()
    }

    /// All segments, in order.
    pub fn to_vec(&self) -> (r: Vec<String>)
        ensures
            str_views(r@) == str_views(self.parts@),
    {
        let mut r: Vec<String> = Vec::new();
        let mut i: usize = 0;
        proof {
            assert(str_views(r@) =~= str_views(self.parts@).take(0));
        }
        while i < self.parts.len()
            invariant
                i <= self.parts@.len(),
                str_views(r@) == str_views(self.parts@).take(i as int),
            decreases self.parts@.len() - i,
        {
            let sstr = self.parts[i].clone();
            let ghost prev = r@;
            proof {
                assert(sstr@ == self.parts@[i as int]@);
            }
            r.push(sstr);
            i = i + 1;
            proof {
                lemma_str_views_push(prev, r@[r@.len() - 1]);
                assert(r@ == prev.push(r@[r@.len() - 1]));
                assert(str_views(r@) =~= str_views(self.parts@).take(i as int));
            }
        }
        proof {
            assert(str_views(self.parts@).take(self.parts@.len() as int) =~= str_views(
                self.parts@,
            ));
        }
        r
    }

    /// Move the cursor forward and yield the segment it lands on; `None`
    /// once it passes the end.
    pub fn next(&mut self) -> (r: Option<String>)
        requires
            old(self).wf(),
        ensures
            final(self).parts@ == old(self).parts@,
            final(self).wf(),
            ({
                let n = old(self).parts@.len() as int;
                let c = old(self).cursor();
                if n == 0 {
                    r is None && final(self).cursor() == c
                } else if c < 0 {
                    final(self).cursor() == 0 && (r matches Some(s) && s@ == old(
                        self,
                    ).parts@[0]@)
                } else if c + 1 >= n {
                    r is None && final(self).cursor() == n
                } else {
                    final(self).cursor() == c + 1 && (r matches Some(s) && s@ == old(
                        self,
                    ).parts@[c + 1]@)
                }
            }),
    {
        let n = self.parts.len();
        if n == 0 {
            return None;
        }
        if self.before {
            self.before = false;
            self.pos = 0;
            return Some(self.parts[0].clone());
        }
        if self.pos >= n - 1 {
            self.pos = n;
            return None;
        }
        self.pos = self.pos + 1;
        Some(self.parts[self.pos].clone())
    }

    /// Move the cursor backwards and yield the segment it lands on;
    /// `None` once it passes the start.
    pub fn next_back(&mut self) -> (r: Option<String>)
        requires
            old(self).wf(),
        ensures
            final(self).parts@ == old(self).parts@,
            final(self).wf(),
            ({
                let n = old(self).parts@.len() as int;
                let c = old(self).cursor();
                if n == 0 {
                    r is None && final(self).cursor() == c
                } else if c >= n {
                    final(self).cursor() == n - 1 && (r matches Some(s) && s@ == old(
                        self,
                    ).parts@[n - 1]@)
                } else if c - 1 < 0 {
                    r is None && final(self).cursor() == -1
                } else {
                    final(self).cursor() == c - 1 && (r matches Some(s) && s@ == old(
                        self,
                    ).parts@[c - 1]@)
                }
            }),
    {
        let n = self.parts.len();
        if n == 0 {
            return None;
        }
        if !self.before && self.pos >= n {
            self.pos = n - 1;
            return Some(self.parts[n - 1].clone());
        }
        if self.before {
            return None;
        }
        if self.pos == 0 {
            self.before = true;
            self.pos = 0;
            return None;
        }
        self.pos = self.pos - 1;
        Some(self.parts[self.pos].clone())
    }
}

/// Split `s` on dots, keeping empty pieces.
pub open spec fn spec_split_dots(s: Seq<char>) -> Seq<Seq<char>>
    decreases s.len(),
{
    if s.len() == 0 {
        seq![seq![]]
    } else {
        let r = spec_split_dots(s.drop_last());
        if s.last() == '.' {
            r.push(seq![])
        } else {
            r.update(r.len() - 1, r.last().push(s.last()))
        }
    }
}

/// The extension pieces of a canonical text: the dot-separated pieces of
/// the filename after its first dot; none when the filename has no dot, or
/// nothing follows it.
pub open spec fn spec_extensions(text: Seq<char>, os: crate::platform::Os) -> Seq<Seq<char>> {
    let fns = spec_file_name_start(text, os);
    let d = spec_first_dot_from(text, fns);
    if d + 1 >= text.len() {
        seq![]
    } else {
        spec_split_dots(text.skip(d + 1))
    }
}

fn split_dots(v: &Vec<char>) -> (r: Vec<Vec<char>>)
    ensures
        views(r@) == spec_split_dots(v@),
{
    let mut parts: Vec<Vec<char>> = Vec::new();
    let mut cur: Vec<char> = Vec::new();
    let mut i: usize = 0;
    while i < v.len()
        invariant
            i <= v@.len(),
            spec_split_dots(v@.take(i as int)) == views(parts@).push(cur@),
        decreases v@.len() - i,
    {
        proof {
            assert(v@.take(i as int + 1).drop_last() =~= v@.take(i as int));
            assert(v@.take(i as int + 1).last() == v@[i as int]);
        }
        let c = v[i];
        if c == '.' {
            parts.push(cur);
            cur = Vec::new();
            proof {
                assert(spec_split_dots(v@.take(i as int + 1)) =~= views(parts@).push(cur@));
            }
        } else {
            cur.push(c);
            proof {
                let prev = spec_split_dots(v@.take(i as int));
                assert(prev.last() == cur@.drop_last());
                assert(spec_split_dots(v@.take(i as int + 1)) =~= prev.update(
                    prev.len() - 1,
                    prev.last().push(c),
                ));
                assert(spec_split_dots(v@.take(i as int + 1)) =~= views(parts@).push(cur@));
            }
        }
        i = i + 1;
    }
    parts.push(cur);
    proof {
        assert(v@.take(v@.len() as int) =~= v@);
    }
    parts
}

/// A forward iterator over the extension pieces of a filename.
pub struct Extensions {
    pub parts: Vec<String>,
    pub pos: usize,
}

impl Extensions {
    /// An iterator at the start of the given pieces.
    pub fn new_from_parts(parts: Vec<String>) -> (r: Extensions)
        ensures
            r.parts@ == parts@,
            r.pos == 0,
    {
        Extensions { parts, pos: 0 }
    }

    /// The next extension piece, front to back.
    pub fn next(&mut self) -> (r: Option<String>)
        ensures
            final(self).parts@ == old(self).parts@,
            old(self).pos < old(self).parts@.len() ==> (final(self).pos == old(self).pos + 1 && (
            r matches Some(s) && s@ == old(self).parts@[old(self).pos as int]@)),
            old(self).pos >= old(self).parts@.len() ==> (r is None && final(self).pos == old(
                self,
            ).pos),
    {
        if self.pos < self.parts.len() {
            let s = self.parts[self.pos].clone();
            self.pos = self.pos + 1;
            Some(s)
        } else {
            None
        }
    }

    /// All remaining pieces, in order.
    pub fn to_vec(&self) -> (r: Vec<String>)
        ensures
            self.pos == 0 ==> str_views(r@) == str_views(self.parts@),
            self.pos <= self.parts@.len() ==> str_views(r@) == str_views(self.parts@).skip(
                self.pos as int,
            ),
    {
        let mut r: Vec<String> = Vec::new();
        let mut i: usize = if self.pos <= self.parts.len() {
            self.pos
        } else {
            self.parts.len()
        };
        let ghost start = i as int;
        while i < self.parts.len()
            invariant
                0 <= start <= i <= self.parts@.len(),
                str_views(r@) == str_views(self.parts@).subrange(start, i as int),
            decreases self.parts@.len() - i,
        {
            let sstr = self.parts[i].clone();
            let ghost prev = r@;
            proof {
                assert(sstr@ == self.parts@[i as int]@);
            }
            r.push(sstr);
            i = i + 1;
            proof {
                lemma_str_views_push(prev, r@[r@.len() - 1]);
                assert(r@ == prev.push(r@[r@.len() - 1]));
                assert(str_views(r@) =~= str_views(self.parts@).subrange(start, i as int));
            }
        }
        proof {
            assert(str_views(self.parts@).subrange(start, self.parts@.len() as int) =~= str_views(
                self.parts@,
            ).skip(start));
            if self.pos == 0 {
                assert(str_views(self.parts@).skip(0) =~= str_views(self.parts@));
            }
        }
        r
    }
}

/// What the raw-piece iterator yields from position `p`: a piece followed
/// by a `..` piece is skipped together with it, and empty pieces are
/// skipped alone.
pub open spec fn spec_inner_next(ps: Seq<Seq<char>>, p: int) -> (Option<Seq<char>>, int)
    decreases ps.len() - p when 0 <= p <= ps.len()
{
    if p >= ps.len() {
        (None, p)
    } else if p + 1 < ps.len() && crate::resolve::is_dotdot(ps[p + 1]) {
        spec_inner_next(ps, p + 2)
    } else if ps[p].len() > 0 {
        (Some(ps[p]), p + 1)
    } else {
        spec_inner_next(ps, p + 1)
    }
}

/// An iterator over the raw slash-separated pieces of a path string that
/// drops every piece a `..` cancels, the `..` itself, and empty pieces.
pub struct InnerSegmentIter {
    pub parts: Vec<String>,
    pub pos: usize,
}

impl InnerSegmentIter {
    /// The pieces of the raw path, ready for iteration.
    pub fn new(path: &str) -> (r: InnerSegmentIter)
        ensures
            str_views(r.parts@) == spec_split_slashes(path@),
            r.pos == 0,
    {
        let v = chars_of(path);
        let pieces = split_slashes(&v);
        InnerSegmentIter { parts: to_strings(&pieces), pos: 0 }
    }

    /// The next piece that survives the cancelling walk.
    pub fn next(&mut self) -> (r: Option<String>)
        requires
            old(self).pos <= old(self).parts@.len(),
        ensures
            final(self).parts@ == old(self).parts@,
            final(self).pos <= final(self).parts@.len(),
            ({
                let (exp, np) = spec_inner_next(str_views(old(self).parts@), old(self).pos as int);
                &&& final(self).pos == np
                &&& match r {
                    Some(s) => exp == Some(s@),
                    None => exp is None,
                }
            }),
    {
        let ghost ps = str_views(self.parts@);
        let ghost p0 = self.pos as int;
        loop
            invariant
                self.pos <= self.parts@.len(),
                self.parts@ == old(self).parts@,
                p0 == old(self).pos as int,
                ps == str_views(self.parts@),
                spec_inner_next(ps, p0) == spec_inner_next(ps, self.pos as int),
            decreases self.parts@.len() - self.pos,
        {
            proof {
                if (self.pos as int) < ps.len() {
                    assert(ps[self.pos as int] == self.parts@[self.pos as int]@);
                    if self.pos as int + 1 < ps.len() {
                        assert(ps[self.pos as int + 1] == self.parts@[self.pos as int + 1]@);
                    }
                }
            }
            if self.pos >= self.parts.len() {
                return None;
            }
            let piece_is_dotdot = self.pos + 1 < self.parts.len() && is_dotdot_str(
                &self.parts[self.pos + 1],
            );
            if piece_is_dotdot {
                self.pos = self.pos + 2;
            } else if !self.parts[self.pos].as_str().is_empty() {
                let s = self.parts[self.pos].clone();
                self.pos = self.pos + 1;
                return Some(s);
            } else {
                self.pos = self.pos + 1;
            }
        }
    }
}

fn is_dotdot_str(s: &String) -> (r: bool)
    ensures
        r == crate::resolve::is_dotdot(s@),
{
    let v = chars_of(s.as_str());
    v.len() == 2 && v[0] == '.' && v[1] == '.'
}

impl PathInner {
    /// A cursor over the segments of the relative portion.
    pub fn segments(&self) -> (r: Segments)
        ensures
            str_views(r.parts@) == drop_empty(
                crate::inner::spec_segments(self.path@, self.os),
            ),
            r.cursor() == -1,
            r.wf(),
    {
        let parts = self.seg_vecs();
        Segments::new_from_parts(to_strings(&parts))
    }

    /// An iterator over the extension pieces of the filename.
    pub fn extensions(&self) -> (r: Extensions)
        ensures
            str_views(r.parts@) == spec_extensions(self.path@, self.os),
            r.pos == 0,
    {
        let v = chars_of(self.path.as_str());
        let fns = self.file_name_start();
        let d = crate::ops::first_dot_from(&v, fns);
        if d >= v.len() || d + 1 >= v.len() {
            let parts: Vec<String> = Vec::new();
            proof {
                assert(str_views(parts@) =~= Seq::<Seq<char>>::empty());
            }
            Extensions::new_from_parts(parts)
        } else {
            let tail = sub_chars(&v, d + 1, v.len());
            proof {
                assert(tail@ =~= self.path@.skip(
                    spec_first_dot_from(self.path@, spec_file_name_start(self.path@, self.os))
                        + 1,
                ));
            }
            let pieces = split_dots(&tail);
            Extensions::new_from_parts(to_strings(&pieces))
        }
    }
}

} // verus!
