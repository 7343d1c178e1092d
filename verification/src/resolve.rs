//! The segment resolver: split a raw path on either slash, validate every
//! piece, drop empty and `.` pieces, and cancel `..` against the segment
//! before it, keeping a `..` only when there is nothing left to cancel.

use vstd::prelude::*;

use crate::chars::{
    check_segment, is_slash, spec_check_segment, spec_is_slash, spec_valid_segment,
};
use crate::error::{err_matches, PathError, SpecErr};

verus! {

/// Is `s` the segment `.`?
pub open spec fn is_dot(s: Seq<char>) -> bool {
    s.len() == 1 && s[0] == '.'
}

/// Is `s` the segment `..`?
pub open spec fn is_dotdot(s: Seq<char>) -> bool {
    s.len() == 2 && s[0] == '.' && s[1] == '.'
}

/// The views of a vector of character vectors.
pub open spec fn views(parts: Seq<Vec<char>>) -> Seq<Seq<char>> {
    parts.map_values(|p: Vec<char>| p@)
}

/// Split `s` on the slash characters. The result always holds one piece
/// more than the number of slashes; pieces may be empty.
pub open spec fn spec_split_slashes(s: Seq<char>) -> Seq<Seq<char>>
    decreases s.len(),
{
    if s.len() == 0 {
        seq![seq![]]
    } else {
        let r = spec_split_slashes(s.drop_last());
        if spec_is_slash(s.last()) {
            r.push(seq![])
        } else {
            r.update(r.len() - 1, r.last().push(s.last()))
        }
    }
}

pub proof fn lemma_split_nonempty(s: Seq<char>)
    ensures
        spec_split_slashes(s).len() >= 1,
    decreases s.len(),
{
    if s.len() > 0 {
        lemma_split_nonempty(s.drop_last());
    }
}

/// Split a character vector on the slash characters.
pub fn split_slashes(v: &Vec<char>) -> (r: Vec<Vec<char>>)
    ensures
        views(r@) == spec_split_slashes(v@),
{
    let mut parts: Vec<Vec<char>> = Vec::new();
    let mut cur: Vec<char> = Vec::new();
    let mut i: usize = 0;
    while i < v.len()
        invariant
            i <= v@.len(),
            spec_split_slashes(v@.take(i as int)) == views(parts@).push(cur@),
        decreases v@.len() - i,
    {
        proof {
            assert(v@.take(i as int + 1).drop_last() =~= v@.take(i as int));
            assert(v@.take(i as int + 1).last() == v@[i as int]);
        }
        let c = v[i];
        if is_slash(c) {
            parts.push(cur);
            cur = Vec::new();
            proof {
                assert(spec_split_slashes(v@.take(i as int + 1)) =~= views(parts@).push(cur@));
            }
        } else {
            cur.push(c);
            proof {
                let prev = spec_split_slashes(v@.take(i as int));
                assert(prev.last() == cur@.drop_last());
                assert(spec_split_slashes(v@.take(i as int + 1)) =~= prev.update(
                    prev.len() - 1,
                    prev.last().push(c),
                ));
                assert(spec_split_slashes(v@.take(i as int + 1)) =~= views(parts@).push(cur@));
            }
        }
        i = i + 1;
    }
    parts.push(cur);
    proof {
        assert(v@.take(v@.len() as int) =~= v@);
    }
    parts
}

/// One resolver step: what the retained segment list becomes when `seg`
/// arrives.
pub open spec fn spec_step(acc: Seq<Seq<char>>, seg: Seq<char>) -> Seq<Seq<char>> {
    if is_dotdot(seg) {
        if acc.len() == 0 || is_dotdot(acc.last()) {
            acc.push(seg)
        } else {
            acc.drop_last()
        }
    } else if seg.len() == 0 || is_dot(seg) {
        acc
    } else {
        acc.push(seg)
    }
}

/// The retained segments after resolving the whole list, left to right.
pub open spec fn spec_resolve(segs: Seq<Seq<char>>) -> Seq<Seq<char>>
    decreases segs.len(),
{
    if segs.len() == 0 {
        seq![]
    } else {
        spec_step(spec_resolve(segs.drop_last()), segs.last())
    }
}

/// The first validation error among `ps`, if any.
pub open spec fn spec_check_pieces(ps: Seq<Seq<char>>) -> Option<SpecErr>
    decreases ps.len(),
{
    if ps.len() == 0 {
        None
    } else if spec_check_segment(ps[0]) is Some {
        spec_check_segment(ps[0])
    } else {
        spec_check_pieces(ps.skip(1))
    }
}

pub proof fn lemma_check_pieces_all_valid(ps: Seq<Seq<char>>)
    requires
        spec_check_pieces(ps) is None,
    ensures
        forall|i: int| 0 <= i < ps.len() ==> spec_valid_segment(ps[i]),
    decreases ps.len(),
{
    if ps.len() > 0 {
        lemma_check_pieces_all_valid(ps.skip(1));
        assert forall|i: int| 0 <= i < ps.len() implies spec_valid_segment(ps[i]) by {
            if i > 0 {
                assert(ps[i] == ps.skip(1)[i - 1]);
            } else {
                crate::chars::lemma_check_none_iff_valid(ps[0]);
            }
        }
    }
}

/// Does `s` hold no slash character?
pub open spec fn no_slash_seg(s: Seq<char>) -> bool {
    forall|k: int| 0 <= k < s.len() ==> !spec_is_slash(s[k])
}

/// Is `segs` a fully resolved segment list: no empty piece, no slash
/// inside a piece, no `.`, `..` only as a leading run, and every piece a
/// valid segment?
pub open spec fn resolved_list(segs: Seq<Seq<char>>) -> bool {
    &&& forall|i: int| 0 <= i < segs.len() ==> #[trigger] segs[i].len() > 0
    &&& forall|i: int| 0 <= i < segs.len() ==> no_slash_seg(#[trigger] segs[i])
    &&& forall|i: int| 0 <= i < segs.len() ==> !is_dot(#[trigger] segs[i])
    &&& forall|i: int| 0 <= i < segs.len() ==> #[trigger] spec_valid_segment(segs[i])
    &&& forall|i: int, j: int|
        0 <= j < i < segs.len() && is_dotdot(#[trigger] segs[i]) ==> is_dotdot(#[trigger] segs[j])
}

/// Every piece that splitting yields is slash-free.
pub proof fn lemma_split_no_slash(s: Seq<char>)
    ensures
        forall|i: int|
            0 <= i < spec_split_slashes(s).len() ==> no_slash_seg(
                #[trigger] spec_split_slashes(s)[i],
            ),
    decreases s.len(),
{
    if s.len() > 0 {
        lemma_split_no_slash(s.drop_last());
        let r = spec_split_slashes(s.drop_last());
        lemma_split_nonempty(s.drop_last());
        if !spec_is_slash(s.last()) {
            assert forall|i: int|
                0 <= i < spec_split_slashes(s).len() implies no_slash_seg(
                #[trigger] spec_split_slashes(s)[i],
            ) by {
                if i == r.len() - 1 {
                    assert(spec_split_slashes(s)[i] == r.last().push(s.last()));
                }
            }
        }
    }
}

pub proof fn lemma_resolve_resolved(segs: Seq<Seq<char>>)
    requires
        forall|i: int| 0 <= i < segs.len() ==> #[trigger] spec_valid_segment(segs[i]),
        forall|i: int| 0 <= i < segs.len() ==> no_slash_seg(#[trigger] segs[i]),
    ensures
        resolved_list(spec_resolve(segs)),
    decreases segs.len(),
{
    if segs.len() > 0 {
        lemma_resolve_resolved(segs.drop_last());
        let acc = spec_resolve(segs.drop_last());
        let seg = segs.last();
        assert(spec_valid_segment(seg));
        assert(no_slash_seg(seg));
        if is_dotdot(seg) {
            if acc.len() == 0 || is_dotdot(acc.last()) {
                assert(spec_valid_segment(seg)) by {
                    assert(seg =~= seq!['.', '.']);
                    assert(seg.drop_last() =~= seq!['.']);
                    assert(seq!['.'].drop_last() =~= Seq::<char>::empty());
                    assert(('.' as u32) >= 0x20 && ('.' as u32) < 0x80);
                    assert(crate::chars::spec_char_len('.') == 1);
                    assert(crate::chars::spec_utf8_len(Seq::<char>::empty()) == 0);
                    assert(crate::chars::spec_utf8_len(seq!['.']) == 1);
                    assert(crate::chars::spec_utf8_len(seg) == 2);
                }
                assert(resolved_list(acc.push(seg)));
            }
        }
    }
}

/// Splitting distributes over a separator: the pieces of `x ++ [sep] ++ y`
/// are the pieces of `x` followed by the pieces of `y`.
pub proof fn lemma_split_concat(x: Seq<char>, y: Seq<char>, sep: char)
    requires
        spec_is_slash(sep),
    ensures
        spec_split_slashes(x + seq![sep] + y) == spec_split_slashes(x) + spec_split_slashes(y),
    decreases y.len(),
{
    let w = x + seq![sep] + y;
    if y.len() == 0 {
        assert(w =~= x.push(sep));
        assert(w.drop_last() =~= x);
        assert(spec_split_slashes(w) =~= spec_split_slashes(x) + spec_split_slashes(y));
    } else {
        lemma_split_concat(x, y.drop_last(), sep);
        assert(w.drop_last() =~= x + seq![sep] + y.drop_last());
        assert(w.last() == y.last());
        let a = spec_split_slashes(x);
        let b = spec_split_slashes(y.drop_last());
        lemma_split_nonempty(y.drop_last());
        if spec_is_slash(y.last()) {
            assert(spec_split_slashes(w) =~= a + spec_split_slashes(y));
        } else {
            assert((a + b).last() == b.last());
            assert(spec_split_slashes(w) =~= (a + b).update(
                a.len() + b.len() - 1,
                b.last().push(y.last()),
            ));
            assert(spec_split_slashes(y) =~= b.update(b.len() - 1, b.last().push(y.last())));
            assert(spec_split_slashes(w) =~= a + spec_split_slashes(y));
        }
    }
}

/// A slash-free text splits into itself alone.
pub proof fn lemma_split_single(s: Seq<char>)
    requires
        no_slash_seg(s),
    ensures
        spec_split_slashes(s) == seq![s],
    decreases s.len(),
{
    if s.len() == 0 {
        assert(s =~= seq![]);
        assert(spec_split_slashes(s) =~= seq![s]);
    } else {
        assert(no_slash_seg(s.drop_last()));
        lemma_split_single(s.drop_last());
        assert(s.last() == s[s.len() - 1]);
        assert(!spec_is_slash(s.last()));
        assert(s.drop_last().push(s.last()) =~= s);
        assert(spec_split_slashes(s) =~= seq![s.drop_last()].update(0, s));
        assert(seq![s.drop_last()].update(0, s) =~= seq![s]);
        assert(spec_split_slashes(s) == seq![s]);
    }
}

/// Splitting inverts joining, for nonempty slash-free segments joined with
/// a separator character.
pub proof fn lemma_split_join(segs: Seq<Seq<char>>, sep: char)
    requires
        spec_is_slash(sep),
        segs.len() > 0,
        forall|i: int| 0 <= i < segs.len() ==> #[trigger] segs[i].len() > 0,
        forall|i: int| 0 <= i < segs.len() ==> no_slash_seg(#[trigger] segs[i]),
    ensures
        spec_split_slashes(crate::strutil::seq_join(segs, sep)) == segs,
    decreases segs.len(),
{
    if segs.len() == 1 {
        lemma_split_single(segs[0]);
        assert(crate::strutil::seq_join(segs, sep) == segs[0]);
        assert(spec_split_slashes(segs[0]) =~= segs);
    } else {
        lemma_split_join(segs.drop_last(), sep);
        lemma_split_single(segs.last());
        lemma_split_concat(crate::strutil::seq_join(segs.drop_last(), sep), segs.last(), sep);
        assert(spec_split_slashes(crate::strutil::seq_join(segs, sep)) =~= segs.drop_last()
            + seq![segs.last()]);
        assert(segs.drop_last() + seq![segs.last()] =~= segs);
    }
}

/// The characters of a join of nonempty slash-free segments: the first and
/// last characters are not slashes, every slash in it is the separator, and
/// no two separators are adjacent.
pub proof fn lemma_join_props(segs: Seq<Seq<char>>, sep: char)
    requires
        forall|i: int| 0 <= i < segs.len() ==> #[trigger] segs[i].len() > 0,
        forall|i: int| 0 <= i < segs.len() ==> no_slash_seg(#[trigger] segs[i]),
    ensures
        ({
            let j = crate::strutil::seq_join(segs, sep);
            &&& forall|k: int| 0 <= k < j.len() && spec_is_slash(j[k]) ==> j[k] == sep
            &&& j.len() > 0 ==> !spec_is_slash(j[0])
            &&& j.len() > 0 ==> !spec_is_slash(j.last())
            &&& forall|k: int|
                0 <= k < j.len() - 1 ==> !(#[trigger] spec_is_slash(j[k]) && spec_is_slash(
                    j[k + 1],
                ))
        }),
    decreases segs.len(),
{
    let j = crate::strutil::seq_join(segs, sep);
    if segs.len() == 0 {
    } else if segs.len() == 1 {
        assert(j == segs[0]);
        assert(no_slash_seg(j));
        assert(j[j.len() - 1] == j.last());
    } else {
        lemma_join_props(segs.drop_last(), sep);
        let h = crate::strutil::seq_join(segs.drop_last(), sep);
        let t = segs.last();
        assert(j == h + seq![sep] + t);
        assert(no_slash_seg(t));
        assert(t.len() > 0);
        assert(segs.drop_last().len() > 0);
        assert(segs.drop_last()[0] == segs[0]);
        assert(h.len() > 0) by {
            lemma_join_len_at_least(segs.drop_last(), sep);
        }
        assert(j.len() == h.len() + 1 + t.len());
        assert(j[h.len() as int] == sep);
        assert(forall|k: int| 0 <= k < h.len() ==> j[k] == h[k]);
        assert(forall|k: int| h.len() < k < j.len() ==> j[k] == t[k - h.len() - 1]);
        assert(!spec_is_slash(h.last()));
        assert(h.last() == j[h.len() - 1]);
        assert(!spec_is_slash(t[0]));
        assert(j.last() == t.last());
        assert(!spec_is_slash(j.last()));
        assert forall|k: int|
            0 <= k < j.len() - 1 implies !(#[trigger] spec_is_slash(j[k]) && spec_is_slash(
            j[k + 1],
        )) by {
            if k == h.len() - 1 {
                assert(j[k] == h.last());
            } else if k == h.len() {
                assert(j[k + 1] == t[0]);
            }
        }
    }
}

/// A join of nonempty segments is at least as long as any one of them.
pub proof fn lemma_join_len_at_least(segs: Seq<Seq<char>>, sep: char)
    requires
        forall|i: int| 0 <= i < segs.len() ==> #[trigger] segs[i].len() > 0,
    ensures
        segs.len() > 0 ==> crate::strutil::seq_join(segs, sep).len() > 0,
    decreases segs.len(),
{
    if segs.len() > 1 {
        lemma_join_len_at_least(segs.drop_last(), sep);
    }
}

/// A resolved list resolves to itself.
pub proof fn lemma_resolve_idempotent(segs: Seq<Seq<char>>)
    requires
        resolved_list(segs),
    ensures
        spec_resolve(segs) == segs,
    decreases segs.len(),
{
    if segs.len() > 0 {
        assert(resolved_list(segs.drop_last()));
        lemma_resolve_idempotent(segs.drop_last());
        let acc = segs.drop_last();
        let seg = segs.last();
        if is_dotdot(seg) {
            if acc.len() > 0 {
                assert(is_dotdot(acc.last())) by {
                    assert(acc.last() == segs[segs.len() - 2]);
                }
            }
            assert(spec_resolve(segs) =~= segs);
        } else {
            assert(seg.len() > 0 && !is_dot(seg));
            assert(spec_resolve(segs) =~= segs);
        }
    }
}

fn piece_is_dotdot(p: &Vec<char>) -> (r: bool)
    ensures
        r == is_dotdot(p@),
{
    p.len() == 2 && p[0] == '.' && p[1] == '.'
}

fn piece_is_dot(p: &Vec<char>) -> (r: bool)
    ensures
        r == is_dot(p@),
{
    p.len() == 1 && p[0] == '.'
}

/// Validate and resolve the split pieces of a path. Every piece is checked
/// (empty and `.` pieces too, as the resolver sees them before dropping
/// them); the first invalid one decides the error.
pub fn resolve_segments(pieces: &Vec<Vec<char>>) -> (r: Result<Vec<Vec<char>>, PathError>)
    ensures
        r is Ok <==> spec_check_pieces(views(pieces@)) is None,
        r matches Ok(segs) ==> views(segs@) == spec_resolve(views(pieces@)),
        r matches Err(e) ==> err_matches(e, spec_check_pieces(views(pieces@)).unwrap()),
{
    let mut acc: Vec<Vec<char>> = Vec::new();
    let mut i: usize = 0;
    let ghost ps = views(pieces@);
    proof {
        assert(ps.skip(0) =~= ps);
    }
    while i < pieces.len()
        invariant
            i <= pieces@.len(),
            ps == views(pieces@),
            views(acc@) == spec_resolve(ps.take(i as int)),
            spec_check_pieces(ps) is Some ==> spec_check_pieces(ps.skip(i as int)) is Some
                && spec_check_pieces(ps) == spec_check_pieces(ps.skip(i as int)),
            spec_check_pieces(ps) is None ==> spec_check_pieces(ps.skip(i as int)) is None,
        decreases pieces@.len() - i,
    {
        proof {
            assert(ps.skip(i as int)[0] == ps[i as int]);
        }
        let piece = &pieces[i];
        match check_segment(piece) {
            Ok(()) => {},
            Err(e) => {
                proof {
                    assert(spec_check_pieces(ps.skip(i as int)) == spec_check_segment(
                        ps[i as int],
                    ));
                }
                return Err(e);
            },
        }
        proof {
            assert(ps.take(i as int + 1).drop_last() =~= ps.take(i as int));
            assert(ps.take(i as int + 1).last() == ps[i as int]);
        }
        if piece_is_dotdot(piece) {
            let pop = acc.len() > 0 && !piece_is_dotdot(&acc[acc.len() - 1]);
            if pop {
                proof {
                    assert(views(acc@).last() == acc@[acc@.len() - 1]@);
                }
                acc.pop();
                proof {
                    assert(views(acc@) =~= spec_resolve(ps.take(i as int)).drop_last());
                }
            } else {
                proof {
                    if acc.len() > 0 {
                        assert(views(acc@).last() == acc@[acc@.len() - 1]@);
                    }
                }
                acc.push(piece.clone());
                proof {
                    assert(views(acc@) =~= spec_resolve(ps.take(i as int)).push(ps[i as int]));
                }
            }
        } else if piece.len() == 0 || piece_is_dot(piece) {
            // dropped
        } else {
            acc.push(piece.clone());
            proof {
                assert(views(acc@) =~= spec_resolve(ps.take(i as int)).push(ps[i as int]));
            }
        }
        i = i + 1;
        proof {
            assert(ps.skip(i as int - 1).skip(1) =~= ps.skip(i as int));
        }
    }
    proof {
        assert(ps.take(ps.len() as int) =~= ps);
        assert(ps.skip(ps.len() as int) =~= Seq::<Seq<char>>::empty());
    }
    Ok(acc)
}

} // verus!

verus! {

/// Joining the split pieces with the separator restores the text, when
/// every slash in it is that separator.
pub proof fn lemma_join_split(s: Seq<char>, sep: char)
    requires
        spec_is_slash(sep),
        forall|i: int| 0 <= i < s.len() && spec_is_slash(#[trigger] s[i]) ==> s[i] == sep,
    ensures
        crate::strutil::seq_join(spec_split_slashes(s), sep) == s,
    decreases s.len(),
{
    if s.len() == 0 {
        assert(crate::strutil::seq_join(spec_split_slashes(s), sep) =~= s);
    } else {
        lemma_join_split(s.drop_last(), sep);
        lemma_split_nonempty(s.drop_last());
        let r = spec_split_slashes(s.drop_last());
        let c = s.last();
        assert(c == s[s.len() - 1]);
        if spec_is_slash(c) {
            assert(c == sep);
            let rr = r.push(seq![]);
            assert(rr.len() >= 2);
            assert(rr.drop_last() =~= r);
            assert(crate::strutil::seq_join(rr, sep) == crate::strutil::seq_join(r, sep)
                + seq![sep] + Seq::<char>::empty());
            assert(crate::strutil::seq_join(rr, sep) =~= s);
        } else {
            let rr = r.update(r.len() - 1, r.last().push(c));
            if r.len() == 1 {
                assert(rr =~= seq![r[0].push(c)]);
                assert(crate::strutil::seq_join(rr, sep) == r[0].push(c));
                assert(crate::strutil::seq_join(r, sep) == r[0]);
                assert(r[0].push(c) =~= s);
            } else {
                assert(rr.len() >= 2);
                assert(rr.drop_last() =~= r.drop_last());
                assert(rr.last() == r.last().push(c));
                assert(crate::strutil::seq_join(rr, sep) == crate::strutil::seq_join(
                    r.drop_last(),
                    sep,
                ) + seq![sep] + r.last().push(c));
                assert(crate::strutil::seq_join(r, sep) == crate::strutil::seq_join(
                    r.drop_last(),
                    sep,
                ) + seq![sep] + r.last());
                assert(crate::strutil::seq_join(rr, sep) =~= crate::strutil::seq_join(r, sep)
                    .push(c));
                assert(crate::strutil::seq_join(r, sep).push(c) =~= s);
            }
        }
    }
}

/// The pieces with the empty ones dropped.
pub open spec fn drop_empty(segs: Seq<Seq<char>>) -> Seq<Seq<char>>
    decreases segs.len(),
{
    if segs.len() == 0 {
        seq![]
    } else {
        let r = drop_empty(segs.drop_last());
        if segs.last().len() > 0 {
            r.push(segs.last())
        } else {
            r
        }
    }
}

/// Dropping empty pieces from a list without any is the identity.
pub proof fn lemma_drop_empty_id(segs: Seq<Seq<char>>)
    requires
        forall|i: int| 0 <= i < segs.len() ==> #[trigger] segs[i].len() > 0,
    ensures
        drop_empty(segs) == segs,
    decreases segs.len(),
{
    if segs.len() > 0 {
        lemma_drop_empty_id(segs.drop_last());
        assert(segs.last() == segs[segs.len() - 1]);
        assert(drop_empty(segs) =~= segs);
    }
}

/// When every piece is valid, validation finds nothing.
pub proof fn lemma_all_valid_check_none(ps: Seq<Seq<char>>)
    requires
        forall|i: int| 0 <= i < ps.len() ==> #[trigger] spec_valid_segment(ps[i]),
    ensures
        spec_check_pieces(ps) is None,
    decreases ps.len(),
{
    if ps.len() > 0 {
        crate::chars::lemma_check_none_iff_valid(ps[0]);
        assert(forall|i: int| 0 <= i < ps.skip(1).len() ==> ps.skip(1)[i] == #[trigger] ps[i + 1]);
        lemma_all_valid_check_none(ps.skip(1));
    }
}

/// A leading empty piece does not change the resolution.
pub proof fn lemma_resolve_prepend_empty(segs: Seq<Seq<char>>)
    ensures
        spec_resolve(seq![Seq::<char>::empty()] + segs) == spec_resolve(segs),
    decreases segs.len(),
{
    let w = seq![Seq::<char>::empty()] + segs;
    if segs.len() == 0 {
        assert(w =~= seq![Seq::<char>::empty()]);
        assert(w.drop_last() =~= Seq::<Seq<char>>::empty());
        assert(w.last() =~= Seq::<char>::empty());
        assert(spec_resolve(Seq::<Seq<char>>::empty()) =~= Seq::<Seq<char>>::empty());
        assert(spec_resolve(w) == spec_step(spec_resolve(w.drop_last()), w.last()));
        assert(spec_resolve(w) =~= spec_resolve(segs));
    } else {
        lemma_resolve_prepend_empty(segs.drop_last());
        assert(w.drop_last() =~= seq![Seq::<char>::empty()] + segs.drop_last());
        assert(w.last() == segs.last());
    }
}


/// Prepending slash-free text extends the first split piece and leaves
/// the others alone.
pub proof fn lemma_split_prepend(a: Seq<char>, s: Seq<char>)
    requires
        no_slash_seg(a),
    ensures
        ({
            let ps = spec_split_slashes(s);
            spec_split_slashes(a + s) == ps.update(0, a + ps[0])
        }),
    decreases s.len(),
{
    lemma_split_nonempty(s);
    let ps = spec_split_slashes(s);
    if s.len() == 0 {
        assert(a + s =~= a);
        lemma_split_single(a);
        assert(ps =~= seq![Seq::<char>::empty()]);
        assert(a + Seq::<char>::empty() =~= a);
        assert(spec_split_slashes(a + s) =~= ps.update(0, a + ps[0]));
    } else {
        lemma_split_prepend(a, s.drop_last());
        lemma_split_nonempty(s.drop_last());
        let p0 = spec_split_slashes(s.drop_last());
        let q0 = p0.update(0, a + p0[0]);
        assert((a + s).drop_last() =~= a + s.drop_last());
        assert((a + s).last() == s.last());
        if spec_is_slash(s.last()) {
            assert(spec_split_slashes(a + s) == q0.push(seq![]));
            assert(ps == p0.push(seq![]));
            assert(ps[0] == p0[0]);
            assert(spec_split_slashes(a + s) =~= ps.update(0, a + ps[0]));
        } else {
            let c = s.last();
            assert(spec_split_slashes(a + s) == q0.update(q0.len() - 1, q0.last().push(c)));
            assert(ps == p0.update(p0.len() - 1, p0.last().push(c)));
            if p0.len() == 1 {
                assert(q0.last() == a + p0[0]);
                assert(ps[0] == p0[0].push(c));
                assert((a + p0[0]).push(c) =~= a + p0[0].push(c));
                assert(spec_split_slashes(a + s) =~= ps.update(0, a + ps[0]));
            } else {
                assert(q0.last() == p0.last());
                assert(ps[0] == p0[0]);
                assert(spec_split_slashes(a + s) =~= ps.update(0, a + ps[0]));
            }
        }
    }
}


/// Resolution continued from an already-retained list.
pub open spec fn spec_resolve_from(acc: Seq<Seq<char>>, segs: Seq<Seq<char>>) -> Seq<Seq<char>>
    decreases segs.len(),
{
    if segs.len() == 0 {
        acc
    } else {
        spec_step(spec_resolve_from(acc, segs.drop_last()), segs.last())
    }
}

/// Resolving a concatenation is resolving the first part, then continuing
/// with the second.
pub proof fn lemma_resolve_concat(xs: Seq<Seq<char>>, ys: Seq<Seq<char>>)
    ensures
        spec_resolve(xs + ys) == spec_resolve_from(spec_resolve(xs), ys),
    decreases ys.len(),
{
    if ys.len() == 0 {
        assert(xs + ys =~= xs);
    } else {
        lemma_resolve_concat(xs, ys.drop_last());
        assert((xs + ys).drop_last() =~= xs + ys.drop_last());
        assert((xs + ys).last() == ys.last());
    }
}

/// Continuation splits over a concatenation of piece lists.
pub proof fn lemma_resolve_from_split(acc: Seq<Seq<char>>, p: Seq<Seq<char>>, q: Seq<Seq<char>>)
    ensures
        spec_resolve_from(acc, p + q) == spec_resolve_from(spec_resolve_from(acc, p), q),
    decreases q.len(),
{
    if q.len() == 0 {
        assert(p + q =~= p);
    } else {
        lemma_resolve_from_split(acc, p, q.drop_last());
        assert((p + q).drop_last() =~= p + q.drop_last());
        assert((p + q).last() == q.last());
    }
}

/// Continuing a resolved list with another resolved list appends it, when
/// a leading `..` run of the second would meet an empty first list.
pub proof fn lemma_resolve_from_append(acc: Seq<Seq<char>>, bs: Seq<Seq<char>>)
    requires
        resolved_list(acc),
        resolved_list(bs),
        bs.len() > 0 && is_dotdot(bs[0]) ==> acc.len() == 0,
    ensures
        spec_resolve_from(acc, bs) == acc + bs,
    decreases bs.len(),
{
    if bs.len() == 0 {
        assert(acc + bs =~= acc);
    } else {
        assert(resolved_list(bs.drop_last()));
        if bs.len() > 1 {
            assert(bs.drop_last()[0] == bs[0]);
        }
        lemma_resolve_from_append(acc, bs.drop_last());
        let seg = bs.last();
        assert(seg == bs[bs.len() - 1]);
        let mid = acc + bs.drop_last();
        if is_dotdot(seg) {
            // a `..` here means the whole of `bs` is a `..` run and the
            // first list is empty, so it is retained
            assert(forall|j: int| 0 <= j < bs.len() ==> is_dotdot(#[trigger] bs[j]));
            assert(acc.len() == 0);
            if mid.len() > 0 {
                assert(mid.last() == bs.drop_last()[bs.len() - 2]);
                assert(is_dotdot(mid.last()));
            }
            assert(spec_resolve_from(acc, bs) == mid.push(seg));
            assert(mid.push(seg) =~= acc + bs);
        } else {
            assert(seg.len() > 0 && !is_dot(seg));
            assert(spec_resolve_from(acc, bs) == mid.push(seg));
            assert(mid.push(seg) =~= acc + bs);
        }
    }
}

} // verus!
