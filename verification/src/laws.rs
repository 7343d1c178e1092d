//! The laws the canonical form obeys, stated and proved once over every
//! path the parser accepts: separator uniformity, absence of empty and dot
//! segments, the segment byte bound, the parse round trip, the
//! folder/trailing-separator equivalence, and how joining and root
//! stripping interact.

use vstd::prelude::*;

use crate::chars::{spec_is_slash, spec_utf8_len, spec_valid_segment};
use crate::drive::{spec_has_drive, spec_process_drive, spec_upper};
use crate::expand::spec_expand;
use crate::inner::{
    colon_free, lemma_join_colon_free, lemma_valid_colon_free, spec_core, spec_drive_prefix,
    spec_has_root, spec_is_folder, spec_new, spec_rel, spec_rel_start,
    spec_render, spec_segments, strong_text, wf_text,
};
use crate::ops::lemma_decompose;
use crate::platform::{spec_sep, Os, Platform};
use crate::resolve::{
    is_dot, is_dotdot, lemma_all_valid_check_none, lemma_join_split, lemma_resolve_idempotent,
    lemma_resolve_prepend_empty, lemma_split_concat, resolved_list, spec_check_pieces,
    spec_resolve, spec_split_slashes,
};
use crate::strutil::seq_join;

verus! {

/// Separator uniformity: a canonical text holds no slash besides the
/// platform's preferred separator.
pub proof fn lemma_separator_uniformity(text: Seq<char>, os: Os)
    requires
        strong_text(text, os),
    ensures
        forall|i: int|
            0 <= i < text.len() && spec_is_slash(#[trigger] text[i]) ==> text[i] == spec_sep(os),
{
}

/// No empty segments: splitting the core of a canonical text on the
/// separator yields only nonempty pieces.
pub proof fn lemma_no_empty_segments(text: Seq<char>, os: Os)
    requires
        strong_text(text, os),
    ensures
        forall|i: int|
            0 <= i < spec_segments(text, os).len() ==> #[trigger] spec_segments(
                text,
                os,
            )[i].len() > 0,
{
}

/// Dot elimination: a canonical text has no `.` segment, and a `..`
/// segment only within the leading run of `..` segments.
pub proof fn lemma_dot_elimination(text: Seq<char>, os: Os)
    requires
        strong_text(text, os),
    ensures
        forall|i: int|
            0 <= i < spec_segments(text, os).len() ==> !is_dot(#[trigger] spec_segments(
                text,
                os,
            )[i]),
        forall|i: int, j: int|
            0 <= j < i < spec_segments(text, os).len() && is_dotdot(
                #[trigger] spec_segments(text, os)[i],
            ) ==> is_dotdot(#[trigger] spec_segments(text, os)[j]),
{
}

/// Segment bound: every segment of a canonical text is at most 255 bytes.
pub proof fn lemma_segment_bound(text: Seq<char>, os: Os)
    requires
        strong_text(text, os),
    ensures
        forall|i: int|
            0 <= i < spec_segments(text, os).len() ==> spec_utf8_len(
                #[trigger] spec_segments(text, os)[i],
            ) <= 255,
{
    assert forall|i: int|
        0 <= i < spec_segments(text, os).len() implies spec_utf8_len(
        #[trigger] spec_segments(text, os)[i],
    ) <= 255 by {
        assert(spec_valid_segment(spec_segments(text, os)[i]));
    }
}

/// Folder iff trailing separator: a canonical text other than the bare
/// `~` denotes a folder exactly when it ends with a separator.
pub proof fn lemma_folder_iff_trailing_sep(text: Seq<char>, os: Os)
    requires
        strong_text(text, os),
        !(text =~= seq!['~']),
    ensures
        spec_is_folder(text) <==> (text.len() > 0 && spec_is_slash(text.last())),
{
    if text =~= seq!['.'] {
        // the bare dot cannot be canonical: its one segment is `.`
        assert(spec_rel_start(text, os) == 0);
        assert(spec_rel(text, os) =~= text);
        assert(spec_core(text, os) =~= text);
        let ps = spec_split_slashes(text);
        assert(text.drop_last() =~= Seq::<char>::empty());
        assert(text.last() == '.');
        assert(spec_split_slashes(Seq::<char>::empty()) =~= seq![Seq::<char>::empty()]);
        assert(seq![Seq::<char>::empty()].last() =~= Seq::<char>::empty());
        assert(Seq::<char>::empty().push('.') =~= seq!['.']);
        assert(ps =~= seq![Seq::<char>::empty()].update(0, seq!['.']));
        assert(ps[0] =~= seq!['.']);
        assert(is_dot(spec_segments(text, os)[0]));
        assert(false);
    }
}

/// The parse round trip: a canonical text, fed back to the parser under a
/// platform whose expansion leaves it unchanged, parses to itself. On
/// Windows this needs the text to carry its drive, since the parser
/// completes a drive-less path with the platform's drive.
#[verifier::rlimit(100)]
#[verifier::spinoff_prover]
pub proof fn lemma_parse_roundtrip(plat: Platform, text: Seq<char>)
    requires
        plat.wf(),
        strong_text(text, plat.os),
        spec_expand(plat, text) == Ok::<Seq<char>, crate::error::SpecErr>(text),
        plat.os is Posix || spec_has_drive(text),
    ensures
        spec_new(plat, text) == Ok::<Seq<char>, crate::error::SpecErr>(text),
{
    let os = plat.os;
    let sep = spec_sep(os);
    let rs = spec_rel_start(text, os);
    let rel = spec_rel(text, os);
    let core = spec_core(text, os);
    let segs = spec_segments(text, os);
    let dp = spec_drive_prefix(text, os);
    let root = spec_has_root(text, os);
    let flag = rel.len() > 0 && spec_is_slash(rel.last());
    lemma_decompose(text, os);
    lemma_valid_colon_free(segs);
    lemma_join_colon_free(segs, sep);
    // the drive step peels off exactly the drive prefix
    let (prefix, rest) = spec_process_drive(os, plat.drive, text);
    match os {
        Os::Posix => {
            assert(!spec_has_drive(text)) by {
                if spec_has_drive(text) {
                    assert(text[1] == ':');
                    assert(crate::drive::spec_is_alpha(text[0]));
                    assert(rs == 0);
                    assert(rel =~= text);
                    assert(core[1] == ':') by {
                        assert(core.len() >= 2) by {
                            if core.len() < 2 {
                                assert(spec_is_slash(rel.last()));
                                assert(rel.last() == text[text.len() - 1]);
                                if text.len() == 2 {
                                    assert(false);
                                } else {
                                    assert(core[1] == text[1]);
                                }
                            }
                        }
                        assert(core[1] == text[1]);
                    }
                    lemma_join_split(core, sep);
                    assert(seq_join(segs, sep)[1] != ':');
                    assert(false);
                }
            }
            assert(prefix =~= Seq::<char>::empty());
            assert(rest == text);
            assert(dp =~= Seq::<char>::empty());
        },
        Os::Windows => {
            assert(spec_has_drive(text));
            assert(text.len() >= 2 && text[1] == ':');
            assert('A' <= text[0] && text[0] <= 'Z');
            assert(spec_upper(text[0]) == text[0]);
            assert(prefix =~= seq![text[0], ':']);
            assert(rest == text.skip(2));
            assert(rs >= 2) by {
                assert(text[0] != '\\');
            }
            assert(dp =~= text.take(2));
            assert(prefix =~= dp);
        },
    }
    // the root and trailing flags the parser sees match the decomposition
    let root2 = rest.len() > 0 && spec_is_slash(rest[0]);
    let trailing2 = rest.len() > 0 && spec_is_slash(rest.last());
    match os {
        Os::Posix => {
            assert(root2 == root) by {
                if rest.len() > 0 && spec_is_slash(rest[0]) {
                    assert(text[0] == sep);
                }
            }
        },
        Os::Windows => {
            assert(root2 == root) by {
                if rest.len() > 0 && spec_is_slash(rest[0]) {
                    assert(rest[0] == text[2]);
                    assert(text[2] == sep);
                    assert(rs == 3);
                }
                if rs == 3 {
                    assert(text[2] == '\\');
                    assert(rest[0] == '\\');
                }
            }
        },
    }
    // the rest is the root separator plus the relative portion
    assert(rest =~= (if root { seq![sep] } else { Seq::<char>::empty() }) + rel);
    let pieces = spec_split_slashes(rest);
    // all pieces are the canonical segments with empty pieces around them
    let relsplit = spec_split_slashes(rel);
    if root {
        lemma_split_concat(Seq::<char>::empty(), rel, sep);
        assert(Seq::<char>::empty() + seq![sep] + rel =~= rest);
        assert(pieces == spec_split_slashes(Seq::<char>::empty()) + relsplit);
        assert(pieces =~= seq![Seq::<char>::empty()] + relsplit);
    } else {
        assert(pieces == relsplit);
    }
    if flag {
        assert(rel =~= core + seq![rel.last()]);
        assert(rel.last() == text[text.len() - 1]);
        assert(rel.last() == sep);
        assert(rel.drop_last() =~= core);
        assert(relsplit == spec_split_slashes(core).push(Seq::<char>::empty()));
    } else {
        assert(rel == core);
    }
    if core.len() == 0 {
        assert(rel.len() == 0 || (rel.len() == 1 && spec_is_slash(rel[0])));
        assert(rel.len() == 0) by {
            if rel.len() == 1 {
                assert(!spec_is_slash(rel[0]));
            }
        }
        assert(!flag);
        assert(segs =~= Seq::<Seq<char>>::empty());
        assert(relsplit =~= seq![Seq::<char>::empty()]);
    } else {
        assert(spec_split_slashes(core) == segs);
    }
    // validation passes: every piece is a canonical segment or empty
    assert(spec_valid_segment(Seq::<char>::empty())) by {
        assert(spec_utf8_len(Seq::<char>::empty()) == 0);
    }
    assert forall|i: int| 0 <= i < pieces.len() implies #[trigger] spec_valid_segment(
        pieces[i],
    ) by {
        let base: int = if root { 1 } else { 0 };
        if i >= base && i - base < segs.len() {
            assert(pieces[i] == segs[i - base]);
        } else if i < base {
            assert(pieces[i] =~= Seq::<char>::empty());
        } else {
            assert(pieces[i] =~= Seq::<char>::empty());
        }
    }
    lemma_all_valid_check_none(pieces);
    assert(spec_check_pieces(pieces) is None);
    // resolution leaves the canonical segments untouched
    lemma_resolve_idempotent(segs);
    assert(spec_resolve(pieces) == segs) by {
        if flag {
            let base = if root {
                seq![Seq::<char>::empty()] + spec_split_slashes(core)
            } else {
                spec_split_slashes(core)
            };
            assert(pieces =~= base.push(Seq::<char>::empty()));
            assert(pieces.drop_last() =~= base);
            assert(spec_resolve(pieces) == spec_resolve(base));
        }
        if root {
            lemma_resolve_prepend_empty(if core.len() == 0 {
                seq![Seq::<char>::empty()]
            } else {
                segs
            });
            if core.len() == 0 {
                assert(spec_resolve(seq![Seq::<char>::empty()]) =~= Seq::<Seq<char>>::empty())
                    by {
                    assert(seq![Seq::<char>::empty()].drop_last() =~= Seq::<Seq<char>>::empty());
                    assert(spec_resolve(Seq::<Seq<char>>::empty()) =~= Seq::<Seq<char>>::empty());
                }
            }
        } else {
            if core.len() == 0 {
                assert(pieces =~= seq![Seq::<char>::empty()]);
                assert(pieces.drop_last() =~= Seq::<Seq<char>>::empty());
                assert(spec_resolve(Seq::<Seq<char>>::empty()) =~= Seq::<Seq<char>>::empty());
                assert(spec_resolve(pieces) =~= segs);
            }
        }
    }
    // rendering reproduces the text
    assert(spec_render(os, prefix, root2, segs, trailing2) == text) by {
        if rel.len() > 0 {
            assert(rest.len() > 0);
            assert(rest.last() == rel.last());
            assert(trailing2 == flag);
            assert(spec_render(os, dp, root, segs, flag) == text);
        } else {
            // without a relative portion both flag choices render the head
            assert(segs.len() == 0);
            assert(seq_join(segs, sep) =~= Seq::<char>::empty());
            if root {
                assert((if root2 {
                    prefix + seq![sep] + seq_join(segs, sep)
                } else {
                    prefix + seq_join(segs, sep)
                }) =~= prefix + seq![sep]);
                assert((prefix + seq![sep]).last() == sep);
                assert(spec_render(os, prefix, root2, segs, trailing2) =~= prefix + seq![sep]);
                assert(text =~= prefix + seq![sep]);
            } else {
                assert(rest.len() == 0 || !spec_is_slash(rest.last())) by {
                    if rest.len() > 0 {
                        assert(rest =~= rel);
                    }
                }
                assert(!trailing2);
                assert(spec_render(os, prefix, root2, segs, trailing2) =~= prefix);
                assert(text =~= prefix);
            }
        }
    }
}

/// Joining a canonical folder and a canonical relative path is plain
/// concatenation, and the segments of the result are the segments of both
/// in order. The result keeps the full canonical invariant whenever the
/// relative path does not begin with a `..` run that would have to cancel
/// into the folder.
#[verifier::rlimit(100)]
#[verifier::spinoff_prover]
pub proof fn lemma_concat_canonical(a: Seq<char>, b: Seq<char>, os: Os)
    requires
        strong_text(a, os),
        a.len() > 0 && spec_is_slash(a.last()),
        strong_text(b, os),
        spec_rel_start(b, os) == 0,
    ensures
        wf_text(a + b, os),
        spec_rel_start(a + b, os) == spec_rel_start(a, os),
        spec_segments(a + b, os) == spec_segments(a, os) + spec_segments(b, os),
        spec_is_folder(a + b) <==> (b.len() == 0 || spec_is_slash(b.last())),
        (spec_segments(b, os).len() > 0 && is_dotdot(spec_segments(b, os)[0]) ==> spec_segments(
            a,
            os,
        ).len() == 0) ==> strong_text(a + b, os),
{
    let sep = spec_sep(os);
    let w = a + b;
    let rsa = spec_rel_start(a, os);
    let rela = spec_rel(a, os);
    let relb = spec_rel(b, os);
    assert(relb == b);
    assert(a.last() == a[a.len() - 1]);
    assert(a.last() == sep);
    // the root of the concatenation is the root of the folder
    assert(spec_rel_start(w, os) == rsa) by {
        assert(w[0] == a[0]);
        if a.len() >= 2 {
            assert(w[1] == a[1]);
        }
        if a.len() >= 3 {
            assert(w[2] == a[2]);
        }
        match os {
            Os::Posix => {},
            Os::Windows => {
                if a.len() == 1 {
                    assert(a[0] == sep);
                } else if a.len() == 2 {
                    // a two-character folder ends with the separator and
                    // cannot look like a bare drive
                    assert(a[1] == sep);
                    assert(rsa == 0 || rsa == 1);
                    if w.len() >= 3 && w[1] == ':' {
                        assert(false);
                    }
                } else {
                }
            },
        }
    }
    let relw = spec_rel(w, os);
    assert(relw =~= rela + b);
    // well-formedness of the concatenation
    assert(wf_text(w, os)) by {
        assert(forall|i: int| 0 <= i < a.len() ==> w[i] == #[trigger] a[i]);
        assert(forall|i: int| 0 <= i < b.len() ==> w[i + a.len()] == #[trigger] b[i]);
        if relw.len() > 0 {
            if rela.len() > 0 {
                assert(relw[0] == rela[0]);
            } else {
                assert(relw[0] == b[0]);
                assert(b.len() > 0 ==> !spec_is_slash(b[0]));
            }
        }
        assert forall|i: int|
            0 <= i < relw.len() - 1 implies !(#[trigger] spec_is_slash(relw[i]) && spec_is_slash(
            relw[i + 1],
        )) by {
            if i < rela.len() - 1 {
                assert(relw[i] == rela[i] && relw[i + 1] == rela[i + 1]);
            } else if i == rela.len() - 1 {
                assert(relw[i] == rela.last());
                assert(relw[i + 1] == b[0]);
                assert(!spec_is_slash(b[0]));
            } else {
                assert(relw[i] == b[i - rela.len()] && relw[i + 1] == b[i + 1 - rela.len()]);
            }
        }
    }
    // the segments concatenate
    let corea = spec_core(a, os);
    let coreb = spec_core(b, os);
    let corew = spec_core(w, os);
    if b.len() == 0 {
        assert(w =~= a);
        assert(spec_segments(b, os) =~= Seq::<Seq<char>>::empty());
        assert(spec_segments(w, os) =~= spec_segments(a, os) + spec_segments(b, os));
        assert(spec_is_folder(w));
    } else {
        assert(!spec_is_slash(b[0]));
        assert(w.last() == b.last());
        if spec_is_slash(b.last()) {
            assert(corew =~= relw.drop_last());
            assert(coreb =~= b.drop_last());
            assert(corew =~= rela + coreb);
        } else {
            assert(corew =~= rela + b);
            assert(coreb == b);
            assert(corew =~= rela + coreb);
        }
        assert(coreb.len() > 0) by {
            if coreb.len() == 0 {
                assert(b.len() == 1 && spec_is_slash(b[0]));
            }
        }
        if rela.len() == 0 {
            assert(corea.len() == 0);
            assert(spec_segments(a, os) =~= Seq::<Seq<char>>::empty());
            assert(corew =~= coreb);
            assert(spec_segments(w, os) =~= spec_segments(a, os) + spec_segments(b, os));
        } else {
            assert(rela.last() == a.last());
            assert(corea =~= rela.drop_last());
            assert(corea.len() > 0) by {
                if corea.len() == 0 {
                    assert(rela.len() == 1);
                    assert(rela[0] == a.last());
                    assert(!spec_is_slash(rela[0]));
                }
            }
            assert(rela =~= corea + seq![sep]);
            assert(corew =~= corea + seq![sep] + coreb);
            lemma_split_concat(corea, coreb, sep);
            assert(spec_segments(w, os) == spec_segments(a, os) + spec_segments(b, os));
        }
        // folderness of the concatenation
        assert(spec_is_folder(w) <==> spec_is_slash(b.last())) by {
            assert(w.len() >= 2);
            if w =~= seq!['.'] || w =~= seq!['~'] {
                assert(false);
            }
        }
    }
    // the full invariant, without a cancelling `..` run
    if spec_segments(b, os).len() > 0 && is_dotdot(spec_segments(b, os)[0]) ==> spec_segments(
        a,
        os,
    ).len() == 0 {
        let sa = spec_segments(a, os);
        let sb = spec_segments(b, os);
        let sw = spec_segments(w, os);
        assert(sw == sa + sb);
        assert(forall|i: int| 0 <= i < sa.len() ==> sw[i] == #[trigger] sa[i]);
        assert(forall|i: int| 0 <= i < sb.len() ==> sw[i + sa.len()] == #[trigger] sb[i]);
        assert(resolved_list(sw)) by {
            assert forall|i: int, j: int|
                0 <= j < i < sw.len() && is_dotdot(#[trigger] sw[i]) implies is_dotdot(
                #[trigger] sw[j],
            ) by {
                if i >= sa.len() {
                    assert(sw[i] == sb[i - sa.len()]);
                    if i - sa.len() > 0 {
                        assert(is_dotdot(sb[0]));
                    }
                    assert(is_dotdot(sb[0]));
                    assert(sa.len() == 0);
                    assert(sw[j] == sb[j]);
                } else {
                    assert(sw[i] == sa[i]);
                    assert(sw[j] == sa[j]);
                }
            }
        }
        assert(strong_text(w, os)) by {
            if os is Windows && w.len() >= 2 && w[1] == ':' {
                if a.len() >= 2 {
                    assert(w[1] == a[1]);
                    assert(w[0] == a[0]);
                } else {
                    assert(a.len() == 1);
                    assert(a[0] == sep);
                    assert(w[1] == b[0]);
                    // the first character of the relative path belongs to
                    // its first segment and a segment never holds a colon
                    assert(spec_rel_start(w, os) == 1);
                    assert(b[0] == ':');
                    assert(b.len() > 0 && !spec_is_slash(b[0]));
                    let coreb2 = spec_core(b, os);
                    assert(coreb2.len() > 0) by {
                        if coreb2.len() == 0 {
                            assert(b.len() == 1 && spec_is_slash(b[0]));
                        }
                    }
                    assert(coreb2[0] == b[0]);
                    lemma_valid_colon_free(spec_segments(b, os));
                    lemma_join_split(coreb2, sep);
                    lemma_join_colon_free(spec_segments(b, os), sep);
                    assert(seq_join(spec_segments(b, os), sep) == coreb2);
                    assert(false);
                }
            }
        }
    }
}

/// Stripping the folder off the front of its own join with a relative
/// path gives that relative path back: `strip_root(join(d, r), d) == r`,
/// where joining is concatenation of the canonical texts.
pub proof fn lemma_strip_root_inverts_join(a: Seq<char>, b: Seq<char>)
    ensures
        (a + b).len() >= a.len(),
        (a + b).take(a.len() as int) == a,
        (a + b).skip(a.len() as int) == b,
{
    assert((a + b).take(a.len() as int) =~= a);
    assert((a + b).skip(a.len() as int) =~= b);
}

/// The condition under which concatenating two canonical texts keeps the
/// full canonical invariant: a canonical folder in front, a plain canonical
/// relative path behind, and no leading `..` run in the latter that would
/// have to cancel into the former.
pub open spec fn concat_keeps_canonical(a: Seq<char>, b: Seq<char>, os: Os) -> bool {
    &&& strong_text(a, os)
    &&& a.len() > 0 && spec_is_slash(a.last())
    &&& strong_text(b, os)
    &&& spec_rel_start(b, os) == 0
    &&& (spec_segments(b, os).len() > 0 && is_dotdot(spec_segments(b, os)[0])
        ==> spec_segments(a, os).len() == 0)
}

/// Corollary of the concatenation law: under [`concat_keeps_canonical`]
/// the joined text is canonical.
pub proof fn lemma_concat_strong(a: Seq<char>, b: Seq<char>, os: Os)
    requires
        concat_keeps_canonical(a, b, os),
    ensures
        strong_text(a + b, os),
{
    lemma_concat_canonical(a, b, os);
}


/// No empty pieces, at the level of the raw split: cutting a nonempty
/// canonical text at every separator yields an empty piece only in the
/// two permitted positions — a first one for the leading root separator,
/// and a last one for the trailing separator of a folder. (On a canonical
/// text every slash is the preferred separator, so splitting on the
/// separator and on either slash agree.) The empty canonical text is the
/// one carve-out: its single piece is empty with neither root nor
/// trailing separator.
#[verifier::rlimit(100)]
#[verifier::spinoff_prover]
pub proof fn lemma_split_no_empty_pieces(text: Seq<char>, os: Os)
    requires
        strong_text(text, os),
        text.len() > 0,
    ensures
        forall|i: int|
            0 <= i < spec_split_slashes(text).len() && #[trigger] spec_split_slashes(
                text,
            )[i].len() == 0 ==> ((i == 0 && spec_has_root(text, os)) || (i == spec_split_slashes(
                text,
            ).len() - 1 && spec_is_slash(text.last()))),
{
    let sep = spec_sep(os);
    let rs = spec_rel_start(text, os);
    let rel = spec_rel(text, os);
    let core = spec_core(text, os);
    let segs = spec_segments(text, os);
    let dp = spec_drive_prefix(text, os);
    lemma_decompose(text, os);
    crate::resolve::lemma_split_nonempty(rel);
    let relsplit = spec_split_slashes(rel);
    // an empty relative portion splits into one empty piece
    assert(rel.len() == 0 ==> relsplit =~= seq![Seq::<char>::empty()]);
    // the pieces of a nonempty relative portion: the segments, and one
    // empty piece after a trailing separator
    assert(rel.len() > 0 ==> forall|i: int|
        0 <= i < relsplit.len() && #[trigger] relsplit[i].len() == 0 ==> (i == relsplit.len() - 1
            && spec_is_slash(rel.last()))) by {
        if core.len() == 0 {
            if rel.len() > 0 {
                assert(spec_is_slash(rel.last()));
                assert(rel.drop_last().len() == 0);
                assert(rel[0] == rel.last());
                assert(false);
            }
        } else {
            assert(forall|i: int|
                0 <= i < core.len() && spec_is_slash(#[trigger] core[i]) ==> core[i] == sep) by {
                assert(forall|i: int|
                    0 <= i < core.len() ==> core[i] == #[trigger] text[i + rs]);
            }
            lemma_join_split(core, sep);
            assert(spec_split_slashes(core) == segs);
            if rel.len() > 0 && spec_is_slash(rel.last()) {
                assert(rel =~= core + seq![rel.last()]);
                assert(rel.drop_last() =~= core);
                assert(relsplit == segs.push(Seq::<char>::empty()));
                assert(forall|i: int| 0 <= i < segs.len() ==> relsplit[i] == #[trigger] segs[i]);
            } else {
                assert(rel == core);
                assert(relsplit == segs);
            }
        }
    }
    if rel.len() > 0 {
        assert(rel.last() == text.last()) by {
            assert(rel.last() == text[text.len() - 1]);
        }
    }
    // stitch the head back on
    let ps = spec_split_slashes(text);
    if rs == 0 {
        assert(text == rel);
        assert(rel.len() > 0);
    } else if rs == 1 {
        // a bare root separator in front
        assert(text =~= Seq::<char>::empty() + seq![sep] + rel) by {
            assert(text[0] == sep);
        }
        lemma_split_concat(Seq::<char>::empty(), rel, sep);
        assert(ps =~= seq![Seq::<char>::empty()] + relsplit);
        assert(spec_has_root(text, os));
        assert(forall|i: int| 1 <= i < ps.len() ==> ps[i] == #[trigger] relsplit[i - 1]);
        if rel.len() == 0 {
            assert(text =~= seq![sep]);
            assert(spec_is_slash(text.last()));
        }
    } else if rs == 2 {
        // a bare drive in front: it joins the first piece
        assert(text =~= dp + rel) by {
            assert(dp =~= text.take(2));
        }
        assert(crate::resolve::no_slash_seg(dp)) by {
            assert('A' <= text[0] && text[0] <= 'Z');
            assert(dp[0] == text[0] && dp[1] == ':');
        }
        crate::resolve::lemma_split_prepend(dp, rel);
        assert(ps == relsplit.update(0, dp + relsplit[0]));
        assert(ps[0].len() >= 2);
        assert(forall|i: int| 1 <= i < ps.len() ==> ps[i] == #[trigger] relsplit[i]);
        assert(ps.len() == relsplit.len());
    } else {
        // a drive with its root separator
        assert(rs == 3);
        assert(text =~= dp + seq![sep] + rel) by {
            assert(dp =~= text.take(2));
            assert(text[2] == sep);
        }
        assert(crate::resolve::no_slash_seg(dp)) by {
            assert('A' <= text[0] && text[0] <= 'Z');
            assert(dp[0] == text[0] && dp[1] == ':');
        }
        lemma_split_concat(dp, rel, sep);
        crate::resolve::lemma_split_single(dp);
        assert(ps =~= seq![dp] + relsplit);
        assert(ps[0].len() == 2);
        assert(spec_has_root(text, os));
        assert(forall|i: int| 1 <= i < ps.len() ==> ps[i] == #[trigger] relsplit[i - 1]);
        if rel.len() == 0 {
            assert(text.last() == sep) by {
                assert(text.len() == 3);
            }
        }
    }
}


/// The round trip without the abstract hypothesis: a canonical text that
/// holds no `$` or `%` and does not begin with a home or current-directory
/// sentinel is fixed by expansion, so it parses to itself outright. (The
/// hypothesis cannot be dropped in general: an environment value may
/// itself hold a reference that a re-parse would expand.)
pub proof fn lemma_parse_roundtrip_plain(plat: Platform, text: Seq<char>)
    requires
        plat.wf(),
        strong_text(text, plat.os),
        plat.os is Posix || spec_has_drive(text),
        forall|i: int| 0 <= i < text.len() ==> #[trigger] text[i] != '$' && text[i] != '%',
        !crate::expand::starts_home(text),
        !crate::expand::starts_cwd(text),
    ensures
        spec_new(plat, text) == Ok::<Seq<char>, crate::error::SpecErr>(text),
{
    assert(!crate::expand::has_dollar_pct(text));
    assert(spec_expand(plat, text) == Ok::<Seq<char>, crate::error::SpecErr>(text));
    lemma_parse_roundtrip(plat, text);
}


/// The pieces of a canonical folder's relative portion, a separator and a
/// canonical relative text all validate, and resolving them keeps exactly
/// the canonical segments of both, in order.
#[verifier::rlimit(100)]
#[verifier::spinoff_prover]
proof fn lemma_join_concat_pieces(d: Seq<char>, r: Seq<char>, os: Os)
    requires
        strong_text(d, os),
        d.len() > 0 && spec_is_slash(d.last()),
        strong_text(r, os),
        spec_rel_start(r, os) == 0,
        spec_segments(r, os).len() > 0 && is_dotdot(spec_segments(r, os)[0]) ==> spec_segments(
            d,
            os,
        ).len() == 0,
    ensures
        ({
            let pieces = spec_split_slashes(spec_rel(d, os) + seq![spec_sep(os)] + r);
            &&& crate::resolve::spec_check_pieces(pieces) is None
            &&& spec_resolve(pieces) == spec_segments(d, os) + spec_segments(r, os)
        }),
{
    let sep = spec_sep(os);
    let reld = spec_rel(d, os);
    let cored = spec_core(d, os);
    let segsd = spec_segments(d, os);
    let segsr = spec_segments(r, os);
    let corer = spec_core(r, os);
    lemma_decompose(d, os);
    lemma_decompose(r, os);
    lemma_concat_canonical(d, r, os);
    assert(strong_text(d + r, os));
    lemma_decompose(d + r, os);
    // the single joined value contributes exactly its text
    assert(seq_join(seq![r], sep) == r);
    let rel2 = reld + seq![sep] + r;
    let pieces = spec_split_slashes(rel2);
    assert(d.last() == d[d.len() - 1]);
    assert(d.last() == sep);
    // the pieces of the folder's relative portion
    let pd = spec_split_slashes(reld);
    assert(forall|i: int|
        0 <= i < cored.len() && spec_is_slash(#[trigger] cored[i]) ==> cored[i] == sep) by {
        assert(forall|i: int|
            0 <= i < cored.len() ==> cored[i] == #[trigger] d[i + spec_rel_start(d, os)]);
    }
    if reld.len() == 0 {
        assert(pd =~= seq![Seq::<char>::empty()]);
        assert(cored =~= Seq::<char>::empty());
        assert(segsd =~= Seq::<Seq<char>>::empty());
    } else {
        assert(reld.last() == d.last()) by {
            assert(reld.last() == d[d.len() - 1]);
        }
        assert(cored =~= reld.drop_last());
        assert(cored.len() > 0) by {
            if cored.len() == 0 {
                assert(reld.len() == 1);
                assert(reld[0] == reld.last());
                assert(!spec_is_slash(reld[0]));
            }
        }
        lemma_join_split(cored, sep);
        assert(spec_split_slashes(cored) == segsd);
        assert(reld =~= cored + seq![reld.last()]);
        assert(reld.drop_last() =~= cored);
        assert(pd == segsd.push(Seq::<char>::empty()));
    }
    // the pieces of the relative path
    let pr = spec_split_slashes(r);
    assert(forall|i: int|
        0 <= i < corer.len() && spec_is_slash(#[trigger] corer[i]) ==> corer[i] == sep) by {
        assert(forall|i: int| 0 <= i < corer.len() ==> corer[i] == #[trigger] r[i]);
    }
    if r.len() == 0 {
        assert(pr =~= seq![Seq::<char>::empty()]);
        assert(segsr =~= Seq::<Seq<char>>::empty());
    } else if spec_is_slash(r.last()) {
        assert(corer =~= r.drop_last());
        assert(corer.len() > 0) by {
            if corer.len() == 0 {
                assert(r.len() == 1);
                assert(!spec_is_slash(r[0]));
            }
        }
        lemma_join_split(corer, sep);
        assert(r =~= corer + seq![r.last()]);
        assert(r.drop_last() =~= corer);
        assert(r.last() == sep) by {
            assert(r.last() == r[r.len() - 1]);
            assert(spec_is_slash(r[r.len() - 1]));
        }
        assert(pr == segsr.push(Seq::<char>::empty()));
    } else {
        assert(corer == r);
        lemma_join_split(corer, sep);
        assert(pr == segsr);
    }
    // splitting the combined relative portion
    lemma_split_concat(reld, r, sep);
    assert(pieces == pd + pr);
    // every piece is valid: a canonical segment or empty
    assert(spec_valid_segment(Seq::<char>::empty())) by {
        assert(spec_utf8_len(Seq::<char>::empty()) == 0);
    }
    assert forall|i: int| 0 <= i < pieces.len() implies #[trigger] spec_valid_segment(
        pieces[i],
    ) by {
        if i < pd.len() {
            assert(pieces[i] == pd[i]);
            if reld.len() > 0 && i < segsd.len() {
                assert(pd[i] == segsd[i]);
            }
        } else {
            assert(pieces[i] == pr[i - pd.len()]);
            if r.len() > 0 {
                if spec_is_slash(r.last()) {
                    if i - pd.len() < segsr.len() {
                        assert(pr[i - pd.len()] == segsr[i - pd.len()]);
                    }
                } else {
                    assert(pr[i - pd.len()] == segsr[i - pd.len()]);
                }
            }
        }
    }
    lemma_all_valid_check_none(pieces);
    // resolving keeps exactly the canonical segments of both
    crate::resolve::lemma_resolve_concat(pd, pr);
    lemma_resolve_idempotent(segsd);
    assert(spec_resolve(pd) == segsd) by {
        if reld.len() == 0 {
            assert(pd.drop_last() =~= Seq::<Seq<char>>::empty());
            assert(spec_resolve(Seq::<Seq<char>>::empty()) =~= Seq::<Seq<char>>::empty());
            assert(spec_resolve(pd) =~= segsd);
        } else {
            assert(pd.drop_last() =~= segsd);
            assert(spec_resolve(pd) == crate::resolve::spec_step(
                spec_resolve(segsd),
                Seq::<char>::empty(),
            ));
        }
    }
    assert(crate::resolve::spec_resolve_from(segsd, pr) == segsd + segsr) by {
        if r.len() == 0 {
            assert(crate::resolve::spec_resolve_from(segsd, pr) == crate::resolve::spec_step(
                segsd,
                Seq::<char>::empty(),
            )) by {
                assert(pr.drop_last() =~= Seq::<Seq<char>>::empty());
                assert(crate::resolve::spec_resolve_from(
                    segsd,
                    Seq::<Seq<char>>::empty(),
                ) == segsd);
                assert(pr.last() =~= Seq::<char>::empty());
            }
            assert(segsd + segsr =~= segsd);
        } else if spec_is_slash(r.last()) {
            assert(pr.drop_last() =~= segsr);
            crate::resolve::lemma_resolve_from_append(segsd, segsr);
            assert(crate::resolve::spec_resolve_from(segsd, pr) == crate::resolve::spec_step(
                crate::resolve::spec_resolve_from(segsd, segsr),
                Seq::<char>::empty(),
            ));
        } else {
            crate::resolve::lemma_resolve_from_append(segsd, segsr);
        }
    }
    assert(spec_resolve(pieces) == segsd + segsr);
}

/// Joining one canonical relative path onto a canonical folder by the
/// normalizing `join` is plain concatenation: the combined text is the
/// folder's text followed by the relative text, the seam separator being
/// the folder's own trailing one. Needs the usual no-cancelling-`..`-run
/// hypothesis, which the canonical invariant itself forces on the result.
#[verifier::rlimit(100)]
#[verifier::spinoff_prover]
pub proof fn lemma_join_concat(d: Seq<char>, r: Seq<char>, os: Os)
    requires
        strong_text(d, os),
        d.len() > 0 && spec_is_slash(d.last()),
        strong_text(r, os),
        spec_rel_start(r, os) == 0,
        spec_segments(r, os).len() > 0 && is_dotdot(spec_segments(r, os)[0]) ==> spec_segments(
            d,
            os,
        ).len() == 0,
    ensures
        crate::ops::spec_join_vals(d, os, seq![r]) == Ok::<Seq<char>, crate::error::SpecErr>(
            d + r,
        ),
{
    let sep = spec_sep(os);
    let reld = spec_rel(d, os);
    let segsd = spec_segments(d, os);
    let segsr = spec_segments(r, os);
    lemma_decompose(d, os);
    lemma_concat_canonical(d, r, os);
    assert(strong_text(d + r, os));
    lemma_decompose(d + r, os);
    lemma_join_concat_pieces(d, r, os);
    assert(seq_join(seq![r], sep) == r);
    let rel2 = reld + seq![sep] + r;
    let pieces = spec_split_slashes(rel2);
    assert(d.last() == d[d.len() - 1]);
    assert(d.last() == sep);
    // the rendered result is the concatenation
    let trailing2 = rel2.len() > 0 && spec_is_slash(rel2.last());
    let w = d + r;
    let flagw = spec_rel(w, os).len() > 0 && spec_is_slash(spec_rel(w, os).last());
    assert(spec_drive_prefix(w, os) =~= spec_drive_prefix(d, os)) by {
        if os is Windows && spec_rel_start(w, os) >= 2 {
            assert(w.take(2) =~= d.take(2)) by {
                assert(d.len() >= 2) by {
                    if d.len() == 1 {
                        assert(d[0] == sep);
                        assert(spec_rel_start(d, os) == 1);
                    }
                }
            }
        }
    }
    assert(spec_has_root(w, os) == spec_has_root(d, os));
    assert(spec_segments(w, os) == segsd + segsr);
    assert(w == spec_render(os, spec_drive_prefix(d, os), spec_has_root(d, os), segsd + segsr,
        flagw));
    assert(spec_render(os, spec_drive_prefix(d, os), spec_has_root(d, os), segsd + segsr,
        trailing2) == w) by {
        if r.len() > 0 {
            assert(rel2.last() == r.last()) by {
                assert(rel2.len() == reld.len() + 1 + r.len());
                assert(rel2[rel2.len() - 1] == r[r.len() - 1]);
            }
            assert(spec_rel(w, os).len() > 0);
            assert(spec_rel(w, os) =~= reld + r);
            assert(spec_rel(w, os).last() == r.last()) by {
                assert((reld + r).last() == r[r.len() - 1]);
            }
            assert(trailing2 == flagw);
        } else {
            // an empty relative path joins to the folder itself
            assert(rel2.last() == sep) by {
                assert(rel2 =~= reld + seq![sep]);
            }
            assert(trailing2);
            assert(segsd + segsr =~= segsd);
            assert(w =~= d);
            if reld.len() > 0 {
                assert(flagw) by {
                    assert(spec_rel(w, os) =~= reld + r);
                    assert((reld + r).last() == reld.last());
                }
                assert(trailing2 == flagw);
            } else {
                // the folder is a bare root: both flag choices render it
                assert(segsd.len() == 0);
                assert(seq_join(segsd, sep) =~= Seq::<char>::empty());
                assert(spec_has_root(d, os)) by {
                    assert(spec_rel_start(d, os) == d.len());
                    assert(d.last() == sep);
                    match os {
                        Os::Posix => {},
                        Os::Windows => {
                            if spec_rel_start(d, os) == 2 {
                                assert(d[1] == ':');
                                assert(d[1] == sep);
                                assert(false);
                            }
                        },
                    }
                }
                let base = spec_drive_prefix(d, os) + seq![sep] + seq_join(segsd, sep);
                assert(base.last() == sep) by {
                    assert(base =~= spec_drive_prefix(d, os) + seq![sep]);
                }
                assert(spec_render(os, spec_drive_prefix(d, os), spec_has_root(d, os), segsd,
                    trailing2) == base);
                assert(spec_render(os, spec_drive_prefix(d, os), spec_has_root(d, os), segsd,
                    flagw) == base);
            }
        }
    }
}

} // verus!
