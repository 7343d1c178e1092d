//! Environment expansion: replace a leading `~` with the home directory, a
//! leading `.` with the current directory, and `${NAME}` / `%NAME%`
//! segments with the variable's value. A variable reference opens only
//! right after a separator (or at the start) and must close right before a
//! separator (or the end); anything else is passed through verbatim.

use vstd::prelude::*;

use crate::chars::{is_allowed_in_environment_var, is_slash, spec_is_env_char, spec_is_slash};
use crate::error::{err_matches, PathError, SpecErr};
use crate::platform::{sep_of, spec_lookup, spec_sep, Platform};
use crate::strutil::{chars_of, string_of};

verus! {

/// Does the input begin with the home sentinel: `~` alone or `~` followed
/// by a slash?
pub open spec fn starts_home(s: Seq<char>) -> bool {
    s.len() >= 1 && s[0] == '~' && (s.len() == 1 || spec_is_slash(s[1]))
}

/// Does the input begin with the current-directory sentinel: `.` alone or
/// `.` followed by a slash?
pub open spec fn starts_cwd(s: Seq<char>) -> bool {
    s.len() >= 1 && s[0] == '.' && (s.len() == 1 || spec_is_slash(s[1]))
}

/// `base` and `rest` concatenated, with a separator in between unless
/// `base` already ends with a slash or `rest` already starts with one.
pub open spec fn spec_prefixed(base: Seq<char>, sep: char, rest: Seq<char>) -> Seq<char> {
    if (base.len() > 0 && spec_is_slash(base.last())) || (rest.len() > 0 && spec_is_slash(
        rest[0],
    )) {
        base + rest
    } else {
        base + seq![sep] + rest
    }
}

/// Does `s` hold a `$` or `%` anywhere?
pub open spec fn has_dollar_pct(s: Seq<char>) -> bool {
    exists|i: int| 0 <= i < s.len() && (s[i] == '$' || s[i] == '%')
}

/// How many characters of a candidate variable name are usable: the index
/// of the first character that cannot belong to a name.
pub open spec fn key_end(body: Seq<char>) -> nat
    decreases body.len(),
{
    if body.len() == 0 {
        0
    } else if !spec_is_env_char(body[0]) {
        0
    } else {
        1 + key_end(body.skip(1))
    }
}

pub proof fn lemma_key_end(body: Seq<char>)
    ensures
        0 <= key_end(body) <= body.len(),
        forall|m: int| 0 <= m < key_end(body) ==> spec_is_env_char(body[m]),
        key_end(body) < body.len() ==> !spec_is_env_char(body[key_end(body) as int]),
    decreases body.len(),
{
    if body.len() > 0 && spec_is_env_char(body[0]) {
        lemma_key_end(body.skip(1));
        assert forall|m: int| 0 <= m < key_end(body) implies spec_is_env_char(body[m]) by {
            if m > 0 {
                assert(body[m] == body.skip(1)[m - 1]);
            }
        }
    }
}

pub proof fn lemma_key_end_at_least(body: Seq<char>, j: int)
    requires
        0 <= j <= body.len(),
        forall|m: int| 0 <= m < j ==> spec_is_env_char(body[m]),
    ensures
        key_end(body) >= j,
{
    lemma_key_end(body);
    if key_end(body) < j {
        assert(spec_is_env_char(body[key_end(body) as int]));
    }
}

/// Prepend `prefix` to the success value of `r`.
pub open spec fn combine(prefix: Seq<char>, r: Result<Seq<char>, SpecErr>) -> Result<
    Seq<char>,
    SpecErr,
> {
    match r {
        Ok(t) => Ok(prefix + t),
        Err(e) => Err(e),
    }
}

pub proof fn lemma_combine_assoc(a: Seq<char>, b: Seq<char>, r: Result<Seq<char>, SpecErr>)
    ensures
        combine(a, combine(b, r)) == combine(a + b, r),
{
    match r {
        Ok(t) => {
            assert(a + (b + t) =~= (a + b) + t);
        },
        Err(_) => {},
    }
}

/// The scanning pass: `s` is what is left to scan, `full` the whole string
/// being scanned (it appears in the empty-variable error), `prev` whether
/// the previous character was a separator (true at the start).
pub open spec fn spec_scan(
    vars: Seq<(String, String)>,
    full: Seq<char>,
    s: Seq<char>,
    prev: bool,
) -> Result<Seq<char>, SpecErr>
    decreases s.len(),
{
    if s.len() == 0 {
        Ok(seq![])
    } else {
        let c = s[0];
        let curly = c == '$' && prev && s.len() >= 2 && s[1] == '{';
        let pct = c == '%' && prev;
        if curly || pct {
            let k: int = if curly { 2 } else { 1 };
            let opener: Seq<char> = if curly { seq!['$', '{'] } else { seq!['%'] };
            let closer: char = if curly { '}' } else { '%' };
            let body = s.skip(k);
            let j: int = if key_end(body) > body.len() {
                body.len() as int
            } else {
                key_end(body) as int
            };
            if j == body.len() {
                Ok(opener + body)
            } else if body[j] == closer {
                let valid = j + 1 == body.len() || spec_is_slash(body[j + 1]);
                if valid {
                    if j == 0 {
                        Err(SpecErr::EnvEmpty { path: full })
                    } else {
                        match spec_lookup(vars, body.take(j)) {
                            None => Err(SpecErr::EnvUndef { name: body.take(j) }),
                            Some(v) => combine(
                                v,
                                spec_scan(vars, full, body.skip(j + 1), false),
                            ),
                        }
                    }
                } else {
                    combine(
                        opener + body.take(j + 1),
                        spec_scan(vars, full, body.skip(j + 1), false),
                    )
                }
            } else {
                combine(
                    opener + body.take(j + 1),
                    spec_scan(vars, full, body.skip(j + 1), false),
                )
            }
        } else {
            combine(seq![c], spec_scan(vars, full, s.skip(1), spec_is_slash(c)))
        }
    }
}

/// What expansion makes of the raw input `s`.
pub open spec fn spec_expand(plat: Platform, s: Seq<char>) -> Result<Seq<char>, SpecErr> {
    if starts_home(s) {
        match plat.home {
            None => Err(SpecErr::Home),
            Some(h) => {
                let p = spec_prefixed(h@, spec_sep(plat.os), s.skip(1));
                spec_scan(plat.vars@, p, p, true)
            },
        }
    } else if starts_cwd(s) {
        match plat.cwd {
            None => Err(SpecErr::Cwd),
            Some(c) => {
                let p = spec_prefixed(c@, spec_sep(plat.os), s.skip(1));
                spec_scan(plat.vars@, p, p, true)
            },
        }
    } else if !has_dollar_pct(s) {
        Ok(s)
    } else {
        spec_scan(plat.vars@, s, s, true)
    }
}

/// Copy `w[from..to]` into a fresh vector.
pub fn sub_chars(w: &Vec<char>, from: usize, to: usize) -> (r: Vec<char>)
    requires
        from <= to <= w@.len(),
    ensures
        r@ == w@.subrange(from as int, to as int),
{
    let mut r: Vec<char> = Vec::new();
    let mut i: usize = from;
    while i < to
        invariant
            from <= i <= to <= w@.len(),
            r@ == w@.subrange(from as int, i as int),
        decreases to - i,
    {
        r.push(w[i]);
        i = i + 1;
        proof {
            assert(r@ =~= w@.subrange(from as int, i as int));
        }
    }
    r
}

/// Append `w[from..to]` to `out`.
fn append_range(out: &mut Vec<char>, w: &Vec<char>, from: usize, to: usize)
    requires
        from <= to <= w@.len(),
    ensures
        final(out)@ == old(out)@ + w@.subrange(from as int, to as int),
{
    let mut i: usize = from;
    while i < to
        invariant
            from <= i <= to <= w@.len(),
            out@ == old(out)@ + w@.subrange(from as int, i as int),
        decreases to - i,
    {
        out.push(w[i]);
        i = i + 1;
        proof {
            assert(out@ =~= old(out)@ + w@.subrange(from as int, i as int));
        }
    }
}

#[verifier::rlimit(100)]
#[verifier::spinoff_prover]
fn scan_pass(plat: &Platform, w: &Vec<char>) -> (r: Result<Vec<char>, PathError>)
    ensures
        r is Ok <==> spec_scan(plat.vars@, w@, w@, true) is Ok,
        r matches Ok(t) ==> Ok::<Seq<char>, SpecErr>(t@) == spec_scan(plat.vars@, w@, w@, true),
        r matches Err(e) ==> spec_scan(plat.vars@, w@, w@, true) matches Err(t) && err_matches(e, t),
{
    let ghost vars = plat.vars@;
    let ghost full = w@;
    let mut out: Vec<char> = Vec::new();
    let mut i: usize = 0;
    let mut prev: bool = true;
    proof {
        assert(w@.skip(0) =~= w@);
    }
    while i < w.len()
        invariant
            i <= w@.len(),
            vars == plat.vars@,
            full == w@,
            combine(out@, spec_scan(vars, full, w@.skip(i as int), prev)) == spec_scan(
                vars,
                full,
                w@,
                true,
            ),
        decreases w@.len() - i,
    {
        let ghost s = w@.skip(i as int);
        proof {
            assert(s[0] == w@[i as int]);
            if i + 1 < w@.len() {
                assert(s[1] == w@[i as int + 1]);
            }
        }
        let c = w[i];
        let curly = c == '$' && prev && i + 1 < w.len() && w[i + 1] == '{';
        let pct = c == '%' && prev;
        if curly || pct {
            let k: usize = if curly { 2 } else { 1 };
            let start = i + k;
            let ghost body = s.skip(k as int);
            proof {
                assert(body =~= w@.skip(start as int));
            }
            // find the end of the usable name characters
            let mut j: usize = start;
            while j < w.len() && is_allowed_in_environment_var(w[j])
                invariant
                    start <= j <= w@.len(),
                    body == w@.skip(start as int),
                    start <= w@.len(),
                    forall|m: int| start <= m < j ==> spec_is_env_char(w@[m]),
                decreases w@.len() - j,
            {
                j = j + 1;
            }
            proof {
                assert(forall|m: int| 0 <= m < j - start ==> body[m] == w@[m + start]);
                lemma_key_end_at_least(body, j - start);
                lemma_key_end(body);
                if j < w@.len() {
                    assert(body[j - start] == w@[j as int]);
                    assert(key_end(body) == j - start);
                } else {
                    assert(key_end(body) == body.len());
                }
            }
            let ghost jj = (j - start) as int;
            if j == w.len() {
                // the name never closes: the rest is passed through verbatim
                let ghost old_out = out@;
                append_range(&mut out, w, i, w.len());
                proof {
                    let opener: Seq<char> = if curly { seq!['$', '{'] } else { seq!['%'] };
                    assert(w@.subrange(i as int, w@.len() as int) =~= opener + body);
                    assert(out@ + Seq::<char>::empty() =~= out@);
                    assert(combine(out@, spec_scan(vars, full, w@.skip(w@.len() as int), false))
                        == spec_scan(vars, full, w@, true)) by {
                        assert(w@.skip(w@.len() as int) =~= Seq::<char>::empty());
                        assert(spec_scan(vars, full, s, prev) == Ok::<Seq<char>, SpecErr>(
                            opener + body,
                        ));
                        lemma_combine_assoc(old_out, opener + body, Ok(Seq::<char>::empty()));
                        assert((opener + body) + Seq::<char>::empty() =~= opener + body);
                    }
                }
                i = w.len();
                prev = false;
            } else if (curly && w[j] == '}') || (pct && w[j] == '%') {
                let valid = j + 1 == w.len() || is_slash(w[j + 1]);
                proof {
                    if j + 1 < w@.len() {
                        assert(body[jj + 1] == w@[j as int + 1]);
                    }
                    assert(valid == (jj + 1 == body.len() || spec_is_slash(body[jj + 1])));
                }
                if valid {
                    if j == start {
                        return Err(PathError::EnvVarEmpty { path: string_of(w) });
                    }
                    let name = sub_chars(w, start, j);
                    proof {
                        assert(name@ =~= body.take(jj));
                    }
                    match plat.lookup(&name) {
                        None => {
                            return Err(PathError::EnvVarUndefined { name: string_of(&name) });
                        },
                        Some(val) => {
                            let ghost old_out = out@;
                            let vc = chars_of(val.as_str());
                            append_range(&mut out, &vc, 0, vc.len());
                            proof {
                                assert(vc@.subrange(0, vc@.len() as int) =~= vc@);
                                assert(body.skip(jj + 1) =~= w@.skip(j as int + 1));
                                lemma_combine_assoc(
                                    old_out,
                                    val@,
                                    spec_scan(vars, full, w@.skip(j as int + 1), false),
                                );
                            }
                            i = j + 1;
                            prev = false;
                        },
                    }
                } else {
                    let ghost old_out = out@;
                    append_range(&mut out, w, i, j + 1);
                    proof {
                        let opener: Seq<char> = if curly { seq!['$', '{'] } else { seq!['%'] };
                        assert(w@.subrange(i as int, j as int + 1) =~= opener + body.take(jj + 1));
                        assert(body.skip(jj + 1) =~= w@.skip(j as int + 1));
                        lemma_combine_assoc(
                            old_out,
                            opener + body.take(jj + 1),
                            spec_scan(vars, full, w@.skip(j as int + 1), false),
                        );
                    }
                    i = j + 1;
                    prev = false;
                }
            } else {
                let ghost old_out = out@;
                append_range(&mut out, w, i, j + 1);
                proof {
                    let opener: Seq<char> = if curly { seq!['$', '{'] } else { seq!['%'] };
                    assert(w@.subrange(i as int, j as int + 1) =~= opener + body.take(jj + 1));
                    assert(body.skip(jj + 1) =~= w@.skip(j as int + 1));
                    lemma_combine_assoc(
                        old_out,
                        opener + body.take(jj + 1),
                        spec_scan(vars, full, w@.skip(j as int + 1), false),
                    );
                }
                i = j + 1;
                prev = false;
            }
        } else {
            let ghost old_out = out@;
            out.push(c);
            proof {
                assert(out@ =~= old_out + seq![c]);
                assert(s.skip(1) =~= w@.skip(i as int + 1));
                lemma_combine_assoc(
                    old_out,
                    seq![c],
                    spec_scan(vars, full, w@.skip(i as int + 1), spec_is_slash(c)),
                );
            }
            i = i + 1;
            prev = is_slash(c);
        }
    }
    proof {
        assert(w@.skip(w@.len() as int) =~= Seq::<char>::empty());
        assert(out@ + Seq::<char>::empty() =~= out@);
    }
    Ok(out)
}

fn detect_home(v: &Vec<char>) -> (r: bool)
    ensures
        r == starts_home(v@),
{
    v.len() >= 1 && v[0] == '~' && (v.len() == 1 || is_slash(v[1]))
}

fn detect_cwd(v: &Vec<char>) -> (r: bool)
    ensures
        r == starts_cwd(v@),
{
    v.len() >= 1 && v[0] == '.' && (v.len() == 1 || is_slash(v[1]))
}

fn find_dollar_pct(v: &Vec<char>) -> (r: bool)
    ensures
        r == has_dollar_pct(v@),
{
    let mut i: usize = 0;
    while i < v.len()
        invariant
            i <= v@.len(),
            forall|m: int| 0 <= m < i ==> !(v@[m] == '$' || v@[m] == '%'),
        decreases v@.len() - i,
    {
        if v[i] == '$' || v[i] == '%' {
            return true;
        }
        i = i + 1;
    }
    false
}

/// Build `base + sep? + v[1..]` for the sentinel replacements.
fn build_prefixed(base: &str, os: crate::platform::Os, v: &Vec<char>) -> (r: Vec<char>)
    requires
        v@.len() >= 1,
    ensures
        r@ == spec_prefixed(base@, spec_sep(os), v@.skip(1)),
{
    let mut w = chars_of(base);
    let base_slash = w.len() > 0 && is_slash(w[w.len() - 1]);
    proof {
        if w@.len() > 0 {
            assert(w@[w@.len() - 1] == w@.last());
        }
    }
    let rest_slash = v.len() >= 2 && is_slash(v[1]);
    proof {
        if v@.len() >= 2 {
            assert(v@.skip(1)[0] == v@[1]);
        }
        assert((v@.skip(1).len() > 0) == (v@.len() >= 2));
    }
    if !(base_slash || rest_slash) {
        w.push(sep_of(os));
    }
    let ghost mid = w@;
    append_range(&mut w, v, 1, v.len());
    proof {
        assert(v@.subrange(1, v@.len() as int) =~= v@.skip(1));
        if !(base_slash || rest_slash) {
            assert(w@ =~= base@ + seq![spec_sep(os)] + v@.skip(1));
        } else {
            assert(w@ =~= base@ + v@.skip(1));
        }
    }
    w
}

/// Expand the raw input: sentinel replacement, then the variable scan.
pub fn expand(plat: &Platform, input: &Vec<char>) -> (r: Result<Vec<char>, PathError>)
    ensures
        r is Ok <==> spec_expand(*plat, input@) is Ok,
        r matches Ok(t) ==> Ok::<Seq<char>, SpecErr>(t@) == spec_expand(*plat, input@),
        r matches Err(e) ==> spec_expand(*plat, input@) matches Err(t) && err_matches(e, t),
{
    if detect_home(input) {
        match &plat.home {
            None => Err(PathError::HomeUnresolvable),
            Some(h) => {
                let w = build_prefixed(h.as_str(), plat.os, input);
                scan_pass(plat, &w)
            },
        }
    } else if detect_cwd(input) {
        match &plat.cwd {
            None => Err(PathError::CwdUnresolvable),
            Some(c) => {
                let w = build_prefixed(c.as_str(), plat.os, input);
                scan_pass(plat, &w)
            },
        }
    } else if !find_dollar_pct(input) {
        let mut r: Vec<char> = Vec::new();
        append_range(&mut r, input, 0, input.len());
        proof {
            assert(r@ =~= input@);
        }
        Ok(r)
    } else {
        scan_pass(plat, input)
    }
}

} // verus!
