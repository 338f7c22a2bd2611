//! Small verified string utilities: ASCII case folding, case-insensitive
//! comparison, textual substitution, and decimal rendering of integers.

use vstd::prelude::*;
use vstd::string::*;

verus! {

/// ASCII lowercase of one character; every other character is unchanged.
pub open spec fn lower_char(c: char) -> char {
    if 'A' <= c && c <= 'Z' {
        (((c as u8) + 32) as u8) as char
    } else {
        c
    }
}

/// ASCII lowercase applied to every character.
pub open spec fn lower_seq(s: Seq<char>) -> Seq<char> {
    s.map_values(|c: char| lower_char(c))
}

/// Lowercases one ASCII letter, leaving all other characters unchanged.
pub fn to_lower_char(c: char) -> (r: char)
    ensures
        r == lower_char(c),
{
    if 'A' <= c && c <= 'Z' {
        ((c as u8) + 32) as char
    } else {
        c
    }
}

/// Compares two strings for equality up to ASCII case.
pub fn eq_ignore_case(a: &str, b: &str) -> (r: bool)
    ensures
        r == (lower_seq(a@) == lower_seq(b@)),
{
    let alen = a.unicode_len();
    let blen = b.unicode_len();
    if alen != blen {
        proof {
            assert(lower_seq(a@).len() != lower_seq(b@).len());
        }
        return false;
    }
    let mut i: usize = 0;
    while i < alen
        invariant
            0 <= i <= alen,
            alen == a@.len(),
            alen == b@.len(),
            forall|j: int| 0 <= j < i ==> lower_char(a@[j]) == lower_char(b@[j]),
        decreases alen - i,
    {
        let ca = a.get_char(i);
        let cb = b.get_char(i);
        if to_lower_char(ca) != to_lower_char(cb) {
            proof {
                assert(lower_seq(a@)[i as int] != lower_seq(b@)[i as int]);
            }
            return false;
        }
        i = i + 1;
    }
    proof {
        assert(lower_seq(a@) =~= lower_seq(b@));
    }
    true
}

/// Whether `pat` is a nonempty token standing verbatim at the front of `s`.
pub open spec fn front_matches(s: Seq<char>, pat: Seq<char>) -> bool {
    0 < pat.len() <= s.len() && s.take(pat.len() as int) == pat
}

/// Index of the first pair whose placeholder stands at the front of `s`,
/// or `pairs.len()` when none does.
pub open spec fn spec_match_index(s: Seq<char>, pairs: Seq<(Seq<char>, Seq<char>)>) -> int
    decreases pairs.len(),
{
    if pairs.len() == 0 {
        0
    } else if front_matches(s, pairs[0].0) {
        0
    } else {
        1 + spec_match_index(s, pairs.drop_first())
    }
}

/// `spec_match_index` lies in [0, pairs.len()], and where it is below
/// `pairs.len()` it names a pair whose placeholder matches.
pub proof fn lemma_match_index_bounds(s: Seq<char>, pairs: Seq<(Seq<char>, Seq<char>)>)
    ensures
        0 <= spec_match_index(s, pairs) <= pairs.len(),
        spec_match_index(s, pairs) < pairs.len() ==> front_matches(
            s,
            pairs[spec_match_index(s, pairs)].0,
        ),
    decreases pairs.len(),
{
    if pairs.len() == 0 {
    } else if front_matches(s, pairs[0].0) {
    } else {
        lemma_match_index_bounds(s, pairs.drop_first());
    }
}

/// The first match is the pair before which nothing matches: a scan that
/// rejects every earlier pair and accepts pair `k` (or runs out) has found
/// `spec_match_index`.
pub proof fn lemma_match_index_is_first(
    s: Seq<char>,
    pairs: Seq<(Seq<char>, Seq<char>)>,
    k: int,
)
    requires
        0 <= k <= pairs.len(),
        forall|j: int| 0 <= j < k ==> !front_matches(s, (#[trigger] pairs[j]).0),
        k < pairs.len() ==> front_matches(s, pairs[k].0),
    ensures
        spec_match_index(s, pairs) == k,
    decreases pairs.len(),
{
    if pairs.len() == 0 {
    } else if k == 0 {
    } else {
        assert(!front_matches(s, pairs[0].0));
        assert(forall|j: int|
            0 <= j < k - 1 ==> !front_matches(s, (#[trigger] pairs.drop_first()[j]).0)) by {
            assert(forall|j: int| 0 <= j < k - 1 ==> pairs.drop_first()[j] == pairs[j + 1]);
        }
        lemma_match_index_is_first(s, pairs.drop_first(), k - 1);
    }
}

/// One left-to-right substitution pass over `s` with an ordered list of
/// (placeholder, value) pairs: at each position the first pair whose
/// placeholder stands there is replaced by its value and scanning resumes
/// after the consumed token, so an inserted value is never rescanned; a
/// position where no placeholder stands is copied verbatim. A pair with an
/// empty placeholder never matches.
pub open spec fn spec_subst(s: Seq<char>, pairs: Seq<(Seq<char>, Seq<char>)>) -> Seq<char>
    decreases s.len(),
{
    if s.len() == 0 {
        Seq::empty()
    } else {
        let k = spec_match_index(s, pairs);
        if 0 <= k < pairs.len() && front_matches(s, pairs[k].0) {
            pairs[k].1 + spec_subst(s.skip(pairs[k].0.len() as int), pairs)
        } else {
            seq![s[0]] + spec_subst(s.skip(1), pairs)
        }
    }
}

/// True when some pair's placeholder stands at some position of `s`.
pub open spec fn any_match_in(s: Seq<char>, pairs: Seq<(Seq<char>, Seq<char>)>) -> bool {
    exists|p: int, k: int|
        0 <= p < s.len() && 0 <= k < pairs.len() && front_matches(
            #[trigger] s.skip(p),
            (#[trigger] pairs[k]).0,
        )
}

/// Substitution touches only placeholder occurrences: a string in which no
/// placeholder stands anywhere, unrecognized tokens included, comes back
/// unchanged.
pub proof fn lemma_subst_absent(s: Seq<char>, pairs: Seq<(Seq<char>, Seq<char>)>)
    requires
        !any_match_in(s, pairs),
    ensures
        spec_subst(s, pairs) == s,
    decreases s.len(),
{
    if s.len() == 0 {
    } else {
        let k = spec_match_index(s, pairs);
        lemma_match_index_bounds(s, pairs);
        if k < pairs.len() {
            assert(s.skip(0) =~= s);
            assert(front_matches(s.skip(0), pairs[k].0));
            assert(any_match_in(s, pairs));
        }
        assert(!any_match_in(s.skip(1), pairs)) by {
            if any_match_in(s.skip(1), pairs) {
                let (p, j) = choose|p: int, j: int|
                    0 <= p < s.skip(1).len() && 0 <= j < pairs.len() && front_matches(
                        #[trigger] s.skip(1).skip(p),
                        (#[trigger] pairs[j]).0,
                    );
                assert(s.skip(p + 1) =~= s.skip(1).skip(p));
                assert(front_matches(s.skip(p + 1), pairs[j].0));
                assert(any_match_in(s, pairs));
            }
        }
        lemma_subst_absent(s.skip(1), pairs);
        assert(seq![s[0]] + s.skip(1) =~= s);
    }
}

/// Nothing matches before the first match.
pub proof fn lemma_match_index_none_before(
    s: Seq<char>,
    pairs: Seq<(Seq<char>, Seq<char>)>,
    j: int,
)
    requires
        0 <= j < spec_match_index(s, pairs),
    ensures
        !front_matches(s, pairs[j].0),
    decreases pairs.len(),
{
    lemma_match_index_bounds(s, pairs);
    if pairs.len() == 0 {
    } else if front_matches(s, pairs[0].0) {
    } else if j == 0 {
    } else {
        lemma_match_index_none_before(s, pairs.drop_first(), j - 1);
        assert(pairs.drop_first()[j - 1] == pairs[j]);
    }
}

/// A region where no placeholder stands is copied verbatim in front of
/// whatever the rest substitutes to.
pub proof fn lemma_subst_skip_region(
    u: Seq<char>,
    y: Seq<char>,
    pairs: Seq<(Seq<char>, Seq<char>)>,
)
    requires
        forall|p: int, k: int|
            0 <= p < u.len() && 0 <= k < pairs.len() ==> !front_matches(
                #[trigger] (u + y).skip(p),
                (#[trigger] pairs[k]).0,
            ),
    ensures
        spec_subst(u + y, pairs) == u + spec_subst(y, pairs),
    decreases u.len(),
{
    if u.len() == 0 {
        assert(u + y =~= y);
        assert(u + spec_subst(y, pairs) =~= spec_subst(y, pairs));
    } else {
        let s = u + y;
        let k = spec_match_index(s, pairs);
        lemma_match_index_bounds(s, pairs);
        if k < pairs.len() {
            assert((u + y).skip(0) =~= s);
            assert(!front_matches((u + y).skip(0), pairs[k].0));
            assert(false);
        }
        let u1 = u.skip(1);
        assert(s.skip(1) =~= u1 + y);
        assert forall|p: int, k2: int|
            0 <= p < u1.len() && 0 <= k2 < pairs.len() implies !front_matches(
            #[trigger] (u1 + y).skip(p),
            (#[trigger] pairs[k2]).0,
        ) by {
            assert((u1 + y).skip(p) =~= (u + y).skip(p + 1));
            assert(!front_matches((u + y).skip(p + 1), pairs[k2].0));
        }
        lemma_subst_skip_region(u1, y, pairs);
        assert(seq![s[0]] + (u1 + spec_subst(y, pairs)) =~= u + spec_subst(y, pairs));
    }
}

/// Substitution distributes over a cut that no match crosses: where every
/// placeholder standing in the first part also ends there, each part is
/// substituted on its own.
pub proof fn lemma_subst_prefix_region(
    x: Seq<char>,
    rest: Seq<char>,
    pairs: Seq<(Seq<char>, Seq<char>)>,
)
    requires
        forall|p: int, k: int|
            0 <= p < x.len() && 0 <= k < pairs.len() && front_matches(
                #[trigger] (x + rest).skip(p),
                (#[trigger] pairs[k]).0,
            ) ==> p + pairs[k].0.len() <= x.len(),
    ensures
        spec_subst(x + rest, pairs) == spec_subst(x, pairs) + spec_subst(rest, pairs),
    decreases x.len(),
{
    let s = x + rest;
    if x.len() == 0 {
        assert(s =~= rest);
        assert(spec_subst(x, pairs) + spec_subst(rest, pairs) =~= spec_subst(rest, pairs));
    } else {
        let k = spec_match_index(s, pairs);
        lemma_match_index_bounds(s, pairs);
        if k < pairs.len() {
            let pat = pairs[k].0;
            assert(s.skip(0) =~= s);
            assert(front_matches((x + rest).skip(0), pairs[k].0));
            assert(pat.len() <= x.len());
            assert(x.take(pat.len() as int) =~= s.take(pat.len() as int));
            assert(front_matches(x, pat));
            assert forall|j: int| 0 <= j < k implies !front_matches(
                x,
                (#[trigger] pairs[j]).0,
            ) by {
                lemma_match_index_none_before(s, pairs, j);
                if front_matches(x, pairs[j].0) {
                    assert(x.take(pairs[j].0.len() as int) =~= s.take(pairs[j].0.len() as int));
                    assert(front_matches(s, pairs[j].0));
                }
            }
            lemma_match_index_is_first(x, pairs, k);
            let x1 = x.skip(pat.len() as int);
            assert(s.skip(pat.len() as int) =~= x1 + rest);
            assert forall|p: int, k2: int|
                0 <= p < x1.len() && 0 <= k2 < pairs.len() && front_matches(
                    #[trigger] (x1 + rest).skip(p),
                    (#[trigger] pairs[k2]).0,
                ) implies p + pairs[k2].0.len() <= x1.len() by {
                assert((x1 + rest).skip(p) =~= (x + rest).skip(p + pat.len()));
                assert(front_matches((x + rest).skip(p + pat.len()), pairs[k2].0));
            }
            lemma_subst_prefix_region(x1, rest, pairs);
            assert(spec_subst(s, pairs) =~= spec_subst(x, pairs) + spec_subst(rest, pairs));
        } else {
            assert forall|j: int| 0 <= j < pairs.len() implies !front_matches(
                x,
                (#[trigger] pairs[j]).0,
            ) by {
                lemma_match_index_none_before(s, pairs, j);
                if front_matches(x, pairs[j].0) {
                    assert(x.take(pairs[j].0.len() as int) =~= s.take(pairs[j].0.len() as int));
                    assert(front_matches(s, pairs[j].0));
                }
            }
            lemma_match_index_is_first(x, pairs, pairs.len() as int);
            let x1 = x.skip(1);
            assert(s.skip(1) =~= x1 + rest);
            assert forall|p: int, k2: int|
                0 <= p < x1.len() && 0 <= k2 < pairs.len() && front_matches(
                    #[trigger] (x1 + rest).skip(p),
                    (#[trigger] pairs[k2]).0,
                ) implies p + pairs[k2].0.len() <= x1.len() by {
                assert((x1 + rest).skip(p) =~= (x + rest).skip(p + 1));
                assert(front_matches((x + rest).skip(p + 1), pairs[k2].0));
            }
            lemma_subst_prefix_region(x1, rest, pairs);
            assert(spec_subst(s, pairs) =~= spec_subst(x, pairs) + spec_subst(rest, pairs));
        }
    }
}

/// A brace token: an opening brace, a body free of braces, a closing
/// brace.
pub open spec fn brace_token(u: Seq<char>) -> bool {
    &&& u.len() >= 2
    &&& u[0] == '{'
    &&& u[u.len() - 1] == '}'
    &&& forall|i: int| 0 < i < u.len() - 1 ==> u[i] != '{' && u[i] != '}'
}

/// Every placeholder of the list is a brace token.
pub open spec fn brace_pairs(pairs: Seq<(Seq<char>, Seq<char>)>) -> bool {
    forall|k: int| 0 <= k < pairs.len() ==> brace_token((#[trigger] pairs[k]).0)
}

/// An unrecognized brace token anywhere in the template is left verbatim:
/// when every placeholder is a brace token and the token equals none of
/// them, substitution proceeds independently on either side of it and the
/// token itself is copied unchanged.
pub proof fn lemma_subst_keeps_unknown_token(
    x: Seq<char>,
    u: Seq<char>,
    y: Seq<char>,
    pairs: Seq<(Seq<char>, Seq<char>)>,
)
    requires
        brace_pairs(pairs),
        brace_token(u),
        forall|k: int| 0 <= k < pairs.len() ==> (#[trigger] pairs[k]).0 != u,
    ensures
        spec_subst(x + u + y, pairs) == spec_subst(x, pairs) + u + spec_subst(y, pairs),
{
    let uy = u + y;
    assert(x + u + y =~= x + uy);
    assert forall|p: int, k: int|
        0 <= p < x.len() && 0 <= k < pairs.len() && front_matches(
            #[trigger] (x + uy).skip(p),
            (#[trigger] pairs[k]).0,
        ) implies p + pairs[k].0.len() <= x.len() by {
        let pat = pairs[k].0;
        if p + pat.len() > x.len() {
            let off = x.len() - p;
            assert(pat[off] == (x + uy).skip(p)[off]) by {
                assert((x + uy).skip(p).take(pat.len() as int) == pat);
                assert((x + uy).skip(p).take(pat.len() as int)[off] == (x + uy).skip(p)[off]);
            }
            assert((x + uy).skip(p)[off] == (x + uy)[x.len() as int]);
            assert((x + uy)[x.len() as int] == u[0]);
            assert(pat[off] == '{');
            assert(brace_token(pat));
            if off == pat.len() - 1 {
                assert(pat[pat.len() - 1] == '}');
            } else {
                assert(0 < off < pat.len() - 1);
            }
            assert(false);
        }
    }
    lemma_subst_prefix_region(x, uy, pairs);
    assert forall|p: int, k: int|
        0 <= p < u.len() && 0 <= k < pairs.len() implies !front_matches(
        #[trigger] (u + y).skip(p),
        (#[trigger] pairs[k]).0,
    ) by {
        let pat = pairs[k].0;
        assert(brace_token(pat));
        if front_matches((u + y).skip(p), pat) {
            if p == 0 {
                assert((u + y).skip(0) =~= u + y);
                assert((u + y).take(pat.len() as int) == pat) by {
                    assert((u + y).skip(0).take(pat.len() as int) =~= (u + y).take(
                        pat.len() as int,
                    ));
                }
                if pat.len() < u.len() {
                    assert(pat[pat.len() - 1] == (u + y)[pat.len() - 1]);
                    assert((u + y)[pat.len() - 1] == u[pat.len() - 1]);
                    assert(0 < pat.len() - 1 < u.len() - 1);
                    assert(false);
                } else if pat.len() == u.len() {
                    assert(pat =~= u);
                    assert(false);
                } else {
                    assert(pat[u.len() - 1] == (u + y)[u.len() - 1]);
                    assert((u + y)[u.len() - 1] == u[u.len() - 1]);
                    assert(0 < u.len() - 1 < pat.len() - 1);
                    assert(false);
                }
            } else {
                assert(pat[0] == (u + y).skip(p)[0]) by {
                    assert((u + y).skip(p).take(pat.len() as int) == pat);
                    assert((u + y).skip(p).take(pat.len() as int)[0] == (u + y).skip(p)[0]);
                }
                assert((u + y).skip(p)[0] == u[p]);
                if p == u.len() - 1 {
                    assert(u[p] == '}');
                } else {
                    assert(0 < p < u.len() - 1);
                }
                assert(false);
            }
        }
    }
    lemma_subst_skip_region(u, y, pairs);
    assert(spec_subst(x, pairs) + (u + spec_subst(y, pairs)) =~= spec_subst(x, pairs) + u
        + spec_subst(y, pairs));
}

/// Whether `pat` stands verbatim in `s` at position `i`.
fn match_at(s: &str, i: usize, pat: &str, plen: usize) -> (r: bool)
    requires
        plen == pat@.len(),
        i + plen <= s@.len(),
        s@.len() <= usize::MAX,
    ensures
        r == (s@.subrange(i as int, i + pat@.len()) == pat@),
{
    let mut k: usize = 0;
    while k < plen
        invariant
            0 <= k <= plen,
            plen == pat@.len(),
            i + plen <= s@.len(),
            s@.len() <= usize::MAX,
            forall|j: int| 0 <= j < k ==> s@[i + j] == pat@[j],
        decreases plen - k,
    {
        if s.get_char(i + k) != pat.get_char(k) {
            proof {
                assert(s@.subrange(i as int, i + pat@.len())[k as int] != pat@[k as int]);
            }
            return false;
        }
        k = k + 1;
    }
    proof {
        assert(s@.subrange(i as int, i + pat@.len()) =~= pat@);
    }
    true
}

/// The views of a list of (placeholder, value) pairs.
pub open spec fn pairs_views(ps: Seq<(String, String)>) -> Seq<(Seq<char>, Seq<char>)> {
    ps.map_values(|p: (String, String)| (p.0@, p.1@))
}

/// The first pair whose placeholder stands at position `i` of `s`, if any.
fn find_match(s: &str, i: usize, slen: usize, pairs: &Vec<(String, String)>) -> (r: Option<usize>)
    requires
        slen == s@.len(),
        i <= slen,
    ensures
        r matches Some(k) ==> k < pairs@.len() && front_matches(
            s@.skip(i as int),
            pairs@[k as int].0@,
        ) && spec_match_index(s@.skip(i as int), pairs_views(pairs@)) == k,
        r is None ==> spec_match_index(s@.skip(i as int), pairs_views(pairs@)) == pairs@.len(),
{
    let ghost rest = s@.skip(i as int);
    let m = pairs.len();
    let mut k: usize = 0;
    while k < m
        invariant
            0 <= k <= m,
            m == pairs@.len(),
            slen == s@.len(),
            i <= slen,
            rest == s@.skip(i as int),
            forall|j: int| 0 <= j < k ==> !front_matches(rest, (#[trigger] pairs_views(pairs@)[j]).0),
        decreases m - k,
    {
        let pat = &pairs[k].0;
        let plen = pat.as_str().unicode_len();
        if 1 <= plen && plen <= slen - i {
            if match_at(s, i, pat.as_str(), plen) {
                proof {
                    assert(rest.take(plen as int) =~= s@.subrange(i as int, i + plen));
                    assert(front_matches(rest, pairs_views(pairs@)[k as int].0));
                    lemma_match_index_is_first(rest, pairs_views(pairs@), k as int);
                }
                return Some(k);
            }
            proof {
                assert(rest.take(plen as int) =~= s@.subrange(i as int, i + plen));
                assert(!front_matches(rest, pairs_views(pairs@)[k as int].0));
            }
        } else {
            proof {
                assert(!front_matches(rest, pairs_views(pairs@)[k as int].0));
            }
        }
        k = k + 1;
    }
    proof {
        lemma_match_index_is_first(rest, pairs_views(pairs@), m as int);
    }
    None
}

/// Substitutes the (placeholder, value) pairs into the template in one
/// left-to-right pass: at each position the first matching placeholder is
/// replaced by its value, the inserted value is never rescanned, and
/// unmatched text, unrecognized tokens included, is copied verbatim.
pub fn substitute(template: &str, pairs: &Vec<(String, String)>) -> (r: String)
    ensures
        r@ == spec_subst(template@, pairs_views(pairs@)),
{
    let slen = template.unicode_len();
    let ghost pv = pairs_views(pairs@);
    let mut out = String::new();
    let mut i: usize = 0;
    proof {
        assert(template@.skip(0) =~= template@);
        assert(out@ + spec_subst(template@, pv) =~= spec_subst(template@, pv));
    }
    while i < slen
        invariant
            0 <= i <= slen,
            slen == template@.len(),
            pv == pairs_views(pairs@),
            out@ + spec_subst(template@.skip(i as int), pv) == spec_subst(template@, pv),
        decreases slen - i,
    {
        let ghost rest = template@.skip(i as int);
        match find_match(template, i, slen, pairs) {
            Some(k) => {
                let plen = pairs[k].0.as_str().unicode_len();
                out.append(pairs[k].1.as_str());
                proof {
                    assert(rest.skip(plen as int) =~= template@.skip(i + plen));
                    assert(out@ + spec_subst(template@.skip(i + plen), pv) == spec_subst(
                        template@,
                        pv,
                    ));
                }
                i = i + plen;
            },
            None => {
                let piece = template.substring_char(i, i + 1);
                out.append(piece);
                proof {
                    assert(piece@ =~= seq![rest[0]]);
                    assert(rest.skip(1) =~= template@.skip(i + 1));
                    assert(out@ + spec_subst(template@.skip(i + 1), pv) == spec_subst(
                        template@,
                        pv,
                    ));
                }
                i = i + 1;
            },
        }
    }
    proof {
        assert(template@.skip(slen as int) =~= Seq::<char>::empty());
    }
    out
}

/// The character for one decimal digit.
pub open spec fn digit_char(d: int) -> char {
    if d == 0 {
        '0'
    } else if d == 1 {
        '1'
    } else if d == 2 {
        '2'
    } else if d == 3 {
        '3'
    } else if d == 4 {
        '4'
    } else if d == 5 {
        '5'
    } else if d == 6 {
        '6'
    } else if d == 7 {
        '7'
    } else if d == 8 {
        '8'
    } else {
        '9'
    }
}

/// Decimal representation of a non-negative integer, most significant digit
/// first, with no leading zeros (zero itself is "0").
pub open spec fn dec_rep(n: int) -> Seq<char>
    decreases n,
{
    if n < 10 {
        seq![digit_char(n)]
    } else {
        dec_rep(n / 10).push(digit_char(n % 10))
    }
}

/// Appends the character of one decimal digit.
fn append_digit(out: &mut String, d: u64)
    requires
        d < 10,
    ensures
        final(out)@ == old(out)@.push(digit_char(d as int)),
{
    if d == 0 {
        out.append("0");
        proof {
            reveal_strlit("0");
            assert(old(out)@ + "0"@ =~= old(out)@.push(digit_char(0)));
        }
    } else if d == 1 {
        out.append("1");
        proof {
            reveal_strlit("1");
            assert(old(out)@ + "1"@ =~= old(out)@.push(digit_char(1)));
        }
    } else if d == 2 {
        out.append("2");
        proof {
            reveal_strlit("2");
            assert(old(out)@ + "2"@ =~= old(out)@.push(digit_char(2)));
        }
    } else if d == 3 {
        out.append("3");
        proof {
            reveal_strlit("3");
            assert(old(out)@ + "3"@ =~= old(out)@.push(digit_char(3)));
        }
    } else if d == 4 {
        out.append("4");
        proof {
            reveal_strlit("4");
            assert(old(out)@ + "4"@ =~= old(out)@.push(digit_char(4)));
        }
    } else if d == 5 {
        out.append("5");
        proof {
            reveal_strlit("5");
            assert(old(out)@ + "5"@ =~= old(out)@.push(digit_char(5)));
        }
    } else if d == 6 {
        out.append("6");
        proof {
            reveal_strlit("6");
            assert(old(out)@ + "6"@ =~= old(out)@.push(digit_char(6)));
        }
    } else if d == 7 {
        out.append("7");
        proof {
            reveal_strlit("7");
            assert(old(out)@ + "7"@ =~= old(out)@.push(digit_char(7)));
        }
    } else if d == 8 {
        out.append("8");
        proof {
            reveal_strlit("8");
            assert(old(out)@ + "8"@ =~= old(out)@.push(digit_char(8)));
        }
    } else {
        out.append("9");
        proof {
            reveal_strlit("9");
            assert(old(out)@ + "9"@ =~= old(out)@.push(digit_char(9)));
        }
    }
}

/// The decimal digits of a digit stack read from the top down.
spec fn rev_digits(ds: Seq<u64>) -> Seq<char> {
    Seq::new(ds.len(), |k: int| digit_char(ds[ds.len() - 1 - k] as int))
}

/// Renders a non-negative integer in decimal.
pub fn u64_to_string(n: u64) -> (r: String)
    ensures
        r@ == dec_rep(n as int),
{
    let mut digits: Vec<u64> = Vec::new();
    let mut m = n;
    while m >= 10
        invariant
            dec_rep(n as int) == dec_rep(m as int) + rev_digits(digits@),
            forall|k: int| 0 <= k < digits@.len() ==> digits@[k] < 10,
        decreases m,
    {
        let d = m % 10;
        proof {
            assert(rev_digits(digits@.push(d)) =~= seq![digit_char(d as int)] + rev_digits(
                digits@,
            ));
            assert(dec_rep(m as int) == dec_rep(m as int / 10) + seq![digit_char(m as int % 10)])
                by {
                assert(dec_rep(m as int / 10).push(digit_char(m as int % 10)) =~= dec_rep(
                    m as int / 10,
                ) + seq![digit_char(m as int % 10)]);
            }
        }
        digits.push(d);
        m = m / 10;
    }
    digits.push(m);
    proof {
        assert(rev_digits(digits@) =~= seq![digit_char(m as int)] + rev_digits(
            digits@.drop_last(),
        )) by {
            assert(digits@.drop_last() =~= digits@.subrange(0, digits@.len() - 1));
        }
        assert(dec_rep(n as int) =~= rev_digits(digits@));
    }
    let dlen = digits.len();
    let mut out = String::new();
    let mut j = dlen;
    while j > 0
        invariant
            0 <= j <= dlen,
            dlen == digits@.len(),
            forall|k: int| 0 <= k < digits@.len() ==> digits@[k] < 10,
            out@ == rev_digits(digits@).take(dlen - j),
        decreases j,
    {
        j = j - 1;
        append_digit(&mut out, digits[j]);
        proof {
            assert(out@ =~= rev_digits(digits@).take(dlen - j));
        }
    }
    proof {
        assert(rev_digits(digits@).take(dlen as int) =~= rev_digits(digits@));
    }
    out
}

} // verus!
