//! Lexical retrieval: lower-case the query, split it into keyword tokens,
//! lower-case the content, and for the first token (in query order) that
//! occurs in the lower-cased content, return a context window of the
//! original-case content — 300 characters before the match start and 300
//! after the match end, clamped to the content bounds. When no token
//! matches, the result is empty: that signals "proceed without context" and
//! is not an error.

use vstd::prelude::*;

use crate::normalize::is_space;
use crate::normalize::is_space_char;
use crate::normalize::push_char;

verus! {

/// What `str::to_lowercase` returns for a given character sequence.
pub uninterp spec fn lower_of(s: Seq<char>) -> Seq<char>;

/// Relies on `str::to_lowercase`: the result depends on the characters of
/// `s` alone.
#[verifier::external_body]
fn to_lower(s: &str) -> (r: String)
    ensures
        r@ == lower_of(s@),
{
    s.to_lowercase()
}

/// One tokenization step. `acc.0` holds the finished tokens, `acc.1` the
/// token being read.
pub open spec fn tok_step(acc: (Seq<Seq<char>>, Seq<char>), c: char) -> (
    Seq<Seq<char>>,
    Seq<char>,
) {
    if is_space_char(c) {
        if acc.1.len() > 0 {
            (acc.0.push(acc.1), Seq::<char>::empty())
        } else {
            acc
        }
    } else {
        (acc.0, acc.1.push(c))
    }
}

/// The finished tokens and the trailing partial token of `s`, built by
/// folding `tok_step` over `s` from the left.
pub open spec fn tok_state(s: Seq<char>) -> (Seq<Seq<char>>, Seq<char>)
    decreases s.len(),
{
    if s.len() == 0 {
        (Seq::<Seq<char>>::empty(), Seq::<char>::empty())
    } else {
        tok_step(tok_state(s.drop_last()), s.last())
    }
}

/// The whitespace-separated tokens of `s`, in order, duplicates preserved.
pub open spec fn tokens_of(s: Seq<char>) -> Seq<Seq<char>> {
    let st = tok_state(s);
    if st.1.len() > 0 {
        st.0.push(st.1)
    } else {
        st.0
    }
}

proof fn lemma_tok_state_push(t: Seq<char>, c: char)
    ensures
        tok_state(t.push(c)) == tok_step(tok_state(t), c),
{
    let u = t.push(c);
    assert(u.drop_last() =~= t);
    assert(u.last() == c);
}

proof fn lemma_tok_state_nonempty(s: Seq<char>)
    ensures
        forall|j: int|
            0 <= j < tok_state(s).0.len() ==> (#[trigger] tok_state(s).0[j]).len() > 0,
    decreases s.len(),
{
    if s.len() > 0 {
        lemma_tok_state_nonempty(s.drop_last());
        let st = tok_state(s.drop_last());
        assert forall|j: int| 0 <= j < tok_state(s).0.len() implies (
        #[trigger] tok_state(s).0[j]).len() > 0 by {
            if is_space_char(s.last()) && st.1.len() > 0 {
                assert(tok_state(s).0 == st.0.push(st.1));
                if j < st.0.len() {
                    assert(tok_state(s).0[j] == st.0[j]);
                } else {
                    assert(tok_state(s).0[j] == st.1);
                }
            } else {
                assert(tok_state(s).0 == st.0);
            }
        }
    }
}

/// Every token produced by `tokens_of` is non-empty.
pub proof fn lemma_tokens_nonempty(s: Seq<char>)
    ensures
        forall|j: int| 0 <= j < tokens_of(s).len() ==> (#[trigger] tokens_of(s)[j]).len() > 0,
{
    lemma_tok_state_nonempty(s);
}

/// Splits `s` into its whitespace-separated tokens, in order, duplicates
/// preserved.
pub fn split_tokens(s: &str) -> (r: Vec<String>)
    ensures
        r.deep_view() == tokens_of(s@),
{
    let n = s.unicode_len();
    let mut toks: Vec<String> = Vec::new();
    let mut cur = String::new();
    let mut i: usize = 0;
    while i < n
        invariant
            n == s@.len(),
            i <= n,
            (toks.deep_view(), cur@) == tok_state(s@.subrange(0, i as int)),
        decreases n - i,
    {
        let c = s.get_char(i);
        let ghost prefix = s@.subrange(0, i as int);
        proof {
            lemma_tok_state_push(prefix, c);
            assert(prefix.push(c) =~= s@.subrange(0, i + 1 as int));
        }
        if is_space(c) {
            if !cur.as_str().is_empty() {
                let ghost toks0 = toks.deep_view();
                let ghost cur0 = cur@;
                toks.push(cur);
                cur = String::new();
                proof {
                    assert(toks.deep_view() =~= toks0.push(cur0));
                }
            }
        } else {
            push_char(&mut cur, c);
        }
        i = i + 1;
    }
    proof {
        assert(s@.subrange(0, n as int) =~= s@);
    }
    if !cur.as_str().is_empty() {
        let ghost toks0 = toks.deep_view();
        let ghost cur0 = cur@;
        toks.push(cur);
        proof {
            assert(toks.deep_view() =~= toks0.push(cur0));
        }
    }
    toks
}

/// `t` occurs in `c` starting at position `i`.
pub open spec fn occurs_at(c: Seq<char>, t: Seq<char>, i: int) -> bool {
    0 <= i && i + t.len() <= c.len() && c.subrange(i, i + t.len()) == t
}

/// `t` occurs somewhere in `c`.
pub open spec fn occurs(c: Seq<char>, t: Seq<char>) -> bool {
    exists|i: int| occurs_at(c, t, i)
}

/// The first occurrence of `t` in `c` at or after position `i`, if any.
pub open spec fn find_from(c: Seq<char>, t: Seq<char>, i: int) -> Option<int>
    decreases c.len() + 1 - i,
{
    if i < 0 || i + t.len() > c.len() {
        None
    } else if c.subrange(i, i + t.len()) == t {
        Some(i)
    } else {
        find_from(c, t, i + 1)
    }
}

/// The lowest position at which `t` occurs in `c`, if any.
pub open spec fn find(c: Seq<char>, t: Seq<char>) -> Option<int> {
    find_from(c, t, 0)
}

/// `find_from` returns exactly the lowest occurrence at or after `i`.
pub proof fn lemma_find_from(c: Seq<char>, t: Seq<char>, i: int)
    requires
        0 <= i,
    ensures
        match find_from(c, t, i) {
            Some(p) => i <= p && occurs_at(c, t, p) && forall|j: int|
                i <= j < p ==> !occurs_at(c, t, j),
            None => forall|j: int| j >= i ==> !occurs_at(c, t, j),
        },
    decreases c.len() + 1 - i,
{
    if i + t.len() > c.len() {
        assert forall|j: int| j >= i implies !occurs_at(c, t, j) by {}
    } else if c.subrange(i, i + t.len()) == t {
    } else {
        lemma_find_from(c, t, i + 1);
        assert(!occurs_at(c, t, i));
    }
}

/// `find` is `Some` exactly when `t` occurs in `c`.
pub proof fn lemma_find_occurs(c: Seq<char>, t: Seq<char>)
    ensures
        find(c, t) is Some <==> occurs(c, t),
        find(c, t) is Some ==> occurs_at(c, t, find(c, t).unwrap()),
{
    lemma_find_from(c, t, 0);
    if find(c, t) is None {
        assert forall|j: int| !occurs_at(c, t, j) by {
            if j >= 0 {
                assert(!occurs_at(c, t, j));
            }
        }
    }
}

/// Returns the lowest position at which `t` occurs in `c`, or `None` when it
/// does not occur.
pub fn find_first(c: &str, t: &str) -> (r: Option<usize>)
    ensures
        match r {
            Some(p) => find(c@, t@) == Some(p as int),
            None => find(c@, t@) is None,
        },
{
    let n = c.unicode_len();
    let m = t.unicode_len();
    if m > n {
        proof {
            assert(find_from(c@, t@, 0) is None);
        }
        return None;
    }
    let mut i: usize = 0;
    while i <= n - m
        invariant
            n == c@.len(),
            m == t@.len(),
            m <= n,
            i <= n - m + 1,
            find_from(c@, t@, 0) == find_from(c@, t@, i as int),
        decreases n - m + 1 - i,
    {
        let mut j: usize = 0;
        let mut matched = true;
        while matched && j < m
            invariant
                n == c@.len(),
                m == t@.len(),
                m <= n,
                i <= n - m,
                j <= m,
                matched ==> forall|l: int| 0 <= l < j ==> c@[i + l] == t@[l],
                !matched ==> exists|l: int| 0 <= l < m && c@[i + l] != t@[l],
            decreases m - j, (if matched { 1int } else { 0int }),
        {
            if c.get_char(i + j) != t.get_char(j) {
                matched = false;
                proof {
                    assert(c@[i + j as int] != t@[j as int]);
                }
            } else {
                j = j + 1;
            }
        }
        if matched {
            proof {
                assert(c@.subrange(i as int, i + m as int) =~= t@);
                assert(find_from(c@, t@, i as int) == Some(i as int));
            }
            return Some(i);
        }
        proof {
            let ii = i as int;
            let l = choose|l: int| 0 <= l < m && c@[ii + l] != t@[l];
            assert(c@.subrange(ii, ii + m as int)[l] != t@[l]);
            assert(c@.subrange(ii, ii + m as int) != t@);
            assert(find_from(c@, t@, ii) == find_from(c@, t@, ii + 1));
        }
        i = i + 1;
    }
    proof {
        assert(find_from(c@, t@, i as int) is None);
    }
    None
}

/// The first token of `toks`, scanning from index `k` in token order, that
/// occurs in `c`, together with the lowest position of its occurrence.
pub open spec fn first_match(c: Seq<char>, toks: Seq<Seq<char>>, k: int) -> Option<(int, int)>
    decreases toks.len() + 1 - k,
{
    if k < 0 || k >= toks.len() {
        None
    } else {
        match find(c, toks[k]) {
            Some(p) => Some((k, p)),
            None => first_match(c, toks, k + 1),
        }
    }
}

/// No token from index `k` on matches exactly when `first_match` is `None`.
pub proof fn lemma_first_match_none(c: Seq<char>, toks: Seq<Seq<char>>, k: int)
    requires
        0 <= k,
    ensures
        first_match(c, toks, k) is None <==> (forall|j: int|
            k <= j < toks.len() ==> !occurs(c, #[trigger] toks[j])),
    decreases toks.len() + 1 - k,
{
    if k < toks.len() {
        lemma_find_occurs(c, toks[k]);
        lemma_first_match_none(c, toks, k + 1);
    }
}

/// What `first_match` reports holds: the token matches at the reported
/// position, and no earlier token (in query order) matches anywhere.
pub proof fn lemma_first_match_some(c: Seq<char>, toks: Seq<Seq<char>>, k: int)
    requires
        0 <= k,
        first_match(c, toks, k) is Some,
    ensures
        ({
            let (j, p) = first_match(c, toks, k).unwrap();
            &&& k <= j < toks.len()
            &&& occurs_at(c, toks[j], p)
            &&& forall|l: int| 0 <= l < p ==> !occurs_at(c, toks[j], l)
            &&& forall|l: int| k <= l < j ==> !occurs(c, #[trigger] toks[l])
        }),
    decreases toks.len() + 1 - k,
{
    lemma_find_occurs(c, toks[k]);
    if find(c, toks[k]) is Some {
        lemma_find_from(c, toks[k], 0);
    } else {
        lemma_first_match_some(c, toks, k + 1);
    }
}

/// Where the context window starts: 300 characters before the match start,
/// clamped to the content bounds.
pub open spec fn window_start(pos: int, clen: int) -> int {
    let s = if pos > 300 {
        pos - 300
    } else {
        0
    };
    if s > clen {
        clen
    } else {
        s
    }
}

/// Where the context window ends: 300 characters after the match end,
/// clamped to the content length.
pub open spec fn window_end(pos: int, tlen: int, clen: int) -> int {
    if pos + tlen + 300 > clen {
        clen
    } else {
        pos + tlen + 300
    }
}

/// What retrieval returns: the window of the original-case content around
/// the first match of the first matching token of the lower-cased query in
/// the lower-cased content, or the empty sequence when no token matches.
pub open spec fn retrieval_spec(content: Seq<char>, query: Seq<char>) -> Seq<char> {
    let lc = lower_of(content);
    let toks = tokens_of(lower_of(query));
    match first_match(lc, toks, 0) {
        None => Seq::<char>::empty(),
        Some((k, p)) => content.subrange(
            window_start(p, content.len() as int),
            window_end(p, toks[k].len() as int, content.len() as int),
        ),
    }
}

/// The window bounds always lie inside the content, in order.
pub proof fn lemma_window_in_bounds(pos: int, tlen: int, clen: int)
    requires
        0 <= pos,
        0 <= tlen,
        0 <= clen,
    ensures
        0 <= window_start(pos, clen) <= window_end(pos, tlen, clen) <= clen,
{
}

/// Returns the context window of `content` for `query`: the substring of the
/// original-case content around the first match of the first (in query
/// order) lower-cased query token that occurs in the lower-cased content.
/// Returns the empty string when no token matches: "searched and found
/// nothing" is not an error.
pub fn retrieve_context(content: &str, query: &str) -> (r: String)
    ensures
        r@ == retrieval_spec(content@, query@),
        first_match(lower_of(content@), tokens_of(lower_of(query@)), 0) is None ==> r@
            == Seq::<char>::empty(),
{
    let lc = to_lower(content);
    let lq = to_lower(query);
    let toks = split_tokens(lq.as_str());
    let clen = content.unicode_len();
    let nt = toks.len();
    let ghost lcv = lc@;
    let ghost tv = toks.deep_view();
    let mut k: usize = 0;
    while k < nt
        invariant
            nt == tv.len(),
            k <= nt,
            lcv == lower_of(content@),
            tv == tokens_of(lower_of(query@)),
            lc@ == lcv,
            toks.deep_view() == tv,
            clen == content@.len(),
            first_match(lcv, tv, 0) == first_match(lcv, tv, k as int),
        decreases nt - k,
    {
        proof {
            assert(toks@[k as int]@ == tv[k as int]);
        }
        let r = find_first(lc.as_str(), toks[k].as_str());
        match r {
            Some(p) => {
                let tlen = toks[k].as_str().unicode_len();
                let start0 = if p > 300 {
                    p - 300
                } else {
                    0
                };
                let start = if start0 > clen {
                    clen
                } else {
                    start0
                };
                let end = if clen > p && clen - p > tlen && clen - p - tlen >= 300 {
                    p + tlen + 300
                } else {
                    clen
                };
                proof {
                    assert(first_match(lcv, tv, k as int) == Some((k as int, p as int)));
                    assert(start == window_start(p as int, clen as int));
                    assert(end == window_end(p as int, tlen as int, clen as int));
                    lemma_window_in_bounds(p as int, tlen as int, clen as int);
                }
                let w = content.substring_char(start, end);
                return w.to_owned();
            },
            None => {
                proof {
                    assert(first_match(lcv, tv, k as int) == first_match(lcv, tv, k + 1 as int));
                }
            },
        }
        k = k + 1;
    }
    proof {
        assert(first_match(lcv, tv, k as int) is None);
    }
    String::new()
}

/// When no lower-cased query token occurs in the lower-cased content,
/// retrieval yields the empty result — an empty window, never an error.
pub proof fn lemma_no_match_empty(content: Seq<char>, query: Seq<char>)
    requires
        forall|j: int|
            0 <= j < tokens_of(lower_of(query)).len() ==> !occurs(
                lower_of(content),
                #[trigger] tokens_of(lower_of(query))[j],
            ),
    ensures
        retrieval_spec(content, query) == Seq::<char>::empty(),
{
    lemma_first_match_none(lower_of(content), tokens_of(lower_of(query)), 0);
}

/// When some token of the lower-cased query occurs in the lower-cased
/// content, retrieval returns a non-empty window of the original-case
/// content whose bounds cover, in the coordinates of the lower-cased
/// content, the first occurrence of the first matching token. The bound on
/// the length of the lower-cased content excludes content on which
/// lower-casing changes the character count, where the match position need
/// not correspond to a position of the original-case content.
pub proof fn lemma_match_yields_window(content: Seq<char>, query: Seq<char>)
    requires
        lower_of(content).len() == content.len(),
        exists|j: int|
            0 <= j < tokens_of(lower_of(query)).len() && occurs(
                lower_of(content),
                #[trigger] tokens_of(lower_of(query))[j],
            ),
    ensures
        ({
            let toks = tokens_of(lower_of(query));
            let clen = content.len() as int;
            exists|k: int, p: int|
                {
                    &&& 0 <= k < toks.len()
                    &&& occurs_at(lower_of(content), toks[k], p)
                    &&& window_start(p, clen) <= p
                    &&& p + toks[k].len() <= window_end(p, toks[k].len() as int, clen)
                    &&& retrieval_spec(content, query) == content.subrange(
                        window_start(p, clen),
                        window_end(p, toks[k].len() as int, clen),
                    )
                }
        }),
        retrieval_spec(content, query).len() > 0,
{
    let lc = lower_of(content);
    let toks = tokens_of(lower_of(query));
    let clen = content.len() as int;
    lemma_first_match_none(lc, toks, 0);
    assert(first_match(lc, toks, 0) is Some);
    lemma_first_match_some(lc, toks, 0);
    let (k, p) = first_match(lc, toks, 0).unwrap();
    lemma_tokens_nonempty(lower_of(query));
    assert(toks[k].len() > 0);
    assert(p + toks[k].len() <= lc.len());
    lemma_window_in_bounds(p, toks[k].len() as int, clen);
    assert(window_start(p, clen) <= p);
    assert(p + toks[k].len() <= window_end(p, toks[k].len() as int, clen));
    assert(occurs_at(lc, toks[k], p) && window_start(p, clen) <= p && p + toks[k].len()
        <= window_end(p, toks[k].len() as int, clen) && retrieval_spec(content, query)
        == content.subrange(window_start(p, clen), window_end(p, toks[k].len() as int, clen)));
    assert(retrieval_spec(content, query).len() == window_end(p, toks[k].len() as int, clen)
        - window_start(p, clen));
}

/// When lower-casing this content is pointwise — lower-casing any substring
/// equals the matching substring of the lower-cased whole, which also forces
/// the character counts to agree — a matching query token occurs, lower-
/// cased, inside the returned window itself: the non-empty result contains
/// the token case-insensitively.
pub proof fn lemma_window_contains_token(content: Seq<char>, query: Seq<char>)
    requires
        forall|a: int, b: int|
            0 <= a <= b <= content.len() ==> lower_of(#[trigger] content.subrange(a, b))
                == lower_of(content).subrange(a, b),
        lower_of(content).len() == content.len(),
        exists|j: int|
            0 <= j < tokens_of(lower_of(query)).len() && occurs(
                lower_of(content),
                #[trigger] tokens_of(lower_of(query))[j],
            ),
    ensures
        retrieval_spec(content, query).len() > 0,
        exists|k: int|
            0 <= k < tokens_of(lower_of(query)).len() && occurs(
                lower_of(retrieval_spec(content, query)),
                #[trigger] tokens_of(lower_of(query))[k],
            ),
{
    let lc = lower_of(content);
    let toks = tokens_of(lower_of(query));
    let clen = content.len() as int;
    lemma_match_yields_window(content, query);
    let (k, p) = choose|k: int, p: int|
        {
            &&& 0 <= k < toks.len()
            &&& occurs_at(lc, toks[k], p)
            &&& window_start(p, clen) <= p
            &&& p + toks[k].len() <= window_end(p, toks[k].len() as int, clen)
            &&& retrieval_spec(content, query) == content.subrange(
                window_start(p, clen),
                window_end(p, toks[k].len() as int, clen),
            )
        };
    let start = window_start(p, clen);
    let end = window_end(p, toks[k].len() as int, clen);
    lemma_window_in_bounds(p, toks[k].len() as int, clen);
    let w = content.subrange(start, end);
    assert(lower_of(w) == lc.subrange(start, end));
    assert(lower_of(w).subrange(p - start, p - start + toks[k].len()) =~= lc.subrange(
        p,
        p + toks[k].len(),
    ));
    assert(lc.subrange(p, p + toks[k].len()) == toks[k]);
    assert(occurs_at(lower_of(w), toks[k], p - start));
    assert(occurs(lower_of(retrieval_spec(content, query)), toks[k]));
}

} // verus!
