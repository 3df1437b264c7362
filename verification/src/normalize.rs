//! Text normalization: every maximal run of whitespace characters is replaced
//! by a single space, and leading and trailing whitespace is removed. The
//! operation is total and idempotent.

use vstd::prelude::*;

verus! {

/// The whitespace characters the pipeline collapses and splits on: the
/// Unicode White_Space set, listed literally.
pub open spec fn is_space_char(c: char) -> bool {
    c == ' ' || c == '\t' || c == '\n' || c == '\r' || c == '\u{000B}' || c == '\u{000C}'
        || c == '\u{0085}' || c == '\u{00A0}' || c == '\u{1680}' || c == '\u{2000}'
        || c == '\u{2001}' || c == '\u{2002}' || c == '\u{2003}' || c == '\u{2004}'
        || c == '\u{2005}' || c == '\u{2006}' || c == '\u{2007}' || c == '\u{2008}'
        || c == '\u{2009}' || c == '\u{200A}' || c == '\u{2028}' || c == '\u{2029}'
        || c == '\u{202F}' || c == '\u{205F}' || c == '\u{3000}'
}

/// Executable whitespace test.
pub fn is_space(c: char) -> (r: bool)
    ensures
        r == is_space_char(c),
{
    c == ' ' || c == '\t' || c == '\n' || c == '\r' || c == '\u{000B}' || c == '\u{000C}'
        || c == '\u{0085}' || c == '\u{00A0}' || c == '\u{1680}' || c == '\u{2000}'
        || c == '\u{2001}' || c == '\u{2002}' || c == '\u{2003}' || c == '\u{2004}'
        || c == '\u{2005}' || c == '\u{2006}' || c == '\u{2007}' || c == '\u{2008}'
        || c == '\u{2009}' || c == '\u{200A}' || c == '\u{2028}' || c == '\u{2029}'
        || c == '\u{202F}' || c == '\u{205F}' || c == '\u{3000}'
}

/// Relies on `String::push`: appends the given character to the end of the
/// string.
#[verifier::external_body]
pub(crate) fn push_char(s: &mut String, c: char)
    ensures
        final(s)@ == old(s)@.push(c),
{
    s.push(c)
}

/// One normalization step. `acc.0` is the normalized prefix seen so far and
/// `acc.1` records whether a space is still owed between that prefix and the
/// next visible character.
pub open spec fn norm_step(acc: (Seq<char>, bool), c: char) -> (Seq<char>, bool) {
    if is_space_char(c) {
        (acc.0, acc.0.len() > 0)
    } else if acc.1 {
        (acc.0.push(' ').push(c), false)
    } else {
        (acc.0.push(c), false)
    }
}

/// The normalized form of `s` together with the pending-space flag, built by
/// folding `norm_step` over `s` from the left.
pub open spec fn norm_state(s: Seq<char>) -> (Seq<char>, bool)
    decreases s.len(),
{
    if s.len() == 0 {
        (Seq::<char>::empty(), false)
    } else {
        norm_step(norm_state(s.drop_last()), s.last())
    }
}

/// What `normalize` returns: whitespace runs collapsed to single spaces,
/// ends trimmed.
pub open spec fn normalize_spec(s: Seq<char>) -> Seq<char> {
    norm_state(s).0
}

proof fn lemma_norm_state_push(t: Seq<char>, c: char)
    ensures
        norm_state(t.push(c)) == norm_step(norm_state(t), c),
{
    let u = t.push(c);
    assert(u.drop_last() =~= t);
    assert(u.last() == c);
}

/// Replaces every maximal run of whitespace characters in `text` with a
/// single space and removes leading and trailing whitespace.
pub fn normalize(text: &str) -> (r: String)
    ensures
        r@ == normalize_spec(text@),
{
    let n = text.unicode_len();
    let mut out = String::new();
    let mut pending = false;
    let mut i: usize = 0;
    while i < n
        invariant
            n == text@.len(),
            i <= n,
            (out@, pending) == norm_state(text@.subrange(0, i as int)),
        decreases n - i,
    {
        let c = text.get_char(i);
        proof {
            lemma_norm_state_push(text@.subrange(0, i as int), c);
            assert(text@.subrange(0, i as int).push(c) =~= text@.subrange(0, i + 1 as int));
        }
        if is_space(c) {
            pending = !out.as_str().is_empty();
        } else {
            if pending {
                push_char(&mut out, ' ');
                pending = false;
            }
            push_char(&mut out, c);
        }
        i = i + 1;
    }
    proof {
        assert(text@.subrange(0, n as int) =~= text@);
    }
    out
}

/// A sequence in normal form: every whitespace character in it is a single
/// space, no two spaces are adjacent, and it neither starts nor ends with
/// whitespace.
pub open spec fn single_spaced(o: Seq<char>) -> bool {
    &&& forall|i: int| 0 <= i < o.len() ==> (is_space_char(#[trigger] o[i]) ==> o[i] == ' ')
    &&& forall|i: int|
        0 <= i < o.len() - 1 ==> !(is_space_char(#[trigger] o[i]) && is_space_char(o[i + 1]))
    &&& (o.len() > 0 ==> !is_space_char(o[0]))
    &&& (o.len() > 0 ==> !is_space_char(o[o.len() - 1]))
}

proof fn lemma_norm_state_canonical(s: Seq<char>)
    ensures
        single_spaced(norm_state(s).0),
        norm_state(s).1 ==> norm_state(s).0.len() > 0,
    decreases s.len(),
{
    if s.len() > 0 {
        lemma_norm_state_canonical(s.drop_last());
        let (o, p) = norm_state(s.drop_last());
        let c = s.last();
        if !is_space_char(c) {
            if p {
                let o2 = o.push(' ').push(c);
                assert(o2[o.len() as int] == ' ');
                assert(o2[o.len() as int + 1] == c);
                assert forall|i: int|
                    0 <= i < o2.len() && is_space_char(#[trigger] o2[i]) implies o2[i] == ' ' by {
                    if i < o.len() {
                        assert(o2[i] == o[i]);
                    }
                }
                assert forall|i: int| 0 <= i < o2.len() - 1 implies !(is_space_char(
                    #[trigger] o2[i],
                ) && is_space_char(o2[i + 1])) by {
                    if i < o.len() - 1 {
                        assert(o2[i] == o[i] && o2[i + 1] == o[i + 1]);
                    } else if i == o.len() - 1 {
                        assert(o2[i] == o[i] && !is_space_char(o[o.len() - 1]));
                    }
                }
                assert(o2[0] == o[0]);
            } else {
                let o2 = o.push(c);
                assert forall|i: int|
                    0 <= i < o2.len() && is_space_char(#[trigger] o2[i]) implies o2[i] == ' ' by {
                    if i < o.len() {
                        assert(o2[i] == o[i]);
                    }
                }
                assert forall|i: int| 0 <= i < o2.len() - 1 implies !(is_space_char(
                    #[trigger] o2[i],
                ) && is_space_char(o2[i + 1])) by {
                    if i < o.len() - 1 {
                        assert(o2[i] == o[i] && o2[i + 1] == o[i + 1]);
                    } else {
                        assert(o2[i] == o[o.len() - 1] && o2[i + 1] == c);
                    }
                }
                if o.len() > 0 {
                    assert(o2[0] == o[0]);
                }
            }
        }
    }
}

proof fn lemma_norm_fixed_prefix(o: Seq<char>, i: int)
    requires
        single_spaced(o),
        0 <= i <= o.len(),
    ensures
        norm_state(o.subrange(0, i)) == if i > 0 && is_space_char(o[i - 1]) {
            (o.subrange(0, i - 1), true)
        } else {
            (o.subrange(0, i), false)
        },
    decreases i,
{
    if i == 0 {
        assert(o.subrange(0, 0) =~= Seq::<char>::empty());
    } else {
        lemma_norm_fixed_prefix(o, i - 1);
        let t = o.subrange(0, i - 1);
        let c = o[i - 1];
        lemma_norm_state_push(t, c);
        assert(t.push(c) =~= o.subrange(0, i));
        if is_space_char(c) {
            // `o` has no leading space and no two adjacent spaces, so the
            // character before `c` exists and is not whitespace.
            assert(i - 1 > 0);
            assert(!is_space_char(o[i - 2]));
            assert(norm_state(t) == (t, false));
            assert(t.len() > 0);
        } else {
            if i - 1 > 0 && is_space_char(o[i - 2]) {
                assert(o[i - 2] == ' ');
                assert(norm_state(t) == (o.subrange(0, i - 2), true));
                assert(o.subrange(0, i - 2).push(' ').push(c) =~= o.subrange(0, i));
            } else {
                assert(norm_state(t) == (t, false));
            }
        }
    }
}

/// Normalization is idempotent: normalizing an already-normalized text
/// changes nothing.
pub proof fn lemma_normalize_idempotent(s: Seq<char>)
    ensures
        normalize_spec(normalize_spec(s)) == normalize_spec(s),
{
    let o = normalize_spec(s);
    lemma_norm_state_canonical(s);
    lemma_norm_fixed_prefix(o, o.len() as int);
    assert(o.subrange(0, o.len() as int) =~= o);
}

/// The normalized form is in normal form: no whitespace run longer than one
/// character remains, every remaining whitespace character is a single
/// space, and the ends are trimmed.
pub proof fn lemma_normalize_single_spaced(s: Seq<char>)
    ensures
        single_spaced(normalize_spec(s)),
{
    lemma_norm_state_canonical(s);
}

} // verus!
