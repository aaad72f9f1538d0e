//! Delimiter-seeking grammar primitives shared by every message parser.
//!
//! A line is a sequence of bytes. A *word* is the longest run of bytes that
//! contains no terminator, followed by exactly one terminator byte from a
//! given set; a *number* is a non-empty run of ASCII digits read as a base-10
//! unsigned 64-bit value; a *literal* is a fixed expected byte sequence.
//! Each primitive has a specification function that defines its result and an
//! executable function proved to match it.

use vstd::prelude::*;

verus! {

/// Field separator (ASCII horizontal tab).
pub const TAB: u8 = 9;

/// Line terminator (ASCII line feed).
pub const NL: u8 = 10;

/// Sub-field separator of the node-info line (ASCII `|`).
pub const PIPE: u8 = 124;

/// Key/value separator of the general-info line (ASCII `=`).
pub const EQ: u8 = 61;

/// Position of the first byte at or after `i` that belongs to `terms`,
/// or `None` when no such byte exists.
pub open spec fn spec_find(s: Seq<u8>, i: int, terms: Seq<u8>) -> Option<int>
    decreases s.len() - i when 0 <= i <= s.len()
{
    if i >= s.len() {
        None
    } else if terms.contains(s[i]) {
        Some(i)
    } else {
        spec_find(s, i + 1, terms)
    }
}

pub proof fn lemma_find_props(s: Seq<u8>, i: int, terms: Seq<u8>)
    requires
        0 <= i <= s.len(),
    ensures
        spec_find(s, i, terms) matches Some(j) ==> i <= j < s.len() && terms.contains(s[j])
            && (forall|k: int| i <= k < j ==> !terms.contains(s[k])),
        spec_find(s, i, terms) is None ==> forall|k: int|
            i <= k < s.len() ==> !terms.contains(s[k]),
    decreases s.len() - i,
{
    if i < s.len() && !terms.contains(s[i]) {
        lemma_find_props(s, i + 1, terms);
    }
}

/// The longest run of bytes from `i` holding no byte of `terms`, which must
/// be followed by one terminator byte from `terms`: the run and the position
/// just past the terminator.
pub open spec fn spec_word(s: Seq<u8>, i: int, terms: Seq<u8>) -> Option<(Seq<u8>, int)> {
    match spec_find(s, i, terms) {
        Some(j) => Some((s.subrange(i, j), j + 1)),
        None => None,
    }
}

pub proof fn lemma_word_props(s: Seq<u8>, i: int, terms: Seq<u8>)
    requires
        0 <= i <= s.len(),
    ensures
        spec_word(s, i, terms) matches Some((t, j)) ==> i < j <= s.len()
            && terms.contains(s[j - 1]) && t == s.subrange(i, j - 1)
            && (forall|k: int| i <= k < j - 1 ==> !terms.contains(s[k])),
        spec_word(s, i, terms) is None ==> forall|k: int|
            i <= k < s.len() ==> !terms.contains(s[k]),
{
    lemma_find_props(s, i, terms);
}

/// The converse characterization: a position with a terminator and none
/// before it is what `spec_find` returns.
pub proof fn lemma_find_exact(s: Seq<u8>, i: int, terms: Seq<u8>, j: int)
    requires
        0 <= i <= j < s.len(),
        terms.contains(s[j]),
        forall|k: int| i <= k < j ==> !terms.contains(s[k]),
    ensures
        spec_find(s, i, terms) == Some(j),
    decreases j - i,
{
    if i < j {
        lemma_find_exact(s, i + 1, terms, j);
    }
}

/// A word found within `s` is unchanged when more input follows `s`.
pub proof fn lemma_word_extend(s: Seq<u8>, t: Seq<u8>, i: int, terms: Seq<u8>)
    requires
        0 <= i <= s.len(),
        spec_word(s, i, terms) is Some,
    ensures
        spec_word(s + t, i, terms) == spec_word(s, i, terms),
{
    lemma_word_props(s, i, terms);
    if let Some((tok, j)) = spec_word(s, i, terms) {
        assert(forall|k: int| i <= k < j - 1 ==> (s + t)[k] == s[k]);
        assert((s + t)[j - 1] == s[j - 1]);
        lemma_find_exact(s + t, i, terms, j - 1);
        assert((s + t).subrange(i, j - 1) =~= s.subrange(i, j - 1));
    }
}

/// A literal matched within `s` is unchanged when more input follows `s`.
pub proof fn lemma_literal_extend(s: Seq<u8>, t: Seq<u8>, i: int, lit: Seq<u8>)
    requires
        0 <= i,
        spec_literal(s, i, lit) is Some,
    ensures
        spec_literal(s + t, i, lit) == spec_literal(s, i, lit),
{
    assert((s + t).subrange(i, i + lit.len()) =~= s.subrange(i, i + lit.len()));
}

/// Whether `b` is one of the terminator bytes in `terms`.
fn is_term(b: u8, terms: &[u8]) -> (r: bool)
    ensures
        r == terms@.contains(b),
{
    let mut k: usize = 0;
    while k < terms.len()
        invariant
            0 <= k <= terms@.len(),
            forall|m: int| 0 <= m < k ==> terms@[m] != b,
        decreases terms@.len() - k,
    {
        if terms[k] == b {
            return true;
        }
        k += 1;
    }
    false
}

/// Position of the first byte at or after `i` that belongs to `terms`.
fn find_term(s: &[u8], i: usize, terms: &[u8]) -> (r: Option<usize>)
    requires
        i <= s@.len(),
    ensures
        r matches Some(j) ==> spec_find(s@, i as int, terms@) == Some(j as int)
            && i <= j < s@.len(),
        r is None ==> spec_find(s@, i as int, terms@) is None,
{
    let mut j: usize = i;
    while j < s.len()
        invariant
            i <= j <= s@.len(),
            spec_find(s@, i as int, terms@) == spec_find(s@, j as int, terms@),
        decreases s@.len() - j,
    {
        if is_term(s[j], terms) {
            return Some(j);
        }
        j += 1;
    }
    None
}

/// Consume one delimiter-bounded token starting at `i`: the token's bytes
/// (terminator excluded) and the position just past the terminator.
pub fn word(s: &[u8], i: usize, terms: &[u8]) -> (r: Option<(Vec<u8>, usize)>)
    requires
        i <= s@.len(),
    ensures
        r matches Some(p) ==> spec_word(s@, i as int, terms@) == Some((p.0@, p.1 as int))
            && i < p.1 <= s@.len(),
        r is None ==> spec_word(s@, i as int, terms@) is None,
{
    match find_term(s, i, terms) {
        None => None,
        Some(j) => {
            let slen: usize = s.len();
            let mut tok: Vec<u8> = Vec::new();
            proof {
                assert(tok@ =~= s@.subrange(i as int, i as int));
            }
            let mut k: usize = i;
            while k < j
                invariant
                    i <= k <= j < s@.len(),
                    s@.len() == slen,
                    tok@ == s@.subrange(i as int, k as int),
                decreases j - k,
            {
                tok.push(s[k]);
                proof {
                    assert(tok@ =~= s@.subrange(i as int, k as int + 1));
                }
                k += 1;
            }
            Some((tok, j + 1))
        },
    }
}

/// The position just past a fixed expected byte sequence `lit` at `i`, or
/// `None` when the input does not carry `lit` there.
pub open spec fn spec_literal(s: Seq<u8>, i: int, lit: Seq<u8>) -> Option<int> {
    if i + lit.len() <= s.len() && s.subrange(i, i + lit.len()) == lit {
        Some(i + lit.len())
    } else {
        None
    }
}

/// Require the input to carry exactly the bytes of `lit` at `i` and consume
/// them.
pub fn literal(s: &[u8], i: usize, lit: &[u8]) -> (r: Option<usize>)
    requires
        i <= s@.len(),
    ensures
        r matches Some(j) ==> spec_literal(s@, i as int, lit@) == Some(j as int)
            && i <= j <= s@.len(),
        r is None ==> spec_literal(s@, i as int, lit@) is None,
{
    if s.len() - i < lit.len() {
        return None;
    }
    let mut k: usize = 0;
    while k < lit.len()
        invariant
            0 <= k <= lit@.len(),
            i + lit@.len() <= s@.len(),
            s@.len() <= usize::MAX,
            forall|m: int| 0 <= m <= k - 1 ==> s@[i + m] == lit@[m],
        decreases lit@.len() - k,
    {
        if s[i + k] != lit[k] {
            proof {
                assert(s@.subrange(i as int, i + lit@.len())[k as int] == s@[i + k]);
            }
            return None;
        }
        k += 1;
    }
    proof {
        assert(s@.subrange(i as int, i + lit@.len()) =~= lit@);
    }
    Some(i + lit.len())
}

/// Whether `b` is an ASCII decimal digit.
pub open spec fn is_digit(b: u8) -> bool {
    48 <= b && b <= 57
}

/// Position of the first non-digit byte at or after `i` (the input's length
/// when every remaining byte is a digit).
pub open spec fn spec_digits_end(s: Seq<u8>, i: int) -> int
    decreases s.len() - i when 0 <= i <= s.len()
{
    if i >= s.len() {
        i
    } else if !is_digit(s[i]) {
        i
    } else {
        spec_digits_end(s, i + 1)
    }
}

pub proof fn lemma_digits_end_props(s: Seq<u8>, i: int)
    requires
        0 <= i <= s.len(),
    ensures
        i <= spec_digits_end(s, i) <= s.len(),
        forall|k: int| i <= k < spec_digits_end(s, i) ==> is_digit(s[k]),
        spec_digits_end(s, i) < s.len() ==> !is_digit(s[spec_digits_end(s, i)]),
    decreases s.len() - i,
{
    if i < s.len() && is_digit(s[i]) {
        lemma_digits_end_props(s, i + 1);
    }
}

/// The converse characterization: a digit run bounded by a non-digit (or the
/// input's end) is what `spec_digits_end` returns.
pub proof fn lemma_digits_end_exact(s: Seq<u8>, i: int, e: int)
    requires
        0 <= i <= e <= s.len(),
        forall|k: int| i <= k < e ==> is_digit(s[k]),
        e < s.len() ==> !is_digit(s[e]),
    ensures
        spec_digits_end(s, i) == e,
    decreases e - i,
{
    if i < e {
        lemma_digits_end_exact(s, i + 1, e);
    }
}

/// Base-10 value of the digit run `s[i .. j]`.
pub open spec fn spec_digits_val(s: Seq<u8>, i: int, j: int) -> int
    decreases j - i when i <= j
{
    if j <= i {
        0
    } else {
        spec_digits_val(s, i, j - 1) * 10 + (s[j - 1] - 48)
    }
}

pub proof fn lemma_digits_val_nonneg(s: Seq<u8>, i: int, j: int)
    requires
        i <= j,
        forall|k: int| i <= k < j ==> is_digit(s[k]),
    ensures
        spec_digits_val(s, i, j) >= 0,
    decreases j - i,
{
    if j > i {
        lemma_digits_val_nonneg(s, i, j - 1);
    }
}

pub proof fn lemma_digits_val_mono(s: Seq<u8>, i: int, j1: int, j2: int)
    requires
        i <= j1 <= j2,
        forall|k: int| i <= k < j2 ==> is_digit(s[k]),
    ensures
        spec_digits_val(s, i, j2) >= spec_digits_val(s, i, j1),
    decreases j2 - j1,
{
    if j2 > j1 {
        lemma_digits_val_mono(s, i, j1, j2 - 1);
        lemma_digits_val_nonneg(s, i, j2 - 1);
    }
}

/// The digit-run value depends only on the bytes of the run.
pub proof fn lemma_digits_val_congruent(s1: Seq<u8>, s2: Seq<u8>, i: int, j: int)
    requires
        i <= j,
        forall|k: int| i <= k < j ==> s1[k] == s2[k],
    ensures
        spec_digits_val(s1, i, j) == spec_digits_val(s2, i, j),
    decreases j - i,
{
    if j > i {
        lemma_digits_val_congruent(s1, s2, i, j - 1);
    }
}

/// Consume the longest run of ASCII digits at `i`, read as a base-10
/// unsigned 64-bit integer: the value and the position just past the run.
/// An empty run, and a run whose value does not fit in 64 bits, are both
/// failures; the terminator that follows the run is not consumed.
pub open spec fn spec_number(s: Seq<u8>, i: int) -> Option<(u64, int)> {
    let e = spec_digits_end(s, i);
    if e == i {
        None
    } else if spec_digits_val(s, i, e) > u64::MAX {
        None
    } else {
        Some((spec_digits_val(s, i, e) as u64, e))
    }
}

/// A number whose digit run ends within `s` is unchanged when more input
/// follows `s`.
pub proof fn lemma_number_extend(s: Seq<u8>, t: Seq<u8>, i: int)
    requires
        0 <= i <= s.len(),
        spec_number(s, i) is Some,
        spec_digits_end(s, i) < s.len(),
    ensures
        spec_number(s + t, i) == spec_number(s, i),
{
    let e = spec_digits_end(s, i);
    lemma_digits_end_props(s, i);
    assert(forall|k: int| i <= k < e ==> (s + t)[k] == s[k]);
    assert((s + t)[e] == s[e]);
    lemma_digits_end_exact(s + t, i, e);
    lemma_digits_val_congruent(s + t, s, i, e);
}

/// Consume one unsigned base-10 integer token starting at `i`.
pub fn number(s: &[u8], i: usize) -> (r: Option<(u64, usize)>)
    requires
        i <= s@.len(),
    ensures
        r matches Some(p) ==> spec_number(s@, i as int) == Some((p.0, p.1 as int))
            && i < p.1 <= s@.len(),
        r is None ==> spec_number(s@, i as int) is None,
{
    proof {
        lemma_digits_end_props(s@, i as int);
    }
    let ghost e = spec_digits_end(s@, i as int);
    let mut j: usize = i;
    let mut val: u64 = 0;
    while j < s.len() && s[j] >= 48 && s[j] <= 57
        invariant
            i <= j <= s@.len(),
            i <= e <= s@.len(),
            e == spec_digits_end(s@, i as int),
            forall|k: int| i <= k < e ==> is_digit(s@[k]),
            e < s@.len() ==> !is_digit(s@[e]),
            j <= e,
            spec_digits_end(s@, j as int) == e,
            val == spec_digits_val(s@, i as int, j as int),
        decreases s@.len() - j,
    {
        let d: u8 = s[j] - 48;
        proof {
            assert(spec_digits_val(s@, i as int, j as int + 1) == val * 10 + d);
        }
        if val > 1844674407370955161 || (val == 1844674407370955161 && d > 5) {
            proof {
                assert(val * 10 + d > u64::MAX);
                assert(j < e);
                lemma_digits_val_mono(s@, i as int, j as int + 1, e);
            }
            return None;
        }
        val = val * 10 + (d as u64);
        j += 1;
    }
    proof {
        assert(j == e);
    }
    if j == i {
        None
    } else {
        Some((val, j))
    }
}

/// The greedy repetition shared by the list-shaped messages: as many
/// `<first>` `sep` `<second>` (`TAB` | `NL`) pairs as match, starting at `i`;
/// the pairs in order and the position where the first non-matching pair
/// begins. This repetition never fails: zero pairs leave the position at `i`.
pub open spec fn spec_pairs(s: Seq<u8>, i: int, sep: u8) -> (Seq<(Seq<u8>, Seq<u8>)>, int)
    decreases s.len() - i when 0 <= i <= s.len() via lemma_spec_pairs_decreases
{
    match spec_word(s, i, seq![sep]) {
        None => (seq![], i),
        Some((t1, j1)) => match spec_word(s, j1, seq![TAB, NL]) {
            None => (seq![], i),
            Some((t2, j2)) => {
                let rest = spec_pairs(s, j2, sep);
                (seq![(t1, t2)] + rest.0, rest.1)
            },
        },
    }
}

#[via_fn]
proof fn lemma_spec_pairs_decreases(s: Seq<u8>, i: int, sep: u8) {
    if 0 <= i <= s.len() {
        lemma_word_props(s, i, seq![sep]);
        if let Some((t1, j1)) = spec_word(s, i, seq![sep]) {
            lemma_word_props(s, j1, seq![TAB, NL]);
        }
    }
}

/// The sequence of byte-sequence pairs that a vector of byte-vector pairs
/// holds.
pub open spec fn pairs_view(v: Seq<(Vec<u8>, Vec<u8>)>) -> Seq<(Seq<u8>, Seq<u8>)> {
    Seq::new(v.len(), |k: int| (v[k].0@, v[k].1@))
}

/// Consume pairs of `sep`-terminated and (`TAB` | `NL`)-terminated tokens,
/// greedily, until a pair fails to match.
pub fn parse_pairs(s: &[u8], i: usize, sep: u8) -> (r: (Vec<(Vec<u8>, Vec<u8>)>, usize))
    requires
        i <= s@.len(),
    ensures
        pairs_view(r.0@) == spec_pairs(s@, i as int, sep).0,
        r.1 as int == spec_pairs(s@, i as int, sep).1,
        i <= r.1 <= s@.len(),
{
    let mut out: Vec<(Vec<u8>, Vec<u8>)> = Vec::new();
    let mut cur: usize = i;
    proof {
        assert(pairs_view(out@) + spec_pairs(s@, i as int, sep).0 =~= spec_pairs(s@, i as int, sep).0);
    }
    loop
        invariant
            i <= cur <= s@.len(),
            spec_pairs(s@, i as int, sep).0 == pairs_view(out@) + spec_pairs(s@, cur as int, sep).0,
            spec_pairs(s@, i as int, sep).1 == spec_pairs(s@, cur as int, sep).1,
        decreases s@.len() - cur,
    {
        let seps: [u8; 1] = [sep];
        let tabnl: [u8; 2] = [TAB, NL];
        proof {
            assert(seps@ =~= seq![sep]);
            assert(tabnl@ =~= seq![TAB, NL]);
        }
        let first = word(s, cur, seps.as_slice());
        match first {
            None => {
                proof {
                    assert(spec_pairs(s@, cur as int, sep) == (Seq::<(Seq<u8>, Seq<u8>)>::empty(), cur as int));
                    assert(pairs_view(out@) + seq![] =~= pairs_view(out@));
                }
                return (out, cur);
            },
            Some((t1, j1)) => {
                let second = word(s, j1, tabnl.as_slice());
                match second {
                    None => {
                        proof {
                            assert(spec_pairs(s@, cur as int, sep) == (Seq::<(Seq<u8>, Seq<u8>)>::empty(), cur as int));
                            assert(pairs_view(out@) + seq![] =~= pairs_view(out@));
                        }
                        return (out, cur);
                    },
                    Some((t2, j2)) => {
                        proof {
                            let rest = spec_pairs(s@, j2 as int, sep);
                            assert(spec_pairs(s@, cur as int, sep) == (seq![(t1@, t2@)] + rest.0, rest.1));
                            assert(pairs_view(out@.push((t1, t2))) =~= pairs_view(out@) + seq![(t1@, t2@)]);
                            assert(pairs_view(out@) + (seq![(t1@, t2@)] + rest.0) =~= (pairs_view(out@) + seq![(t1@, t2@)]) + rest.0);
                        }
                        out.push((t1, t2));
                        cur = j2;
                    },
                }
            },
        }
    }
}

/// Whether two byte slices hold the same bytes.
pub fn bytes_eq(a: &[u8], b: &[u8]) -> (r: bool)
    ensures
        r == (a@ == b@),
{
    if a.len() != b.len() {
        return false;
    }
    let mut k: usize = 0;
    while k < a.len()
        invariant
            a@.len() == b@.len(),
            0 <= k <= a@.len(),
            forall|m: int| 0 <= m < k ==> a@[m] == b@[m],
        decreases a@.len() - k,
    {
        if a[k] != b[k] {
            return false;
        }
        k += 1;
    }
    proof {
        assert(a@ =~= b@);
    }
    true
}

/// Append every byte of `src` to `dst`.
pub fn push_all(dst: &mut Vec<u8>, src: &[u8])
    ensures
        final(dst)@ == old(dst)@ + src@,
{
    proof {
        assert(dst@ =~= old(dst)@ + src@.subrange(0, 0));
    }
    let mut k: usize = 0;
    while k < src.len()
        invariant
            0 <= k <= src@.len(),
            dst@ == old(dst)@ + src@.subrange(0, k as int),
        decreases src@.len() - k,
    {
        dst.push(src[k]);
        proof {
            assert(dst@ =~= old(dst)@ + src@.subrange(0, k as int + 1));
        }
        k += 1;
    }
    proof {
        assert(old(dst)@ + src@.subrange(0, src@.len() as int) =~= old(dst)@ + src@);
    }
}

/// An owned copy of a byte slice.
pub fn copy_bytes(s: &[u8]) -> (r: Vec<u8>)
    ensures
        r@ == s@,
{
    let mut v: Vec<u8> = Vec::new();
    push_all(&mut v, s);
    proof {
        assert(v@ =~= s@);
    }
    v
}

} // verus!
