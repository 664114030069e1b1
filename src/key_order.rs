//! The byte-lexicographic order on keys, as a spec function with its laws and
//! an executable comparison proved against it.
use core::cmp::Ordering;
use vstd::prelude::*;

verus! {

/// Byte-lexicographic comparison of two byte strings: the first differing byte
/// decides, and a proper prefix comes before the longer string.
pub open spec fn lex_cmp(a: Seq<u8>, b: Seq<u8>) -> Ordering
    decreases a.len(),
{
    if a.len() == 0 {
        if b.len() == 0 {
            Ordering::Equal
        } else {
            Ordering::Less
        }
    } else if b.len() == 0 {
        Ordering::Greater
    } else if a[0] < b[0] {
        Ordering::Less
    } else if a[0] > b[0] {
        Ordering::Greater
    } else {
        lex_cmp(a.drop_first(), b.drop_first())
    }
}

/// `a` comes strictly before `b`.
pub open spec fn lex_lt(a: Seq<u8>, b: Seq<u8>) -> bool {
    lex_cmp(a, b) == Ordering::Less
}

/// `a` comes before `b` or equals it.
pub open spec fn lex_le(a: Seq<u8>, b: Seq<u8>) -> bool {
    lex_cmp(a, b) != Ordering::Greater
}

/// The comparison is `Equal` exactly on equal strings.
pub proof fn lemma_lex_cmp_equal(a: Seq<u8>, b: Seq<u8>)
    ensures
        (lex_cmp(a, b) == Ordering::Equal) <==> (a == b),
    decreases a.len(),
{
    if a.len() == 0 && b.len() == 0 {
        assert(a =~= b);
    }
    if a.len() > 0 && b.len() > 0 && a[0] == b[0] {
        lemma_lex_cmp_equal(a.drop_first(), b.drop_first());
        if a.drop_first() == b.drop_first() {
            assert(a =~= seq![a[0]] + a.drop_first());
            assert(b =~= seq![b[0]] + b.drop_first());
        }
    }
}

/// Swapping the arguments swaps `Less` and `Greater`.
pub proof fn lemma_lex_cmp_antisym(a: Seq<u8>, b: Seq<u8>)
    ensures
        (lex_cmp(a, b) == Ordering::Less) <==> (lex_cmp(b, a) == Ordering::Greater),
        (lex_cmp(a, b) == Ordering::Greater) <==> (lex_cmp(b, a) == Ordering::Less),
    decreases a.len(),
{
    if a.len() > 0 && b.len() > 0 && a[0] == b[0] {
        lemma_lex_cmp_antisym(a.drop_first(), b.drop_first());
    }
}

/// The strict order is transitive.
pub proof fn lemma_lex_lt_trans(a: Seq<u8>, b: Seq<u8>, c: Seq<u8>)
    requires
        lex_lt(a, b),
        lex_lt(b, c),
    ensures
        lex_lt(a, c),
    decreases a.len(),
{
    if a.len() > 0 && b.len() > 0 && c.len() > 0 && a[0] == b[0] && b[0] == c[0] {
        lemma_lex_lt_trans(a.drop_first(), b.drop_first(), c.drop_first());
    }
}

/// Any two strings are ordered one way or the other.
pub proof fn lemma_lex_total(a: Seq<u8>, b: Seq<u8>)
    ensures
        lex_lt(a, b) || a == b || lex_lt(b, a),
{
    lemma_lex_cmp_equal(a, b);
    lemma_lex_cmp_antisym(a, b);
}

/// Mixed transitivity: `a <= b < c` gives `a < c`.
pub proof fn lemma_lex_le_lt_trans(a: Seq<u8>, b: Seq<u8>, c: Seq<u8>)
    requires
        lex_le(a, b),
        lex_lt(b, c),
    ensures
        lex_lt(a, c),
{
    lemma_lex_cmp_equal(a, b);
    if a != b {
        lemma_lex_lt_trans(a, b, c);
    }
}

/// Mixed transitivity: `a < b <= c` gives `a < c`.
pub proof fn lemma_lex_lt_le_trans(a: Seq<u8>, b: Seq<u8>, c: Seq<u8>)
    requires
        lex_lt(a, b),
        lex_le(b, c),
    ensures
        lex_lt(a, c),
{
    lemma_lex_cmp_equal(b, c);
    if b != c {
        lemma_lex_lt_trans(a, b, c);
    }
}

/// Compares two byte strings in byte-lexicographic order.
pub fn compare_keys(a: &Vec<u8>, b: &Vec<u8>) -> (r: Ordering)
    ensures
        r == lex_cmp(a@, b@),
{
    let mut i: usize = 0;
    assert(a@.skip(0) =~= a@);
    assert(b@.skip(0) =~= b@);
    while i < a.len() && i < b.len()
        invariant
            i <= a@.len(),
            i <= b@.len(),
            lex_cmp(a@, b@) == lex_cmp(a@.skip(i as int), b@.skip(i as int)),
        decreases a@.len() - i,
    {
        let x: u8 = a[i];
        let y: u8 = b[i];
        assert(a@.skip(i as int)[0] == x);
        assert(b@.skip(i as int)[0] == y);
        if x < y {
            return Ordering::Less;
        }
        if x > y {
            return Ordering::Greater;
        }
        assert(a@.skip(i as int).drop_first() =~= a@.skip(i + 1));
        assert(b@.skip(i as int).drop_first() =~= b@.skip(i + 1));
        i = i + 1;
    }
    if i < a.len() {
        Ordering::Greater
    } else if i < b.len() {
        Ordering::Less
    } else {
        Ordering::Equal
    }
}

} // verus!

verus! {

/// One end of a key range.
pub enum KeyBound {
    Included(Vec<u8>),
    Excluded(Vec<u8>),
    Unbounded,
}

/// `k` lies on the allowed side of `b` taken as a lower bound.
pub open spec fn above_lower(k: Seq<u8>, b: KeyBound) -> bool {
    match b {
        KeyBound::Included(x) => lex_le(x@, k),
        KeyBound::Excluded(x) => lex_lt(x@, k),
        KeyBound::Unbounded => true,
    }
}

/// `k` lies on the allowed side of `b` taken as an upper bound.
pub open spec fn below_upper(k: Seq<u8>, b: KeyBound) -> bool {
    match b {
        KeyBound::Included(x) => lex_le(k, x@),
        KeyBound::Excluded(x) => lex_lt(k, x@),
        KeyBound::Unbounded => true,
    }
}

/// `k` lies between the two bounds.
pub open spec fn in_bounds(k: Seq<u8>, lo: KeyBound, hi: KeyBound) -> bool {
    above_lower(k, lo) && below_upper(k, hi)
}

/// A key above a key that passes a lower bound passes it too.
pub proof fn lemma_above_lower_mono(a: Seq<u8>, b: Seq<u8>, lo: KeyBound)
    requires
        above_lower(a, lo),
        lex_lt(a, b),
    ensures
        above_lower(b, lo),
{
    match lo {
        KeyBound::Included(x) => lemma_lex_le_lt_trans(x@, a, b),
        KeyBound::Excluded(x) => lemma_lex_lt_trans(x@, a, b),
        KeyBound::Unbounded => {},
    }
}

/// A key above a key that fails an upper bound fails it too.
pub proof fn lemma_below_upper_mono(a: Seq<u8>, b: Seq<u8>, hi: KeyBound)
    requires
        !below_upper(a, hi),
        lex_lt(a, b),
    ensures
        !below_upper(b, hi),
{
    match hi {
        KeyBound::Included(x) => {
            lemma_lex_cmp_antisym(a, x@);
            lemma_lex_cmp_antisym(b, x@);
            lemma_lex_lt_trans(x@, a, b);
        },
        KeyBound::Excluded(x) => {
            lemma_lex_total(a, x@);
            lemma_lex_cmp_antisym(b, x@);
            lemma_lex_cmp_equal(b, x@);
            if a != x@ {
                lemma_lex_lt_trans(x@, a, b);
            }
        },
        KeyBound::Unbounded => {},
    }
}

/// Whether `k` passes `b` taken as an upper bound.
pub fn passes_upper(k: &Vec<u8>, b: &KeyBound) -> (r: bool)
    ensures
        r == below_upper(k@, *b),
{
    match b {
        KeyBound::Included(x) => !matches!(compare_keys(k, x), Ordering::Greater),
        KeyBound::Excluded(x) => matches!(compare_keys(k, x), Ordering::Less),
        KeyBound::Unbounded => true,
    }
}

} // verus!
