//! Lexicographic ordering of byte strings. Interface names are kept sorted by
//! the byte order of their UTF-8 encodings, which is the order `str` itself
//! sorts by, so that every walk over the store visits interfaces in the same
//! order.

use vstd::prelude::*;

verus! {

/// Strict lexicographic order on byte sequences: `a` comes before `b`.
pub open spec fn lex_lt(a: Seq<u8>, b: Seq<u8>) -> bool
    decreases a.len(), b.len(),
{
    if b.len() == 0 {
        false
    } else if a.len() == 0 {
        true
    } else if a[0] < b[0] {
        true
    } else if a[0] > b[0] {
        false
    } else {
        lex_lt(a.drop_first(), b.drop_first())
    }
}

/// Outcome of comparing two byte strings.
#[derive(Clone, Copy, PartialEq, Eq, Structural, Debug)]
pub enum ByteOrder {
    Less,
    Equal,
    Greater,
}

pub proof fn lemma_lex_lt_irreflexive(a: Seq<u8>)
    ensures
        !lex_lt(a, a),
    decreases a.len(),
{
    if a.len() > 0 {
        lemma_lex_lt_irreflexive(a.drop_first());
    }
}

/// Strict order rules out equality.
pub proof fn lemma_lex_lt_ne(a: Seq<u8>, b: Seq<u8>)
    requires
        lex_lt(a, b),
    ensures
        a != b,
{
    if a == b {
        lemma_lex_lt_irreflexive(a);
    }
}

pub proof fn lemma_lex_lt_transitive(a: Seq<u8>, b: Seq<u8>, c: Seq<u8>)
    requires
        lex_lt(a, b),
        lex_lt(b, c),
    ensures
        lex_lt(a, c),
    decreases a.len(), b.len(), c.len(),
{
    if a.len() == 0 {
    } else {
        // lex_lt(a, b) with a nonempty forces b nonempty; lex_lt(b, c) forces c nonempty.
        if a[0] == b[0] && b[0] == c[0] {
            lemma_lex_lt_transitive(a.drop_first(), b.drop_first(), c.drop_first());
        }
    }
}

proof fn lemma_lex_lt_step(a: Seq<u8>, b: Seq<u8>, k: int)
    requires
        0 <= k < a.len(),
        k < b.len(),
        a[k] == b[k],
    ensures
        lex_lt(a.skip(k), b.skip(k)) == lex_lt(a.skip(k + 1), b.skip(k + 1)),
{
    assert(a.skip(k).drop_first() =~= a.skip(k + 1));
    assert(b.skip(k).drop_first() =~= b.skip(k + 1));
    assert(a.skip(k)[0] == a[k]);
    assert(b.skip(k)[0] == b[k]);
}

/// Compare two byte strings lexicographically.
pub fn bytes_cmp(a: &[u8], b: &[u8]) -> (r: ByteOrder)
    ensures
        (r == ByteOrder::Less) == lex_lt(a@, b@),
        (r == ByteOrder::Equal) == (a@ == b@),
        (r == ByteOrder::Greater) == lex_lt(b@, a@),
{
    let a_len: usize = a.len();
    let b_len: usize = b.len();
    let mut k: usize = 0;
    proof {
        assert(a@.skip(0) =~= a@);
        assert(b@.skip(0) =~= b@);
    }
    while k < a_len && k < b_len
        invariant
            a_len == a@.len(),
            b_len == b@.len(),
            0 <= k <= a_len,
            k <= b_len,
            forall|j: int| 0 <= j < k ==> a@[j] == b@[j],
            lex_lt(a@, b@) == lex_lt(a@.skip(k as int), b@.skip(k as int)),
            lex_lt(b@, a@) == lex_lt(b@.skip(k as int), a@.skip(k as int)),
        decreases a_len - k,
    {
        let x: u8 = a[k];
        let y: u8 = b[k];
        if x < y {
            assert(lex_lt(a@.skip(k as int), b@.skip(k as int)));
            assert(!lex_lt(b@.skip(k as int), a@.skip(k as int)));
            assert(a@[k as int] != b@[k as int]);
            return ByteOrder::Less;
        }
        if x > y {
            assert(!lex_lt(a@.skip(k as int), b@.skip(k as int)));
            assert(lex_lt(b@.skip(k as int), a@.skip(k as int)));
            assert(a@[k as int] != b@[k as int]);
            return ByteOrder::Greater;
        }
        proof {
            lemma_lex_lt_step(a@, b@, k as int);
            lemma_lex_lt_step(b@, a@, k as int);
        }
        k = k + 1;
    }
    if a_len < b_len {
        assert(lex_lt(a@.skip(k as int), b@.skip(k as int)));
        assert(!lex_lt(b@.skip(k as int), a@.skip(k as int)));
        ByteOrder::Less
    } else if a_len > b_len {
        assert(!lex_lt(a@.skip(k as int), b@.skip(k as int)));
        assert(lex_lt(b@.skip(k as int), a@.skip(k as int)));
        ByteOrder::Greater
    } else {
        assert(a@ =~= b@);
        proof {
            lemma_lex_lt_irreflexive(a@);
        }
        ByteOrder::Equal
    }
}

} // verus!
