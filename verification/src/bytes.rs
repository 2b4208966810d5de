//! Copying and comparing byte strings.

use vstd::prelude::*;

verus! {

/// Appends `src` to `out`.
pub fn append_bytes(out: &mut Vec<u8>, src: &[u8])
    ensures
        final(out)@ == old(out)@ + src@,
{
    let n: usize = src.len();
    let mut i: usize = 0;
    while i < n
        invariant
            n == src@.len(),
            i <= n,
            out@ == old(out)@ + src@.subrange(0, i as int),
        decreases n - i,
    {
        out.push(src[i]);
        i = i + 1;
        assert(src@.subrange(0, i as int) == src@.subrange(0, i - 1).push(src@[i - 1]));
    }
    assert(src@.subrange(0, n as int) == src@);
}

/// A fresh vector holding `src[from..from + len]`.
pub fn copy_range(src: &[u8], from: usize, len: usize) -> (out: Vec<u8>)
    requires
        from + len <= src@.len(),
    ensures
        out@ == src@.subrange(from as int, from + len),
{
    let total: usize = src.len();
    let mut out: Vec<u8> = Vec::new();
    let mut i: usize = 0;
    while i < len
        invariant
            total == src@.len(),
            from + len <= total,
            i <= len,
            out@ == src@.subrange(from as int, from + i),
        decreases len - i,
    {
        out.push(src[from + i]);
        i = i + 1;
        assert(src@.subrange(from as int, from + i) == src@.subrange(from as int, from + i - 1).push(
            src@[from + i - 1],
        ));
    }
    out
}

/// The 20 bytes of `src` that start at `from`.
pub fn read_array20(src: &[u8], from: usize) -> (out: [u8; 20])
    requires
        from + 20 <= src@.len(),
    ensures
        out@ == src@.subrange(from as int, from + 20),
{
    let total: usize = src.len();
    let mut out: [u8; 20] = [0u8; 20];
    let mut i: usize = 0;
    while i < 20
        invariant
            total == src@.len(),
            from + 20 <= total,
            i <= 20,
            forall|j: int| 0 <= j < i ==> out@[j] == src@[from + j],
        decreases 20 - i,
    {
        out[i] = src[from + i];
        i = i + 1;
    }
    assert(out@ =~= src@.subrange(from as int, from + 20));
    out
}

/// The 32 bytes of `src` that start at `from`.
pub fn read_array32(src: &[u8], from: usize) -> (out: [u8; 32])
    requires
        from + 32 <= src@.len(),
    ensures
        out@ == src@.subrange(from as int, from + 32),
{
    let total: usize = src.len();
    let mut out: [u8; 32] = [0u8; 32];
    let mut i: usize = 0;
    while i < 32
        invariant
            total == src@.len(),
            from + 32 <= total,
            i <= 32,
            forall|j: int| 0 <= j < i ==> out@[j] == src@[from + j],
        decreases 32 - i,
    {
        out[i] = src[from + i];
        i = i + 1;
    }
    assert(out@ =~= src@.subrange(from as int, from + 32));
    out
}

/// Whether two byte strings are equal.
pub fn bytes_eq(a: &[u8], b: &[u8]) -> (same: bool)
    ensures
        same == (a@ == b@),
{
    if a.len() != b.len() {
        return false;
    }
    let n: usize = a.len();
    let mut i: usize = 0;
    while i < n
        invariant
            n == a@.len(),
            n == b@.len(),
            i <= n,
            forall|j: int| 0 <= j < i ==> a@[j] == b@[j],
        decreases n - i,
    {
        if a[i] != b[i] {
            return false;
        }
        i = i + 1;
    }
    assert(a@ =~= b@);
    true
}

/// Lexicographic order on byte strings of one length: `a` comes before `b`
/// when, at the first index where they differ, `a` holds the smaller byte.
pub open spec fn lex_lt(a: Seq<u8>, b: Seq<u8>) -> bool {
    exists|k: int|
        0 <= k < a.len() && k < b.len() && #[trigger] a[k] < b[k] && a.subrange(0, k)
            == b.subrange(0, k)
}

/// `a` comes before `b`, or equals it.
pub open spec fn lex_le(a: Seq<u8>, b: Seq<u8>) -> bool {
    a == b || lex_lt(a, b)
}

/// Decides `lex_le` on two 20-byte strings.
pub fn array20_le(a: &[u8; 20], b: &[u8; 20]) -> (le: bool)
    ensures
        le == lex_le(a@, b@),
{
    let mut i: usize = 0;
    while i < 20
        invariant
            i <= 20,
            forall|j: int| 0 <= j < i ==> a@[j] == b@[j],
        decreases 20 - i,
    {
        if a[i] < b[i] {
            assert(a@.subrange(0, i as int) =~= b@.subrange(0, i as int));
            return true;
        }
        if a[i] > b[i] {
            assert(a@ != b@);
            assert(!lex_lt(a@, b@)) by {
                if lex_lt(a@, b@) {
                    let k = choose|k: int|
                        0 <= k < a@.len() && k < b@.len() && #[trigger] a@[k] < b@[k]
                            && a@.subrange(0, k) == b@.subrange(0, k);
                    if k < i {
                    } else {
                        assert(a@.subrange(0, k)[i as int] == b@.subrange(0, k)[i as int]);
                    }
                }
            }
            return false;
        }
        i = i + 1;
    }
    assert(a@ =~= b@);
    true
}

/// Any two strings of one length are ordered one way or the other.
pub proof fn lemma_lex_total(a: Seq<u8>, b: Seq<u8>)
    requires
        a.len() == b.len(),
    ensures
        lex_le(a, b) || lex_le(b, a),
    decreases a.len(),
{
    if a != b {
        assert(a.len() > 0) by {
            if a.len() == 0 {
                assert(a =~= b);
            }
        }
        lemma_first_difference(a, b);
    }
}

/// Two different strings of one length differ at a first index.
proof fn lemma_first_difference(a: Seq<u8>, b: Seq<u8>)
    requires
        a.len() == b.len(),
        a != b,
    ensures
        exists|k: int|
            0 <= k < a.len() && #[trigger] a[k] != b[k] && a.subrange(0, k) == b.subrange(0, k),
    decreases a.len(),
{
    if a.len() == 0 {
        assert(a =~= b);
    } else if a.drop_last() == b.drop_last() {
        let k = a.len() - 1;
        assert(a[k] != b[k]) by {
            if a[k] == b[k] {
                assert(a =~= a.drop_last().push(a[k]));
                assert(b =~= b.drop_last().push(b[k]));
            }
        }
        assert(a.subrange(0, k) =~= a.drop_last());
        assert(b.subrange(0, k) =~= b.drop_last());
    } else {
        lemma_first_difference(a.drop_last(), b.drop_last());
        let k = choose|k: int|
            0 <= k < a.drop_last().len() && #[trigger] a.drop_last()[k] != b.drop_last()[k]
                && a.drop_last().subrange(0, k) == b.drop_last().subrange(0, k);
        assert(a.subrange(0, k) =~= a.drop_last().subrange(0, k));
        assert(b.subrange(0, k) =~= b.drop_last().subrange(0, k));
        assert(a[k] != b[k]);
    }
}

/// No string comes before itself.
pub proof fn lemma_lex_lt_irreflexive(a: Seq<u8>)
    ensures
        !lex_lt(a, a),
{
}

/// Coming before is transitive.
pub proof fn lemma_lex_lt_transitive(a: Seq<u8>, b: Seq<u8>, c: Seq<u8>)
    requires
        lex_lt(a, b),
        lex_lt(b, c),
    ensures
        lex_lt(a, c),
{
    let i = choose|k: int|
        0 <= k < a.len() && k < b.len() && #[trigger] a[k] < b[k] && a.subrange(0, k)
            == b.subrange(0, k);
    let j = choose|k: int|
        0 <= k < b.len() && k < c.len() && #[trigger] b[k] < c[k] && b.subrange(0, k)
            == c.subrange(0, k);
    let m = if i <= j {
        i
    } else {
        j
    };
    assert(a.subrange(0, m) =~= c.subrange(0, m)) by {
        assert forall|x: int| 0 <= x < m implies a[x] == c[x] by {
            assert(a.subrange(0, i)[x] == b.subrange(0, i)[x]);
            assert(b.subrange(0, j)[x] == c.subrange(0, j)[x]);
        }
    }
    if i < j {
        assert(b.subrange(0, j)[i] == c.subrange(0, j)[i]);
    } else if j < i {
        assert(a.subrange(0, i)[j] == b.subrange(0, i)[j]);
    }
    assert(a[m] < c[m]);
}

/// The order is transitive.
pub proof fn lemma_lex_le_transitive(a: Seq<u8>, b: Seq<u8>, c: Seq<u8>)
    requires
        lex_le(a, b),
        lex_le(b, c),
    ensures
        lex_le(a, c),
{
    if a != b && b != c {
        lemma_lex_lt_transitive(a, b, c);
    }
}

} // verus!
