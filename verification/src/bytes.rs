//! Byte-level encodings: big- and little-endian integers and the
//! lexicographic order on byte strings (the order `str` and `[u8]` compare in).
use vstd::prelude::*;

verus! {

/// 256 to the power `n`.
pub open spec fn pow256(n: nat) -> nat
    decreases n,
{
    if n == 0 { 1 } else { pow256((n - 1) as nat) * 256 }
}

pub proof fn lemma_pow256_positive(n: nat)
    ensures
        pow256(n) >= 1,
    decreases n,
{
    if n > 0 {
        lemma_pow256_positive((n - 1) as nat);
    }
}

pub proof fn lemma_pow256_mono(a: nat, b: nat)
    requires
        a <= b,
    ensures
        pow256(a) <= pow256(b),
    decreases b,
{
    if a < b {
        lemma_pow256_mono(a, (b - 1) as nat);
        lemma_pow256_positive((b - 1) as nat);
    }
}

/// Big-endian value of a byte sequence.
pub open spec fn be_value(s: Seq<u8>) -> nat
    decreases s.len(),
{
    if s.len() == 0 {
        0
    } else {
        be_value(s.drop_last()) * 256 + s.last() as nat
    }
}

pub proof fn lemma_be_value_bound(s: Seq<u8>)
    ensures
        be_value(s) < pow256(s.len()),
    decreases s.len(),
{
    if s.len() > 0 {
        lemma_be_value_bound(s.drop_last());
        let p = pow256((s.len() - 1) as nat);
        let v = be_value(s.drop_last());
        assert(v * 256 + s.last() < p * 256) by (nonlinear_arith)
            requires
                v < p,
                s.last() < 256,
        ;
    }
}

/// Reads the first `n` bytes of `d` as a big-endian integer (`n` at most 8).
pub fn be_u64_prefix(d: &[u8], n: usize) -> (r: u64)
    requires
        n <= 8,
        n <= d@.len(),
    ensures
        r as nat == be_value(d@.take(n as int)),
{
    let mut acc: u64 = 0;
    let mut i: usize = 0;
    while i < n
        invariant
            i <= n <= 8,
            n <= d@.len(),
            acc as nat == be_value(d@.take(i as int)),
        decreases n - i,
    {
        proof {
            lemma_be_value_bound(d@.take(i as int));
            lemma_pow256_mono(i as nat, 7);
            assert(pow256(7) == 0x100_0000_0000_0000) by {
                reveal_with_fuel(pow256, 8);
            }
            assert(d@.take(i as int + 1).drop_last() =~= d@.take(i as int));
        }
        acc = acc * 256 + d[i] as u64;
        i = i + 1;
    }
    acc
}

/// The eight little-endian bytes of `x` (what `u64::to_le_bytes` gives).
pub open spec fn le_bytes(x: u64) -> Seq<u8> {
    Seq::new(8, |i: int| ((x as nat / pow256(i as nat)) % 256) as u8)
}

/// Appends the eight little-endian bytes of `x`.
pub fn push_le_bytes(out: &mut Vec<u8>, x: u64)
    ensures
        final(out)@ == old(out)@ + le_bytes(x),
{
    let mut v: u64 = x;
    let mut i: usize = 0;
    assert(pow256(0) == 1);
    assert(old(out)@ + le_bytes(x).take(0) =~= old(out)@);
    while i < 8
        invariant
            i <= 8,
            v as nat == x as nat / pow256(i as nat),
            out@ == old(out)@ + le_bytes(x).take(i as int),
        decreases 8 - i,
    {
        out.push((v % 256) as u8);
        proof {
            lemma_pow256_positive(i as nat);
            vstd::arithmetic::div_mod::lemma_div_denominator(x as int, pow256(i as nat) as int, 256);
            assert(le_bytes(x).take(i as int + 1) =~= le_bytes(x).take(i as int).push(((v % 256) as u8)));
        }
        v = v / 256;
        i = i + 1;
    }
    assert(le_bytes(x).take(8) =~= le_bytes(x));
}

/// Strict lexicographic order on byte strings: the first differing byte
/// decides, and a proper prefix comes first.
pub open spec fn bytes_less(a: Seq<u8>, b: Seq<u8>) -> bool
    decreases a.len(),
{
    if a.len() == 0 {
        b.len() > 0
    } else if b.len() == 0 {
        false
    } else if a[0] < b[0] {
        true
    } else if a[0] > b[0] {
        false
    } else {
        bytes_less(a.drop_first(), b.drop_first())
    }
}

pub proof fn lemma_bytes_less_irreflexive(a: Seq<u8>)
    ensures
        !bytes_less(a, a),
    decreases a.len(),
{
    if a.len() > 0 {
        lemma_bytes_less_irreflexive(a.drop_first());
    }
}

pub proof fn lemma_bytes_less_transitive(a: Seq<u8>, b: Seq<u8>, c: Seq<u8>)
    requires
        bytes_less(a, b),
        bytes_less(b, c),
    ensures
        bytes_less(a, c),
    decreases a.len(),
{
    if a.len() > 0 && b.len() > 0 && c.len() > 0 && a[0] == b[0] && b[0] == c[0] {
        lemma_bytes_less_transitive(a.drop_first(), b.drop_first(), c.drop_first());
    }
}

pub proof fn lemma_bytes_less_total(a: Seq<u8>, b: Seq<u8>)
    ensures
        a == b || bytes_less(a, b) || bytes_less(b, a),
    decreases a.len(),
{
    if a.len() > 0 && b.len() > 0 && a[0] == b[0] {
        lemma_bytes_less_total(a.drop_first(), b.drop_first());
        if a.drop_first() == b.drop_first() {
            assert(a =~= seq![a[0]] + a.drop_first());
            assert(b =~= seq![b[0]] + b.drop_first());
        }
    } else if a.len() == 0 && b.len() == 0 {
        assert(a =~= b);
    }
}

pub proof fn lemma_bytes_less_asymmetric(a: Seq<u8>, b: Seq<u8>)
    requires
        bytes_less(a, b),
    ensures
        !bytes_less(b, a),
{
    if bytes_less(b, a) {
        lemma_bytes_less_transitive(a, b, a);
        lemma_bytes_less_irreflexive(a);
    }
}

/// Compares two byte strings: -1 if `a` comes first, 0 if they are equal, 1
/// if `b` comes first.
pub fn compare_bytes(a: &[u8], b: &[u8]) -> (r: i8)
    ensures
        (r == -1) == bytes_less(a@, b@),
        (r == 0) == (a@ == b@),
        (r == 1) == bytes_less(b@, a@),
        r == -1 || r == 0 || r == 1,
{
    let mut i: usize = 0;
    assert(a@.skip(0) =~= a@);
    assert(b@.skip(0) =~= b@);
    assert(a@.take(0) =~= b@.take(0));
    while i < a.len() && i < b.len()
        invariant
            i <= a@.len(),
            i <= b@.len(),
            a@.take(i as int) == b@.take(i as int),
            bytes_less(a@, b@) == bytes_less(a@.skip(i as int), b@.skip(i as int)),
            bytes_less(b@, a@) == bytes_less(b@.skip(i as int), a@.skip(i as int)),
        decreases a@.len() - i,
    {
        assert(a@.skip(i as int)[0] == a@[i as int]);
        assert(b@.skip(i as int)[0] == b@[i as int]);
        if a[i] < b[i] {
            assert(a@ != b@) by {
                assert(a@[i as int] != b@[i as int]);
            }
            proof { lemma_bytes_less_asymmetric(a@, b@); }
            return -1;
        }
        if a[i] > b[i] {
            assert(a@ != b@) by {
                assert(a@[i as int] != b@[i as int]);
            }
            proof { lemma_bytes_less_asymmetric(b@, a@); }
            return 1;
        }
        assert(a@.skip(i as int).drop_first() =~= a@.skip(i + 1));
        assert(b@.skip(i as int).drop_first() =~= b@.skip(i + 1));
        assert(a@.take(i + 1) =~= a@.take(i as int).push(a@[i as int]));
        assert(b@.take(i + 1) =~= b@.take(i as int).push(b@[i as int]));
        i = i + 1;
    }
    if a.len() == b.len() {
        assert(a@ =~= a@.take(i as int));
        assert(b@ =~= b@.take(i as int));
        proof { lemma_bytes_less_irreflexive(a@); }
        0
    } else if a.len() < b.len() {
        assert(a@.skip(i as int).len() == 0);
        assert(a@ != b@);
        proof { lemma_bytes_less_asymmetric(a@, b@); }
        -1
    } else {
        assert(b@.skip(i as int).len() == 0);
        assert(a@ != b@);
        proof { lemma_bytes_less_asymmetric(b@, a@); }
        1
    }
}

} // verus!
