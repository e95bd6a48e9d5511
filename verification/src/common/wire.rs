//! Little-endian byte layout of integers, as the wire frames lay them out.
use vstd::prelude::*;

verus! {

/// `256^n`.
pub open spec fn pow256(n: nat) -> nat
    decreases n,
{
    if n == 0 {
        1
    } else {
        256 * pow256((n - 1) as nat)
    }
}

/// The `n` low-order bytes of `x`, least significant first.
pub open spec fn le_bytes(x: nat, n: nat) -> Seq<u8>
    decreases n,
{
    if n == 0 {
        seq![]
    } else {
        seq![(x % 256) as u8] + le_bytes(x / 256, (n - 1) as nat)
    }
}

/// The number whose little-endian bytes are `s`.
pub open spec fn le_value(s: Seq<u8>) -> nat
    decreases s.len(),
{
    if s.len() == 0 {
        0
    } else {
        s[0] as nat + 256 * le_value(s.drop_first())
    }
}

pub proof fn lemma_pow256_positive(n: nat)
    ensures
        pow256(n) >= 1,
    decreases n,
{
    if n > 0 {
        lemma_pow256_positive((n - 1) as nat);
    }
}

pub proof fn lemma_pow256_mono(a: nat, b: nat)
    requires
        a <= b,
    ensures
        pow256(a) <= pow256(b),
    decreases b,
{
    if a < b {
        lemma_pow256_mono(a, (b - 1) as nat);
        lemma_pow256_positive((b - 1) as nat);
    }
}

pub proof fn lemma_pow256_values()
    ensures
        pow256(1) == 0x100,
        pow256(4) == 0x1_0000_0000,
        pow256(8) == 0x1_0000_0000_0000_0000,
        pow256(16) == 0x1_0000_0000_0000_0000_0000_0000_0000_0000,
{
    reveal_with_fuel(pow256, 17);
}

pub proof fn lemma_le_bytes_len(x: nat, n: nat)
    ensures
        le_bytes(x, n).len() == n,
    decreases n,
{
    if n > 0 {
        lemma_le_bytes_len(x / 256, (n - 1) as nat);
    }
}

/// Decoding the encoding of a value that fits gives the value back.
pub proof fn lemma_le_roundtrip(x: nat, n: nat)
    requires
        x < pow256(n),
    ensures
        le_value(le_bytes(x, n)) == x,
        le_bytes(x, n).len() == n,
    decreases n,
{
    lemma_le_bytes_len(x, n);
    if n > 0 {
        let p = pow256((n - 1) as nat);
        assert(x / 256 < p) by (nonlinear_arith)
            requires
                x < 256 * p,
        ;
        lemma_le_roundtrip(x / 256, (n - 1) as nat);
        let s = le_bytes(x, n);
        assert(s.drop_first() =~= le_bytes(x / 256, (n - 1) as nat));
        assert(x == x % 256 + 256 * (x / 256)) by (nonlinear_arith);
    }
}

/// A decoded value is below `256^len`.
pub proof fn lemma_le_value_bound(s: Seq<u8>)
    ensures
        le_value(s) < pow256(s.len()),
    decreases s.len(),
{
    if s.len() > 0 {
        lemma_le_value_bound(s.drop_first());
        let v = le_value(s.drop_first());
        let p = pow256((s.len() - 1) as nat);
        assert(s[0] as nat + 256 * v < 256 * p) by (nonlinear_arith)
            requires
                v < p,
                s[0] < 256,
        ;
    }
}

/// Encoding the decoded value of `s` gives `s` back.
pub proof fn lemma_le_value_encodes(s: Seq<u8>)
    ensures
        le_bytes(le_value(s), s.len()) == s,
    decreases s.len(),
{
    if s.len() > 0 {
        lemma_le_value_encodes(s.drop_first());
        let v = le_value(s.drop_first());
        let x = le_value(s);
        assert(x % 256 == s[0] as nat && x / 256 == v) by (nonlinear_arith)
            requires
                x == s[0] as nat + 256 * v,
                s[0] < 256,
        ;
        assert(le_bytes(x, s.len()) =~= s);
    }
}

/// Appends the `n` low-order bytes of `x`, least significant first.
pub fn put_le(out: &mut Vec<u8>, x: u128, n: usize)
    requires
        n <= 16,
    ensures
        final(out)@ == old(out)@ + le_bytes(x as nat, n as nat),
{
    let ghost start = out@;
    let mut cur = x;
    let mut i: usize = 0;
    while i < n
        invariant
            i <= n,
            out@ + le_bytes(cur as nat, (n - i) as nat) == start + le_bytes(x as nat, n as nat),
        decreases n - i,
    {
        let ghost before = out@;
        out.push((cur % 256) as u8);
        proof {
            assert(le_bytes(cur as nat, (n - i) as nat) == seq![(cur % 256) as u8] + le_bytes(
                (cur / 256) as nat,
                (n - i - 1) as nat,
            ));
            assert(out@ + le_bytes((cur / 256) as nat, (n - i - 1) as nat) =~= before + le_bytes(
                cur as nat,
                (n - i) as nat,
            ));
        }
        cur = cur / 256;
        i = i + 1;
    }
    assert(out@ =~= start + le_bytes(x as nat, n as nat));
}

/// Reads `n` bytes at `off` as a little-endian number.
pub fn get_le(bytes: &[u8], off: usize, n: usize) -> (r: u128)
    requires
        n <= 16,
        off + n <= bytes@.len(),
    ensures
        r as nat == le_value(bytes@.subrange(off as int, off + n)),
{
    let ghost sub = bytes@.subrange(off as int, off + n);
    let len = bytes.len();
    let mut acc: u128 = 0;
    let mut k: usize = n;
    proof {
        assert(sub.skip(n as int) =~= Seq::<u8>::empty());
    }
    while k > 0
        invariant
            k <= n,
            n <= 16,
            off + n <= bytes@.len(),
            len == bytes@.len(),
            sub == bytes@.subrange(off as int, off + n),
            acc as nat == le_value(sub.skip(k as int)),
        decreases k,
    {
        let ghost prev = sub.skip(k as int);
        k = k - 1;
        proof {
            lemma_le_value_bound(prev);
            lemma_pow256_mono((n - k - 1) as nat, 15);
            lemma_pow256_values();
            reveal_with_fuel(pow256, 17);
            assert(pow256(15) == 0x1_0000_0000_0000_0000_0000_0000_0000_00);
            assert(sub.skip(k as int).drop_first() =~= prev);
            assert(sub.skip(k as int)[0] == bytes@[off + k]);
        }
        acc = acc * 256 + bytes[off + k] as u128;
    }
    proof {
        assert(sub.skip(0) =~= sub);
    }
    acc
}

} // verus!
