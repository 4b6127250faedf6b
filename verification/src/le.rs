//! Little-endian encoding of unsigned integers, as molecule writes its
//! `Number` headers and its `Uint32` / `Uint64` arrays.
use vstd::prelude::*;

verus! {

/// `256` to the power `k`.
pub open spec fn pow256(k: nat) -> nat
    decreases k,
{
    if k == 0 {
        1
    } else {
        256 * pow256((k - 1) as nat)
    }
}

/// The `k` least significant bytes of `n`, least significant first.
pub open spec fn le_bytes(n: nat, k: nat) -> Seq<u8>
    decreases k,
{
    if k == 0 {
        Seq::empty()
    } else {
        seq![(n % 256) as u8] + le_bytes(n / 256, (k - 1) as nat)
    }
}

/// The number that the bytes `s` denote, least significant first.
pub open spec fn le_value(s: Seq<u8>) -> nat
    decreases s.len(),
{
    if s.len() == 0 {
        0
    } else {
        (s[0] + 256 * le_value(s.drop_first())) as nat
    }
}

pub proof fn lemma_le_bytes_len(n: nat, k: nat)
    ensures
        le_bytes(n, k).len() == k,
    decreases k,
{
    if k > 0 {
        lemma_le_bytes_len(n / 256, (k - 1) as nat);
    }
}

pub proof fn lemma_pow256_pos(k: nat)
    ensures
        pow256(k) >= 1,
    decreases k,
{
    if k > 0 {
        lemma_pow256_pos((k - 1) as nat);
    }
}

/// Reading back the bytes that `le_bytes` wrote gives the number, when it fits.
pub proof fn lemma_le_value_of_bytes(n: nat, k: nat)
    requires
        n < pow256(k),
    ensures
        le_value(le_bytes(n, k)) == n,
    decreases k,
{
    if k > 0 {
        let q = n / 256;
        let r = n % 256;
        assert(n == 256 * q + r && r < 256) by (nonlinear_arith)
            requires
                q == n / 256,
                r == n % 256,
        ;
        assert(q < pow256((k - 1) as nat)) by (nonlinear_arith)
            requires
                n == 256 * q + r,
                r >= 0,
                n < 256 * pow256((k - 1) as nat),
        ;
        lemma_le_value_of_bytes(q, (k - 1) as nat);
        let s = le_bytes(n, k);
        assert(s.drop_first() =~= le_bytes(q, (k - 1) as nat));
    }
}

/// The number that bytes denote fits, and writing it back gives the same bytes.
pub proof fn lemma_le_bytes_of_value(s: Seq<u8>)
    ensures
        le_value(s) < pow256(s.len()),
        le_bytes(le_value(s), s.len()) =~= s,
    decreases s.len(),
{
    if s.len() > 0 {
        let t = s.drop_first();
        lemma_le_bytes_of_value(t);
        let v = le_value(t);
        let b = s[0] as nat;
        let n = le_value(s);
        assert(n == b + 256 * v);
        assert(n % 256 == b && n / 256 == v) by (nonlinear_arith)
            requires
                n == b + 256 * v,
                b < 256,
        ;
        assert(n < pow256(s.len())) by (nonlinear_arith)
            requires
                n == b + 256 * v,
                b < 256,
                v < pow256(t.len()),
                pow256(s.len()) == 256 * pow256(t.len()),
        ;
        assert(le_bytes(n, s.len()) =~= seq![s[0]] + le_bytes(v, t.len()));
    }
}

pub proof fn lemma_pow256_values()
    ensures
        pow256(4) == 0x1_0000_0000,
        pow256(8) == 0x1_0000_0000_0000_0000,
{
    reveal_with_fuel(pow256, 9);
}

pub proof fn lemma_pow256_monotonic(a: nat, b: nat)
    requires
        a <= b,
    ensures
        pow256(a) <= pow256(b),
    decreases b,
{
    if a < b {
        lemma_pow256_monotonic(a, (b - 1) as nat);
        lemma_pow256_pos((b - 1) as nat);
    }
}

/// One more byte of `n` is the next digit in base 256.
pub proof fn lemma_le_bytes_snoc(n: nat, i: nat)
    ensures
        le_bytes(n, i + 1) =~= le_bytes(n, i).push(((n / pow256(i)) % 256) as u8),
    decreases i,
{
    if i == 0 {
        assert(n / 1 == n);
        assert(le_bytes(n, 1) =~= seq![(n % 256) as u8]);
    } else {
        lemma_le_bytes_snoc(n / 256, (i - 1) as nat);
        lemma_pow256_pos((i - 1) as nat);
        vstd::arithmetic::div_mod::lemma_div_denominator(n as int, 256, pow256((i - 1) as nat) as int);
        assert(le_bytes(n, i + 1) =~= seq![(n % 256) as u8] + le_bytes(n / 256, i));
    }
}

/// Only the `k` least significant bytes of a number are written.
pub proof fn lemma_le_bytes_mod(x: nat, k: nat)
    ensures
        pow256(k) > 0,
        le_bytes(x, k) == le_bytes(x % pow256(k), k),
    decreases k,
{
    lemma_pow256_pos(k);
    if k > 0 {
        let p = pow256((k - 1) as nat);
        lemma_pow256_pos((k - 1) as nat);
        let y = x % pow256(k);
        vstd::arithmetic::div_mod::lemma_mod_mod(x as int, 256, p as int);
        vstd::arithmetic::div_mod::lemma_mod_breakdown(x as int, 256, p as int);
        vstd::arithmetic::div_mod::lemma_mod_bound(x as int, 256);
        vstd::arithmetic::div_mod::lemma_mod_bound((x / 256) as int, p as int);
        vstd::arithmetic::div_mod::lemma_div_multiples_vanish_fancy(
            ((x / 256) % p) as int,
            (x % 256) as int,
            256,
        );
        assert(y / 256 == (x / 256) % p);
        assert(y % 256 == x % 256);
        lemma_le_bytes_mod(x / 256, (k - 1) as nat);
        assert(le_bytes(x, k) =~= le_bytes(y, k));
    }
}

/// Appends the `k` least significant bytes of `n` to `out`.
pub fn push_le(out: &mut Vec<u8>, n: u64, k: usize)
    requires
        k <= 8,
    ensures
        final(out)@ == old(out)@ + le_bytes(n as nat, k as nat),
{
    let mut m: u64 = n;
    let mut i: usize = 0;
    let ghost start = old(out)@;
    proof {
        assert(pow256(0) == 1);
        assert(n as nat / pow256(0) == n as nat);
        assert(start + le_bytes(n as nat, 0) =~= start);
    }
    while i < k
        invariant
            i <= k,
            k <= 8,
            m as nat == n as nat / pow256(i as nat),
            out@ == start + le_bytes(n as nat, i as nat),
        decreases k - i,
    {
        proof {
            lemma_le_bytes_snoc(n as nat, i as nat);
            lemma_pow256_pos(i as nat);
            vstd::arithmetic::div_mod::lemma_div_denominator(n as int, pow256(i as nat) as int, 256);
            assert(pow256(i as nat) * 256 == pow256((i + 1) as nat));
        }
        out.push((m % 256) as u8);
        m = m / 256;
        i = i + 1;
        proof {
            assert(out@ =~= start + le_bytes(n as nat, i as nat));
        }
    }
}

/// The number that `k` bytes of `s` from `pos` on denote.
pub fn read_le(s: &[u8], pos: usize, k: usize) -> (v: u64)
    requires
        k <= 8,
        pos + k <= s@.len(),
    ensures
        v as nat == le_value(s@.subrange(pos as int, pos + k)),
{
    let mut v: u64 = 0;
    let mut i: usize = k;
    let slen = s.len();
    while i > 0
        invariant
            slen == s@.len(),
            i <= k,
            k <= 8,
            pos + k <= s@.len(),
            v as nat == le_value(s@.subrange(pos + i, pos + k)),
        decreases i,
    {
        let ghost tail = s@.subrange(pos + i, pos + k);
        let ghost full = s@.subrange(pos + i - 1, pos + k);
        proof {
            lemma_le_bytes_of_value(tail);
            lemma_pow256_monotonic((k - i) as nat, 7);
            lemma_pow256_values();
            reveal_with_fuel(pow256, 9);
            assert(full.drop_first() =~= tail);
            assert(le_value(full) == full[0] + 256 * le_value(tail));
        }
        let b = s[pos + (i - 1)];
        assert(v * 256 + b < 0x1_0000_0000_0000_0000) by (nonlinear_arith)
            requires
                v < pow256(7),
                pow256(7) == 0x100_0000_0000_0000,
                b < 256,
        ;
        v = v * 256 + b as u64;
        i = i - 1;
    }
    proof {
        assert(s@.subrange(pos as int, pos + k) =~= s@.subrange(pos + 0, pos + k));
    }
    v
}

} // verus!
