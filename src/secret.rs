//! Fixed-length byte buffers read as little-endian unsigned integers.
use vstd::prelude::*;

verus! {

/// Number of bytes in a secret.
pub const SECRET_LEN: usize = 20;

/// `256^n`.
pub open spec fn pow256(n: nat) -> nat
    decreases n,
{
    if n == 0 {
        1
    } else {
        256 * pow256((n - 1) as nat)
    }
}

/// The unsigned integer that `s` holds, byte 0 least significant.
pub open spec fn le_value(s: Seq<u8>) -> nat
    decreases s.len(),
{
    if s.len() == 0 {
        0
    } else {
        s[0] as nat + 256 * le_value(s.drop_first())
    }
}

/// The `n` low-order base-256 digits of `v`, least significant first.
pub open spec fn le_bytes(v: nat, n: nat) -> Seq<u8>
    decreases n,
{
    if n == 0 {
        Seq::empty()
    } else {
        seq![(v % 256) as u8] + le_bytes(v / 256, (n - 1) as nat)
    }
}

/// The secret whose integer value is `v` (taken modulo `256^20`).
pub open spec fn secret_of(v: nat) -> Seq<u8> {
    le_bytes(v, SECRET_LEN as nat)
}

pub proof fn lemma_secret_of_len(v: nat)
    ensures
        secret_of(v).len() == SECRET_LEN,
{
    lemma_le_bytes_len(v, SECRET_LEN as nat);
}

pub proof fn lemma_le_bytes_len(v: nat, n: nat)
    ensures
        le_bytes(v, n).len() == n,
    decreases n,
{
    if n > 0 {
        lemma_le_bytes_len(v / 256, (n - 1) as nat);
    }
}

pub proof fn lemma_pow256_positive(n: nat)
    ensures
        pow256(n) > 0,
    decreases n,
{
    if n > 0 {
        lemma_pow256_positive((n - 1) as nat);
    }
}

pub proof fn lemma_pow256_monotonic(a: nat, b: nat)
    requires
        a <= b,
    ensures
        pow256(a) <= pow256(b),
    decreases b,
{
    if a < b {
        lemma_pow256_monotonic(a, (b - 1) as nat);
        lemma_pow256_positive((b - 1) as nat);
    }
}

/// Every value below `2^72` fits in a secret.
pub proof fn lemma_secret_range()
    ensures
        pow256(9) == 0x1_0000_0000_0000_0000_00,
        pow256(9) <= pow256(SECRET_LEN as nat),
{
    reveal_with_fuel(pow256, 10);
    lemma_pow256_monotonic(9, SECRET_LEN as nat);
}

pub proof fn lemma_le_value_bound(s: Seq<u8>)
    ensures
        le_value(s) < pow256(s.len()),
    decreases s.len(),
{
    if s.len() > 0 {
        lemma_le_value_bound(s.drop_first());
        assert(le_value(s) < pow256(s.len())) by (nonlinear_arith)
            requires
                le_value(s) == s[0] as nat + 256 * le_value(s.drop_first()),
                le_value(s.drop_first()) < pow256((s.len() - 1) as nat),
                pow256(s.len()) == 256 * pow256((s.len() - 1) as nat),
                s[0] < 256,
        ;
    }
}

/// Splitting a buffer splits its value.
pub proof fn lemma_le_value_concat(s: Seq<u8>, t: Seq<u8>)
    ensures
        le_value(s + t) == le_value(s) + pow256(s.len()) * le_value(t),
    decreases s.len(),
{
    if s.len() > 0 {
        assert((s + t).drop_first() =~= s.drop_first() + t);
        assert((s + t)[0] == s[0]);
        lemma_le_value_concat(s.drop_first(), t);
        assert(pow256(s.len()) == 256 * pow256((s.len() - 1) as nat));
        let a = le_value(s.drop_first());
        let p = pow256((s.len() - 1) as nat);
        let b = le_value(t);
        assert(256 * (a + p * b) == 256 * a + (256 * p) * b) by (nonlinear_arith);
        assert(le_value(s + t) == s[0] as nat + 256 * le_value(s.drop_first() + t));
        assert(le_value(s) == s[0] as nat + 256 * a);
        assert(pow256(s.len()) * b == (256 * p) * b);
        assert(le_value(s + t) == le_value(s) + pow256(s.len()) * b);
    } else {
        assert(s + t =~= t);
        assert(le_value(s) == 0);
        assert(pow256(0) == 1);
    }
}

/// A buffer of zeros holds zero.
pub proof fn lemma_le_value_zeros(s: Seq<u8>)
    requires
        forall|i: int| 0 <= i < s.len() ==> s[i] == 0,
    ensures
        le_value(s) == 0,
    decreases s.len(),
{
    if s.len() > 0 {
        lemma_le_value_zeros(s.drop_first());
    }
}

/// A buffer of `0xFF` bytes holds the largest value of its length.
pub proof fn lemma_le_value_all_ones(s: Seq<u8>)
    requires
        forall|i: int| 0 <= i < s.len() ==> s[i] == 255,
    ensures
        le_value(s) + 1 == pow256(s.len()),
    decreases s.len(),
{
    if s.len() > 0 {
        lemma_le_value_all_ones(s.drop_first());
    }
}

/// A buffer is the digit sequence of its own value.
pub proof fn lemma_bytes_of_value(s: Seq<u8>)
    ensures
        le_bytes(le_value(s), s.len()) == s,
    decreases s.len(),
{
    if s.len() > 0 {
        let rest = s.drop_first();
        lemma_bytes_of_value(rest);
        let v = le_value(s);
        assert(v % 256 == s[0] as nat && v / 256 == le_value(rest)) by (nonlinear_arith)
            requires
                v == s[0] as nat + 256 * le_value(rest),
                s[0] < 256,
        ;
        assert(le_bytes(v, s.len()) =~= s);
    }
}

/// Writes `value` into a zeroed secret, least significant byte first.
pub fn encode(value: u64) -> (r: Vec<u8>)
    ensures
        r@.len() == SECRET_LEN,
        le_value(r@) == value,
        r@ == secret_of(value as nat),
{
    let mut secret: Vec<u8> = vec![0u8; SECRET_LEN];
    let mut rest: u64 = value;
    let mut i: usize = 0;
    proof {
        assert(secret@.subrange(0, 0) =~= Seq::<u8>::empty());
        assert(le_value(Seq::<u8>::empty()) == 0);
        assert(pow256(0) == 1);
    }
    while rest > 0 && i < SECRET_LEN
        invariant
            i <= SECRET_LEN,
            secret@.len() == SECRET_LEN,
            le_value(secret@.subrange(0, i as int)) + pow256(i as nat) * rest == value,
            forall|j: int| i <= j < SECRET_LEN ==> secret@[j] == 0,
        decreases SECRET_LEN - i,
    {
        let digit = (rest % 256) as u8;
        let ghost prefix = secret@.subrange(0, i as int);
        secret.set(i, digit);
        proof {
            assert(secret@.subrange(0, i + 1) =~= prefix + seq![digit]);
            lemma_le_value_concat(prefix, seq![digit]);
            assert(le_value(seq![digit]) == digit as nat) by {
                assert(seq![digit].drop_first() =~= Seq::<u8>::empty());
                reveal_with_fuel(le_value, 2);
            }
            let p = pow256(i as nat);
            assert(p * (digit as nat) + (256 * p) * (rest / 256) == p * rest) by (nonlinear_arith)
                requires
                    digit as nat == rest % 256,
            ;
        }
        rest = rest / 256;
        i = i + 1;
    }
    proof {
        let s = secret@;
        assert(s =~= s.subrange(0, i as int) + s.subrange(i as int, SECRET_LEN as int));
        lemma_le_value_zeros(s.subrange(i as int, SECRET_LEN as int));
        lemma_le_value_concat(s.subrange(0, i as int), s.subrange(i as int, SECRET_LEN as int));
        if rest > 0 {
            lemma_secret_range();
            assert(pow256(SECRET_LEN as nat) * rest >= pow256(SECRET_LEN as nat)) by (nonlinear_arith)
                requires
                    rest > 0,
            ;
        }
        lemma_bytes_of_value(s);
    }
    secret
}

/// Adds one to `secret` in place, carrying from byte 0 upward; the largest
/// value wraps to zero.
pub fn increment(secret: &mut Vec<u8>)
    ensures
        final(secret)@.len() == old(secret)@.len(),
        le_value(final(secret)@) == (le_value(old(secret)@) + 1) % pow256(old(secret)@.len()),
{
    let ghost before = secret@;
    let n = secret.len();
    let mut i: usize = 0;
    while i < n
        invariant
            n == before.len(),
            before == old(secret)@,
            i <= n,
            secret@.len() == n,
            forall|j: int| 0 <= j < i ==> before[j] == 255,
            forall|j: int| 0 <= j < i ==> secret@[j] == 0,
            forall|j: int| i <= j < n ==> secret@[j] == before[j],
        decreases n - i,
    {
        if secret[i] == 255 {
            secret.set(i, 0);
            i = i + 1;
        } else {
            let b = secret[i];
            secret.set(i, b + 1);
            proof {
                let low = before.subrange(0, i as int);
                let high = before.subrange(i + 1, n as int);
                let zeros = secret@.subrange(0, i as int);
                assert forall|j: int| 0 <= j < zeros.len() implies zeros[j] == 0 by {
                    assert(zeros[j] == secret@[j]);
                }
                assert forall|j: int| 0 <= j < low.len() implies low[j] == 255 by {
                    assert(low[j] == before[j]);
                }
                assert(before =~= low + (seq![b] + high));
                assert(secret@ =~= zeros + (seq![(b + 1) as u8] + high));
                lemma_le_value_concat(low, seq![b] + high);
                lemma_le_value_concat(zeros, seq![(b + 1) as u8] + high);
                assert((seq![b] + high).drop_first() =~= high);
                assert((seq![(b + 1) as u8] + high).drop_first() =~= high);
                lemma_le_value_all_ones(low);
                lemma_le_value_zeros(zeros);
                lemma_le_value_bound(secret@);
                let p = pow256(i as nat);
                let h = le_value(high);
                assert(le_value(seq![b] + high) == b + 256 * h);
                assert(le_value(seq![(b + 1) as u8] + high) == (b + 1) + 256 * h);
                assert((p - 1) + p * (b + 256 * h) + 1 == p * ((b + 1) + 256 * h)) by (nonlinear_arith);
                assert(le_value(secret@) == le_value(before) + 1);
                vstd::arithmetic::div_mod::lemma_small_mod(
                    (le_value(before) + 1) as nat,
                    pow256(n as nat),
                );
            }
            return;
        }
    }
    proof {
        assert(before =~= before.subrange(0, n as int));
        lemma_le_value_all_ones(before);
        lemma_le_value_zeros(secret@);
        lemma_pow256_positive(n as nat);
    }
}

} // verus!
