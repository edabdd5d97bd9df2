//! Byte strings: comparison, concatenation and big-endian numbers.
use vstd::arithmetic::div_mod::lemma_div_denominator;
use vstd::arithmetic::power::{lemma_pow_positive, pow};
use vstd::prelude::*;

verus! {

/// 256 to the power `len`.
pub open spec fn pow256(len: nat) -> nat
    decreases len,
{
    if len == 0 {
        1
    } else {
        256 * pow256((len - 1) as nat)
    }
}

/// The number that `s` writes in base 256, most significant digit first.
pub open spec fn be_value(s: Seq<u8>) -> nat
    decreases s.len(),
{
    if s.len() == 0 {
        0
    } else {
        be_value(s.drop_last()) * 256 + s.last() as nat
    }
}

/// The last `len` digits of `n` in base 256, most significant digit first.
pub open spec fn be_digits(n: nat, len: nat) -> Seq<u8>
    decreases len,
{
    if len == 0 {
        Seq::empty()
    } else {
        be_digits(n / 256, (len - 1) as nat).push((n % 256) as u8)
    }
}

/// A number of `len` digits is less than 256 to the power `len`.
pub proof fn lemma_be_value_bound(s: Seq<u8>)
    ensures
        be_value(s) < pow256(s.len()),
    decreases s.len(),
{
    if s.len() > 0 {
        lemma_be_value_bound(s.drop_last());
    }
}

/// Writing a number that fits and reading it back gives the number.
pub proof fn lemma_be_digits_value(n: nat, len: nat)
    requires
        n < pow256(len),
    ensures
        be_digits(n, len).len() == len,
        be_value(be_digits(n, len)) == n,
    decreases len,
{
    if len > 0 {
        lemma_be_digits_value(n / 256, (len - 1) as nat);
        assert(be_digits(n, len).drop_last() =~= be_digits(n / 256, (len - 1) as nat));
    }
}

/// Reading a number and writing it with as many digits gives the digits.
pub proof fn lemma_be_value_digits(s: Seq<u8>)
    ensures
        be_digits(be_value(s), s.len()) == s,
    decreases s.len(),
{
    if s.len() > 0 {
        lemma_be_value_digits(s.drop_last());
        assert(be_digits(be_value(s), s.len()) =~= s);
    }
}

/// Eight digits hold every `u64`.
pub proof fn lemma_pow256_u64()
    ensures
        pow256(8) == u64::MAX + 1,
{
    reveal_with_fuel(pow256, 9);
}

/// Appends the last `len` base-256 digits of `n` to `out`.
pub fn push_be(out: &mut Vec<u8>, n: u64, len: usize)
    ensures
        final(out)@ == old(out)@ + be_digits(n as nat, len as nat),
    decreases len,
{
    if len > 0 {
        push_be(out, n / 256, len - 1);
        out.push((n % 256) as u8);
    }
}

/// Reads a number of at most eight base-256 digits.
pub fn read_be(s: &[u8]) -> (n: u64)
    requires
        s@.len() <= 8,
    ensures
        n == be_value(s@),
{
    let mut n: u64 = 0;
    let mut i: usize = 0;
    while i < s.len()
        invariant
            i <= s@.len() <= 8,
            n == be_value(s@.take(i as int)),
        decreases s@.len() - i,
    {
        proof {
            assert(s@.take(i + 1).drop_last() =~= s@.take(i as int));
            lemma_be_value_bound(s@.take(i + 1));
            reveal_with_fuel(pow256, 9);
        }
        n = n * 256 + s[i] as u64;
        i = i + 1;
    }
    proof {
        assert(s@.take(i as int) =~= s@);
    }
    n
}

/// Whether two byte strings are the same.
pub fn same_bytes(a: &[u8], b: &[u8]) -> (same: bool)
    ensures
        same == (a@ == b@),
{
    if a.len() != b.len() {
        return false;
    }
    let mut i: usize = 0;
    while i < a.len()
        invariant
            i <= a@.len(),
            a@.len() == b@.len(),
            forall|k: int| 0 <= k < i ==> a@[k] == b@[k],
        decreases a@.len() - i,
    {
        if a[i] != b[i] {
            return false;
        }
        i = i + 1;
    }
    proof {
        assert(a@ =~= b@);
    }
    true
}

/// Appends `tail` to `out`.
pub fn push_all(out: &mut Vec<u8>, tail: &[u8])
    ensures
        final(out)@ == old(out)@ + tail@,
{
    out.extend_from_slice(tail);
    proof {
        assert(out@ =~= old(out)@ + tail@);
    }
}

/// Each digit of a number stands for a power of 256, the highest power first: digit `i`
/// of `len` is the number divided by 256 to the power of the digits behind it, modulo 256.
pub proof fn law_be_digits_are_powers(n: nat, len: nat)
    ensures
        be_digits(n, len).len() == len,
        forall|i: int|
            0 <= i < len ==> #[trigger] be_digits(n, len)[i] as int == (n as int / pow(
                256,
                (len - 1 - i) as nat,
            )) % 256,
    decreases len,
{
    reveal(pow);
    if len > 0 {
        let shorter = (len - 1) as nat;
        law_be_digits_are_powers(n / 256, shorter);
        assert forall|i: int| 0 <= i < len implies #[trigger] be_digits(n, len)[i] as int == (
        n as int / pow(256, (len - 1 - i) as nat)) % 256 by {
            if i < shorter {
                let behind = (shorter - 1 - i) as nat;
                assert(be_digits(n, len)[i] == be_digits(n / 256, shorter)[i]);
                lemma_pow_positive(256, behind);
                lemma_div_denominator(n as int, 256, pow(256, behind));
                assert(pow(256, (len - 1 - i) as nat) == 256 * pow(256, behind));
            } else {
                assert(pow(256, 0) == 1);
            }
        }
    }
}

/// A digit in front of a number adds that digit times the power of 256 that belongs to
/// its place; no digits are zero.
pub proof fn law_be_value_is_powers(b: u8, s: Seq<u8>)
    ensures
        be_value(Seq::empty()) == 0,
        be_value(seq![b] + s) == b * pow(256, s.len()) + be_value(s),
    decreases s.len(),
{
    reveal(pow);
    let whole = seq![b] + s;
    if s.len() > 0 {
        law_be_value_is_powers(b, s.drop_last());
        assert(whole.drop_last() =~= seq![b] + s.drop_last());
        let p = pow(256, (s.len() - 1) as nat);
        assert(pow(256, s.len()) == 256 * p);
        assert((b * p + be_value(s.drop_last())) * 256 == b * (256 * p) + be_value(s.drop_last())
            * 256) by (nonlinear_arith);
        assert(be_value(s) == be_value(s.drop_last()) * 256 + s.last() as nat);
    } else {
        assert(whole.drop_last() =~= Seq::empty());
        assert(pow(256, 0) == 1);
        assert(be_value(whole.drop_last()) == 0);
    }
}

} // verus!
