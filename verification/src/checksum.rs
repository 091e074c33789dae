//! The Internet checksum.
//!
//! A byte string is read as a row of big-endian 16-bit words, an odd last byte
//! being the high half of a word whose low half is zero. The words are added in
//! 32 bits and the sum is folded to 16 bits with end-around carry.

use vstd::prelude::*;

verus! {

/// What the byte at index `i` contributes per unit: 256 in the high half of a
/// word, 1 in the low half.
pub open spec fn weight(i: int) -> int {
    if i % 2 == 0 {
        256
    } else {
        1
    }
}

/// The sum of the 16-bit words of `s`.
pub open spec fn word_sum(s: Seq<u8>) -> int
    decreases s.len(),
{
    if s.len() == 0 {
        0
    } else {
        word_sum(s.drop_last()) + s.last() * weight(s.len() - 1)
    }
}

/// The one's-complement reduction of `n` to 16 bits: 0 for 0, and otherwise the
/// number from 1 to 65535 that is congruent to `n` modulo 65535.
pub open spec fn folded(n: int) -> int {
    if n == 0 {
        0
    } else {
        (n - 1) % 0xFFFF + 1
    }
}

/// The sum as a 32-bit accumulator holds it.
pub open spec fn wrapped(n: int) -> int {
    n % 0x1_0000_0000
}

/// The complement of the folded sum `n`.
pub open spec fn complement(n: int) -> u16 {
    (0xFFFF - folded(wrapped(n))) as u16
}

/// The complement of the folded sum `n`, with 0 sent as 0xFFFF.
pub open spec fn complement_nonzero(n: int) -> u16 {
    if complement(n) == 0 {
        0xFFFF
    } else {
        complement(n)
    }
}

/// `s` with the two bytes at `i` and `i + 1` read as zero.
pub open spec fn blanked(s: Seq<u8>, i: int) -> Seq<u8> {
    Seq::new(s.len(), |j: int| if j == i || j == i + 1 { 0 } else { s[j] })
}

pub proof fn lemma_word_sum_bounds(s: Seq<u8>)
    ensures
        0 <= word_sum(s) <= s.len() * 65280,
    decreases s.len(),
{
    if s.len() > 0 {
        lemma_word_sum_bounds(s.drop_last());
        let w = weight(s.len() - 1);
        assert(0 <= s.last() * w <= 65280) by (nonlinear_arith)
            requires
                0 <= s.last() <= 255,
                w == 256 || w == 1,
        ;
    }
}

/// The sum of a concatenation is the sum of the parts when the first part is a
/// whole number of words.
pub proof fn lemma_word_sum_concat(a: Seq<u8>, b: Seq<u8>)
    requires
        a.len() % 2 == 0,
    ensures
        word_sum(a + b) == word_sum(a) + word_sum(b),
    decreases b.len(),
{
    if b.len() == 0 {
        assert(a + b =~= a);
    } else {
        lemma_word_sum_concat(a, b.drop_last());
        assert((a + b).drop_last() =~= a + b.drop_last());
        assert((a + b).last() == b.last());
        assert(weight((a + b).len() - 1) == weight(b.len() - 1));
    }
}

pub proof fn lemma_word_sum_pair(s: Seq<u8>)
    requires
        s.len() == 2,
    ensures
        word_sum(s) == s[0] * 256 + s[1],
{
    reveal_with_fuel(word_sum, 3);
    assert(s.drop_last().last() == s[0]);
    assert(s.drop_last().drop_last().len() == 0);
}

/// One step of the end-around carry keeps the folded value.
proof fn lemma_fold_step(n: int)
    requires
        n >= 0,
    ensures
        folded(n % 0x1_0000 + n / 0x1_0000) == folded(n),
{
    let q = n / 0x1_0000;
    let r = n % 0x1_0000;
    assert(n == q * 0x1_0000 + r);
    if n > 0 {
        assert(q + r > 0);
        assert((n - 1) - (q + r - 1) == q * 0xFFFF);
        vstd::arithmetic::div_mod::lemma_mod_multiples_vanish(q, q + r - 1, 0xFFFF);
        assert(q * 0xFFFF + (q + r - 1) == n - 1);
        assert(q * 0xFFFF == 0xFFFF * q);
    }
}

/// Adding the complement of a sum brings the folded sum to all ones.
pub proof fn lemma_complement_completes(n: int, c: u16)
    requires
        0 <= n < 0x1_0000_0000 - 0xFFFF,
        c == complement(n) || c == complement_nonzero(n),
    ensures
        folded(wrapped(n + c)) == 0xFFFF,
{
    if n == 0 {
        return ;
    }
    let f = folded(n);
    let q = (n - 1) / 0xFFFF;
    assert(n - 1 == q * 0xFFFF + (n - 1) % 0xFFFF);
    assert(n == q * 0xFFFF + f);
    assert(c == 0xFFFF - f || (f == 0xFFFF && c == 0xFFFF));
    let m = n + c - 1;
    if c == 0xFFFF - f {
        assert(m == q * 0xFFFF + 0xFFFE);
        vstd::arithmetic::div_mod::lemma_mod_multiples_vanish(q, 0xFFFE, 0xFFFF);
    } else {
        assert(m == (q + 1) * 0xFFFF + 0xFFFE);
        vstd::arithmetic::div_mod::lemma_mod_multiples_vanish(q + 1, 0xFFFE, 0xFFFF);
    }
    assert(q * 0xFFFF == 0xFFFF * q);
    assert((q + 1) * 0xFFFF == 0xFFFF * (q + 1));
}

/// Dropping high bits before an addition or after it comes to the same.
pub proof fn lemma_wrapped_add(a: int, b: int)
    ensures
        wrapped(wrapped(a) + b) == wrapped(a + b),
        wrapped(a + wrapped(b)) == wrapped(a + b),
        wrapped(wrapped(a)) == wrapped(a),
{
    vstd::arithmetic::div_mod::lemma_add_mod_noop_right(b, a, 0x1_0000_0000);
    vstd::arithmetic::div_mod::lemma_add_mod_noop_right(a, b, 0x1_0000_0000);
    vstd::arithmetic::div_mod::lemma_add_mod_noop_right(0, a, 0x1_0000_0000);
}

/// Folding a part of a sum before the addition comes to the same as folding the whole.
pub proof fn lemma_folded_add(a: int, b: int)
    requires
        0 <= a,
        0 <= b,
    ensures
        folded(folded(a) + b) == folded(a + b),
{
    if a > 0 {
        let q = (a - 1) / 0xFFFF;
        assert(a - 1 == q * 0xFFFF + (a - 1) % 0xFFFF);
        let m = folded(a) + b - 1;
        assert(a + b - 1 == 0xFFFF * q + m);
        vstd::arithmetic::div_mod::lemma_mod_multiples_vanish(q, m, 0xFFFF);
    }
}

/// Taking the complement of a sum is not disturbed by folding a part of it before.
pub proof fn lemma_complement_of_folded(a: int, b: int)
    requires
        0 <= a,
        0 <= b,
        a + b + 0xFFFF < 0x1_0000_0000,
    ensures
        0 <= folded(wrapped(a)) <= 0xFFFF,
        complement_nonzero(folded(wrapped(a)) + b) == complement_nonzero(a + b),
{
    lemma_folded_add(a, b);
}

/// Changing a byte changes the sum by the difference, times its weight.
pub proof fn lemma_word_sum_update(s: Seq<u8>, i: int, b: u8)
    requires
        0 <= i < s.len(),
    ensures
        word_sum(s.update(i, b)) == word_sum(s) + (b - s[i]) * weight(i),
    decreases s.len(),
{
    let t = s.update(i, b);
    let w = weight(s.len() - 1);
    if i == s.len() - 1 {
        assert(t.drop_last() =~= s.drop_last());
        assert(b * w == s[i] * w + (b - s[i]) * w) by (nonlinear_arith);
    } else {
        assert(t.drop_last() =~= s.drop_last().update(i, b));
        lemma_word_sum_update(s.drop_last(), i, b);
    }
}

/// A change of one byte changes the sum by less than 65535, and by something.
pub proof fn lemma_byte_change(old_byte: u8, b: u8, i: int)
    requires
        b != old_byte,
    ensures
        -0xFFFF < (b - old_byte) * weight(i) < 0xFFFF,
        (b - old_byte) * weight(i) != 0,
{
}

/// Two sums that differ by less than 65535 do not both fold to all ones.
pub proof fn lemma_change_is_seen(n: int, m: int)
    requires
        0 <= n < 0x1_0000_0000,
        0 <= m < 0x1_0000_0000,
        n != m,
        -0xFFFF < m - n < 0xFFFF,
        folded(wrapped(n)) == 0xFFFF,
    ensures
        folded(wrapped(m)) != 0xFFFF,
{
}

/// The complement that is never zero is what is missing to the next multiple of 65535.
pub proof fn lemma_complement_nonzero_missing(n: int)
    requires
        0 <= n < 0x1_0000_0000,
    ensures
        complement_nonzero(n) == 0xFFFF - n % 0xFFFF,
{
}

/// Two sums that differ by less than 65535 have different complements.
pub proof fn lemma_complements_differ(n: int, m: int)
    requires
        0 <= n < 0x1_0000_0000,
        0 <= m < 0x1_0000_0000,
        n != m,
        -0xFFFF < m - n < 0xFFFF,
    ensures
        complement_nonzero(n) != complement_nonzero(m),
{
    lemma_complement_nonzero_missing(n);
    lemma_complement_nonzero_missing(m);
}

/// Folds a 32-bit sum to 16 bits with end-around carry.
pub fn fold32(sum: u32) -> (r: u16)
    ensures
        r == folded(sum as int),
{
    let mut s: u32 = sum;
    while s / 0x1_0000 != 0
        invariant
            folded(s as int) == folded(sum as int),
        decreases s,
    {
        proof {
            lemma_fold_step(s as int);
        }
        s = s % 0x1_0000 + s / 0x1_0000;
    }
    s as u16
}

/// The one's complement of the folded sum.
pub fn fold_complement(sum: u32) -> (r: u16)
    ensures
        r == complement(sum as int),
{
    let f = fold32(sum);
    0xFFFF - f
}

/// The one's complement of the folded sum, with 0 sent as 0xFFFF.
pub fn fold_complement_nonzero(sum: u32) -> (r: u16)
    ensures
        r == complement_nonzero(sum as int),
        r != 0,
{
    let r = fold_complement(sum);
    if r == 0 {
        0xFFFF
    } else {
        r
    }
}

/// Adds `n` to a 32-bit sum, dropping what does not fit.
pub fn sum_add(sum: u32, n: u32) -> (r: u32)
    ensures
        r == wrapped(sum + n),
{
    sum.wrapping_add(n)
}

/// Adds the 16-bit words of `data` to a running 32-bit sum.
pub fn checksum_add(sum: &mut u32, data: &[u8])
    ensures
        *final(sum) == wrapped(*old(sum) + word_sum(data@)),
{
    let mut i: usize = 0;
    let n: usize = data.len();
    while i < n
        invariant
            n == data@.len(),
            i <= n,
            i % 2 == 0 || i == n,
            *sum == wrapped(*old(sum) + word_sum(data@.take(i as int))),
        decreases n - i,
    {
        if n - i == 1 {
            let word: u32 = data[i] as u32 * 256;
            proof {
                assert(data@.take(i + 1).drop_last() =~= data@.take(i as int));
            }
            *sum = sum_add(*sum, word);
            i = n;
        } else {
            let word: u32 = data[i] as u32 * 256 + data[i + 1] as u32;
            proof {
                let pair = data@.subrange(i as int, i + 2);
                assert(data@.take(i + 2) =~= data@.take(i as int) + pair);
                lemma_word_sum_concat(data@.take(i as int), pair);
                lemma_word_sum_pair(pair);
            }
            *sum = sum_add(*sum, word);
            i = i + 2;
        }
    }
    assert(data@.take(n as int) =~= data@);
}

} // verus!
