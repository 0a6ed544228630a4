//! The Internet checksum (RFC 1071), as ICMP (RFC 792) uses it.

use vstd::prelude::*;
use crate::netorder::{be_high, be_low};

verus! {

/// Sum of the 16-bit big-endian words of `s`. A lone last byte counts as the
/// high half of a word whose low half is zero.
pub open spec fn word_sum(s: Seq<u8>) -> nat
    decreases s.len(),
{
    if s.len() == 0 {
        0
    } else if s.len() == 1 {
        (s[0] as nat) * 256
    } else {
        (s[0] as nat) * 256 + (s[1] as nat) + word_sum(s.subrange(2, s.len() as int))
    }
}

/// One's-complement reduction of a sum to 16 bits (end-around carry):
/// zero stays zero, any other value becomes the number in `1..=0xffff`
/// congruent to it modulo `0xffff`.
pub open spec fn fold16(n: nat) -> nat {
    if n == 0 {
        0
    } else {
        ((n - 1) as nat % 65535) + 1
    }
}

/// The Internet checksum of `s`: the one's complement of the one's-complement
/// sum of its 16-bit words.
pub open spec fn spec_checksum(s: Seq<u8>) -> u16 {
    (65535 - fold16(word_sum(s))) as u16
}

proof fn lemma_word_sum_step(s: Seq<u8>, i: int)
    requires
        0 <= i,
        i + 2 <= s.len(),
    ensures
        word_sum(s.subrange(i, s.len() as int)) == (s[i] as nat) * 256 + (s[i + 1] as nat)
            + word_sum(s.subrange(i + 2, s.len() as int)),
{
    let t = s.subrange(i, s.len() as int);
    assert(t.subrange(2, t.len() as int) =~= s.subrange(i + 2, s.len() as int));
}

proof fn lemma_fold_value(sum: nat, total: nat)
    requires
        sum <= 65535,
        sum % 65535 == total % 65535,
        (sum == 0) == (total == 0),
    ensures
        fold16(total) == sum,
{
    if total > 0 {
        assert(((total - 1) as nat % 65535) + 1 == sum) by (nonlinear_arith)
            requires
                sum <= 65535,
                sum % 65535 == total % 65535,
                sum > 0,
                total > 0,
        {
            vstd::arithmetic::div_mod::lemma_fundamental_div_mod(total as int, 65535);
            vstd::arithmetic::div_mod::lemma_fundamental_div_mod((total - 1) as int, 65535);
            vstd::arithmetic::div_mod::lemma_fundamental_div_mod(sum as int, 65535);
        }
    }
}

/// Writing the bytes `hi`, `lo` over the word at the even offset `at` changes
/// the word sum by the difference of the two words.
pub proof fn lemma_word_sum_update(s: Seq<u8>, at: int, hi: u8, lo: u8)
    requires
        0 <= at,
        at + 1 < s.len(),
        at % 2 == 0,
    ensures
        word_sum(s.update(at, hi).update(at + 1, lo)) + (s[at] as nat) * 256 + (s[at + 1] as nat)
            == word_sum(s) + (hi as nat) * 256 + (lo as nat),
    decreases at,
{
    let t = s.update(at, hi).update(at + 1, lo);
    if at == 0 {
        assert(t.subrange(2, t.len() as int) =~= s.subrange(2, s.len() as int));
    } else {
        let s2 = s.subrange(2, s.len() as int);
        let t2 = t.subrange(2, t.len() as int);
        lemma_word_sum_update(s2, at - 2, hi, lo);
        assert(t2 =~= s2.update(at - 2, hi).update(at - 1, lo));
    }
}

proof fn lemma_fold_complement(w: nat)
    ensures
        fold16(w + (65535 - fold16(w)) as nat) == 65535,
{
    if w > 0 {
        let f = fold16(w);
        let w2 = (w + (65535 - f)) as nat;
        assert(((w2 - 1) as nat % 65535) == 65534) by (nonlinear_arith)
            requires
                w > 0,
                f == ((w - 1) as nat % 65535) + 1,
                w2 == w + 65535 - f,
        {
            vstd::arithmetic::div_mod::lemma_fundamental_div_mod((w - 1) as int, 65535);
            vstd::arithmetic::div_mod::lemma_fundamental_div_mod((w2 - 1) as int, 65535);
        }
    }
}

/// The checksum field law: where a packet's 16-bit checksum field (at an even
/// offset) holds zero, writing the checksum of the packet into that field in
/// network byte order gives a packet whose checksum is zero, so that
/// verification accepts it.
pub proof fn lemma_checksum_field_verifies(s: Seq<u8>, at: int)
    requires
        0 <= at,
        at + 1 < s.len(),
        at % 2 == 0,
        s[at] == 0,
        s[at + 1] == 0,
    ensures
        spec_checksum(
            s.update(at, be_high(spec_checksum(s))).update(at + 1, be_low(spec_checksum(s))),
        ) == 0,
{
    let c = spec_checksum(s);
    lemma_word_sum_update(s, at, be_high(c), be_low(c));
    assert((be_high(c) as nat) * 256 + (be_low(c) as nat) == c as nat);
    lemma_fold_complement(word_sum(s));
}

/// Tells whether the word sum of `data` fits the 32-bit accumulator that
/// [`calculate`] and [`verify`] use, that is whether they can be called on it.
pub fn sum_fits(data: &[u8]) -> (r: bool)
    ensures
        r == (word_sum(data@) <= u32::MAX),
{
    let mut sum: u64 = 0;
    let mut i: usize = 0;
    proof {
        assert(data@.subrange(0, data@.len() as int) =~= data@);
    }
    while data.len() - i >= 2
        invariant
            i <= data.len(),
            sum <= u32::MAX,
            sum + word_sum(data@.subrange(i as int, data@.len() as int)) == word_sum(data@),
        decreases data.len() - i,
    {
        proof {
            lemma_word_sum_step(data@, i as int);
        }
        let word: u64 = (data[i] as u64) * 256 + (data[i + 1] as u64);
        sum = sum + word;
        if sum > 0xffff_ffff {
            return false;
        }
        i = i + 2;
    }
    if i < data.len() {
        assert(data@.subrange(i as int, data@.len() as int).len() == 1);
        sum = sum + (data[i] as u64) * 256;
    } else {
        assert(data@.subrange(i as int, data@.len() as int).len() == 0);
    }
    sum <= 0xffff_ffff
}

/// What a zero checksum means: the data verifies exactly when the sum of its
/// words is a nonzero multiple of `0xffff` (a one's-complement sum of all ones).
pub proof fn lemma_checksum_zero_iff(s: Seq<u8>)
    ensures
        (spec_checksum(s) == 0) <==> (word_sum(s) > 0 && word_sum(s) % 65535 == 0),
{
    let w = word_sum(s);
    if w > 0 {
        assert((((w - 1) as nat % 65535) + 1 == 65535) <==> (w % 65535 == 0)) by (nonlinear_arith)
            requires
                w > 0,
        {
            vstd::arithmetic::div_mod::lemma_fundamental_div_mod((w - 1) as int, 65535);
            vstd::arithmetic::div_mod::lemma_fundamental_div_mod(w as int, 65535);
        }
    }
}

/// Padding data of odd length with a zero byte does not change its word sum,
/// hence its checksum: a lone last byte counts as the high half of a word.
pub proof fn lemma_odd_padding(s: Seq<u8>)
    requires
        s.len() % 2 == 1,
    ensures
        word_sum(s.push(0)) == word_sum(s),
        spec_checksum(s.push(0)) == spec_checksum(s),
    decreases s.len(),
{
    let t = s.push(0);
    assert(t.len() >= 2 && t[0] == s[0]);
    if s.len() > 1 {
        let s2 = s.subrange(2, s.len() as int);
        lemma_odd_padding(s2);
        assert(t[1] == s[1]);
        assert(t.subrange(2, t.len() as int) =~= s2.push(0));
        assert(word_sum(t) == (s[0] as nat) * 256 + (s[1] as nat) + word_sum(s2.push(0)));
        assert(word_sum(s) == (s[0] as nat) * 256 + (s[1] as nat) + word_sum(s2));
    } else {
        assert(t[1] == 0);
        assert(t.subrange(2, t.len() as int) =~= Seq::<u8>::empty());
        assert(word_sum(t) == (s[0] as nat) * 256 + word_sum(Seq::<u8>::empty()));
    }
}

/// The word sum of two bytes is their big-endian value, of one byte its value
/// times 256, and the word sum of data split after an even number of bytes
/// is the sum of the word sums of the parts.
pub proof fn lemma_word_sum_laws(a: u8, b: u8, s1: Seq<u8>, s2: Seq<u8>)
    requires
        s1.len() % 2 == 0,
    ensures
        word_sum(Seq::<u8>::empty()) == 0,
        word_sum(seq![a]) == a * 256,
        word_sum(seq![a, b]) == a * 256 + b,
        word_sum(s1 + s2) == word_sum(s1) + word_sum(s2),
    decreases s1.len(),
{
    let ab = seq![a, b];
    assert(ab.subrange(2, 2) =~= Seq::<u8>::empty());
    assert(ab.len() == 2 && ab[0] == a && ab[1] == b);
    assert(word_sum(ab) == a * 256 + b + word_sum(ab.subrange(2, 2)));
    if s1.len() > 0 {
        let t = s1 + s2;
        let r1 = s1.subrange(2, s1.len() as int);
        lemma_word_sum_laws(a, b, r1, s2);
        assert(t.subrange(2, t.len() as int) =~= r1 + s2);
        assert(t[0] == s1[0] && t[1] == s1[1]);
    } else {
        assert(s1 + s2 =~= s2);
    }
}

/// What the checksum is: `0xffff - f`, where `f` is the one's-complement sum,
/// the number in `0..=0xffff` that is congruent to the word sum modulo
/// `0xffff` and is zero exactly when the word sum is.
pub proof fn lemma_checksum_characterization(s: Seq<u8>)
    ensures
        0 <= 65535 - spec_checksum(s) <= 65535,
        (65535 - spec_checksum(s)) % 65535 == word_sum(s) % 65535,
        (spec_checksum(s) == 65535) <==> (word_sum(s) == 0),
{
    let w = word_sum(s);
    if w > 0 {
        assert((((w - 1) as nat % 65535) + 1) % 65535 == w % 65535) by (nonlinear_arith)
            requires
                w > 0,
        {
            vstd::arithmetic::div_mod::lemma_fundamental_div_mod((w - 1) as int, 65535);
            vstd::arithmetic::div_mod::lemma_fundamental_div_mod(w as int, 65535);
        }
    }
}

/// Computes the Internet checksum of `data`.
///
/// The words of `data` are summed in a 32-bit accumulator, so `data` must be
/// small enough for that sum to fit.
pub fn calculate(data: &[u8]) -> (r: u16)
    requires
        word_sum(data@) <= u32::MAX,
    ensures
        r == spec_checksum(data@),
{
    let mut sum: u32 = 0;
    let mut i: usize = 0;
    proof {
        assert(data@.subrange(0, data@.len() as int) =~= data@);
    }
    while data.len() - i >= 2
        invariant
            i <= data.len(),
            sum + word_sum(data@.subrange(i as int, data@.len() as int)) == word_sum(data@),
            word_sum(data@) <= u32::MAX,
        decreases data.len() - i,
    {
        proof {
            lemma_word_sum_step(data@, i as int);
        }
        let word: u16 = (data[i] as u16) * 256 + (data[i + 1] as u16);
        sum = sum + word as u32;
        i = i + 2;
    }
    if i < data.len() {
        let b: u8 = data[i];
        assert((b as u32) << 8u32 == (b as u32) * 256) by (bit_vector);
        assert(data@.subrange(i as int, data@.len() as int).len() == 1);
        sum = sum + ((b as u32) << 8u32);
    } else {
        assert(data@.subrange(i as int, data@.len() as int).len() == 0);
    }
    let ghost total: nat = word_sum(data@);
    assert(sum == total);
    while (sum >> 16u32) != 0
        invariant
            sum as nat % 65535 == total % 65535,
            (sum == 0) == (total == 0),
        decreases sum,
    {
        let ghost prev: u32 = sum;
        let hi: u32 = sum >> 16u32;
        let lo: u32 = sum & 0xffffu32;
        assert(prev == hi * 65536 + lo && lo <= 0xffff && hi <= 0xffff) by (bit_vector)
            requires
                hi == prev >> 16u32,
                lo == prev & 0xffffu32,
        ;
        sum = lo + hi;
        proof {
            vstd::arithmetic::div_mod::lemma_mod_multiples_vanish(hi as int, sum as int, 65535);
            assert(prev as int == 65535 * (hi as int) + sum as int);
        }
    }
    assert(sum <= 0xffff) by (bit_vector)
        requires
            (sum >> 16u32) == 0,
    ;
    proof {
        lemma_fold_value(sum as nat, total);
    }
    assert((!sum) as u16 == (0xffff - sum) as u16) by (bit_vector)
        requires
            sum <= 0xffff,
    ;
    !sum as u16
}

/// Checks the Internet checksum of `data`: a packet whose checksum field holds
/// the checksum of the rest sums to zero.
pub fn verify(data: &[u8]) -> (r: bool)
    requires
        word_sum(data@) <= u32::MAX,
    ensures
        r == (spec_checksum(data@) == 0),
{
    calculate(data) == 0
}

} // verus!
