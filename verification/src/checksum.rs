//! The Internet checksum (RFC 1071): the 16-bit one's complement of the one's complement sum of
//! the data taken as big-endian 16-bit words.

use vstd::prelude::*;

verus! {

/// The sum of the first `k` big-endian 16-bit words of `s`, as a plain integer.
pub open spec fn pair_sum(s: Seq<u8>, k: int) -> int
    decreases k,
{
    if k <= 0 {
        0
    } else {
        pair_sum(s, k - 1) + s[2 * (k - 1)] as int * 256 + s[2 * (k - 1) + 1] as int
    }
}

/// The contribution of a trailing odd byte, taken as the high byte of a 16-bit word.
pub open spec fn odd_part(s: Seq<u8>) -> int {
    if s.len() % 2 == 1 {
        s[s.len() - 1] as int * 256
    } else {
        0
    }
}

/// The plain integer sum of all 16-bit words of `s` (an odd trailing byte padded with zero).
pub open spec fn word_sum(s: Seq<u8>) -> int {
    pair_sum(s, (s.len() / 2) as int) + odd_part(s)
}

/// The one's complement (end-around carry) reduction of a non-negative sum into 16 bits:
/// 0 stays 0, any other value maps to the unique value in 1..=0xFFFF congruent to it mod 0xFFFF.
pub open spec fn ones_complement_fold(x: int) -> int {
    if x <= 0 {
        0
    } else {
        (x - 1) % 65535 + 1
    }
}

/// The Internet checksum of `s`.
pub open spec fn internet_checksum(s: Seq<u8>) -> u16 {
    (65535 - ones_complement_fold(word_sum(s))) as u16
}

/// The lowest accumulator value that would overflow if `u16::MAX` was added to it.
const WOULD_OVERFLOW: u32 = 0xFFFF_0001;

proof fn lemma_pair_sum_nonneg(s: Seq<u8>, k: int)
    ensures
        pair_sum(s, k) >= 0,
    decreases k,
{
    if k > 0 {
        lemma_pair_sum_nonneg(s, k - 1);
    }
}

/// Folds the high half of a 32-bit accumulator back into the low half one time.
fn one_carry_fold(x: u32) -> (r: u32)
    ensures
        r == x % 65536 + x / 65536,
        r as int % 65535 == x as int % 65535,
        r == 0 <==> x == 0,
{
    assert(x & 0xFFFF == x % 65536 && x >> 16 == x / 65536) by (bit_vector);
    let r = (x & 0xFFFF) + (x >> 16);
    proof {
        let q = x as int / 65536;
        let lo = x as int % 65536;
        assert(x as int == 65535 * q + (q + lo));
        vstd::arithmetic::div_mod::lemma_mod_multiples_vanish(q, q + lo, 65535);
    }
    r
}

proof fn lemma_fold_unique(f: int, t: int)
    requires
        0 <= f <= 65535,
        t >= 0,
        f % 65535 == t % 65535,
        f == 0 <==> t == 0,
    ensures
        f == ones_complement_fold(t),
{
    if t > 0 {
        assert(((t - 1) % 65535 + 1) % 65535 == t % 65535) by {
            vstd::arithmetic::div_mod::lemma_add_mod_noop(t - 1, 1, 65535);
        }
    }
}

/// Computes the Internet checksum from data of arbitrary length (16-bit one's complement of the
/// one's complement sum, RFC 1071).
pub fn calculate(data: &[u8]) -> (checksum: u16)
    ensures
        checksum == internet_checksum(data@),
{
    let n = data.len();
    let pairs = n / 2;
    // Treat an odd byte as the high byte of a 16-bit word
    let mut sum: u32 = if n % 2 == 1 {
        data[n - 1] as u32 * 256
    } else {
        0
    };
    let ghost odd = odd_part(data@);
    let mut i: usize = 0;
    // Sum 16-bit words using a 32-bit accumulator to accumulate carries in bits 16-31
    while i < pairs
        invariant
            n == data@.len(),
            pairs == n / 2,
            i <= pairs,
            odd == odd_part(data@),
            odd >= 0,
            sum < WOULD_OVERFLOW,
            sum as int % 65535 == (pair_sum(data@, i as int) + odd) % 65535,
            sum == 0 <==> pair_sum(data@, i as int) + odd == 0,
        decreases pairs - i,
    {
        proof {
            lemma_pair_sum_nonneg(data@, i as int);
        }
        let word = data[2 * i] as u32 * 256 + data[2 * i + 1] as u32;
        let next = sum + word;
        // Perform an intermediate fold if the accumulator would overflow on the next iteration
        sum = if next < WOULD_OVERFLOW {
            next
        } else {
            one_carry_fold(next)
        };
        i = i + 1;
        proof {
            vstd::arithmetic::div_mod::lemma_add_mod_noop(
                pair_sum(data@, i - 1) + odd,
                word as int,
                65535,
            );
        }
    }
    proof {
        lemma_pair_sum_nonneg(data@, pairs as int);
    }
    // Fold 32 bits into 16; two folds always suffice
    let folded = one_carry_fold(one_carry_fold(sum));
    assert(folded <= 0xFFFF);
    proof {
        lemma_fold_unique(folded as int, word_sum(data@));
    }
    let low = folded as u16;
    assert(!low == 0xFFFF - low) by (bit_vector);
    !low
}


proof fn lemma_pair_sum_update(s: Seq<u8>, k: int, hi: u8, lo: u8, m: int)
    requires
        0 <= k,
        k % 2 == 0,
        k + 1 < s.len(),
        2 * m <= s.len(),
    ensures
        pair_sum(s.update(k, hi).update(k + 1, lo), m) == pair_sum(s, m) + (if k + 1 < 2 * m {
            hi as int * 256 + lo as int - (s[k] as int * 256 + s[k + 1] as int)
        } else {
            0
        }),
    decreases m,
{
    if m > 0 {
        lemma_pair_sum_update(s, k, hi, lo, m - 1);
    }
}

proof fn lemma_pair_sum_concat(a: Seq<u8>, b: Seq<u8>, m: int)
    requires
        a.len() % 2 == 0,
        0 <= m,
        2 * m <= a.len() + b.len(),
    ensures
        pair_sum(a + b, m) == if 2 * m <= a.len() {
            pair_sum(a, m)
        } else {
            pair_sum(a, (a.len() / 2) as int) + pair_sum(b, m - a.len() / 2)
        },
    decreases m,
{
    if m > 0 {
        lemma_pair_sum_concat(a, b, m - 1);
        if 2 * m > a.len() {
            let j = m - a.len() / 2;
            assert((a + b)[2 * (m - 1)] == b[2 * (j - 1)]);
            assert((a + b)[2 * (m - 1) + 1] == b[2 * (j - 1) + 1]);
            assert(pair_sum(b, j) == pair_sum(b, j - 1) + b[2 * (j - 1)] as int * 256 + b[2 * (j
                - 1) + 1] as int);
        } else {
            assert((a + b)[2 * (m - 1)] == a[2 * (m - 1)]);
            assert((a + b)[2 * (m - 1) + 1] == a[2 * (m - 1) + 1]);
        }
    }
}

/// The plain word sum of an even-length block followed by anything is the sum of the two parts'
/// word sums.
pub proof fn lemma_word_sum_concat(a: Seq<u8>, b: Seq<u8>)
    requires
        a.len() % 2 == 0,
    ensures
        word_sum(a + b) == word_sum(a) + word_sum(b),
{
    lemma_pair_sum_concat(a, b, ((a.len() + b.len()) / 2) as int);
    if b.len() % 2 == 1 {
        assert((a + b)[(a + b).len() - 1] == b[b.len() - 1]);
    }
}

/// Writing the checksum of some data (computed while the checksum field holds zero) into that
/// 16-bit field, big-endian and at an even offset, makes the checksum of the result zero. This is
/// how a receiver validates what a sender produced.
pub proof fn law_checksum_roundtrip(data: Seq<u8>, k: int)
    requires
        0 <= k,
        k % 2 == 0,
        k + 1 < data.len(),
        data[k] == 0,
        data[k + 1] == 0,
    ensures
        internet_checksum(
            data.update(k, (internet_checksum(data) / 256) as u8).update(
                k + 1,
                (internet_checksum(data) % 256) as u8,
            ),
        ) == 0,
{
    let c = internet_checksum(data);
    let hi = (c / 256) as u8;
    let lo = (c % 256) as u8;
    let d2 = data.update(k, hi).update(k + 1, lo);
    let m = (data.len() / 2) as int;
    lemma_pair_sum_update(data, k, hi, lo, m);
    assert(odd_part(d2) == odd_part(data));
    lemma_pair_sum_nonneg(data, m);
    let t = word_sum(data);
    assert(word_sum(d2) == t + c);
    let f = ones_complement_fold(t);
    assert(c == 65535 - f);
    if t > 0 {
        assert(((t - 1) % 65535 + 1) % 65535 == t % 65535) by {
            vstd::arithmetic::div_mod::lemma_add_mod_noop(t - 1, 1, 65535);
        }
        assert((t + 65535 - f) % 65535 == 0) by {
            vstd::arithmetic::div_mod::lemma_mod_equivalence(t, f, 65535);
            vstd::arithmetic::div_mod::lemma_mod_multiples_vanish(1, t - f, 65535);
        }
        assert((t + 65535 - f - 1) % 65535 == 65534) by {
            vstd::arithmetic::div_mod::lemma_add_mod_noop(t + 65535 - f, -1, 65535);
        }
    }
}

/// When the checksum of some data (computed while the checksum field holds zero) is zero, writing
/// its one's complement twin 0xFFFF into that field also makes the checksum of the result zero.
/// Protocols where a zero field means that no checksum was computed transmit it that way.
pub proof fn law_checksum_roundtrip_all_ones(data: Seq<u8>, k: int)
    requires
        0 <= k,
        k % 2 == 0,
        k + 1 < data.len(),
        data[k] == 0,
        data[k + 1] == 0,
        internet_checksum(data) == 0,
    ensures
        internet_checksum(data.update(k, 0xFFu8).update(k + 1, 0xFFu8)) == 0,
{
    let d2 = data.update(k, 0xFFu8).update(k + 1, 0xFFu8);
    let m = (data.len() / 2) as int;
    lemma_pair_sum_update(data, k, 0xFFu8, 0xFFu8, m);
    assert(odd_part(d2) == odd_part(data));
    lemma_pair_sum_nonneg(data, m);
    let t = word_sum(data);
    assert(word_sum(d2) == t + 65535);
    assert(ones_complement_fold(t) == 65535);
    assert(t > 0);
    assert((t - 1 + 65535) % 65535 == (t - 1) % 65535) by {
        vstd::arithmetic::div_mod::lemma_mod_multiples_vanish(1, t - 1, 65535);
    }
}

/// Reordering even-length blocks of data does not change its checksum, because the checksum
/// depends only on the sum of the 16-bit words.
pub proof fn law_checksum_block_order(a: Seq<u8>, b: Seq<u8>)
    requires
        a.len() % 2 == 0,
        b.len() % 2 == 0,
    ensures
        internet_checksum(a + b) == internet_checksum(b + a),
{
    lemma_word_sum_concat(a, b);
    lemma_word_sum_concat(b, a);
}

/// The big-endian 16-bit words of `s`, in order (a trailing odd byte is not a whole word).
pub open spec fn words(s: Seq<u8>) -> Seq<int> {
    Seq::new((s.len() / 2) as nat, |i: int| s[2 * i] as int * 256 + s[2 * i + 1] as int)
}

/// Adds one word to a running sum.
pub open spec fn add_word(acc: int, w: int) -> int {
    acc + w
}

proof fn lemma_pair_sum_is_fold(s: Seq<u8>, k: int)
    requires
        0 <= k <= s.len() / 2,
    ensures
        pair_sum(s, k) == words(s).take(k).fold_left(0, |acc: int, w: int| add_word(acc, w)),
    decreases k,
{
    if k > 0 {
        lemma_pair_sum_is_fold(s, k - 1);
        assert(words(s).take(k).drop_last() =~= words(s).take(k - 1));
    }
}

/// The checksum of even-length data is the same for every order of its 16-bit words: any
/// permutation of the words of `a` that gives `b` leaves the checksum unchanged.
pub proof fn law_checksum_word_permutation(a: Seq<u8>, b: Seq<u8>)
    requires
        a.len() % 2 == 0,
        b.len() % 2 == 0,
        words(a).to_multiset() == words(b).to_multiset(),
    ensures
        internet_checksum(a) == internet_checksum(b),
{
    let f = |acc: int, w: int| add_word(acc, w);
    assert(vstd::seq_lib::commutative_foldl(f));
    vstd::seq_lib::lemma_fold_left_permutation(words(a), words(b), f, 0);
    lemma_pair_sum_is_fold(a, (a.len() / 2) as int);
    lemma_pair_sum_is_fold(b, (b.len() / 2) as int);
    assert(words(a).take((a.len() / 2) as int) =~= words(a));
    assert(words(b).take((b.len() / 2) as int) =~= words(b));
}

} // verus!
