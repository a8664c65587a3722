//! The ICMP (internet) checksum: the buffer is cut into 16-bit big-endian
//! words (an odd trailing byte acts as the high byte of a zero-padded word),
//! the words are summed with end-around carry, and the sum is complemented.

use vstd::prelude::*;
use vstd::arithmetic::div_mod::{lemma_fundamental_div_mod, lemma_mod_multiples_vanish};

verus! {

/// The 16-bit big-endian words of a byte sequence, as unbounded integers.
/// An odd trailing byte is the high byte of a zero-padded final word.
pub open spec fn spec_words(data: Seq<u8>) -> Seq<int>
    decreases data.len(),
{
    if data.len() == 0 {
        Seq::empty()
    } else if data.len() == 1 {
        seq![data[0] * 0x100]
    } else {
        seq![data[0] * 0x100 + data[1]] + spec_words(data.skip(2))
    }
}

/// The plain integer sum of a sequence of word values.
pub open spec fn spec_sum(ws: Seq<int>) -> int
    decreases ws.len(),
{
    if ws.len() == 0 {
        0
    } else {
        ws[0] + spec_sum(ws.skip(1))
    }
}

/// Folds the carries of a word sum back into the low 16 bits until none are
/// left: the end-around-carry (one's-complement) sum.
pub open spec fn spec_fold(s: int) -> int
    recommends
        s >= 0,
    decreases s,
{
    if s <= 0xFFFF {
        s
    } else {
        spec_fold(s % 0x10000 + s / 0x10000)
    }
}

/// The checksum of a buffer: the complement of the one's-complement sum of
/// its words.
pub open spec fn spec_checksum(data: Seq<u8>) -> int {
    0xFFFF - spec_fold(spec_sum(spec_words(data)))
}

/// Cutting a buffer after an even number of bytes cuts its word sequence.
pub proof fn lemma_words_app(a: Seq<u8>, b: Seq<u8>)
    requires
        a.len() % 2 == 0,
    ensures
        spec_words(a + b) == spec_words(a) + spec_words(b),
    decreases a.len(),
{
    if a.len() == 0 {
        assert(a + b =~= b);
        assert(spec_words(a) + spec_words(b) =~= spec_words(b));
    } else {
        lemma_words_app(a.skip(2), b);
        assert((a + b).skip(2) =~= a.skip(2) + b);
        assert(spec_words(a + b) =~= spec_words(a) + spec_words(b));
    }
}

/// The sum of concatenated word sequences is the sum of the sums.
pub proof fn lemma_sum_app(x: Seq<int>, y: Seq<int>)
    ensures
        spec_sum(x + y) == spec_sum(x) + spec_sum(y),
    decreases x.len(),
{
    if x.len() == 0 {
        assert(x + y =~= y);
    } else {
        lemma_sum_app(x.skip(1), y);
        assert((x + y).skip(1) =~= x.skip(1) + y);
    }
}

/// Every word is in `[0, 0xFFFF]`, so the word sum of a buffer is
/// non-negative and at most `(len + 1) * 0xFFFF`.
pub proof fn lemma_sum_bounds(data: Seq<u8>)
    ensures
        0 <= spec_sum(spec_words(data)),
        spec_sum(spec_words(data)) <= (data.len() + 1) * 0xFFFF,
    decreases data.len(),
{
    reveal_with_fuel(spec_words, 2);
    reveal_with_fuel(spec_sum, 2);
    if data.len() == 0 {
        assert(spec_sum(spec_words(data)) == 0);
    } else if data.len() == 1 {
        assert(spec_words(data) == seq![data[0] * 0x100]);
        assert(spec_words(data).skip(1) =~= Seq::<int>::empty());
        assert(spec_sum(spec_words(data)) == data[0] * 0x100);
    } else {
        lemma_sum_bounds(data.skip(2));
        assert(spec_words(data).skip(1) =~= spec_words(data.skip(2)));
        assert(spec_sum(spec_words(data)) == data[0] * 0x100 + data[1] + spec_sum(
            spec_words(data.skip(2))));
    }
}

/// Folding keeps the residue modulo 0xFFFF, lands in `[0, 0xFFFF]`, and
/// reaches zero only from zero.
pub proof fn lemma_fold_props(s: int)
    requires
        s >= 0,
    ensures
        0 <= spec_fold(s) <= 0xFFFF,
        spec_fold(s) % 0xFFFF == s % 0xFFFF,
        spec_fold(s) == 0 <==> s == 0,
    decreases s,
{
    if s <= 0xFFFF {
    } else {
        let q = s / 0x10000;
        let r = s % 0x10000;
        lemma_fundamental_div_mod(s, 0x10000);
        assert(q >= 1);
        lemma_fold_props(r + q);
        assert(s == 0xFFFF * q + (r + q));
        lemma_mod_multiples_vanish(q, r + q, 0xFFFF);
    }
}

/// Adding the complement of a word sum's one's-complement fold back onto the
/// sum makes the fold come out as 0xFFFF (one's-complement "negative zero"),
/// whose complement is zero: the receiver's check of a well-formed packet.
pub proof fn lemma_fold_with_complement(t: int)
    requires
        t >= 0,
    ensures
        spec_fold(t + (0xFFFF - spec_fold(t))) == 0xFFFF,
{
    lemma_fold_props(t);
    let c = 0xFFFF - spec_fold(t);
    let u = t + c;
    lemma_fundamental_div_mod(t, 0xFFFF);
    lemma_fundamental_div_mod(spec_fold(t), 0xFFFF);
    let qt = t / 0xFFFF;
    let qf = spec_fold(t) / 0xFFFF;
    let k = qt - qf;
    assert(t - spec_fold(t) == 0xFFFF * k) by {
        assert(t == 0xFFFF * qt + t % 0xFFFF);
        assert(spec_fold(t) == 0xFFFF * qf + spec_fold(t) % 0xFFFF);
        assert(0xFFFF * qt - 0xFFFF * qf == 0xFFFF * (qt - qf)) by (nonlinear_arith);
    }
    assert(u == 0xFFFF * (k + 1)) by {
        assert(0xFFFF * k + 0xFFFF == 0xFFFF * (k + 1)) by (nonlinear_arith);
    }
    lemma_fold_props(u);
    lemma_mod_multiples_vanish(k + 1, 0, 0xFFFF);
    assert(u % 0xFFFF == 0);
    assert(spec_fold(u) % 0xFFFF == 0);
    if spec_fold(u) < 0xFFFF {
        vstd::arithmetic::div_mod::lemma_small_mod(spec_fold(u) as nat, 0xFFFF);
        assert(spec_fold(u) == 0);
        assert(u == 0);
        assert(t == 0 && c == 0);
        assert(spec_fold(t) == 0);
        assert(false);
    }
}

/// Computes the internet checksum of `data`: 16-bit big-endian words summed
/// with end-around carry, then complemented. The length bound is the IPv4
/// maximum datagram size; it keeps the running sum far from overflow.
pub fn checksum(data: &[u8]) -> (c: u16)
    requires
        data@.len() <= 0xFFFF,
    ensures
        c as int == spec_checksum(data@),
{
    let n = data.len();
    let mut sum: u64 = 0;
    let mut i: usize = 0;
    while i + 2 <= n
        invariant
            n == data@.len(),
            n <= 0xFFFF,
            i <= n,
            i % 2 == 0,
            sum == spec_sum(spec_words(data@.subrange(0, i as int))),
        decreases n - i,
    {
        let w: u32 = (data[i] as u32) * 0x100 + (data[i + 1] as u32);
        proof {
            reveal_with_fuel(spec_words, 3);
            reveal_with_fuel(spec_sum, 3);
            let pre = data@.subrange(0, i as int);
            let pair = data@.subrange(i as int, i + 2);
            lemma_sum_bounds(pre);
            lemma_words_app(pre, pair);
            assert(data@.subrange(0, i + 2) =~= pre + pair);
            assert(pair.skip(2) =~= Seq::<u8>::empty());
            assert(pair[0] == data@[i as int] && pair[1] == data@[i + 1]);
            assert(spec_words(pair) =~= seq![pair[0] * 0x100 + pair[1]]);
            lemma_sum_app(spec_words(pre), spec_words(pair));
            assert(spec_words(pair).skip(1) =~= Seq::<int>::empty());
            assert(spec_sum(spec_words(pair)) == w);
        }
        sum = sum + (w as u64);
        i = i + 2;
    }
    if i < n {
        let w: u32 = (data[i] as u32) * 0x100;
        proof {
            reveal_with_fuel(spec_words, 3);
            reveal_with_fuel(spec_sum, 3);
            let pre = data@.subrange(0, i as int);
            let tail = data@.subrange(i as int, n as int);
            lemma_sum_bounds(pre);
            lemma_words_app(pre, tail);
            assert(data@.subrange(0, n as int) =~= pre + tail);
            assert(tail.len() == 1);
            assert(tail[0] == data@[i as int]);
            assert(spec_words(tail) =~= seq![tail[0] * 0x100]);
            lemma_sum_app(spec_words(pre), spec_words(tail));
            assert(spec_words(tail).skip(1) =~= Seq::<int>::empty());
            assert(spec_sum(spec_words(tail)) == w);
        }
        sum = sum + (w as u64);
        i = n;
    }
    proof {
        assert(data@.subrange(0, n as int) =~= data@);
    }
    let ghost total: int = sum as int;
    while sum > 0xFFFF
        invariant
            spec_fold(sum as int) == spec_fold(total),
        decreases sum,
    {
        let lo = sum & 0xFFFF;
        let hi = sum >> 16;
        proof {
            assert(sum & 0xFFFF == sum % 0x10000 && sum >> 16 == sum / 0x10000) by (bit_vector);
            assert(sum > 0xFFFF ==> (sum & 0xFFFF) + (sum >> 16) < sum) by (bit_vector);
            assert(sum & 0xFFFF <= 0xFFFF && sum >> 16 <= 0xFFFF_FFFF_FFFF) by (bit_vector);
        }
        sum = lo + hi;
    }
    let c: u16 = !(sum as u16);
    proof {
        assert(sum <= 0xFFFF ==> !(sum as u16) == (0xFFFF - (sum as u16)) as u16) by (bit_vector);
    }
    c
}

} // verus!
