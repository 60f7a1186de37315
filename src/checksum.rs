//! The Internet checksum of RFC 1071: its definition as a spec function, the
//! property that makes it useful (a buffer carrying its own checksum sums to
//! zero), and its computation.
use vstd::prelude::*;

verus! {

/// The 16-bit word formed by two bytes, the first one high-order.
pub open spec fn be_word(hi: u8, lo: u8) -> nat {
    hi as nat * 256 + lo as nat
}

/// Sum of the buffer read as big-endian 16-bit words; an odd trailing byte
/// is padded with a zero byte.
pub open spec fn word_sum(b: Seq<u8>) -> nat
    decreases b.len(),
{
    if b.len() == 0 {
        0
    } else if b.len() == 1 {
        be_word(b[0], 0)
    } else {
        be_word(b[0], b[1]) + word_sum(b.subrange(2, b.len() as int))
    }
}

/// End-around carry: the bits above the low 16 are added back into the low
/// 16 bits until no carry remains.
pub open spec fn fold_carries(x: nat) -> nat
    decreases x,
{
    if x < 0x10000 {
        x
    } else {
        proof {
            assert(x % 0x10000 + x / 0x10000 < x) by (nonlinear_arith)
                requires
                    x >= 0x10000,
            ;
        }
        fold_carries(x % 0x10000 + x / 0x10000)
    }
}

/// The Internet checksum: the ones-complement of the ones-complement sum of
/// the buffer's 16-bit words.
pub open spec fn internet_checksum(b: Seq<u8>) -> u16 {
    (0xFFFF - fold_carries(word_sum(b))) as u16
}

/// Folding keeps the value modulo 0xFFFF, lands in 16 bits, and yields zero
/// only from zero.
pub proof fn lemma_fold_carries(x: nat)
    ensures
        fold_carries(x) <= 0xFFFF,
        fold_carries(x) % 0xFFFF == x % 0xFFFF,
        fold_carries(x) == 0 <==> x == 0,
    decreases x,
{
    if x >= 0x10000 {
        let y = x % 0x10000 + x / 0x10000;
        assert(y < x && y > 0 && y % 0xFFFF == x % 0xFFFF) by (nonlinear_arith)
            requires
                x >= 0x10000,
                y == x % 0x10000 + x / 0x10000,
        ;
        lemma_fold_carries(y);
    }
}

/// The sum over a buffer of at least four bytes splits into its first two
/// words and the sum over the rest.
pub proof fn lemma_word_sum_head(b: Seq<u8>)
    requires
        b.len() >= 4,
    ensures
        word_sum(b) == be_word(b[0], b[1]) + be_word(b[2], b[3]) + word_sum(
            b.subrange(4, b.len() as int),
        ),
{
    let t = b.subrange(2, b.len() as int);
    assert(t.subrange(2, t.len() as int) =~= b.subrange(4, b.len() as int));
    assert(word_sum(b) == be_word(b[0], b[1]) + word_sum(t));
    assert(word_sum(t) == be_word(t[0], t[1]) + word_sum(t.subrange(2, t.len() as int)));
}

/// Writing a buffer's checksum, high-order byte first, into a zeroed word at
/// offset 2 gives a buffer whose checksum is zero.
pub proof fn lemma_checksum_zero_sum(b: Seq<u8>)
    requires
        b.len() >= 4,
        b[2] == 0,
        b[3] == 0,
    ensures
        ({
            let c = internet_checksum(b);
            internet_checksum(b.update(2, (c / 256) as u8).update(3, (c % 256) as u8)) == 0
        }),
{
    let c = internet_checksum(b);
    let b2 = b.update(2, (c / 256) as u8).update(3, (c % 256) as u8);
    let s = word_sum(b);
    lemma_fold_carries(s);
    lemma_word_sum_head(b);
    lemma_word_sum_head(b2);
    assert(b2.subrange(4, b2.len() as int) =~= b.subrange(4, b.len() as int));
    assert(be_word(b2[2], b2[3]) == c as nat);
    let f = fold_carries(s);
    let s2 = word_sum(b2);
    assert(s2 == s + (0xFFFF - f));
    lemma_fold_carries(s2);
    assert(s2 % 0xFFFF == 0) by (nonlinear_arith)
        requires
            s2 == s + (0xFFFF - f),
            f % 0xFFFF == s % 0xFFFF,
            f <= 0xFFFF,
    ;
    assert(s2 > 0);
    assert(fold_carries(s2) == 0xFFFF) by (nonlinear_arith)
        requires
            fold_carries(s2) <= 0xFFFF,
            fold_carries(s2) % 0xFFFF == 0,
            fold_carries(s2) != 0,
    ;
}

/// The sum from offset `i` on splits into the word at `i` and the sum from
/// offset `i + 2` on.
proof fn lemma_word_sum_step(b: Seq<u8>, i: int)
    requires
        0 <= i,
        i + 2 <= b.len(),
    ensures
        word_sum(b.subrange(i, b.len() as int)) == be_word(b[i], b[i + 1]) + word_sum(
            b.subrange(i + 2, b.len() as int),
        ),
{
    let t = b.subrange(i, b.len() as int);
    assert(t.subrange(2, t.len() as int) =~= b.subrange(i + 2, b.len() as int));
}

/// The sum over the last byte alone pads it with a zero byte.
proof fn lemma_word_sum_last(b: Seq<u8>, i: int)
    requires
        0 <= i,
        i + 1 == b.len(),
    ensures
        word_sum(b.subrange(i, b.len() as int)) == be_word(b[i], 0),
{
    assert(b.subrange(i, b.len() as int).len() == 1);
}

/// The Internet checksum of the bytes.
pub fn checksum(b: &[u8]) -> (r: u16)
    ensures
        r == internet_checksum(b@),
{
    let n = b.len();
    let mut total: u128 = 0;
    let mut i: usize = 0;
    assert(b@.subrange(0, n as int) =~= b@);
    while i < n
        invariant
            n == b@.len(),
            i <= n,
            total + word_sum(b@.subrange(i as int, n as int)) == word_sum(b@),
            total <= i as nat * 0xFFFF,
        decreases n - i,
    {
        let ghost before = total;
        if i + 1 < n {
            proof {
                lemma_word_sum_step(b@, i as int);
                assert(before + 0xFFFF <= (i as nat + 2) * 0xFFFF
                    < 0x1_0000_0000_0000_0000_0000_0000_0000_0000) by (nonlinear_arith)
                    requires
                        before <= i as nat * 0xFFFF,
                        i < usize::MAX,
                ;
            }
            total = total + (b[i] as u128 * 256 + b[i + 1] as u128);
            i += 2;
        } else {
            proof {
                lemma_word_sum_last(b@, i as int);
                assert(before + 0xFFFF <= (i as nat + 1) * 0xFFFF
                    < 0x1_0000_0000_0000_0000_0000_0000_0000_0000) by (nonlinear_arith)
                    requires
                        before <= i as nat * 0xFFFF,
                        i < usize::MAX,
                ;
            }
            total = total + b[i] as u128 * 256;
            i += 1;
        }
    }
    assert(b@.subrange(n as int, n as int).len() == 0);
    let mut x = total;
    while x >= 0x10000
        invariant
            fold_carries(x as nat) == fold_carries(word_sum(b@)),
        decreases x,
    {
        assert(x % 0x10000 + x / 0x10000 < x) by (nonlinear_arith)
            requires
                x >= 0x10000,
        ;
        x = x % 0x10000 + x / 0x10000;
    }
    (0xFFFF - x) as u16
}

} // verus!
