//! Unsigned integers as fixed-width byte strings, in either byte order.
//!
//! A number is written as its base-256 digits. The model is arithmetic:
//! [`le_digits`] peels digits off with `%` and `/`, [`le_value`] sums them
//! back up, and the big-endian forms are the same sequences reversed.

use vstd::prelude::*;

verus! {

/// The order in which the bytes of a multi-byte integer are laid out.
#[derive(Debug, Clone, Copy, PartialEq, Eq, Structural)]
pub enum ByteOrder {
    /// Least significant byte first.
    Little,
    /// Most significant byte first.
    Big,
}

/// 256 to the power `n`: the number of values that `n` bytes can tell apart.
pub open spec fn radix_pow(n: nat) -> nat
    decreases n,
{
    if n == 0 {
        1
    } else {
        256 * radix_pow((n - 1) as nat)
    }
}

/// The `n` lowest base-256 digits of `x`, least significant first.
pub open spec fn le_digits(x: nat, n: nat) -> Seq<u8>
    decreases n,
{
    if n == 0 {
        Seq::empty()
    } else {
        seq![(x % 256) as u8] + le_digits(x / 256, (n - 1) as nat)
    }
}

/// The number whose base-256 digits, least significant first, are `s`.
pub open spec fn le_value(s: Seq<u8>) -> nat
    decreases s.len(),
{
    if s.len() == 0 {
        0
    } else {
        s[0] as nat + 256 * le_value(s.drop_first())
    }
}

/// The `n`-byte image of `x` in the given byte order. Digits of `x` beyond
/// the `n`-th are not represented.
pub open spec fn uint_bytes(x: nat, n: nat, order: ByteOrder) -> Seq<u8> {
    match order {
        ByteOrder::Little => le_digits(x, n),
        ByteOrder::Big => le_digits(x, n).reverse(),
    }
}

/// The number that the byte string `s` stands for in the given byte order.
pub open spec fn uint_value(s: Seq<u8>, order: ByteOrder) -> nat {
    match order {
        ByteOrder::Little => le_value(s),
        ByteOrder::Big => le_value(s.reverse()),
    }
}

/// The powers of 256 that bound the integer widths in use.
pub proof fn lemma_radix_pow_values()
    ensures
        radix_pow(0) == 1,
        radix_pow(1) == 0x100,
        radix_pow(2) == 0x1_0000,
        radix_pow(4) == 0x1_0000_0000,
        radix_pow(8) == 0x1_0000_0000_0000_0000,
{
    reveal_with_fuel(radix_pow, 9);
}

/// More bytes never tell fewer values apart.
pub proof fn lemma_radix_pow_monotonic(a: nat, b: nat)
    requires
        a <= b,
    ensures
        1 <= radix_pow(a) <= radix_pow(b),
    decreases b,
{
    if b == 0 {
    } else if a == b {
        lemma_radix_pow_monotonic((a - 1) as nat, (b - 1) as nat);
    } else {
        lemma_radix_pow_monotonic(a, (b - 1) as nat);
    }
}

/// An image of `n` digits is `n` bytes long.
pub proof fn lemma_le_digits_len(x: nat, n: nat)
    ensures
        le_digits(x, n).len() == n,
    decreases n,
{
    if n > 0 {
        lemma_le_digits_len(x / 256, (n - 1) as nat);
    }
}

/// A string of `n` bytes stands for a number below 256 to the `n`.
pub proof fn lemma_le_value_bound(s: Seq<u8>)
    ensures
        le_value(s) < radix_pow(s.len()),
    decreases s.len(),
{
    if s.len() > 0 {
        lemma_le_value_bound(s.drop_first());
    }
}

/// Reading back the digits of a number that fits gives the number.
pub proof fn lemma_le_value_of_digits(x: nat, n: nat)
    requires
        x < radix_pow(n),
    ensures
        le_value(le_digits(x, n)) == x,
    decreases n,
{
    if n > 0 {
        let rest = le_digits(x / 256, (n - 1) as nat);
        let s = le_digits(x, n);
        lemma_le_digits_len(x, n);
        assert(s.drop_first() =~= rest);
        lemma_le_value_of_digits(x / 256, (n - 1) as nat);
    }
}

/// Writing out the number that a byte string stands for, at the string's own
/// length, gives the string.
pub proof fn lemma_le_digits_of_value(s: Seq<u8>)
    ensures
        le_digits(le_value(s), s.len()) =~= s,
    decreases s.len(),
{
    if s.len() > 0 {
        let rest = s.drop_first();
        lemma_le_digits_of_value(rest);
        let v = le_value(s);
        assert(v % 256 == s[0] as nat);
        assert(v / 256 == le_value(rest));
    }
}

/// Reversing a byte string twice gives the string.
pub proof fn lemma_reverse_twice(s: Seq<u8>)
    ensures
        s.reverse().reverse() =~= s,
        s.reverse().len() == s.len(),
{
}

/// The image of a number is as long as asked for, in either order.
pub proof fn lemma_uint_bytes_len(x: nat, n: nat, order: ByteOrder)
    ensures
        uint_bytes(x, n, order).len() == n,
{
    lemma_le_digits_len(x, n);
}

/// A byte string stands for a number below 256 to its length, in either
/// order.
pub proof fn lemma_uint_value_bound(s: Seq<u8>, order: ByteOrder)
    ensures
        uint_value(s, order) < radix_pow(s.len()),
{
    lemma_le_value_bound(s);
    lemma_le_value_bound(s.reverse());
}

/// Decoding the `n`-byte image of a number that fits in `n` bytes gives the
/// number, in either order.
pub proof fn lemma_uint_value_of_bytes(x: nat, n: nat, order: ByteOrder)
    requires
        x < radix_pow(n),
    ensures
        uint_value(uint_bytes(x, n, order), order) == x,
{
    lemma_le_value_of_digits(x, n);
    lemma_reverse_twice(le_digits(x, n));
}

/// Encoding what a byte string stands for, at the string's own length, gives
/// the string, in either order.
pub proof fn lemma_uint_bytes_of_value(s: Seq<u8>, order: ByteOrder)
    ensures
        uint_bytes(uint_value(s, order), s.len(), order) =~= s,
{
    lemma_le_digits_of_value(s);
    lemma_le_digits_of_value(s.reverse());
    lemma_reverse_twice(s);
}

/// Writes `value` as `width` bytes in the given order. Where `width` is too
/// small for `value`, the high digits are left out.
pub fn encode_uint(value: u64, width: usize, order: ByteOrder) -> (out: Vec<u8>)
    ensures
        out@ == uint_bytes(value as nat, width as nat, order),
{
    let mut low_first: Vec<u8> = Vec::new();
    let mut rest: u64 = value;
    let mut i: usize = 0;
    while i < width
        invariant
            i <= width,
            low_first@.len() == i,
            low_first@ + le_digits(rest as nat, (width - i) as nat) == le_digits(
                value as nat,
                width as nat,
            ),
        decreases width - i,
    {
        let ghost before = low_first@;
        low_first.push((rest % 256) as u8);
        proof {
            let tail = le_digits((rest / 256) as nat, (width - i - 1) as nat);
            assert((before + seq![(rest % 256) as u8]) + tail =~= before + (seq![
                (rest % 256) as u8,
            ] + tail));
            assert(low_first@ =~= before + seq![(rest % 256) as u8]);
        }
        rest = rest / 256;
        i = i + 1;
    }
    proof {
        assert(low_first@ + Seq::<u8>::empty() =~= low_first@);
    }
    match order {
        ByteOrder::Little => low_first,
        ByteOrder::Big => {
            let mut out: Vec<u8> = Vec::new();
            let mut j: usize = 0;
            while j < width
                invariant
                    j <= width,
                    low_first@.len() == width,
                    out@.len() == j,
                    forall|k: int| 0 <= k < j ==> out@[k] == low_first@[width - 1 - k],
                decreases width - j,
            {
                out.push(low_first[width - 1 - j]);
                j = j + 1;
            }
            proof {
                assert(out@ =~= low_first@.reverse());
            }
            out
        },
    }
}

/// Reads the number that `bytes` stands for in the given order.
pub fn decode_uint(bytes: &[u8], order: ByteOrder) -> (value: u64)
    requires
        bytes@.len() <= 8,
    ensures
        value == uint_value(bytes@, order),
{
    let n: usize = bytes.len();
    let ghost low_first: Seq<u8> = match order {
        ByteOrder::Little => bytes@,
        ByteOrder::Big => bytes@.reverse(),
    };
    let mut acc: u64 = 0;
    let mut k: usize = n;
    proof {
        assert(low_first.subrange(n as int, n as int) =~= Seq::<u8>::empty());
    }
    while k > 0
        invariant
            k <= n,
            n == bytes@.len(),
            n <= 8,
            low_first.len() == n,
            low_first == (match order {
                ByteOrder::Little => bytes@,
                ByteOrder::Big => bytes@.reverse(),
            }),
            acc == le_value(low_first.subrange(k as int, n as int)),
        decreases k,
    {
        let at: usize = match order {
            ByteOrder::Little => k - 1,
            ByteOrder::Big => n - k,
        };
        let digit: u8 = bytes[at];
        proof {
            let higher = low_first.subrange(k as int, n as int);
            let with_digit = low_first.subrange(k - 1, n as int);
            assert(with_digit.drop_first() =~= higher);
            assert(with_digit[0] == digit);
            lemma_le_value_bound(higher);
            lemma_radix_pow_monotonic((n - k) as nat, 7);
            lemma_radix_pow_values();
            assert(radix_pow(8) == 256 * radix_pow(7));
        }
        acc = acc * 256 + digit as u64;
        k = k - 1;
    }
    proof {
        assert(low_first.subrange(0, n as int) =~= low_first);
    }
    acc
}

} // verus!
