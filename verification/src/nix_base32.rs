//! Nix's base32 encoding of hashes: 5-bit groups of the little-endian bit
//! string, most significant group first, over the alphabet
//! `0123456789abcdfghijklmnpqrsvwxyz` (no `e`, `o`, `t`, `u`).

use vstd::prelude::*;
use crate::text::push_char;

verus! {

/// The Nix base32 alphabet.
pub const NIX_BASE32: [char; 32] = [
    '0', '1', '2', '3', '4', '5', '6', '7', '8', '9', 'a', 'b', 'c', 'd', 'f', 'g',
    'h', 'i', 'j', 'k', 'l', 'm', 'n', 'p', 'q', 'r', 's', 'v', 'w', 'x', 'y', 'z',
];

/// A character of the Nix base32 alphabet: a digit, or a lower-case letter
/// other than `e`, `o`, `t` and `u`.
pub open spec fn nix32_char(c: char) -> bool {
    ('0' <= c && c <= '9') || ('a' <= c && c <= 'z' && c != 'e' && c != 'o' && c != 't' && c
        != 'u')
}

/// Whether `c` belongs to the Nix base32 alphabet.
pub fn is_nix32_char(c: char) -> (b: bool)
    ensures
        b == nix32_char(c),
{
    ('0' <= c && c <= '9') || ('a' <= c && c <= 'z' && c != 'e' && c != 'o' && c != 't' && c
        != 'u')
}

/// Byte `i` of `bytes`, or zero past either end.
pub open spec fn byte_at(bytes: Seq<u8>, i: int) -> u8 {
    if 0 <= i < bytes.len() {
        bytes[i]
    } else {
        0
    }
}

/// Number of base32 characters for `n` bytes: `ceil(8n / 5)`.
pub open spec fn nix_base32_len_spec(n: nat) -> nat {
    (n * 8 + 4) / 5
}

/// The 5-bit group `n` of the little-endian bit string of `bytes`, that is
/// bits `5n .. 5n+4`, where bit `p` is bit `p % 8` of byte `p / 8`.
pub open spec fn base32_digit(bytes: Seq<u8>, n: int) -> u8 {
    let i = (5 * n) / 8;
    let j = (5 * n) % 8;
    let w = (byte_at(bytes, i) as u16) | ((byte_at(bytes, i + 1) as u16) << 8u16);
    ((w >> (j as u16)) & 0x1fu16) as u8
}

/// The Nix base32 text of `bytes`: character `k` encodes group `len - 1 - k`.
pub open spec fn nix_base32_spec(bytes: Seq<u8>) -> Seq<char> {
    let len = nix_base32_len_spec(bytes.len());
    Seq::new(len, |k: int| NIX_BASE32@[base32_digit(bytes, len - 1 - k) as int])
}

proof fn lemma_digit_bits(b0: u8, b1: u8, j: u32)
    by (bit_vector)
    requires
        j < 8,
    ensures
        ((((b0 as u32) >> j) | (((b1 as u32) << ((8 - j) as u32)) & 0xFF)) & 0x1F) as u8 == ((((b0 as u16)
            | ((b1 as u16) << 8u16)) >> (j as u16)) & 0x1fu16) as u8,
        ((((b0 as u32) >> j) | (((b1 as u32) << ((8 - j) as u32)) & 0xFF)) & 0x1F) < 32,
{
}

proof fn lemma_digit_bits_last(b0: u8, j: u32)
    by (bit_vector)
    requires
        j < 8,
    ensures
        (((b0 as u32) >> j) & 0x1F) as u8 == ((((b0 as u16) | ((0u8 as u16) << 8u16)) >> (
        j as u16)) & 0x1fu16) as u8,
        (((b0 as u32) >> j) & 0x1F) < 32,
{
}

/// Number of base32 characters for `hash_size` bytes.
pub fn nix_base32_len(hash_size: usize) -> (n: usize)
    requires
        hash_size * 8 + 4 <= usize::MAX,
    ensures
        n == nix_base32_len_spec(hash_size as nat),
{
    (hash_size * 8 + 4) / 5
}

/// Convert a byte array to Nix's custom base32 encoding.
pub fn bytes_to_nix_base32(bytes: &[u8]) -> (s: String)
    requires
        bytes@.len() * 8 + 4 <= usize::MAX,
    ensures
        s@ == nix_base32_spec(bytes@),
        s@.len() == nix_base32_len_spec(bytes@.len()),
        forall|k: int| 0 <= k < s@.len() ==> nix32_char(#[trigger] s@[k]),
{
    let hash_size = bytes.len();
    let len = nix_base32_len(hash_size);
    let mut result = String::new();
    let mut k: usize = 0;
    while k < len
        invariant
            hash_size == bytes@.len(),
            hash_size * 8 + 4 <= usize::MAX,
            len == nix_base32_len_spec(hash_size as nat),
            k <= len,
            result@ == nix_base32_spec(bytes@).take(k as int),
        decreases len - k,
    {
        let n = len - 1 - k;
        let b = n * 5;
        let i = b / 8;
        let j = b % 8;
        let c: u32 = if i < hash_size {
            let mut val: u32 = ((bytes[i] as u32) >> (j as u32));
            if i + 1 < hash_size {
                val = val | (((bytes[i + 1] as u32) << (8 - j as u32)) & 0xFF);
                proof {
                    lemma_digit_bits(bytes@[i as int], bytes@[i + 1], j as u32);
                }
            } else {
                proof {
                    lemma_digit_bits_last(bytes@[i as int], j as u32);
                }
            }
            val & 0x1F
        } else {
            0
        };
        proof {
            assert(c < 32);
            assert(c as u8 == base32_digit(bytes@, n as int));
        }
        push_char(&mut result, NIX_BASE32[c as usize]);
        proof {
            assert(nix_base32_spec(bytes@).take(k + 1) == nix_base32_spec(bytes@).take(
                k as int,
            ).push(nix_base32_spec(bytes@)[k as int]));
        }
        k += 1;
    }
    proof {
        assert(nix_base32_spec(bytes@).take(len as int) == nix_base32_spec(bytes@));
        law_nix_base32_alphabet(bytes@);
    }
    result
}

/// The position of a character in the Nix base32 alphabet.
pub open spec fn nix32_index(c: char) -> int {
    let x = c as int;
    if c <= '9' {
        x - ('0' as int)
    } else if c <= 'd' {
        x - ('a' as int) + 10
    } else if c <= 'n' {
        x - ('f' as int) + 14
    } else if c <= 's' {
        x - ('p' as int) + 23
    } else {
        x - ('v' as int) + 27
    }
}

/// Every letter of the alphabet is a Nix base32 character, found at its
/// own position.
proof fn lemma_alphabet()
    ensures
        forall|d: int|
            0 <= d < 32 ==> nix32_char(#[trigger] NIX_BASE32@[d]) && nix32_index(NIX_BASE32@[d])
                == d,
{
    assert forall|d: int| 0 <= d < 32 implies nix32_char(#[trigger] NIX_BASE32@[d]) && nix32_index(
        NIX_BASE32@[d],
    ) == d by {
        if d < 8 {
            if d < 4 {
                assert(d == 0 || d == 1 || d == 2 || d == 3);
            } else {
                assert(d == 4 || d == 5 || d == 6 || d == 7);
            }
        } else if d < 16 {
            if d < 12 {
                assert(d == 8 || d == 9 || d == 10 || d == 11);
            } else {
                assert(d == 12 || d == 13 || d == 14 || d == 15);
            }
        } else if d < 24 {
            if d < 20 {
                assert(d == 16 || d == 17 || d == 18 || d == 19);
            } else {
                assert(d == 20 || d == 21 || d == 22 || d == 23);
            }
        } else {
            if d < 28 {
                assert(d == 24 || d == 25 || d == 26 || d == 27);
            } else {
                assert(d == 28 || d == 29 || d == 30 || d == 31);
            }
        }
    }
}

proof fn lemma_digit_small(b0: u8, b1: u8, j: u16)
    by (bit_vector)
    requires
        j < 8,
    ensures
        ((((b0 as u16) | ((b1 as u16) << 8u16)) >> j) & 0x1fu16) < 32,
{
}

/// A digit is below 32.
proof fn lemma_base32_digit_small(bytes: Seq<u8>, n: int)
    ensures
        base32_digit(bytes, n) < 32,
{
    let i = (5 * n) / 8;
    let j = (5 * n) % 8;
    lemma_digit_small(byte_at(bytes, i), byte_at(bytes, i + 1), j as u16);
}

/// The Nix base32 text of `bytes` has `ceil(8 len / 5)` characters, each in
/// the alphabet `0123456789abcdfghijklmnpqrsvwxyz` (never `e`, `o`, `t`,
/// `u`).
pub proof fn law_nix_base32_alphabet(bytes: Seq<u8>)
    ensures
        nix_base32_spec(bytes).len() == nix_base32_len_spec(bytes.len()),
        forall|k: int|
            0 <= k < nix_base32_spec(bytes).len() ==> nix32_char(#[trigger] nix_base32_spec(bytes)[k]),
{
    lemma_alphabet();
    let len = nix_base32_len_spec(bytes.len());
    assert forall|k: int| 0 <= k < nix_base32_spec(bytes).len() implies nix32_char(
        #[trigger] nix_base32_spec(bytes)[k],
    ) by {
        lemma_base32_digit_small(bytes, len - 1 - k);
    }
}

/// Bit `r` of a digit taken at bit offset `j` of two bytes is bit `j + r`
/// of the first byte, or bit `j + r - 8` of the second.
proof fn lemma_digit_bit(b0: u8, b1: u8, j: u16, r: u16)
    by (bit_vector)
    requires
        j < 8,
        r < 5,
    ensures
        j + r < 8 ==> ((((((b0 as u16) | ((b1 as u16) << 8u16)) >> j) & 0x1fu16) as u8) >> (r as u8))
            & 1u8 == (b0 >> ((j + r) as u8)) & 1u8,
        j + r >= 8 ==> ((((((b0 as u16) | ((b1 as u16) << 8u16)) >> j) & 0x1fu16) as u8) >> (
        r as u8)) & 1u8 == (b1 >> ((j + r - 8) as u8)) & 1u8,
{
}

/// Where bit `b` of byte `i` falls: group `n = (8i + b) / 5`, bit
/// `r = (8i + b) % 5` of it, and that group starts at bit `j` of byte
/// `(5n) / 8`, which is byte `i` or the one before it.
proof fn lemma_bit_position(i: int, b: int)
    requires
        0 <= i,
        0 <= b < 8,
    ensures
        ({
            let n = (8 * i + b) / 5;
            let r = (8 * i + b) % 5;
            let i2 = (5 * n) / 8;
            let j = (5 * n) % 8;
            &&& 0 <= r < 5
            &&& 0 <= j < 8
            &&& (j + r < 8 && i2 == i && j + r == b) || (j + r >= 8 && i2 + 1 == i && j + r - 8 == b)
        }),
{
    let p = 8 * i + b;
    let n = p / 5;
    let r = p % 5;
    let i2 = (5 * n) / 8;
    let j = (5 * n) % 8;
    assert(p == 5 * n + r && 0 <= r < 5) by (nonlinear_arith)
        requires
            p >= 0,
            n == p / 5,
            r == p % 5,
    ;
    assert(5 * n == 8 * i2 + j && 0 <= j < 8) by (nonlinear_arith)
        requires
            n >= 0,
            i2 == (5 * n) / 8,
            j == (5 * n) % 8,
    ;
}

/// Bit `b` of byte `i` is a bit of the digit of group `(8i + b) / 5`.
proof fn lemma_byte_bit(bytes: Seq<u8>, i: int, b: int)
    requires
        0 <= i < bytes.len(),
        0 <= b < 8,
    ensures
        (bytes[i] >> (b as u8)) & 1u8 == (base32_digit(bytes, (8 * i + b) / 5) >> (((8 * i + b) % 5)
            as u8)) & 1u8,
{
    lemma_bit_position(i, b);
    let n = (8 * i + b) / 5;
    let r = (8 * i + b) % 5;
    let i2 = (5 * n) / 8;
    let j = (5 * n) % 8;
    lemma_digit_bit(byte_at(bytes, i2), byte_at(bytes, i2 + 1), j as u16, r as u16);
}

proof fn lemma_bits_determine_byte(x: u8, y: u8)
    by (bit_vector)
    requires
        (x >> 0u8) & 1u8 == (y >> 0u8) & 1u8,
        (x >> 1u8) & 1u8 == (y >> 1u8) & 1u8,
        (x >> 2u8) & 1u8 == (y >> 2u8) & 1u8,
        (x >> 3u8) & 1u8 == (y >> 3u8) & 1u8,
        (x >> 4u8) & 1u8 == (y >> 4u8) & 1u8,
        (x >> 5u8) & 1u8 == (y >> 5u8) & 1u8,
        (x >> 6u8) & 1u8 == (y >> 6u8) & 1u8,
        (x >> 7u8) & 1u8 == (y >> 7u8) & 1u8,
    ensures
        x == y,
{
}

/// With equal digits, bit `bit` of byte `i` is equal in both inputs.
proof fn lemma_same_bit(a: Seq<u8>, b: Seq<u8>, i: int, bit: int)
    requires
        a.len() == b.len(),
        0 <= i < a.len(),
        0 <= bit < 8,
        forall|n: int|
            0 <= n < nix_base32_len_spec(a.len()) ==> #[trigger] base32_digit(a, n) == base32_digit(
                b,
                n,
            ),
    ensures
        (a[i] >> (bit as u8)) & 1u8 == (b[i] >> (bit as u8)) & 1u8,
{
    lemma_byte_bit(a, i, bit);
    lemma_byte_bit(b, i, bit);
    let len = nix_base32_len_spec(a.len());
    assert(0 <= (8 * i + bit) / 5 < len) by (nonlinear_arith)
        requires
            0 <= i < a.len(),
            0 <= bit < 8,
            len == (a.len() * 8 + 4) / 5,
    ;
    assert(base32_digit(a, (8 * i + bit) / 5) == base32_digit(b, (8 * i + bit) / 5));
}

/// The Nix base32 encoding loses no bit: inputs of one length with the
/// same text are equal.
pub proof fn law_nix_base32_injective(a: Seq<u8>, b: Seq<u8>)
    requires
        a.len() == b.len(),
        nix_base32_spec(a) == nix_base32_spec(b),
    ensures
        a == b,
{
    lemma_alphabet();
    let len = nix_base32_len_spec(a.len());
    assert forall|n: int| 0 <= n < len implies #[trigger] base32_digit(a, n) == base32_digit(b, n) by {
        let k = len - 1 - n;
        lemma_base32_digit_small(a, n);
        lemma_base32_digit_small(b, n);
        assert(nix_base32_spec(a)[k] == nix_base32_spec(b)[k]);
        assert(len - 1 - k == n);
        assert(nix_base32_spec(a)[k] == NIX_BASE32@[base32_digit(a, n) as int]);
        assert(nix_base32_spec(b)[k] == NIX_BASE32@[base32_digit(b, n) as int]);
        assert(nix32_index(NIX_BASE32@[base32_digit(a, n) as int]) == base32_digit(a, n) as int);
        assert(nix32_index(NIX_BASE32@[base32_digit(b, n) as int]) == base32_digit(b, n) as int);
    }
    assert forall|i: int| 0 <= i < a.len() implies a[i] == b[i] by {
        lemma_same_bit(a, b, i, 0);
        lemma_same_bit(a, b, i, 1);
        lemma_same_bit(a, b, i, 2);
        lemma_same_bit(a, b, i, 3);
        lemma_same_bit(a, b, i, 4);
        lemma_same_bit(a, b, i, 5);
        lemma_same_bit(a, b, i, 6);
        lemma_same_bit(a, b, i, 7);
        lemma_bits_determine_byte(a[i], b[i]);
    }
    assert(a =~= b);
}

} // verus!
