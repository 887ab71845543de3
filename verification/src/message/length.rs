//! The length header in front of each frame: the length of the frame's body in
//! base 128, most significant digit first, one digit per byte, with the top bit
//! set on every byte but the last.
use vstd::prelude::*;
use vstd::arithmetic::power::pow;
use crate::buffer::{bytes_mut_contents, buffer_len, buffer_put_slice};

verus! {

/// The most bytes a length header of a `usize` takes.
pub const MAX_LEN_BYTES: usize = 10;

/// The number `usize` arithmetic wraps at.
pub open spec fn usize_modulus() -> nat {
    usize::MAX as nat + 1
}

/// The digits of `n` in base 128, most significant first, each with its top bit set:
/// the part of a header that other digits follow.
pub open spec fn continued_digits(n: nat) -> Seq<u8>
    decreases n,
{
    if n < 128 {
        seq![(n + 128) as u8]
    } else {
        continued_digits(n / 128).push((n % 128 + 128) as u8)
    }
}

/// The length header of a body of `n` bytes: the digits of `n` in base 128, most
/// significant first, the top bit set on all of them but the last.
pub open spec fn len_header(n: nat) -> Seq<u8> {
    if n < 128 {
        seq![n as u8]
    } else {
        continued_digits(n / 128).push((n % 128) as u8)
    }
}

/// The size of the header at the start of `s`: up to and including the first byte
/// whose top bit is clear; `None` when no byte of `s` has it clear.
pub open spec fn header_size(s: Seq<u8>) -> Option<nat>
    decreases s.len(),
{
    if s.len() == 0 {
        None
    } else if s[0] < 128 {
        Some(1)
    } else {
        match header_size(s.drop_first()) {
            Some(k) => Some(k + 1),
            None => None,
        }
    }
}

/// The number that base-128 digits stand for, most significant first, each digit
/// being the low 7 bits of its byte.
pub open spec fn digits_value(s: Seq<u8>) -> nat
    decreases s.len(),
{
    if s.len() == 0 {
        0
    } else {
        digits_value(s.drop_last()) * 128 + (s.last() % 128) as nat
    }
}

/// What `decode_len` finds at the start of `s`: the size of the whole frame (the body's
/// length, read in `usize` arithmetic, plus the header's size) and the header's size.
pub open spec fn decoded_len(s: Seq<u8>) -> Option<(nat, nat)> {
    match header_size(s) {
        Some(k) => Some((digits_value(s.take(k as int)) % usize_modulus() + k, k)),
        None => None,
    }
}

/// The frame size that `decode_len` computes for `s` fits in a `usize` (else its
/// addition overflows).
pub open spec fn decoded_len_fits(s: Seq<u8>) -> bool {
    match decoded_len(s) {
        Some((len, _)) => len <= usize::MAX,
        None => true,
    }
}

proof fn lemma_shift_or(a: usize, b: u8)
    ensures
        ((a << 7usize) | ((b & 0x7f) as usize)) as nat == ((a as nat) * 128 + (b % 128) as nat)
            % usize_modulus(),
{
    assert(usize::BITS == 64 ==> ((a << 7usize) | ((b & 0x7f) as usize)) as int == ((a as int)
        * 128 + (b % 128) as int) % 0x1_0000_0000_0000_0000int) by (bit_vector);
    assert(usize::BITS == 32 ==> ((a << 7usize) | ((b & 0x7f) as usize)) as int == ((a as int)
        * 128 + (b % 128) as int) % 0x1_0000_0000int) by (bit_vector);
    assert(usize::BITS == 64 ==> usize::MAX as int == 0xffff_ffff_ffff_ffffint);
    assert(usize::BITS == 32 ==> usize::MAX as int == 0xffff_ffffint);
}

proof fn lemma_mod_step(v: nat, d: nat)
    ensures
        ((v % usize_modulus()) * 128 + d) % usize_modulus() == (v * 128 + d) % usize_modulus(),
{
    let m = usize_modulus() as int;
    vstd::arithmetic::div_mod::lemma_mul_mod_noop_left(v as int, 128, m);
    vstd::arithmetic::div_mod::lemma_add_mod_noop((v * 128) as int, d as int, m);
    vstd::arithmetic::div_mod::lemma_add_mod_noop(((v % usize_modulus()) * 128) as int, d as int, m);
    vstd::arithmetic::div_mod::lemma_mod_twice(d as int, m);
}

/// The header ends at the first byte whose top bit is clear.
proof fn lemma_header_size_at(s: Seq<u8>, i: nat)
    requires
        i < s.len(),
        s[i as int] < 128,
        forall|j: int| 0 <= j < i ==> s[j] >= 128,
    ensures
        header_size(s) == Some(i + 1),
    decreases i,
{
    if i > 0 {
        lemma_header_size_at(s.drop_first(), (i - 1) as nat);
    }
}

/// No header ends in `s` when every byte has its top bit set.
proof fn lemma_header_size_none(s: Seq<u8>)
    requires
        forall|j: int| 0 <= j < s.len() ==> s[j] >= 128,
    ensures
        header_size(s) is None,
    decreases s.len(),
{
    if s.len() > 0 {
        lemma_header_size_none(s.drop_first());
    }
}

/// Reads the digits of the header at the start of `src`: the body length, in `usize`
/// arithmetic, and the size of the header; `None` when `src` holds no complete header.
fn read_header(src: &[u8]) -> (r: Option<(usize, usize)>)
    ensures
        match header_size(src@) {
            Some(k) => r matches Some((v, kk)) && kk == k && v as nat == digits_value(
                src@.take(k as int),
            ) % usize_modulus(),
            None => r is None,
        },
{
    let mut len: usize = 0;
    let mut i: usize = 0;
    proof {
        assert(src@.take(0) =~= Seq::<u8>::empty());
        vstd::arithmetic::div_mod::lemma_small_mod(0, usize_modulus());
    }
    while i < src.len()
        invariant
            i <= src@.len(),
            len as nat == digits_value(src@.take(i as int)) % usize_modulus(),
            forall|j: int| 0 <= j < i ==> src@[j] >= 128,
        decreases src@.len() - i,
    {
        let byte = src[i];
        proof {
            lemma_shift_or(len, byte);
            lemma_mod_step(digits_value(src@.take(i as int)), (byte % 128) as nat);
            assert(src@.take(i + 1).drop_last() =~= src@.take(i as int));
        }
        // Store 7 bits per byte
        len = (len << 7) | (byte & 0x7f) as usize;
        if byte >> 7 == 0 {
            proof {
                assert(byte >> 7 == 0 ==> byte < 128) by (bit_vector);
                lemma_header_size_at(src@, i as nat);
            }
            return Some((len, i + 1));
        }
        proof {
            assert(byte >> 7 != 0 ==> byte >= 128) by (bit_vector);
        }
        i += 1;
    }
    proof {
        lemma_header_size_none(src@);
    }
    None
}

/// Reads the length header at the start of `src`. Returns the size of the whole frame
/// (body length plus header size) and the size of the header, or `None` when `src` holds
/// no complete header.
pub fn decode_len(src: &[u8]) -> (r: Option<(usize, usize)>)
    requires
        decoded_len_fits(src@),
    ensures
        match decoded_len(src@) {
            Some((len, k)) => r == Some((len as usize, k as usize)),
            None => r is None,
        },
{
    match read_header(src) {
        Some((len, len_len)) => Some((len + len_len, len_len)),
        None => None,
    }
}

/// Tells whether `decode_len` can read `src` without its addition overflowing: the
/// condition that `decode_len` requires.
pub fn decoded_len_in_range(src: &[u8]) -> (b: bool)
    ensures
        b == decoded_len_fits(src@),
{
    match read_header(src) {
        Some((len, len_len)) => len <= usize::MAX - len_len,
        None => true,
    }
}

/// Fewer than `pow(128, k)` needs at most `k` digits.
proof fn lemma_continued_digits_len(n: nat, k: nat)
    requires
        k >= 1,
        n < pow(128, k),
    ensures
        continued_digits(n).len() <= k,
    decreases n,
{
    if n >= 128 {
        vstd::arithmetic::power::lemma_pow_positive(128, (k - 1) as nat);
        assert(pow(128, k) == 128 * pow(128, (k - 1) as nat)) by {
            reveal(pow);
        }
        if k == 1 {
            assert(pow(128, 0) == 1) by {
                reveal(pow);
            }
        }
        assert(n / 128 < pow(128, (k - 1) as nat)) by (nonlinear_arith)
            requires
                n < 128 * pow(128, (k - 1) as nat),
        ;
        lemma_continued_digits_len(n / 128, (k - 1) as nat);
    }
}

/// A `usize` takes at most `MAX_LEN_BYTES` header bytes.
pub proof fn lemma_len_header_len(n: usize)
    ensures
        1 <= len_header(n as nat).len() <= MAX_LEN_BYTES,
{
    assert(pow(128, 9) == 0x8000_0000_0000_0000nat) by {
        reveal_with_fuel(pow, 10);
    }
    assert(usize::MAX as int <= 0xffff_ffff_ffff_ffffint);
    if n >= 128 {
        lemma_continued_digits_len(n as nat / 128, 9);
    }
}

proof fn lemma_continued_digits_count(m: nat)
    ensures
        continued_digits(m).len() == len_header(m).len(),
    decreases m,
{
    if m >= 128 {
        lemma_continued_digits_count(m / 128);
    }
}

/// The number of bytes of the header of a `len`-byte body.
pub fn len_header_size(len: usize) -> (k: usize)
    ensures
        k == len_header(len as nat).len(),
{
    let mut k: usize = 1;
    let mut v = len;
    proof {
        lemma_len_header_len(len);
    }
    while v >= 128
        invariant
            1 <= k,
            len_header(len as nat).len() == (k - 1) + len_header(v as nat).len(),
            len_header(len as nat).len() <= MAX_LEN_BYTES,
        decreases v,
    {
        proof {
            assert(v >> 7 == v / 128) by (bit_vector);
            lemma_continued_digits_count(v as nat / 128);
        }
        v = v >> 7;
        k += 1;
    }
    k
}

/// Tells whether `encode_len` can append the header of a `len`-byte body to `buffer`:
/// the condition that it requires.
pub fn can_encode_len(len: usize, buffer: &bytes::BytesMut) -> (b: bool)
    ensures
        b == (bytes_mut_contents(*buffer).len() + len_header(len as nat).len() <= isize::MAX),
{
    let k = len_header_size(len);
    proof {
        lemma_len_header_len(len);
        assert(isize::MAX >= 0x7fff_ffff);
    }
    buffer_len(buffer) <= isize::MAX as usize - k
}

/// Appends the length header of a `len`-byte body to `buffer`.
pub fn encode_len(len: usize, buffer: &mut bytes::BytesMut)
    requires
        bytes_mut_contents(*old(buffer)).len() + len_header(len as nat).len() <= isize::MAX,
    ensures
        bytes_mut_contents(*final(buffer)) == bytes_mut_contents(*old(buffer)) + len_header(
            len as nat,
        ),
{
    let ghost orig = len as nat;
    let mut rest = len;
    let mut encoding = [0u8; 10];
    let mut idx: usize = MAX_LEN_BYTES;
    proof {
        lemma_len_header_len(len);
    }
    loop
        invariant_except_break
            idx == MAX_LEN_BYTES ==> rest as nat == orig,
            idx < MAX_LEN_BYTES ==> rest >= 1 && len_header(orig) == continued_digits(rest as nat)
                + encoding@.subrange(idx as int, MAX_LEN_BYTES as int),
        invariant
            idx <= MAX_LEN_BYTES,
            encoding@.len() == MAX_LEN_BYTES,
            len_header(orig).len() <= MAX_LEN_BYTES,
        ensures
            idx < MAX_LEN_BYTES,
            encoding@.subrange(idx as int, MAX_LEN_BYTES as int) == len_header(orig),
        decreases rest,
    {
        let ghost cur = rest as nat;
        let ghost old_encoding = encoding@;
        proof {
            assert(rest & 0x7f == rest % 128) by (bit_vector);
            assert(rest >> 7 == rest / 128) by (bit_vector);
        }
        // Store 7 bits per byte
        let mut next_byte = (rest & 0x7f) as u8;
        rest >>= 7;
        if idx != MAX_LEN_BYTES {
            // Not the last byte: the top bit says that more bytes follow
            proof {
                assert(next_byte < 128 ==> next_byte | 0x80 == next_byte + 128) by (bit_vector);
            }
            next_byte |= 0x80;
        }
        proof {
            if idx < MAX_LEN_BYTES {
                assert(continued_digits(cur).len() >= 1);
            }
        }
        idx -= 1;
        encoding[idx] = next_byte;
        proof {
            assert(encoding@.subrange(idx as int + 1, MAX_LEN_BYTES as int) =~= old_encoding.subrange(
                idx as int + 1,
                MAX_LEN_BYTES as int,
            ));
            assert(encoding@.subrange(idx as int, MAX_LEN_BYTES as int) =~= seq![next_byte]
                + old_encoding.subrange(idx as int + 1, MAX_LEN_BYTES as int));
        }
        if rest == 0 {
            proof {
                if idx + 1 == MAX_LEN_BYTES {
                    assert(encoding@.subrange(idx as int, MAX_LEN_BYTES as int) =~= len_header(orig));
                } else {
                    assert(continued_digits(cur) == seq![next_byte]);
                    assert(encoding@.subrange(idx as int, MAX_LEN_BYTES as int) =~= len_header(orig));
                }
            }
            break;
        }
        proof {
            if idx + 1 == MAX_LEN_BYTES {
                assert(len_header(orig) =~= continued_digits(rest as nat) + encoding@.subrange(
                    idx as int,
                    MAX_LEN_BYTES as int,
                ));
            } else {
                assert(continued_digits(cur) == continued_digits(rest as nat).push(next_byte));
                assert(len_header(orig) =~= continued_digits(rest as nat) + encoding@.subrange(
                    idx as int,
                    MAX_LEN_BYTES as int,
                ));
            }
        }
    }
    let tail = vstd::slice::slice_subrange(encoding.as_slice(), idx, MAX_LEN_BYTES);
    buffer_put_slice(buffer, tail);
}

/// Every byte of `continued_digits` has its top bit set.
proof fn lemma_continued_digits_high(m: nat)
    ensures
        forall|j: int| 0 <= j < continued_digits(m).len() ==> continued_digits(m)[j] >= 128,
    decreases m,
{
    if m >= 128 {
        lemma_continued_digits_high(m / 128);
        let p = continued_digits(m / 128);
        let b = (m % 128 + 128) as u8;
        assert(b as int == m % 128 + 128);
        assert forall|j: int| 0 <= j < continued_digits(m).len() implies continued_digits(m)[j]
            >= 128 by {
            if j < p.len() {
                assert(continued_digits(m)[j] == p[j]);
            } else {
                assert(continued_digits(m)[j] == b);
            }
        }
    } else {
        assert(((m + 128) as u8) as int == m + 128);
    }
}

/// `continued_digits` spells out `m`.
proof fn lemma_continued_digits_value(m: nat)
    ensures
        digits_value(continued_digits(m)) == m,
    decreases m,
{
    let d = continued_digits(m);
    if m < 128 {
        assert(d.drop_last() =~= Seq::<u8>::empty());
        assert(digits_value(Seq::<u8>::empty()) == 0);
        assert(((m + 128) as u8) as int == m + 128);
    } else {
        lemma_continued_digits_value(m / 128);
        assert(d.drop_last() =~= continued_digits(m / 128));
        assert(((m % 128 + 128) as u8) as int == m % 128 + 128);
        vstd::arithmetic::div_mod::lemma_fundamental_div_mod(m as int, 128);
    }
}

/// The leading digit of a positive number is not zero, and the digits of `m` are as
/// many as its size in base 128 takes.
proof fn lemma_continued_digits_shape(m: nat)
    requires
        m >= 1,
    ensures
        continued_digits(m)[0] > 128,
        pow(128, (continued_digits(m).len() - 1) as nat) <= m,
        m < pow(128, continued_digits(m).len()),
    decreases m,
{
    let k = continued_digits(m).len();
    if m < 128 {
        assert(((m + 128) as u8) as int == m + 128);
        assert(pow(128, 0) == 1 && pow(128, 1) == 128) by {
            reveal_with_fuel(pow, 2);
        }
    } else {
        let q = m / 128;
        lemma_continued_digits_shape(q);
        let kq = continued_digits(q).len();
        assert(continued_digits(m)[0] == continued_digits(q)[0]);
        assert(pow(128, kq + 1) == 128 * pow(128, kq)) by {
            reveal(pow);
        }
        assert(pow(128, kq) == 128 * pow(128, (kq - 1) as nat)) by {
            reveal(pow);
        }
        let lo = pow(128, (kq - 1) as nat);
        let hi = pow(128, kq);
        assert(128 * lo <= m && m < 128 * hi) by (nonlinear_arith)
            requires
                lo <= q,
                q < hi,
                q == m / 128,
        ;
    }
}

/// A header spells out the length it was made from: its digits read back as `n`, every
/// byte but the last has its top bit set, the last has it clear, and the first byte of a
/// header of several bytes is no `0x80` (no leading zero digit). It takes as many bytes
/// as `n` takes digits in base 128: `n < 128^k`, and `128^(k - 1) <= n` when `k > 1`.
pub proof fn lemma_len_header_value(n: nat)
    ensures
        digits_value(len_header(n)) == n,
        forall|j: int| 0 <= j < len_header(n).len() - 1 ==> len_header(n)[j] >= 128,
        len_header(n).last() < 128,
        len_header(n).len() > 1 ==> len_header(n)[0] != 0x80,
        n < pow(128, len_header(n).len()),
        len_header(n).len() > 1 ==> pow(128, (len_header(n).len() - 1) as nat) <= n,
{
    let h = len_header(n);
    if n < 128 {
        assert(h.drop_last() =~= Seq::<u8>::empty());
        assert(digits_value(Seq::<u8>::empty()) == 0);
        assert((n as u8) as int == n);
        assert(pow(128, 1) == 128) by {
            reveal_with_fuel(pow, 2);
        }
    } else {
        lemma_continued_digits_value(n / 128);
        lemma_continued_digits_high(n / 128);
        lemma_continued_digits_shape(n / 128);
        assert(h.drop_last() =~= continued_digits(n / 128));
        assert(h[0] == continued_digits(n / 128)[0]);
        assert(((n % 128) as u8) as int == n % 128);
        vstd::arithmetic::div_mod::lemma_fundamental_div_mod(n as int, 128);
        let k = continued_digits(n / 128).len();
        assert(pow(128, k + 1) == 128 * pow(128, k)) by {
            reveal(pow);
        }
        let lo = pow(128, (k - 1) as nat);
        let hi = pow(128, k);
        assert(pow(128, k) == 128 * lo) by {
            reveal(pow);
        }
        assert(128 * lo <= n && n < 128 * hi) by (nonlinear_arith)
            requires
                lo <= n / 128,
                n / 128 < hi,
        ;
    }
}

/// A longer length never takes a shorter header.
pub proof fn lemma_len_header_monotonic(n: nat, m: nat)
    requires
        n <= m,
    ensures
        len_header(n).len() <= len_header(m).len(),
{
    lemma_len_header_value(n);
    lemma_len_header_value(m);
    let kn = len_header(n).len();
    let km = len_header(m).len();
    if kn > km {
        vstd::arithmetic::power::lemma_pow_increases(128, km, (kn - 1) as nat);
    }
}

/// Reading a header back: the header that `encode_len` writes for `n`, followed by any
/// bytes at all, is read by `decode_len` as a frame of `n` body bytes behind a header
/// of the same size, whenever that frame size fits in a `usize`.
pub proof fn lemma_len_roundtrip(n: usize, rest: Seq<u8>)
    requires
        n + len_header(n as nat).len() <= usize::MAX,
    ensures
        decoded_len(len_header(n as nat) + rest) == Some(
            ((n + len_header(n as nat).len()) as nat, len_header(n as nat).len()),
        ),
        decoded_len_fits(len_header(n as nat) + rest),
{
    let h = len_header(n as nat);
    let s = h + rest;
    lemma_len_header_value(n as nat);
    lemma_len_header_len(n);
    assert forall|j: int| 0 <= j < h.len() - 1 implies s[j] >= 128 by {
        assert(s[j] == h[j]);
    }
    assert(s[h.len() - 1] == h.last());
    lemma_header_size_at(s, (h.len() - 1) as nat);
    assert(s.take(h.len() as int) =~= h);
    vstd::arithmetic::div_mod::lemma_small_mod(n as nat, usize_modulus());
}

/// A header is read from its own bytes alone: once `s` holds a complete header, bytes
/// added after it do not change what is read.
pub proof fn lemma_decoded_len_prefix(s: Seq<u8>, t: Seq<u8>)
    requires
        decoded_len(s) is Some,
    ensures
        decoded_len(s + t) == decoded_len(s),
{
    lemma_header_size_prefix(s, t);
    let k = header_size(s).unwrap();
    lemma_header_size_bound(s);
    assert((s + t).take(k as int) =~= s.take(k as int));
}

proof fn lemma_header_size_bound(s: Seq<u8>)
    ensures
        header_size(s) matches Some(k) ==> 1 <= k <= s.len(),
    decreases s.len(),
{
    if s.len() > 0 {
        lemma_header_size_bound(s.drop_first());
    }
}

proof fn lemma_header_size_prefix(s: Seq<u8>, t: Seq<u8>)
    requires
        header_size(s) is Some,
    ensures
        header_size(s + t) == header_size(s),
    decreases s.len(),
{
    if s[0] >= 128 {
        assert((s + t).drop_first() =~= s.drop_first() + t);
        lemma_header_size_prefix(s.drop_first(), t);
    }
}

} // verus!
