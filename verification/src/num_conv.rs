use vstd::prelude::*;
use vstd::slice::slice_subrange;

verus! {

// What a row of bytes means as a number.

/// 256 to the power `n`: the number of values that `n` bytes can hold.
pub open spec fn pow256(n: nat) -> int
    decreases n,
{
    if n == 0 {
        1
    } else {
        256 * pow256((n - 1) as nat)
    }
}

/// 2^64, the number of values of a 64-bit word.
pub open spec fn two_64() -> int {
    0x1_0000_0000_0000_0000
}

/// Reads `bytes` as big-endian base-256 digits appended to the number `acc`.
pub open spec fn be_fold(acc: int, bytes: Seq<u8>) -> int
    decreases bytes.len(),
{
    if bytes.len() == 0 {
        acc
    } else {
        be_fold(acc * 256 + bytes[0] as int, bytes.drop_first())
    }
}

/// The big-endian unsigned value of `bytes`, of any length. The empty sequence is 0.
pub open spec fn be_unsigned(bytes: Seq<u8>) -> int {
    be_fold(0, bytes)
}

/// Whether the leading bit of `bytes` is set. The empty sequence is not negative.
pub open spec fn is_negative(bytes: Seq<u8>) -> bool {
    bytes.len() > 0 && bytes[0] >= 0x80
}

/// The big-endian two's-complement value of `bytes`, of any length: the digits
/// are appended to -1 where the leading bit is set and to 0 where it is not.
pub open spec fn be_signed(bytes: Seq<u8>) -> int {
    be_fold(if is_negative(bytes) { -1int } else { 0int }, bytes)
}

/// `v` reduced modulo 2^64 into the range of `u64`.
pub open spec fn wrap_u64(v: int) -> u64 {
    (v % two_64()) as u64
}

/// `v` reduced modulo 2^64 into the range of `i64`.
pub open spec fn wrap_i64(v: int) -> i64 {
    let m = v % two_64();
    if m < 0x8000_0000_0000_0000 {
        m as i64
    } else {
        (m - two_64()) as i64
    }
}

/// What a 64-bit word keeps of a big-endian buffer: the unsigned or the
/// two's-complement value of `bytes`, reduced modulo 2^64.
pub open spec fn number_of_bytes(bytes: Seq<u8>, signed: bool) -> u64 {
    wrap_u64(if signed { be_signed(bytes) } else { be_unsigned(bytes) })
}

/// Whether the first byte of `bytes` only extends the sign of the byte behind it,
/// so that the buffer without it has the same value in two's complement.
pub open spec fn leads_with_sign(bytes: Seq<u8>) -> bool {
    bytes.len() > 1 && ((bytes[0] == 0x00 && bytes[1] < 0x80) || (bytes[0] == 0xff && bytes[1]
        >= 0x80))
}

/// The bytes that extend the sign of `bytes` to the left by `count` places: all
/// ones in front of a set leading bit, all zeros otherwise.
pub open spec fn sign_padding(bytes: Seq<u8>, count: nat) -> Seq<u8> {
    Seq::new(count, |i: int| if is_negative(bytes) { 0xffu8 } else { 0x00u8 })
}

// What a number looks like as bytes.

/// The `width` low-order base-256 digits of `v`, most significant first. For a
/// negative `v` these are the digits of its two's complement.
pub open spec fn be_bytes(v: int, width: nat) -> Seq<u8>
    decreases width,
{
    if width == 0 {
        Seq::empty()
    } else {
        be_bytes(v / 256, (width - 1) as nat).push((v % 256) as u8)
    }
}

/// The number of bytes that the unsigned number `v` needs: none for 0.
pub open spec fn unsigned_len(v: u64) -> nat {
    if v == 0 {
        0
    } else if v < 0x100 {
        1
    } else if v < 0x1_0000 {
        2
    } else if v < 0x100_0000 {
        3
    } else if v < 0x1_0000_0000 {
        4
    } else if v < 0x100_0000_0000 {
        5
    } else if v < 0x1_0000_0000_0000 {
        6
    } else if v < 0x100_0000_0000_0000 {
        7
    } else {
        8
    }
}

/// The number of bytes that the signed number `v` needs in two's complement, the
/// sign bit included: at least one.
pub open spec fn signed_len(v: i64) -> nat {
    if -0x80 <= v < 0x80 {
        1
    } else if -0x8000 <= v < 0x8000 {
        2
    } else if -0x80_0000 <= v < 0x80_0000 {
        3
    } else if -0x8000_0000 <= v < 0x8000_0000 {
        4
    } else if -0x80_0000_0000 <= v < 0x80_0000_0000 {
        5
    } else if -0x8000_0000_0000 <= v < 0x8000_0000_0000 {
        6
    } else if -0x80_0000_0000_0000 <= v < 0x80_0000_0000_0000 {
        7
    } else {
        8
    }
}

/// The shortest big-endian encoding of the unsigned number `v`: no byte for 0,
/// and no leading zero byte for any other number.
pub open spec fn minimal_unsigned(v: u64) -> Seq<u8> {
    be_bytes(v as int, unsigned_len(v))
}

/// The shortest big-endian two's-complement encoding of the signed number `v`:
/// no byte for 0.
pub open spec fn minimal_signed(v: i64) -> Seq<u8> {
    if v == 0 {
        Seq::empty()
    } else {
        be_bytes(v as int, signed_len(v))
    }
}

// Facts about the value of a row of bytes.

/// The powers of 256 that the fixed widths of one to eight bytes need.
pub proof fn lemma_pow256_values()
    ensures
        pow256(0) == 1,
        pow256(1) == 0x100,
        pow256(2) == 0x1_0000,
        pow256(3) == 0x100_0000,
        pow256(4) == 0x1_0000_0000,
        pow256(5) == 0x100_0000_0000,
        pow256(6) == 0x1_0000_0000_0000,
        pow256(7) == 0x100_0000_0000_0000,
        pow256(8) == 0x1_0000_0000_0000_0000,
{
    reveal_with_fuel(pow256, 9);
}

/// The powers of 256 grow with the exponent.
pub proof fn lemma_pow256_monotonic(a: nat, b: nat)
    requires
        a <= b,
    ensures
        0 < pow256(a) <= pow256(b),
    decreases b,
{
    if a == b {
        lemma_be_bytes(0, a);
    } else {
        lemma_pow256_monotonic(a, (b - 1) as nat);
    }
}

/// The value of a buffer splits into the accumulator, shifted past the digits,
/// and the unsigned value of the digits, which is below 256^len.
pub proof fn lemma_be_fold_split(acc: int, bytes: Seq<u8>)
    ensures
        be_fold(acc, bytes) == acc * pow256(bytes.len()) + be_unsigned(bytes),
        0 <= be_unsigned(bytes) < pow256(bytes.len()),
        bytes.len() > 0 ==> bytes[0] * pow256((bytes.len() - 1) as nat) <= be_unsigned(bytes) < (
        bytes[0] + 1) * pow256((bytes.len() - 1) as nat),
    decreases bytes.len(),
{
    if bytes.len() == 0 {
        assert(acc * 1 == acc) by (nonlinear_arith);
    } else {
        let rest = bytes.drop_first();
        let b = bytes[0] as int;
        let p = pow256(rest.len());
        assert(be_unsigned(bytes) == be_fold(b, rest));
        assert(be_fold(acc, bytes) == be_fold(acc * 256 + b, rest));
        lemma_be_fold_split(acc * 256 + b, rest);
        lemma_be_fold_split(b, rest);
        assert(pow256(bytes.len()) == 256 * p);
        assert((acc * 256 + b) * p == acc * (256 * p) + b * p) by (nonlinear_arith);
        assert((b + 1) * p == b * p + p) by (nonlinear_arith);
        assert((b + 1) * p <= 256 * p) by (nonlinear_arith)
            requires
                b <= 255,
                p >= 0,
        ;
        assert(b * p >= 0) by (nonlinear_arith)
            requires
                b >= 0,
                p >= 0,
        ;
    }
}

/// A digit appended at the end multiplies what came before by 256.
pub proof fn lemma_be_fold_push(acc: int, bytes: Seq<u8>, last: u8)
    ensures
        be_fold(acc, bytes.push(last)) == be_fold(acc, bytes) * 256 + last,
    decreases bytes.len(),
{
    if bytes.len() == 0 {
        assert(bytes.push(last).drop_first() =~= Seq::<u8>::empty());
        assert(be_fold(acc * 256 + last, Seq::<u8>::empty()) == acc * 256 + last);
    } else {
        assert(bytes.push(last).drop_first() =~= bytes.drop_first().push(last));
        lemma_be_fold_push(acc * 256 + bytes[0], bytes.drop_first(), last);
    }
}

/// A buffer of `len` bytes holds a two's-complement value of `8 * len` bits.
pub proof fn lemma_be_signed_bounds(bytes: Seq<u8>)
    requires
        bytes.len() > 0,
    ensures
        -128 * pow256((bytes.len() - 1) as nat) <= be_signed(bytes) < 128 * pow256(
            (bytes.len() - 1) as nat,
        ),
        is_negative(bytes) <==> be_signed(bytes) < 0,
        be_signed(bytes) == be_unsigned(bytes) - if is_negative(bytes) {
            pow256(bytes.len())
        } else {
            0
        },
{
    let p = pow256((bytes.len() - 1) as nat);
    let b = bytes[0] as int;
    lemma_be_fold_split(-1, bytes);
    lemma_be_fold_split(0, bytes);
    assert(pow256(bytes.len()) == 256 * p);
    assert(b >= 128 ==> b * p >= 128 * p) by (nonlinear_arith)
        requires
            p >= 0,
    ;
    assert(b < 128 ==> (b + 1) * p <= 128 * p) by (nonlinear_arith)
        requires
            p >= 0,
    ;
    assert(p >= 0) by {
        lemma_be_fold_split(0, bytes.drop_first());
    }
}

/// A number in the range of a 64-bit word is its own reduction.
pub proof fn lemma_wrap_in_range(v: int)
    ensures
        0 <= v < two_64() ==> wrap_u64(v) == v,
        -0x8000_0000_0000_0000 <= v < 0x8000_0000_0000_0000 ==> wrap_i64(v) == v,
{
}

/// Appending a digit to an accumulator and reducing commutes with reducing first.
proof fn lemma_wrap_step(acc: int, b: u8)
    ensures
        wrap_u64(acc * 256 + b as int) as int == (wrap_u64(acc) as int
            % 0x0100_0000_0000_0000) * 256 + b as int,
{
    let m = two_64();
    let q = acc / m;
    let r = acc % m;
    assert(acc == q * m + r) by (nonlinear_arith)
        requires
            m != 0,
            q == acc / m,
            r == acc % m,
    ;
    let h = r / 0x0100_0000_0000_0000;
    let l = r % 0x0100_0000_0000_0000;
    let k = q * 256 + h;
    assert(acc * 256 + b as int == k * m + (l * 256 + b as int)) by (nonlinear_arith)
        requires
            acc == q * m + r,
            r == h * 0x0100_0000_0000_0000 + l,
            m == 0x1_0000_0000_0000_0000,
            k == q * 256 + h,
    ;
    assert(0 <= l * 256 + (b as int) && l * 256 + (b as int) < m);
    vstd::arithmetic::div_mod::lemma_fundamental_div_mod_converse(
        acc * 256 + b as int,
        m,
        k,
        l * 256 + b as int,
    );
}

/// Reading a 64-bit word as a signed number is reduction into the signed range.
pub proof fn lemma_reinterpret_i64(x: u64)
    ensures
        x < 0x8000_0000_0000_0000 ==> x as i64 == x,
        x >= 0x8000_0000_0000_0000 ==> x as i64 == x - two_64(),
{
    assert(x < 0x8000_0000_0000_0000 ==> x as i64 == x) by (bit_vector);
    assert(x >= 0x8000_0000_0000_0000 ==> x as i64 == x - 0x1_0000_0000_0000_0000) by (bit_vector);
}

/// A payload of at most eight bytes fits a 64-bit word: the word holds its value
/// as it is, unsigned or in two's complement.
pub proof fn lemma_short_payload_exact(bytes: Seq<u8>)
    requires
        bytes.len() <= 8,
    ensures
        number_of_bytes(bytes, false) == be_unsigned(bytes),
        wrap_i64(be_signed(bytes)) == be_signed(bytes),
{
    lemma_pow256_values();
    lemma_be_fold_split(0, bytes);
    assert(pow256(bytes.len()) <= two_64()) by {
        if bytes.len() == 0 {
        } else if bytes.len() == 1 {
        } else if bytes.len() == 2 {
        } else if bytes.len() == 3 {
        } else if bytes.len() == 4 {
        } else if bytes.len() == 5 {
        } else if bytes.len() == 6 {
        } else if bytes.len() == 7 {
        } else {
        }
    }
    lemma_wrap_in_range(be_unsigned(bytes));
    if bytes.len() > 0 {
        lemma_be_signed_bounds(bytes);
        assert(128 * pow256((bytes.len() - 1) as nat) <= 0x8000_0000_0000_0000) by {
            if bytes.len() == 1 {
            } else if bytes.len() == 2 {
            } else if bytes.len() == 3 {
            } else if bytes.len() == 4 {
            } else if bytes.len() == 5 {
            } else if bytes.len() == 6 {
            } else if bytes.len() == 7 {
            } else {
            }
        }
    }
    lemma_wrap_in_range(be_signed(bytes));
}

/// A leading zero byte does not change the unsigned value of a buffer.
pub proof fn lemma_leading_zero(bytes: Seq<u8>)
    requires
        bytes.len() > 0,
        bytes[0] == 0,
    ensures
        be_unsigned(bytes) == be_unsigned(bytes.drop_first()),
{
}

/// An unsigned number of more than eight bytes whose first byte is not zero is
/// beyond the range of a 64-bit word.
pub proof fn lemma_long_unsigned_overflows(bytes: Seq<u8>)
    requires
        bytes.len() > 8,
        bytes[0] != 0,
    ensures
        be_unsigned(bytes) > u64::MAX,
{
    let p = pow256((bytes.len() - 1) as nat);
    lemma_be_fold_split(0, bytes);
    lemma_pow256_monotonic(8, (bytes.len() - 1) as nat);
    lemma_pow256_values();
    assert(bytes[0] * p >= p) by (nonlinear_arith)
        requires
            bytes[0] >= 1,
            p > 0,
    ;
}

/// Extending the sign of a buffer to the left does not change its value in
/// two's complement.
pub proof fn lemma_sign_extension(bytes: Seq<u8>, count: nat)
    ensures
        be_signed(sign_padding(bytes, count) + bytes) == be_signed(bytes),
    decreases count,
{
    let padded = sign_padding(bytes, count) + bytes;
    if count == 0 {
        assert(padded =~= bytes);
    } else {
        let shorter = sign_padding(bytes, (count - 1) as nat) + bytes;
        lemma_sign_extension(bytes, (count - 1) as nat);
        assert(padded.drop_first() =~= shorter);
        if is_negative(bytes) {
            assert(padded[0] == 0xff);
            assert(is_negative(shorter)) by {
                if count == 1 {
                    assert(shorter =~= bytes);
                }
            }
            assert(be_signed(padded) == be_fold(-1int * 256 + 0xff, shorter));
        } else {
            assert(padded[0] == 0);
            assert(!is_negative(shorter)) by {
                if count == 1 {
                    assert(shorter =~= bytes);
                }
            }
            assert(be_signed(padded) == be_fold(0int * 256 + 0, shorter));
        }
    }
}

/// A byte that only extends the sign can go.
pub proof fn lemma_drop_sign_byte(bytes: Seq<u8>)
    requires
        leads_with_sign(bytes),
    ensures
        be_signed(bytes) == be_signed(bytes.drop_first()),
{
    let tail = bytes.drop_first();
    lemma_sign_extension(tail, 1);
    assert(sign_padding(tail, 1) + tail =~= bytes);
}

/// A signed number of more than eight bytes whose first byte does more than
/// extend the sign is beyond the range of a 64-bit word.
pub proof fn lemma_long_signed_overflows(bytes: Seq<u8>)
    requires
        bytes.len() > 8,
        !leads_with_sign(bytes),
    ensures
        be_signed(bytes) < i64::MIN || be_signed(bytes) > i64::MAX,
{
    let len = bytes.len();
    let tail = bytes.drop_first();
    let p = pow256((len - 1) as nat);
    let q = pow256((len - 2) as nat);
    let b0 = bytes[0] as int;
    let b1 = bytes[1] as int;
    lemma_be_fold_split(0, bytes);
    lemma_be_fold_split(b0, tail);
    lemma_be_fold_split(0, tail);
    lemma_be_signed_bounds(bytes);
    lemma_pow256_monotonic(7, (len - 2) as nat);
    lemma_pow256_values();
    assert(p == 256 * q);
    assert(pow256(len) == 256 * p);
    assert(be_unsigned(bytes) == b0 * p + be_unsigned(tail));
    if b0 == 0 {
        assert(b1 * q >= 128 * q) by (nonlinear_arith)
            requires
                b1 >= 128,
                q > 0,
        ;
    } else if b0 == 0xff {
        assert((b1 + 1) * q <= 128 * q) by (nonlinear_arith)
            requires
                b1 < 128,
                q > 0,
        ;
    } else if b0 < 0x80 {
        assert(b0 * p >= p) by (nonlinear_arith)
            requires
                b0 >= 1,
                p > 0,
        ;
    } else {
        assert((b0 + 1) * p <= 255 * p) by (nonlinear_arith)
            requires
                b0 <= 254,
                p > 0,
        ;
    }
}

// Facts about the bytes of a number.

/// The fixed-width encoding has `width` bytes, and read back as an unsigned
/// number it gives `v` modulo 256^width.
pub proof fn lemma_be_bytes(v: int, width: nat)
    ensures
        be_bytes(v, width).len() == width,
        be_unsigned(be_bytes(v, width)) == v % pow256(width),
        pow256(width) > 0,
    decreases width,
{
    if width == 0 {
    } else {
        let p = pow256((width - 1) as nat);
        let high = v / 256;
        let low = v % 256;
        lemma_be_bytes(high, (width - 1) as nat);
        lemma_be_fold_push(0, be_bytes(high, (width - 1) as nat), low as u8);
        let q = high / p;
        let r = high % p;
        assert(high == p * q + r) by (nonlinear_arith)
            requires
                p > 0,
                q == high / p,
                r == high % p,
        ;
        assert(v == (256 * p) * q + (256 * r + low)) by (nonlinear_arith)
            requires
                v == 256 * high + low,
                high == p * q + r,
        ;
        assert(0 <= 256 * r + low && 256 * r + low < 256 * p);
        vstd::arithmetic::div_mod::lemma_fundamental_div_mod_converse(
            v,
            256 * p,
            q,
            256 * r + low,
        );
    }
}

/// The fixed-width encoding of a number that fits the width reads back as the
/// number: as an unsigned number where `v` is not negative, and as a
/// two's-complement number where `v` fits with its sign.
pub proof fn lemma_be_bytes_value(v: int, width: nat)
    ensures
        0 <= v < pow256(width) ==> be_unsigned(be_bytes(v, width)) == v,
        width > 0 && -128 * pow256((width - 1) as nat) <= v < 128 * pow256((width - 1) as nat)
            ==> be_signed(be_bytes(v, width)) == v,
{
    let p = pow256(width);
    lemma_be_bytes(v, width);
    if 0 <= v < p {
        vstd::arithmetic::div_mod::lemma_small_mod(v as nat, p as nat);
    }
    if width > 0 && -128 * pow256((width - 1) as nat) <= v < 128 * pow256((width - 1) as nat) {
        let bytes = be_bytes(v, width);
        let half = 128 * pow256((width - 1) as nat);
        assert(p == 2 * half);
        lemma_be_fold_split(0, bytes);
        lemma_be_signed_bounds(bytes);
        if v >= 0 {
            vstd::arithmetic::div_mod::lemma_small_mod(v as nat, p as nat);
            assert(bytes[0] < 128) by (nonlinear_arith)
                requires
                    bytes[0] * pow256((width - 1) as nat) <= v,
                    v < 128 * pow256((width - 1) as nat),
                    pow256((width - 1) as nat) > 0,
            ;
        } else {
            vstd::arithmetic::div_mod::lemma_fundamental_div_mod_converse(v, p, -1, v + p);
            assert(bytes[0] >= 128) by (nonlinear_arith)
                requires
                    v + 256 * pow256((width - 1) as nat) < (bytes[0] + 1) * pow256(
                        (width - 1) as nat,
                    ),
                    v >= -128 * pow256((width - 1) as nat),
                    pow256((width - 1) as nat) > 0,
            ;
        }
    }
}

/// Numbers that differ by a multiple of 256^width have the same encoding of that
/// width.
pub proof fn lemma_be_bytes_periodic(v: int, width: nat, k: int)
    ensures
        be_bytes(v + k * pow256(width), width) == be_bytes(v, width),
    decreases width,
{
    if width > 0 {
        let p = pow256((width - 1) as nat);
        let w = v + k * pow256(width);
        assert(w == v + (k * p) * 256) by (nonlinear_arith)
            requires
                w == v + k * (256 * p),
        ;
        let q = v / 256;
        let r = v % 256;
        vstd::arithmetic::div_mod::lemma_fundamental_div_mod_converse(w, 256, q + k * p, r);
        lemma_be_bytes_periodic(q, (width - 1) as nat, k);
    }
}

/// A signed word and the same bits read as an unsigned word have the same
/// encoding of any width up to eight bytes.
pub proof fn lemma_be_bytes_of_word(v: i64, width: nat)
    requires
        width <= 8,
    ensures
        be_bytes((v as u64) as int, width) == be_bytes(v as int, width),
{
    let x = v as u64;
    assert(v >= 0 ==> x == v) by (bit_vector)
        requires
            x == v as u64,
    ;
    assert(v < 0 ==> x == v + 0x1_0000_0000_0000_0000) by (bit_vector)
        requires
            x == v as u64,
    ;
    if v < 0 {
        lemma_pow256_values();
        let k = pow256((8 - width) as nat);
        assert(k * pow256(width) == two_64()) by {
            if width == 0 {
            } else if width == 1 {
            } else if width == 2 {
            } else if width == 3 {
            } else if width == 4 {
            } else if width == 5 {
            } else if width == 6 {
            } else if width == 7 {
            } else {
            }
        }
        lemma_be_bytes_periodic(v as int, width, k);
    }
}

/// The shortest encoding of an unsigned number reads back as the number.
pub proof fn lemma_minimal_unsigned_value(v: u64)
    ensures
        minimal_unsigned(v).len() == unsigned_len(v),
        be_unsigned(minimal_unsigned(v)) == v,
        number_of_bytes(minimal_unsigned(v), false) == v,
{
    lemma_pow256_values();
    lemma_be_bytes(v as int, unsigned_len(v));
    lemma_be_bytes_value(v as int, unsigned_len(v));
    lemma_wrap_in_range(v as int);
}

/// The shortest encoding of a signed number reads back as the number.
pub proof fn lemma_minimal_signed_value(v: i64)
    ensures
        be_signed(minimal_signed(v)) == v,
        wrap_i64(be_signed(minimal_signed(v))) == v,
{
    lemma_pow256_values();
    if v != 0 {
        lemma_be_bytes(v as int, signed_len(v));
        lemma_be_bytes_value(v as int, signed_len(v));
    }
    lemma_wrap_in_range(v as int);
}

/// The shortest encoding of 0 is empty, and the shortest encoding of any other
/// unsigned number does not start with a zero byte.
pub proof fn lemma_minimal_unsigned_is_minimal(v: u64)
    ensures
        v == 0 ==> minimal_unsigned(v) == Seq::<u8>::empty(),
        v > 0 ==> minimal_unsigned(v).len() > 0 && minimal_unsigned(v)[0] != 0,
{
    if v > 0 {
        let bytes = minimal_unsigned(v);
        let p = pow256((unsigned_len(v) - 1) as nat);
        lemma_pow256_values();
        lemma_minimal_unsigned_value(v);
        lemma_be_fold_split(0, bytes);
        assert(v >= p);
        if bytes[0] == 0 {
            assert((bytes[0] + 1) * p == p) by (nonlinear_arith)
                requires
                    bytes[0] == 0,
            ;
        }
    }
}

// From bytes to numbers.

/// Interprets `bytes` as a big-endian number and keeps its low 64 bits. With
/// `signed`, a set leading bit extends the sign to the left.
pub fn bytes_to_number(bytes: &[u8], signed: bool) -> (result: u64)
    ensures
        result == number_of_bytes(bytes@, signed),
{
    if bytes.len() == 0 {
        return 0;
    }
    let negative = signed && bytes[0] >= 0x80;
    let mut result: u64 = if negative { 0xffff_ffff_ffff_ffff } else { 0 };
    let ghost start: int = if negative { -1int } else { 0int };
    let ghost mut acc: int = start;
    let mut i: usize = 0;
    assert(bytes@.skip(0) =~= bytes@);
    while i < bytes.len()
        invariant
            0 <= i <= bytes.len(),
            result == wrap_u64(acc),
            be_fold(acc, bytes@.skip(i as int)) == be_fold(start, bytes@),
        decreases bytes.len() - i,
    {
        let byte = bytes[i];
        proof {
            lemma_wrap_step(acc, byte);
            assert(bytes@.skip(i as int).drop_first() =~= bytes@.skip(i + 1));
            acc = acc * 256 + byte as int;
        }
        result = (result % 0x0100_0000_0000_0000) * 256 + byte as u64;
        i += 1;
    }
    result
}

/// The unsigned value of a payload of any length, if a 64-bit word can hold it.
pub fn bytes_to_u64(bytes: &[u8]) -> (r: Option<u64>)
    ensures
        match r {
            Some(value) => value == be_unsigned(bytes@),
            None => be_unsigned(bytes@) > u64::MAX,
        },
{
    let mut rest = bytes;
    while rest.len() > 8
        invariant
            be_unsigned(rest@) == be_unsigned(bytes@),
        decreases rest@.len(),
    {
        if rest[0] != 0 {
            proof {
                lemma_long_unsigned_overflows(rest@);
            }
            return None;
        }
        proof {
            lemma_leading_zero(rest@);
        }
        let ghost before = rest@;
        rest = slice_subrange(rest, 1, rest.len());
        assert(rest@ =~= before.drop_first());
    }
    proof {
        lemma_short_payload_exact(rest@);
    }
    Some(bytes_to_number(rest, false))
}

/// The two's-complement value of a payload of any length, if a 64-bit word can
/// hold it.
pub fn bytes_to_i64(bytes: &[u8]) -> (r: Option<i64>)
    ensures
        match r {
            Some(value) => value == be_signed(bytes@),
            None => be_signed(bytes@) < i64::MIN || be_signed(bytes@) > i64::MAX,
        },
{
    let mut rest = bytes;
    while rest.len() > 8
        invariant
            be_signed(rest@) == be_signed(bytes@),
        decreases rest@.len(),
    {
        let removable = (rest[0] == 0x00 && rest[1] < 0x80) || (rest[0] == 0xff && rest[1] >= 0x80);
        if !removable {
            proof {
                lemma_long_signed_overflows(rest@);
            }
            return None;
        }
        proof {
            lemma_drop_sign_byte(rest@);
        }
        let ghost before = rest@;
        rest = slice_subrange(rest, 1, rest.len());
        assert(rest@ =~= before.drop_first());
    }
    let word = bytes_to_number(rest, true);
    proof {
        lemma_short_payload_exact(rest@);
        lemma_reinterpret_i64(word);
    }
    Some(word as i64)
}

// From numbers to bytes.

/// Writes the `width` low-order bytes of `x`, most significant first. Beyond the
/// eight bytes of a 64-bit word these are zeros.
pub fn encode_be(x: u64, width: usize) -> (bytes: Vec<u8>)
    ensures
        bytes@ == be_bytes(x as int, width as nat),
{
    let mut bytes: Vec<u8> = Vec::new();
    let mut rest = x;
    let mut i: usize = 0;
    while i < width
        invariant
            i <= width,
            be_bytes(x as int, width as nat) == be_bytes(rest as int, (width - i) as nat) + bytes@,
        decreases width - i,
    {
        let ghost before = bytes@;
        bytes.insert(0, (rest % 256) as u8);
        proof {
            assert(be_bytes(rest as int, (width - i) as nat) + before =~= be_bytes(
                rest as int / 256,
                (width - i - 1) as nat,
            ) + bytes@);
        }
        rest = rest / 256;
        i += 1;
    }
    bytes
}

/// The number of bytes that the unsigned number `v` needs.
pub fn unsigned_byte_len(v: u64) -> (len: usize)
    ensures
        len == unsigned_len(v),
{
    if v == 0 {
        0
    } else if v < 0x100 {
        1
    } else if v < 0x1_0000 {
        2
    } else if v < 0x100_0000 {
        3
    } else if v < 0x1_0000_0000 {
        4
    } else if v < 0x100_0000_0000 {
        5
    } else if v < 0x1_0000_0000_0000 {
        6
    } else if v < 0x100_0000_0000_0000 {
        7
    } else {
        8
    }
}

/// The number of bytes that the signed number `v` needs in two's complement.
pub fn signed_byte_len(v: i64) -> (len: usize)
    ensures
        len == signed_len(v),
{
    if -0x80 <= v && v < 0x80 {
        1
    } else if -0x8000 <= v && v < 0x8000 {
        2
    } else if -0x80_0000 <= v && v < 0x80_0000 {
        3
    } else if -0x8000_0000 <= v && v < 0x8000_0000 {
        4
    } else if -0x80_0000_0000 <= v && v < 0x80_0000_0000 {
        5
    } else if -0x8000_0000_0000 <= v && v < 0x8000_0000_0000 {
        6
    } else if -0x80_0000_0000_0000 <= v && v < 0x80_0000_0000_0000 {
        7
    } else {
        8
    }
}

/// The bytes of a number that is a whole payload: as few as its value needs.
/// With `signed`, the word `x` is read in two's complement and keeps its sign
/// bit.
pub fn top_encode_number(x: u64, signed: bool) -> (bytes: Vec<u8>)
    ensures
        bytes@ == if signed {
            minimal_signed(x as i64)
        } else {
            minimal_unsigned(x)
        },
{
    if x == 0 {
        return Vec::new();
    }
    if signed {
        let v = x as i64;
        proof {
            lemma_reinterpret_i64(x);
            lemma_be_bytes_of_word(v, signed_len(v));
            assert(v as u64 == x) by (bit_vector)
                requires
                    v == x as i64,
            ;
        }
        encode_be(x, signed_byte_len(v))
    } else {
        encode_be(x, unsigned_byte_len(x))
    }
}

} // verus!
