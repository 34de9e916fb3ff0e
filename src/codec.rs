use vstd::prelude::*;
use vstd::arithmetic::power::{pow, lemma_pow_increases, lemma_pow_positive};

use crate::bytes::{i16_le, read_i16_le};
use crate::date::{calendar_add_days, calendar_add_days_exec, Date};
use crate::errors::FerricError;
use crate::text::{decimal_text, push_char, push_decimal};

verus! {

/// The digit held by a byte's low nibble, capped at 9.
pub open spec fn low_digit(b: u8) -> int {
    if b % 16 > 9 { 9 } else { (b % 16) as int }
}

/// The digit held by a byte's high nibble, capped at 9.
pub open spec fn high_digit(b: u8) -> int {
    if b / 16 > 9 { 9 } else { (b / 16) as int }
}

/// An unpacked BCD byte: the low nibble is the digit and a zero high
/// nibble marks the digit as negative.
pub open spec fn unpacked_bcd_value(b: u8) -> int {
    if b / 16 == 0 { -low_digit(b) } else { low_digit(b) }
}

/// The two digits of a packed BCD byte, the low nibble at weight `10^p`
/// and the high nibble at weight `10^(p+1)`.
pub open spec fn packed_bcd_value(b: u8, p: nat) -> int {
    low_digit(b) * pow(10, p) + high_digit(b) * pow(10, p + 1)
}

/// A packed BCD byte at weight zero.
pub open spec fn packed_byte_value(b: u8) -> int {
    low_digit(b) + 10 * high_digit(b)
}

pub open spec fn fits_i64(v: int) -> bool {
    i64::MIN <= v <= i64::MAX
}

/// A run of packed BCD bytes stored least significant byte last.
pub open spec fn bcd_magnitude(s: Seq<u8>) -> int
    decreases s.len(),
{
    if s.len() == 0 {
        0
    } else {
        100 * bcd_magnitude(s.drop_last()) + packed_byte_value(s.last())
    }
}

/// Whether a BCD buffer reads as negative: only a signed buffer of more
/// than two bytes, by a zero high nibble in its sign byte.
pub open spec fn bcd_negative(s: Seq<u8>, signed: bool) -> bool {
    signed && s.len() > 2 && s[0] / 16 == 0
}

/// The unsigned part of a non-empty BCD integer buffer: one byte is a
/// packed BCD byte, two bytes a little-endian `i16`, and a longer buffer a
/// packed BCD run after its sign byte (when signed).
pub open spec fn bcd_int_magnitude(s: Seq<u8>, signed: bool) -> int {
    if s.len() == 1 {
        packed_byte_value(s[0])
    } else if s.len() == 2 {
        i16_le(s, 0)
    } else {
        bcd_magnitude(s.subrange(if signed { 1 } else { 0 }, s.len() as int))
    }
}

/// The value of a non-empty BCD integer buffer.
pub open spec fn bcd_int_value(s: Seq<u8>, signed: bool) -> int {
    if bcd_negative(s, signed) {
        -bcd_int_magnitude(s, signed)
    } else {
        bcd_int_magnitude(s, signed)
    }
}

/// The outcome of decoding a BCD integer buffer: an error when it is empty
/// or its magnitude exceeds `i64::MAX`.
pub open spec fn bcd_int_result(s: Seq<u8>, signed: bool) -> Result<i64, FerricError> {
    if s.len() == 0 || bcd_int_magnitude(s, signed) > i64::MAX {
        Err(FerricError::BcdDecoding)
    } else {
        Ok(bcd_int_value(s, signed) as i64)
    }
}

proof fn lemma_pow10_step(k: nat)
    ensures
        pow(10, k + 1) == 10 * pow(10, k),
        pow(10, 0) == 1,
{
    reveal(pow);
}

pub proof fn lemma_magnitude_nonneg(s: Seq<u8>)
    ensures
        bcd_magnitude(s) >= 0,
    decreases s.len(),
{
    if s.len() > 0 {
        lemma_magnitude_nonneg(s.drop_last());
    }
}

/// A BCD run never shrinks when more bytes are appended to it.
pub proof fn lemma_magnitude_prefix(s: Seq<u8>, i: int, j: int)
    requires
        0 <= i <= j <= s.len(),
    ensures
        bcd_magnitude(s.subrange(0, i)) <= bcd_magnitude(s.subrange(0, j)),
    decreases j - i,
{
    if i < j {
        lemma_magnitude_prefix(s, i, j - 1);
        assert(s.subrange(0, j).drop_last() =~= s.subrange(0, j - 1));
        lemma_magnitude_nonneg(s.subrange(0, j - 1));
    }
}

/// Decodes one unpacked BCD byte.
pub fn int_from_unpacked_bcd(data: u8) -> (r: i64)
    ensures
        r == unpacked_bcd_value(data),
{
    let low: i64 = if data % 16 > 9 { 9 } else { (data % 16) as i64 };
    if data / 16 == 0 { -low } else { low }
}

/// Decodes one packed BCD byte at weight `10^idx` (zero when absent); a
/// value that does not fit in an `i64` decodes to zero.
pub fn int_from_packed_bcd(data: u8, idx: Option<u32>) -> (r: i64)
    ensures
        ({
            let p = match idx { Some(v) => v as nat, None => 0nat };
            r == if fits_i64(packed_bcd_value(data, p)) { packed_bcd_value(data, p) } else { 0 }
        }),
{
    let p: u32 = match idx {
        Some(v) => v,
        None => 0,
    };
    let low: i64 = if data % 16 > 9 { 9 } else { (data % 16) as i64 };
    let high: i64 = if data / 16 > 9 { 9 } else { (data / 16) as i64 };
    let ghost value = packed_bcd_value(data, p as nat);
    proof {
        lemma_pow_positive(10, p as nat);
        lemma_pow_positive(10, (p + 1) as nat);
        lemma_pow10_step(0);
    }
    let mut weight: i64 = 1;
    let mut k: u32 = 0;
    while k < p
        invariant
            0 <= k <= p,
            weight == pow(10, k as nat),
            0 <= low <= 9,
            0 <= high <= 9,
            low == low_digit(data),
            high == high_digit(data),
            pow(10, p as nat) > 0,
            pow(10, (p + 1) as nat) > 0,
            p == match idx { Some(v) => v, None => 0u32 },
        decreases p - k,
    {
        proof {
            lemma_pow10_step(k as nat);
        }
        match weight.checked_mul(10) {
            Some(w) => {
                weight = w;
            },
            None => {
                proof {
                    lemma_pow_positive(10, k as nat);
                    assert(weight * 10 > i64::MAX);
                    assert(pow(10, (k + 1) as nat) > i64::MAX);
                    lemma_pow_increases(10, (k + 1) as nat, p as nat);
                    lemma_pow_increases(10, p as nat, (p + 1) as nat);
                    assert(low * pow(10, p as nat) >= 0) by (nonlinear_arith)
                        requires low >= 0, pow(10, p as nat) > 0;
                    assert(high * pow(10, (p + 1) as nat) >= 0) by (nonlinear_arith)
                        requires high >= 0, pow(10, (p + 1) as nat) > 0;
                    if low > 0 {
                        assert(low * pow(10, p as nat) >= pow(10, p as nat)) by (nonlinear_arith)
                            requires low >= 1, pow(10, p as nat) > 0;
                    } else if high > 0 {
                        assert(high * pow(10, (p + 1) as nat) >= pow(10, (p + 1) as nat))
                            by (nonlinear_arith)
                            requires high >= 1, pow(10, (p + 1) as nat) > 0;
                    } else {
                        assert(low * pow(10, p as nat) == 0) by (nonlinear_arith)
                            requires low == 0;
                        assert(high * pow(10, (p + 1) as nat) == 0) by (nonlinear_arith)
                            requires high == 0;
                    }
                }
                return 0;
            },
        }
        k = k + 1;
    }
    proof {
        lemma_pow10_step(p as nat);
    }
    let low_part: i64 = match low.checked_mul(weight) {
        Some(v) => v,
        None => {
            assert(high * pow(10, (p + 1) as nat) >= 0) by (nonlinear_arith)
                requires high >= 0, pow(10, (p + 1) as nat) > 0;
            return 0;
        },
    };
    if high == 0 {
        assert(high * pow(10, (p + 1) as nat) == 0) by (nonlinear_arith)
            requires high == 0;
        return low_part;
    }
    let high_weight: i64 = match weight.checked_mul(10) {
        Some(v) => v,
        None => {
            assert(high * pow(10, (p + 1) as nat) >= pow(10, (p + 1) as nat)) by (nonlinear_arith)
                requires high >= 1, pow(10, (p + 1) as nat) > 0;
            assert(low * pow(10, p as nat) >= 0) by (nonlinear_arith)
                requires low >= 0, pow(10, p as nat) > 0;
            return 0;
        },
    };
    let high_part: i64 = match high.checked_mul(high_weight) {
        Some(v) => v,
        None => {
            assert(low * pow(10, p as nat) >= 0) by (nonlinear_arith)
                requires low >= 0, pow(10, p as nat) > 0;
            return 0;
        },
    };
    match low_part.checked_add(high_part) {
        Some(v) => v,
        None => 0,
    }
}

/// Decodes a BCD integer buffer (signed unless `signed` is `Some(false)`).
/// An empty buffer, or a value out of the `i64` range, is a decoding error.
pub fn int_from_bcd_bytes(data: &[u8], signed: Option<bool>) -> (r: Result<i64, FerricError>)
    ensures
        r == bcd_int_result(data@, match signed { Some(b) => b, None => true }),
{
    let is_signed: bool = match signed {
        Some(b) => b,
        None => true,
    };
    let len = data.len();
    if len == 0 {
        return Err(FerricError::BcdDecoding);
    }
    let negative: bool = is_signed && len > 2 && data[0] / 16 == 0;
    let magnitude: i64 = if len == 1 {
        (if data[0] % 16 > 9 { 9 } else { (data[0] % 16) as i64 }) + 10 * (if data[0] / 16 > 9 {
            9
        } else {
            (data[0] / 16) as i64
        })
    } else if len == 2 {
        read_i16_le(data, 0) as i64
    } else {
        let start: usize = if is_signed { 1 } else { 0 };
        let ghost run = data@.subrange(start as int, len as int);
        let mut v: i64 = 0;
        let mut i: usize = start;
        while i < len
            invariant
                start <= i <= len,
                len == data@.len(),
                len > 2,
                is_signed == match signed { Some(b) => b, None => true },
                start == if is_signed { 1usize } else { 0usize },
                run == data@.subrange(start as int, len as int),
                v as int == bcd_magnitude(run.subrange(0, i - start)),
                v >= 0,
            decreases len - i,
        {
            let b = data[i];
            let x: i64 = (if b % 16 > 9 { 9 } else { (b % 16) as i64 }) + 10 * (if b / 16 > 9 {
                9
            } else {
                (b / 16) as i64
            });
            assert(run.subrange(0, i + 1 - start).drop_last() =~= run.subrange(0, i - start));
            assert(run.subrange(0, i + 1 - start).last() == b);
            assert(x == packed_byte_value(b));
            assert(bcd_magnitude(run.subrange(0, i + 1 - start)) == 100 * v + x);
            if v > (i64::MAX - x) / 100 {
                proof {
                    assert(100 * v + x > i64::MAX) by (nonlinear_arith)
                        requires v > (i64::MAX - x) / 100, 0 <= x <= 99;
                    lemma_magnitude_prefix(run, i + 1 - start, run.len() as int);
                    assert(run.subrange(0, run.len() as int) =~= run);
                    assert(bcd_int_magnitude(data@, is_signed) == bcd_magnitude(run));
                }
                return Err(FerricError::BcdDecoding);
            }
            assert(100 * v + x <= i64::MAX) by (nonlinear_arith)
                requires v <= (i64::MAX - x) / 100, 0 <= x <= 99;
            v = 100 * v + x;
            i = i + 1;
        }
        assert(run.subrange(0, len - start) =~= run);
        v
    };
    if negative {
        Ok(-magnitude)
    } else {
        Ok(magnitude)
    }
}

} // verus!

verus! {

/// The text `"{int}.{frac}"` of a BCD fixed-point buffer whose last
/// `scale` bytes hold the fraction: the integer part decoded signed, the
/// fraction unsigned and without sign.
pub open spec fn decimal_text_result(s: Seq<u8>, scale: nat) -> Result<Seq<char>, FerricError> {
    if scale > s.len() {
        Err(FerricError::Internal)
    } else {
        let split = s.len() - scale;
        match bcd_int_result(s.subrange(0, split), true) {
            Err(e) => Err(e),
            Ok(i) => match bcd_int_result(s.subrange(split, s.len() as int), false) {
                Err(e) => Err(e),
                Ok(f) => Ok(
                    decimal_text(i as int) + seq!['.'] + decimal_text(
                        if f < 0 { -f } else { f as int },
                    ),
                ),
            },
        }
    }
}

/// Composes the decimal text of a BCD fixed-point buffer with `decimals`
/// fraction bytes (one when absent).
pub fn decimal_text_from_bcd_bytes(data: &[u8], decimals: Option<u64>) -> (r: Result<
    String,
    FerricError,
>)
    ensures
        ({
            let scale = match decimals { Some(d) => d as nat, None => 1nat };
            match decimal_text_result(data@, scale) {
                Ok(t) => r matches Ok(s) && s@ == t,
                Err(e) => r == Err::<String, FerricError>(e),
            }
        }),
{
    let scale: u64 = match decimals {
        Some(d) => d,
        None => 1,
    };
    if scale > data.len() as u64 {
        return Err(FerricError::Internal);
    }
    let split: usize = data.len() - scale as usize;
    let int_part = match int_from_bcd_bytes(&data[0..split], Some(true)) {
        Ok(v) => v,
        Err(e) => {
            return Err(e);
        },
    };
    let frac_part = match int_from_bcd_bytes(&data[split..data.len()], Some(false)) {
        Ok(v) => v,
        Err(e) => {
            return Err(e);
        },
    };
    proof {
        lemma_unsigned_not_below_i16(data@.subrange(split as int, data@.len() as int));
    }
    let frac_abs: i64 = if frac_part < 0 { -frac_part } else { frac_part };
    let mut s = String::new();
    push_decimal(&mut s, int_part);
    push_char(&mut s, '.');
    push_decimal(&mut s, frac_abs);
    assert(s@ =~= decimal_text(int_part as int) + seq!['.'] + decimal_text(frac_abs as int));
    Ok(s)
}

/// An unsigned BCD buffer never decodes below the `i16` range.
proof fn lemma_unsigned_not_below_i16(s: Seq<u8>)
    requires
        s.len() > 0,
    ensures
        bcd_int_value(s, false) >= -32768,
{
    if s.len() > 2 {
        lemma_magnitude_nonneg(s.subrange(0, s.len() as int));
    }
}

/// The year of the epoch's first day (1642-09-17).
pub const EPOCH_YEAR: i32 = 1642;

/// The month of the epoch's first day.
pub const EPOCH_MONTH: u32 = 9;

/// The day of month of the epoch's first day.
pub const EPOCH_DAY: u32 = 17;

/// The stored day number of the epoch's first day.
pub const EPOCH_DAY_NUMBER: i64 = 700003;

/// The days after the epoch up to the last representable calendar date,
/// 262142-12-31.
pub const DATE_SPAN_DAYS: u64 = 95_145_776;

/// The calendar date of a date field: absent when its BCD value does not
/// decode or falls before the epoch.
pub open spec fn date_field_triple(v: int) -> (int, int, int) {
    calendar_add_days(EPOCH_YEAR as int, EPOCH_MONTH as int, EPOCH_DAY as int, v - EPOCH_DAY_NUMBER)
}

/// The date a date field holds, if any: its unsigned BCD value is a day
/// number counted from the epoch; a buffer that does not decode, a day
/// before the epoch, or one after 262142-12-31 is no date.
pub open spec fn date_field(s: Seq<u8>) -> Option<(int, int, int)> {
    match bcd_int_result(s, false) {
        Err(_) => None,
        Ok(v) => if v < EPOCH_DAY_NUMBER || v - EPOCH_DAY_NUMBER > DATE_SPAN_DAYS {
            None
        } else {
            Some(date_field_triple(v as int))
        },
    }
}

/// Decodes a date field: an unsigned BCD day number counted from the epoch.
/// A buffer that does not decode, or a day before the epoch, is no date;
/// a day after the last representable date (262142-12-31) is a date
/// decoding error.
pub fn date_from_bytes(data: &[u8]) -> (r: Result<Option<Date>, FerricError>)
    ensures
        match bcd_int_result(data@, false) {
            Err(_) => r == Ok::<Option<Date>, FerricError>(None),
            Ok(v) => if v < EPOCH_DAY_NUMBER {
                r == Ok::<Option<Date>, FerricError>(None)
            } else if v - EPOCH_DAY_NUMBER > DATE_SPAN_DAYS {
                r == Err::<Option<Date>, FerricError>(FerricError::DateDecoding)
            } else {
                r matches Ok(Some(d)) && d.triple() == date_field_triple(v as int)
            },
        },
{
    let v = match int_from_bcd_bytes(data, Some(false)) {
        Ok(v) => v,
        Err(_) => {
            return Ok(None);
        },
    };
    if v < EPOCH_DAY_NUMBER {
        return Ok(None);
    }
    let offset = (v - EPOCH_DAY_NUMBER) as u64;
    match calendar_add_days_exec(EPOCH_YEAR, EPOCH_MONTH, EPOCH_DAY, offset) {
        Some(d) => Ok(Some(Date { year: d.0, month: d.1, day: d.2 })),
        None => Err(FerricError::DateDecoding),
    }
}

} // verus!

verus! {

/// The packed BCD bytes of `s` folded from the last byte backwards, the
/// last byte at weight `10^p` and each earlier byte two places higher.
pub open spec fn reverse_fold(s: Seq<u8>, p: nat) -> int
    decreases s.len(),
{
    if s.len() == 0 {
        0
    } else {
        packed_bcd_value(s.last(), p) + reverse_fold(s.drop_last(), p + 2)
    }
}

proof fn lemma_reverse_fold_scaled(s: Seq<u8>, p: nat)
    ensures
        reverse_fold(s, p) == pow(10, p) * bcd_magnitude(s),
    decreases s.len(),
{
    if s.len() > 0 {
        lemma_reverse_fold_scaled(s.drop_last(), p + 2);
        lemma_pow10_step(p);
        lemma_pow10_step(p + 1);
        let w = pow(10, p);
        let m = bcd_magnitude(s.drop_last());
        let lo = low_digit(s.last());
        let hi = high_digit(s.last());
        assert(pow(10, p + 1) == 10 * w);
        assert(pow(10, p + 2) == 100 * w);
        assert(lo * w + hi * (10 * w) + (100 * w) * m == w * (100 * m + (lo + 10 * hi)))
            by (nonlinear_arith);
    } else {
        assert(pow(10, p) * 0 == 0) by (nonlinear_arith);
    }
}

/// A run of packed BCD bytes is the sum of its bytes read through the
/// packed-byte rule from the last byte backwards, the weight growing by two
/// decimal places per byte.
pub proof fn lemma_magnitude_is_reverse_fold(s: Seq<u8>)
    ensures
        bcd_magnitude(s) == reverse_fold(s, 0),
{
    lemma_reverse_fold_scaled(s, 0);
    lemma_pow10_step(0);
}

} // verus!
