use vstd::prelude::*;

use crate::bytes::u16_le;
use crate::errors::FerricError;

verus! {

/// Relies on `String::push`: the character is appended at the end.
#[verifier::external_body]
pub(crate) fn push_char(s: &mut String, c: char)
    ensures
        final(s)@ == old(s)@.push(c),
{
    s.push(c);
}

/// The character of a decimal digit.
pub open spec fn digit_char(d: int) -> char {
    (48 + d) as char
}

/// The decimal digits of a natural number, most significant first.
pub open spec fn decimal_digits(n: nat) -> Seq<char>
    decreases n,
{
    if n < 10 {
        seq![digit_char(n as int)]
    } else {
        decimal_digits(n / 10).push(digit_char((n % 10) as int))
    }
}

/// The decimal text of an integer, with a leading `-` when negative.
pub open spec fn decimal_text(v: int) -> Seq<char> {
    if v < 0 {
        seq!['-'] + decimal_digits((-v) as nat)
    } else {
        decimal_digits(v as nat)
    }
}

pub(crate) fn push_decimal_digits(s: &mut String, n: u64)
    ensures
        final(s)@ == old(s)@ + decimal_digits(n as nat),
    decreases n,
{
    if n >= 10 {
        push_decimal_digits(s, n / 10);
    }
    let c = (48u8 + (n % 10) as u8) as char;
    push_char(s, c);
    assert(final(s)@ =~= old(s)@ + decimal_digits(n as nat));
}

/// Appends the decimal text of `v`.
pub(crate) fn push_decimal(s: &mut String, v: i64)
    ensures
        final(s)@ == old(s)@ + decimal_text(v as int),
{
    if v < 0 {
        push_char(s, '-');
        let m: u64 = if v == i64::MIN { 9223372036854775808u64 } else { (-v) as u64 };
        push_decimal_digits(s, m);
        assert(final(s)@ =~= old(s)@ + decimal_text(v as int));
    } else {
        push_decimal_digits(s, v as u64);
    }
}

/// Bytes that survive the text filter: tab through carriage return, and
/// everything from the space upwards.
pub open spec fn kept_byte(b: u8) -> bool {
    (8 < b && b < 14) || 31 < b
}

/// The bytes of `s` that survive the text filter, in order.
pub open spec fn kept_bytes(s: Seq<u8>) -> Seq<u8>
    decreases s.len(),
{
    if s.len() == 0 {
        s
    } else if kept_byte(s.last()) {
        kept_bytes(s.drop_last()).push(s.last())
    } else {
        kept_bytes(s.drop_last())
    }
}

/// Bytes whose characters are white space: tab through carriage return,
/// the space, next-line (0x85) and no-break space (0xA0).
pub open spec fn space_byte(b: u8) -> bool {
    (9 <= b && b <= 13) || b == 32 || b == 0x85 || b == 0xA0
}

pub open spec fn trim_start(s: Seq<u8>) -> Seq<u8>
    decreases s.len(),
{
    if s.len() > 0 && space_byte(s[0]) {
        trim_start(s.drop_first())
    } else {
        s
    }
}

pub open spec fn trim_end(s: Seq<u8>) -> Seq<u8>
    decreases s.len(),
{
    if s.len() > 0 && space_byte(s.last()) {
        trim_end(s.drop_last())
    } else {
        s
    }
}

/// Each byte read as the character of the same code point.
pub open spec fn byte_chars(s: Seq<u8>) -> Seq<char> {
    s.map_values(|b: u8| b as char)
}

/// The text of a fixed-width field: control bytes dropped, surrounding
/// white space trimmed.
pub open spec fn ascii_text(s: Seq<u8>) -> Seq<char> {
    byte_chars(trim_end(trim_start(kept_bytes(s))))
}

/// A length-prefixed text field decodes when it has at least four bytes
/// and its text has exactly the declared number of characters.
pub open spec fn text_field_ok(s: Seq<u8>) -> bool {
    s.len() >= 4 && ascii_text(s.subrange(2, s.len() as int)).len() == u16_le(s, 0)
}

fn kept_from(data: &[u8], from: usize) -> (r: Vec<u8>)
    requires
        from <= data@.len(),
    ensures
        r@ == kept_bytes(data@.subrange(from as int, data@.len() as int)),
{
    let mut out: Vec<u8> = Vec::new();
    let mut i: usize = from;
    while i < data.len()
        invariant
            from <= i <= data@.len(),
            out@ == kept_bytes(data@.subrange(from as int, i as int)),
        decreases data@.len() - i,
    {
        let b = data[i];
        assert(data@.subrange(from as int, i + 1).drop_last() =~= data@.subrange(
            from as int,
            i as int,
        ));
        if (8 < b && b < 14) || 31 < b {
            out.push(b);
        }
        i = i + 1;
    }
    out
}

fn is_space_byte(b: u8) -> (r: bool)
    ensures
        r == space_byte(b),
{
    (9 <= b && b <= 13) || b == 32 || b == 0x85 || b == 0xA0
}

/// The text of the bytes of `data` from `from` on.
fn text_from(data: &[u8], from: usize) -> (r: String)
    requires
        from <= data@.len(),
    ensures
        r@ == ascii_text(data@.subrange(from as int, data@.len() as int)),
{
    let kept = kept_from(data, from);
    let ghost k = kept@;
    let n = kept.len();
    let mut a: usize = 0;
    assert(k.subrange(0, n as int) =~= k);
    while a < n && is_space_byte(kept[a])
        invariant
            a <= n,
            n == k.len(),
            k == kept@,
            trim_start(k) == trim_start(k.subrange(a as int, n as int)),
        decreases n - a,
    {
        assert(k.subrange(a as int, n as int).drop_first() =~= k.subrange(a + 1, n as int));
        a = a + 1;
    }
    let ghost t = k.subrange(a as int, n as int);
    assert(trim_start(k) == t);
    let mut b: usize = n;
    while b > a && is_space_byte(kept[b - 1])
        invariant
            a <= b <= n,
            n == k.len(),
            k == kept@,
            t == k.subrange(a as int, n as int),
            trim_end(t) == trim_end(k.subrange(a as int, b as int)),
        decreases b,
    {
        assert(k.subrange(a as int, b as int).drop_last() =~= k.subrange(a as int, b - 1));
        b = b - 1;
    }
    let ghost u = k.subrange(a as int, b as int);
    assert(trim_end(t) == u);
    let mut s = String::new();
    let mut i: usize = a;
    while i < b
        invariant
            a <= i <= b <= n,
            n == k.len(),
            k == kept@,
            u == k.subrange(a as int, b as int),
            s@ == byte_chars(k.subrange(a as int, i as int)),
        decreases b - i,
    {
        let c = kept[i] as char;
        push_char(&mut s, c);
        assert(byte_chars(k.subrange(a as int, i + 1)) =~= byte_chars(
            k.subrange(a as int, i as int),
        ).push(c));
        i = i + 1;
    }
    s
}

/// Decodes a fixed-width text field, or (when `text_field` is `Some(true)`)
/// a field whose first two bytes give the length of the text that follows.
pub fn string_from_bytes(data: &[u8], text_field: Option<bool>) -> (r: Result<String, FerricError>)
    ensures
        text_field != Some(true) ==> (r matches Ok(t) && t@ == ascii_text(data@)),
        text_field == Some(true) ==> (if text_field_ok(data@) {
            (r matches Ok(t) && t@ == ascii_text(data@.subrange(2, data@.len() as int)))
        } else {
            r == Err::<String, FerricError>(FerricError::TextDecoding)
        }),
{
    let is_text_field: bool = match text_field {
        Some(b) => b,
        None => false,
    };
    if !is_text_field {
        let t = text_from(data, 0);
        assert(data@.subrange(0, data@.len() as int) =~= data@);
        return Ok(t);
    }
    if data.len() < 4 {
        return Err(FerricError::TextDecoding);
    }
    let declared = crate::bytes::read_u16_le(data, 0);
    let t = text_from(data, 2);
    let count = t.as_str().unicode_len();
    if count != declared as usize {
        return Err(FerricError::TextDecoding);
    }
    Ok(t)
}

} // verus!
