//! Byte-level rendering primitives: percent-encoding, hexadecimal digits,
//! decimal digits, and a fixed-point decimal number type.

use vstd::prelude::*;

verus! {

/// Bytes that travel unescaped in a query string: ASCII letters, digits,
/// `-`, `_`, `.`, `~` (the RFC 3986 unreserved set).
pub open spec fn is_unreserved(b: u8) -> bool {
    (0x41 <= b <= 0x5a)  // A-Z
    || (0x61 <= b <= 0x7a)  // a-z
    || (0x30 <= b <= 0x39)  // 0-9
    || b == 0x2d  // -
    || b == 0x5f  // _
    || b == 0x2e  // .
    || b == 0x7e  // ~
}

/// Uppercase hexadecimal digit for a nibble.
pub open spec fn hex_upper(n: u8) -> u8
    recommends
        n < 16,
{
    if n < 10 {
        (0x30 + n) as u8
    } else {
        (0x41 + (n - 10)) as u8
    }
}

/// Lowercase hexadecimal digit for a nibble.
pub open spec fn hex_lower(n: u8) -> u8
    recommends
        n < 16,
{
    if n < 10 {
        (0x30 + n) as u8
    } else {
        (0x61 + (n - 10)) as u8
    }
}

/// Percent-encoding of a single byte: itself if unreserved, else `%XX`
/// with uppercase hexadecimal digits.
pub open spec fn encoded_byte(b: u8) -> Seq<u8> {
    if is_unreserved(b) {
        seq![b]
    } else {
        seq![0x25u8, hex_upper(b / 16), hex_upper(b % 16)]
    }
}

/// Percent-encoding of a byte string.
pub open spec fn percent_encoded(s: Seq<u8>) -> Seq<u8>
    decreases s.len(),
{
    if s.len() == 0 {
        Seq::empty()
    } else {
        percent_encoded(s.drop_last()) + encoded_byte(s.last())
    }
}

/// Lowercase hexadecimal rendering of a byte string, two digits per byte.
pub open spec fn hex_lower_of(s: Seq<u8>) -> Seq<u8>
    decreases s.len(),
{
    if s.len() == 0 {
        Seq::empty()
    } else {
        hex_lower_of(s.drop_last()) + seq![hex_lower(s.last() / 16), hex_lower(s.last() % 16)]
    }
}

/// Decimal digits of a natural number, most significant first, no leading
/// zeros (a single `0` for zero).
pub open spec fn dec_digits(n: nat) -> Seq<u8>
    decreases n,
{
    if n < 10 {
        seq![(0x30 + n) as u8]
    } else {
        dec_digits(n / 10) + seq![(0x30 + n % 10) as u8]
    }
}

fn hex_upper_exec(n: u8) -> (r: u8)
    requires
        n < 16,
    ensures
        r == hex_upper(n),
{
    if n < 10 {
        0x30 + n
    } else {
        0x41 + (n - 10)
    }
}

fn hex_lower_exec(n: u8) -> (r: u8)
    requires
        n < 16,
    ensures
        r == hex_lower(n),
{
    if n < 10 {
        0x30 + n
    } else {
        0x61 + (n - 10)
    }
}

/// Percent-encode a byte string for use as a query-string value.
pub fn percent_encode(s: &[u8]) -> (r: Vec<u8>)
    ensures
        r@ == percent_encoded(s@),
{
    let mut out: Vec<u8> = Vec::new();
    let mut i: usize = 0;
    while i < s.len()
        invariant
            i <= s.len(),
            out@ == percent_encoded(s@.subrange(0, i as int)),
        decreases s.len() - i,
    {
        let b = s[i];
        let is_plain = (0x41 <= b && b <= 0x5a) || (0x61 <= b && b <= 0x7a)
            || (0x30 <= b && b <= 0x39) || b == 0x2d || b == 0x5f || b == 0x2e || b == 0x7e;
        if is_plain {
            out.push(b);
        } else {
            out.push(0x25);
            out.push(hex_upper_exec(b / 16));
            out.push(hex_upper_exec(b % 16));
        }
        proof {
            assert(s@.subrange(0, i + 1).drop_last() =~= s@.subrange(0, i as int));
            assert(s@.subrange(0, i + 1).last() == s@[i as int]);
        }
        i = i + 1;
    }
    proof {
        assert(s@.subrange(0, s@.len() as int) =~= s@);
    }
    out
}

/// Render a byte string as lowercase hexadecimal, two digits per byte.
pub fn to_hex_lower(s: &[u8]) -> (r: Vec<u8>)
    ensures
        r@ == hex_lower_of(s@),
{
    let mut out: Vec<u8> = Vec::new();
    let mut i: usize = 0;
    while i < s.len()
        invariant
            i <= s.len(),
            out@ == hex_lower_of(s@.subrange(0, i as int)),
        decreases s.len() - i,
    {
        let b = s[i];
        out.push(hex_lower_exec(b / 16));
        out.push(hex_lower_exec(b % 16));
        proof {
            assert(s@.subrange(0, i + 1).drop_last() =~= s@.subrange(0, i as int));
            assert(s@.subrange(0, i + 1).last() == s@[i as int]);
        }
        i = i + 1;
    }
    proof {
        assert(s@.subrange(0, s@.len() as int) =~= s@);
    }
    out
}

/// Decimal digits of an unsigned integer, most significant first.
pub fn u64_digits(n: u64) -> (r: Vec<u8>)
    ensures
        r@ == dec_digits(n as nat),
    decreases n,
{
    if n < 10 {
        let mut out: Vec<u8> = Vec::new();
        out.push(0x30 + (n as u8));
        proof {
            assert(out@ =~= dec_digits(n as nat));
        }
        out
    } else {
        let mut out = u64_digits(n / 10);
        out.push(0x30 + ((n % 10) as u8));
        proof {
            assert(out@ =~= dec_digits(n as nat));
        }
        out
    }
}

/// A non-negative or negative fixed-point decimal number:
/// the value is `mantissa / 10^scale`, negated when `neg` holds.
///
/// Numeric parameters and numeric JSON fields are carried in this form so
/// that rendering is exact and locale-independent.
#[derive(Clone, Copy, PartialEq, Eq, Structural, Debug)]
pub struct Decimal {
    pub neg: bool,
    pub mantissa: u64,
    pub scale: u32,
}

/// Rendering of a decimal number: optional minus sign (only for nonzero
/// negative values), then the mantissa's digits with a point inserted
/// `scale` places from the right, zero-padded on the left as needed.
pub open spec fn rendered_decimal(d: Decimal) -> Seq<u8> {
    let digits = dec_digits(d.mantissa as nat);
    let body = if d.scale == 0 {
        digits
    } else if digits.len() > d.scale {
        digits.subrange(0, digits.len() - d.scale) + seq![0x2eu8] + digits.subrange(
            digits.len() - d.scale,
            digits.len() as int,
        )
    } else {
        seq![0x30u8, 0x2eu8] + Seq::new((d.scale - digits.len()) as nat, |i: int| 0x30u8) + digits
    };
    if d.neg && d.mantissa != 0 {
        seq![0x2du8] + body
    } else {
        body
    }
}

proof fn lemma_dec_digits_len(n: nat)
    ensures
        dec_digits(n).len() >= 1,
    decreases n,
{
    if n >= 10 {
        lemma_dec_digits_len(n / 10);
    }
}

/// Render a decimal number as bytes.
pub fn render_decimal(d: &Decimal) -> (r: Vec<u8>)
    ensures
        r@ == rendered_decimal(*d),
{
    let digits = u64_digits(d.mantissa);
    proof {
        lemma_dec_digits_len(d.mantissa as nat);
    }
    let mut out: Vec<u8> = Vec::new();
    if d.neg && d.mantissa != 0 {
        out.push(0x2d);
    }
    let ghost sign = out@;
    let scale = d.scale as usize;
    if scale == 0 {
        push_bytes(&mut out, digits.as_slice());
        proof {
            assert(out@ =~= rendered_decimal(*d));
        }
        out
    } else if digits.len() > scale {
        let split = digits.len() - scale;
        let head = vstd::slice::slice_subrange(digits.as_slice(), 0, split);
        let tail = vstd::slice::slice_subrange(digits.as_slice(), split, digits.len());
        push_bytes(&mut out, head);
        out.push(0x2e);
        push_bytes(&mut out, tail);
        proof {
            assert(out@ =~= sign + head@ + seq![0x2eu8] + tail@);
            assert(out@ =~= rendered_decimal(*d));
        }
        out
    } else {
        out.push(0x30);
        out.push(0x2e);
        let pad = scale - digits.len();
        proof {
            assert(out@ =~= sign + seq![0x30u8, 0x2eu8] + Seq::new(0nat, |i: int| 0x30u8));
        }
        let mut j: usize = 0;
        while j < pad
            invariant
                j <= pad,
                out@ == sign + seq![0x30u8, 0x2eu8] + Seq::new(j as nat, |i: int| 0x30u8),
            decreases pad - j,
        {
            out.push(0x30);
            proof {
                assert(sign + seq![0x30u8, 0x2eu8] + Seq::new((j + 1) as nat, |i: int| 0x30u8)
                    =~= (sign + seq![0x30u8, 0x2eu8] + Seq::new(j as nat, |i: int| 0x30u8)).push(
                    0x30u8,
                ));
            }
            j = j + 1;
        }
        push_bytes(&mut out, digits.as_slice());
        proof {
            assert(out@ =~= rendered_decimal(*d));
        }
        out
    }
}

/// Whether two byte strings hold the same bytes.
pub fn bytes_eq(a: &[u8], b: &[u8]) -> (r: bool)
    ensures
        r == (a@ == b@),
{
    if a.len() != b.len() {
        return false;
    }
    let mut i: usize = 0;
    while i < a.len()
        invariant
            i <= a.len(),
            a@.len() == b@.len(),
            forall|j: int| 0 <= j < i ==> a@[j] == b@[j],
        decreases a.len() - i,
    {
        if a[i] != b[i] {
            return false;
        }
        i = i + 1;
    }
    proof {
        assert(a@ =~= b@);
    }
    true
}

/// Append a byte slice to a byte vector.
pub fn push_bytes(out: &mut Vec<u8>, s: &[u8])
    ensures
        final(out)@ == old(out)@ + s@,
{
    let mut i: usize = 0;
    while i < s.len()
        invariant
            i <= s.len(),
            out@ == old(out)@ + s@.subrange(0, i as int),
        decreases s.len() - i,
    {
        out.push(s[i]);
        proof {
            assert(old(out)@ + s@.subrange(0, i + 1) =~= (old(out)@ + s@.subrange(0, i as int)).push(
                s@[i as int],
            ));
        }
        i = i + 1;
    }
    proof {
        assert(s@.subrange(0, s@.len() as int) =~= s@);
    }
}

/// ASCII uppercase folding of a byte string; bytes outside `a`..`z` are kept.
pub open spec fn ascii_upper(s: Seq<u8>) -> Seq<u8> {
    s.map_values(|b: u8| if 0x61 <= b <= 0x7a { (b - 0x20) as u8 } else { b })
}

/// Fold a byte string to ASCII uppercase.
pub fn to_ascii_upper(s: &[u8]) -> (r: Vec<u8>)
    ensures
        r@ == ascii_upper(s@),
{
    let mut out: Vec<u8> = Vec::new();
    let mut i: usize = 0;
    while i < s.len()
        invariant
            i <= s.len(),
            out@ == ascii_upper(s@.subrange(0, i as int)),
        decreases s.len() - i,
    {
        let b = s[i];
        if 0x61 <= b && b <= 0x7a {
            out.push(b - 0x20);
        } else {
            out.push(b);
        }
        proof {
            assert(out@ =~= ascii_upper(s@.subrange(0, i + 1)));
        }
        i = i + 1;
    }
    proof {
        assert(s@.subrange(0, s@.len() as int) =~= s@);
    }
    out
}

} // verus!
