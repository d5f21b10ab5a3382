//! ActionScript 1 and 2 values: the parts of their conversions and
//! comparisons that do not depend on floating point.

use vstd::prelude::*;
use vstd::string::StringSliceAdditionalSpecFns;

verus! {

/// The primitive types of AVM1 values.
#[derive(Clone, Copy, Debug, PartialEq, Eq, Structural)]
pub enum PrimitiveType {
    Undefined,
    Null,
    Bool,
    Number,
    String,
}

/// The `typeof` name of a primitive value's type.
pub open spec fn typeof_name(t: PrimitiveType) -> Seq<char> {
    match t {
        PrimitiveType::Undefined => "undefined"@,
        PrimitiveType::Null => "null"@,
        PrimitiveType::Bool => "boolean"@,
        PrimitiveType::Number => "number"@,
        PrimitiveType::String => "string"@,
    }
}

/// The result of `typeof` on a primitive value.
pub fn type_of(t: PrimitiveType) -> (r: &'static str)
    ensures
        r@ == typeof_name(t),
{
    match t {
        PrimitiveType::Undefined => "undefined",
        PrimitiveType::Null => "null",
        PrimitiveType::Bool => "boolean",
        PrimitiveType::Number => "number",
        PrimitiveType::String => "string",
    }
}

/// Lexicographic order of byte strings: the first differing byte decides,
/// and a proper prefix comes first.
pub open spec fn bytes_lt(a: Seq<u8>, b: Seq<u8>) -> bool
    decreases a.len(),
{
    if a.len() == 0 {
        b.len() > 0
    } else if b.len() == 0 {
        false
    } else if a[0] != b[0] {
        a[0] < b[0]
    } else {
        bytes_lt(a.skip(1), b.skip(1))
    }
}

/// Whether one string is less than another in the relational comparison:
/// strings compare by their UTF-8 bytes.
pub fn string_lt(a: &str, b: &str) -> (r: bool)
    ensures
        r == bytes_lt(a.spec_bytes(), b.spec_bytes()),
{
    let x = a.as_bytes();
    let y = b.as_bytes();
    let mut i: usize = 0;
    proof {
        assert(x@.skip(0) =~= x@);
        assert(y@.skip(0) =~= y@);
    }
    while i < x.len() && i < y.len()
        invariant
            x@ == a.spec_bytes(),
            y@ == b.spec_bytes(),
            i <= x@.len(),
            i <= y@.len(),
            bytes_lt(x@, y@) == bytes_lt(x@.skip(i as int), y@.skip(i as int)),
        decreases x@.len() - i,
    {
        proof {
            assert(x@.skip(i as int).skip(1) =~= x@.skip(i + 1));
            assert(y@.skip(i as int).skip(1) =~= y@.skip(i + 1));
            assert(x@.skip(i as int)[0] == x@[i as int]);
            assert(y@.skip(i as int)[0] == y@[i as int]);
        }
        if x[i] != y[i] {
            let ghost xs = x@.skip(i as int);
            let ghost ys = y@.skip(i as int);
            assert(xs.len() > 0 && ys.len() > 0 && xs[0] != ys[0]);
            assert(bytes_lt(xs, ys) == (xs[0] < ys[0]));
            return x[i] < y[i];
        }
        i = i + 1;
    }
    i < y.len()
}

/// The value of a hexadecimal digit, if the byte is one.
pub open spec fn hex_digit(c: u8) -> Option<u32> {
    if 0x30 <= c <= 0x39 {
        Some((c - 0x30) as u32)
    } else if 0x61 <= c <= 0x66 {
        Some((c - 0x61 + 10) as u32)
    } else if 0x41 <= c <= 0x46 {
        Some((c - 0x41 + 10) as u32)
    } else {
        None
    }
}

/// The 32-bit value of hexadecimal digits: each digit shifts the value four
/// bits to the left, dropping the bits shifted out. `None` where a byte is
/// not a hexadecimal digit.
pub open spec fn hex_value(digits: Seq<u8>) -> Option<u32>
    decreases digits.len(),
{
    if digits.len() == 0 {
        Some(0)
    } else {
        match (hex_value(digits.drop_last()), hex_digit(digits.last())) {
            (Some(n), Some(d)) => Some((n << 4u32) | d),
            _ => None,
        }
    }
}

/// The number that a string of the form `0x...` converts to, given the
/// text after the `0x`: its hexadecimal value as a signed 32-bit integer.
/// `None` where a character is not a hexadecimal digit, where the
/// conversion gives NaN.
pub fn hex_literal_value(digits: &str) -> (r: Option<i32>)
    ensures
        r == match hex_value(digits.spec_bytes()) {
            Some(n) => Some(n as i32),
            None => None,
        },
{
    let bytes = digits.as_bytes();
    let mut n: u32 = 0;
    let mut i: usize = 0;
    while i < bytes.len()
        invariant
            i <= bytes@.len(),
            hex_value(bytes@.take(i as int)) == Some(n),
            bytes@ == digits.spec_bytes(),
        decreases bytes@.len() - i,
    {
        let c = bytes[i];
        let d: u32 = if 0x30 <= c && c <= 0x39 {
            (c - 0x30) as u32
        } else if 0x61 <= c && c <= 0x66 {
            (c - 0x61 + 10) as u32
        } else if 0x41 <= c && c <= 0x46 {
            (c - 0x41 + 10) as u32
        } else {
            proof {
                assert(bytes@.take(i + 1).drop_last() =~= bytes@.take(i as int));
                lemma_hex_none_stays(bytes@, i + 1);
            }
            return None;
        };
        proof {
            assert(bytes@.take(i + 1).drop_last() =~= bytes@.take(i as int));
        }
        n = n.wrapping_shl(4) | d;
        assert(n == ((hex_value(bytes@.take(i as int)).unwrap() << 4u32) | d));
        i = i + 1;
    }
    proof {
        assert(bytes@.take(i as int) =~= bytes@);
    }
    Some(n as i32)
}

proof fn lemma_hex_none_stays(bytes: Seq<u8>, k: int)
    requires
        0 <= k <= bytes.len(),
        hex_value(bytes.take(k)) is None,
    ensures
        hex_value(bytes) is None,
    decreases bytes.len() - k,
{
    if k < bytes.len() {
        assert(bytes.take(k + 1).drop_last() =~= bytes.take(k));
        lemma_hex_none_stays(bytes, k + 1);
    } else {
        assert(bytes.take(k) =~= bytes);
    }
}


/// Byte strings compare by their first difference: where `a` and `b`
/// agree before position `i` and differ there, the smaller byte decides;
/// where one is a proper prefix of the other, it comes first. No string is
/// less than itself.
pub proof fn law_bytes_compare_at_first_difference(a: Seq<u8>, b: Seq<u8>, i: int)
    requires
        0 <= i <= a.len(),
        i <= b.len(),
        a.take(i) == b.take(i),
    ensures
        i < a.len() && i < b.len() && a[i] != b[i] ==> (bytes_lt(a, b) <==> a[i] < b[i]),
        i == a.len() && i < b.len() ==> bytes_lt(a, b),
        i == a.len() && i == b.len() ==> !bytes_lt(a, b),
    decreases i,
{
    if i > 0 {
        assert(a[0] == a.take(i)[0] && b[0] == b.take(i)[0]);
        assert(a.skip(1).take(i - 1) =~= a.take(i).skip(1));
        assert(b.skip(1).take(i - 1) =~= b.take(i).skip(1));
        law_bytes_compare_at_first_difference(a.skip(1), b.skip(1), i - 1);
        if i < a.len() && i < b.len() {
            assert(a.skip(1)[i - 1] == a[i] && b.skip(1)[i - 1] == b[i]);
        }
    }
}

/// Each hexadecimal digit is worth its value and multiplies what comes
/// before it by sixteen, while the value fits in 32 bits: appending digit
/// `c` to digits worth `v` gives `16 * v + value(c)`.
pub proof fn law_hex_digits_are_base_sixteen(digits: Seq<u8>, c: u8, v: u32, d: u32)
    requires
        hex_value(digits) == Some(v),
        v < 0x1000_0000,
        hex_digit(c) == Some(d),
    ensures
        hex_value(digits.push(c)) == Some((16 * v + d) as u32),
        d < 16,
{
    assert(digits.push(c).drop_last() =~= digits);
    assert(d < 16);
    assert((v << 4u32) | d == 16 * v + d) by (bit_vector)
        requires
            v < 0x1000_0000,
            d < 16,
    ;
}
} // verus!
