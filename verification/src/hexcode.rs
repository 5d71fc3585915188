//! Lowercase hexadecimal encoding of byte sequences.
//!
//! The encoding is specified by [`hex_chars`]; the executable encoder calls
//! into the `hex` crate, while the decoder is verified against the same
//! specification.

use vstd::prelude::*;
use vstd::string::StrSliceExecFns;

verus! {

/// The lowercase hexadecimal digit for a nibble value.
pub open spec fn hex_digit(v: u8) -> char
    recommends
        v < 16,
{
    if v == 0 {
        '0'
    } else if v == 1 {
        '1'
    } else if v == 2 {
        '2'
    } else if v == 3 {
        '3'
    } else if v == 4 {
        '4'
    } else if v == 5 {
        '5'
    } else if v == 6 {
        '6'
    } else if v == 7 {
        '7'
    } else if v == 8 {
        '8'
    } else if v == 9 {
        '9'
    } else if v == 10 {
        'a'
    } else if v == 11 {
        'b'
    } else if v == 12 {
        'c'
    } else if v == 13 {
        'd'
    } else if v == 14 {
        'e'
    } else {
        'f'
    }
}

/// The lowercase hex encoding of a byte sequence: two digits per byte,
/// high nibble first, in input order.
pub open spec fn hex_chars(bytes: Seq<u8>) -> Seq<char>
    decreases bytes.len(),
{
    if bytes.len() == 0 {
        Seq::empty()
    } else {
        seq![hex_digit(bytes[0] / 16), hex_digit(bytes[0] % 16)] + hex_chars(bytes.drop_first())
    }
}

/// Whether `c` is one of the sixteen lowercase hexadecimal digits.
pub open spec fn is_hex_digit(c: char) -> bool {
    exists|v: u8| v < 16 && c == hex_digit(v)
}

/// A hex encoding is twice as long as its input.
pub proof fn lemma_hex_chars_len(bytes: Seq<u8>)
    ensures
        hex_chars(bytes).len() == 2 * bytes.len(),
    decreases bytes.len(),
{
    if bytes.len() > 0 {
        lemma_hex_chars_len(bytes.drop_first());
    }
}

/// Appending a byte appends its two digits.
pub proof fn lemma_hex_chars_push(bytes: Seq<u8>, b: u8)
    ensures
        hex_chars(bytes.push(b)) == hex_chars(bytes) + seq![
            hex_digit(b / 16),
            hex_digit(b % 16),
        ],
    decreases bytes.len(),
{
    let digits = seq![hex_digit(b / 16), hex_digit(b % 16)];
    assert(bytes.push(b)[0] == if bytes.len() == 0 {
        b
    } else {
        bytes[0]
    });
    if bytes.len() == 0 {
        assert(bytes.push(b).drop_first() =~= Seq::<u8>::empty());
        assert(hex_chars(bytes.push(b)) == digits + hex_chars(Seq::<u8>::empty()));
        assert(digits + Seq::<char>::empty() =~= hex_chars(bytes) + digits);
    } else {
        assert(bytes.push(b).drop_first() =~= bytes.drop_first().push(b));
        lemma_hex_chars_push(bytes.drop_first(), b);
        assert(hex_chars(bytes.push(b)) == seq![
            hex_digit(bytes[0] / 16),
            hex_digit(bytes[0] % 16),
        ] + (hex_chars(bytes.drop_first()) + digits));
        assert(seq![hex_digit(bytes[0] / 16), hex_digit(bytes[0] % 16)] + (hex_chars(
            bytes.drop_first(),
        ) + digits) =~= hex_chars(bytes) + digits);
    }
}

/// Distinct nibbles have distinct digits.
pub proof fn lemma_hex_digit_injective(a: u8, b: u8)
    requires
        a < 16,
        b < 16,
        hex_digit(a) == hex_digit(b),
    ensures
        a == b,
{
}

/// Hex encoding is injective on byte sequences.
pub proof fn lemma_hex_chars_injective(a: Seq<u8>, b: Seq<u8>)
    requires
        hex_chars(a) == hex_chars(b),
    ensures
        a == b,
    decreases a.len(),
{
    lemma_hex_chars_len(a);
    lemma_hex_chars_len(b);
    if a.len() == 0 {
        assert(a =~= b);
    } else {
        assert(hex_chars(a)[0] == hex_digit(a[0] / 16));
        assert(hex_chars(a)[1] == hex_digit(a[0] % 16));
        assert(hex_chars(b)[0] == hex_digit(b[0] / 16));
        assert(hex_chars(b)[1] == hex_digit(b[0] % 16));
        lemma_hex_digit_injective((a[0] / 16) as u8, (b[0] / 16) as u8);
        lemma_hex_digit_injective((a[0] % 16) as u8, (b[0] % 16) as u8);
        assert(a[0] == b[0]);
        assert(hex_chars(a).skip(2) =~= hex_chars(a.drop_first()));
        assert(hex_chars(b).skip(2) =~= hex_chars(b.drop_first()));
        lemma_hex_chars_injective(a.drop_first(), b.drop_first());
        assert forall|i: int| 0 <= i < a.len() implies a[i] == b[i] by {
            if i > 0 {
                assert(a[i] == a.drop_first()[i - 1]);
                assert(b[i] == b.drop_first()[i - 1]);
            }
        }
        assert(a =~= b);
    }
}

/// Every character of a hex encoding is a lowercase hex digit.
pub proof fn lemma_hex_chars_digits(bytes: Seq<u8>)
    ensures
        forall|i: int| 0 <= i < hex_chars(bytes).len() ==> is_hex_digit(hex_chars(bytes)[i]),
    decreases bytes.len(),
{
    lemma_hex_chars_len(bytes);
    if bytes.len() > 0 {
        let b = bytes[0];
        assert(b / 16 < 16 && b % 16 < 16) by (bit_vector);
        assert(is_hex_digit(hex_digit(b / 16)));
        assert(is_hex_digit(hex_digit(b % 16)));
        lemma_hex_chars_digits(bytes.drop_first());
        assert forall|i: int| 0 <= i < hex_chars(bytes).len() implies is_hex_digit(
            hex_chars(bytes)[i],
        ) by {
            if i >= 2 {
                assert(hex_chars(bytes)[i] == hex_chars(bytes.drop_first())[i - 2]);
            }
        }
    }
}

/// Whether `s` is the hex encoding of some byte sequence.
pub open spec fn is_hex_image(s: Seq<char>) -> bool {
    exists|b: Seq<u8>| s == hex_chars(b)
}

/// Relies on `hex::encode`: every input byte becomes two lowercase
/// hexadecimal digits, high nibble first, in input order.
#[verifier::external_body]
pub(crate) fn hex_encode_str(s: &str) -> (r: String)
    ensures
        r@ == hex_chars(vstd::utf8::encode_utf8(s@)),
{
    hex::encode(s)
}

/// The nibble a lowercase hex digit stands for, or `None` for any other
/// character.
pub fn hex_val(c: char) -> (r: Option<u8>)
    ensures
        r matches Some(v) ==> v < 16 && c == hex_digit(v),
        r is None ==> !is_hex_digit(c),
{
    let r: Option<u8> = match c {
        '0' => Some(0),
        '1' => Some(1),
        '2' => Some(2),
        '3' => Some(3),
        '4' => Some(4),
        '5' => Some(5),
        '6' => Some(6),
        '7' => Some(7),
        '8' => Some(8),
        '9' => Some(9),
        'a' => Some(10),
        'b' => Some(11),
        'c' => Some(12),
        'd' => Some(13),
        'e' => Some(14),
        'f' => Some(15),
        _ => None,
    };
    proof {
        if r is None {
            assert forall|v: u8| v < 16 implies c != hex_digit(v) by {}
        }
    }
    r
}

/// Parse a lowercase hex string back into its bytes. Returns `None` exactly
/// when `s` is the hex encoding of no byte sequence.
pub fn hex_to_bytes(s: &str) -> (r: Option<Vec<u8>>)
    ensures
        r matches Some(v) ==> s@ == hex_chars(v@),
        r is None ==> !is_hex_image(s@),
{
    let n: usize = s.unicode_len();
    if n % 2 != 0 {
        proof {
            if is_hex_image(s@) {
                let b = choose|b: Seq<u8>| s@ == hex_chars(b);
                lemma_hex_chars_len(b);
            }
        }
        return None;
    }
    let mut out: Vec<u8> = Vec::new();
    let mut i: usize = 0;
    while i < n
        invariant
            n == s@.len(),
            n % 2 == 0,
            i % 2 == 0,
            i <= n,
            out@.len() * 2 == i,
            hex_chars(out@) == s@.subrange(0, i as int),
        decreases n - i,
    {
        let c1 = s.get_char(i);
        let c2 = s.get_char(i + 1);
        match (hex_val(c1), hex_val(c2)) {
            (Some(hi), Some(lo)) => {
                let byte: u8 = hi * 16 + lo;
                proof {
                    assert(hi < 16 && lo < 16 ==> (hi * 16 + lo) / 16 == hi && (hi * 16 + lo) % 16
                        == lo) by (bit_vector);
                    assert(byte / 16 == hi && byte % 16 == lo);
                    assert(c1 == hex_digit(hi) && c2 == hex_digit(lo));
                    lemma_hex_chars_push(out@, byte);
                    assert(hex_chars(out@.push(byte)) == s@.subrange(0, i as int) + seq![c1, c2]);
                    assert(hex_chars(out@.push(byte)) =~= s@.subrange(0, i + 2));
                }
                out.push(byte);
                i += 2;
            }
            _ => {
                proof {
                    if is_hex_image(s@) {
                        let b = choose|b: Seq<u8>| s@ == hex_chars(b);
                        lemma_hex_chars_digits(b);
                    }
                }
                return None;
            }
        }
    }
    proof {
        assert(s@.subrange(0, n as int) =~= s@);
    }
    Some(out)
}

} // verus!
