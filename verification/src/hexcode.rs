//! Hexadecimal encoding and decoding of byte strings.
//!
//! Webhook signatures arrive as lower- or upper-case hex text; the keyed
//! digest computed over the body is encoded the same way before the two
//! are compared.

use vstd::prelude::*;

verus! {

/// The hexadecimal digit, in lower case, whose value is `n`.
pub open spec fn hex_char_of(n: int) -> char {
    if n == 0 {
        '0'
    } else if n == 1 {
        '1'
    } else if n == 2 {
        '2'
    } else if n == 3 {
        '3'
    } else if n == 4 {
        '4'
    } else if n == 5 {
        '5'
    } else if n == 6 {
        '6'
    } else if n == 7 {
        '7'
    } else if n == 8 {
        '8'
    } else if n == 9 {
        '9'
    } else if n == 10 {
        'a'
    } else if n == 11 {
        'b'
    } else if n == 12 {
        'c'
    } else if n == 13 {
        'd'
    } else if n == 14 {
        'e'
    } else {
        'f'
    }
}

/// The value of the hexadecimal digit `c`, accepting both cases,
/// or `-1` when `c` is no such digit.
pub open spec fn nibble_of(c: char) -> int {
    let u = c as u32;
    if 48 <= u && u <= 57 {
        u - 48
    } else if 97 <= u && u <= 102 {
        u - 87
    } else if 65 <= u && u <= 70 {
        u - 55
    } else {
        -1
    }
}

pub open spec fn is_hex_digit(c: char) -> bool {
    nibble_of(c) != -1
}

/// The lower-case hexadecimal rendering of `bytes`: two digits per byte,
/// high nibble first.
pub open spec fn hex_encode_spec(bytes: Seq<u8>) -> Seq<char> {
    Seq::new(
        2 * bytes.len(),
        |i: int|
            if i % 2 == 0 {
                hex_char_of((bytes[i / 2] >> 4) as int)
            } else {
                hex_char_of((bytes[i / 2] & 0x0f) as int)
            },
    )
}

/// The bytes denoted by the hexadecimal text `s`, or `None` when `s` has
/// odd length or holds a character that is no hexadecimal digit.
pub open spec fn hex_decode_spec(s: Seq<char>) -> Option<Seq<u8>> {
    if s.len() % 2 == 0 && (forall|i: int| 0 <= i < s.len() ==> is_hex_digit(#[trigger] s[i])) {
        Some(
            Seq::new(
                s.len() / 2,
                |i: int| (nibble_of(s[2 * i]) * 16 + nibble_of(s[2 * i + 1])) as u8,
            ),
        )
    } else {
        None
    }
}

/// Decoding inverts encoding: the hexadecimal text written for `bytes`
/// reads back as exactly `bytes`.
pub proof fn lemma_hex_round_trip(bytes: Seq<u8>)
    ensures
        hex_decode_spec(hex_encode_spec(bytes)) == Some(bytes),
{
    let s = hex_encode_spec(bytes);
    assert forall|n: int| 0 <= n < 16 implies nibble_of(hex_char_of(n)) == n by {}
    assert forall|i: int| 0 <= i < s.len() implies is_hex_digit(#[trigger] s[i]) by {
        let b = bytes[i / 2];
        assert(b >> 4 < 16 && b & 0x0f < 16) by (bit_vector);
    }
    let decoded = hex_decode_spec(s).unwrap();
    assert forall|i: int| 0 <= i < bytes.len() implies decoded[i] == bytes[i] by {
        let b = bytes[i];
        assert(s[2 * i] == hex_char_of((b >> 4) as int));
        assert(s[2 * i + 1] == hex_char_of((b & 0x0f) as int));
        assert(b >> 4 < 16 && b & 0x0f < 16 && (b >> 4) * 16 + (b & 0x0f) == b) by (bit_vector);
    }
    assert(decoded =~= bytes);
}

/// Relies on `String::push`: appends the character to the end of the string.
#[verifier::external_body]
pub(crate) fn push_char(s: &mut String, c: char)
    ensures
        final(s)@ == old(s)@.push(c),
{
    s.push(c);
}

fn hex_char(n: u8) -> (c: char)
    requires
        n < 16,
    ensures
        c == hex_char_of(n as int),
{
    if n == 0 {
        '0'
    } else if n == 1 {
        '1'
    } else if n == 2 {
        '2'
    } else if n == 3 {
        '3'
    } else if n == 4 {
        '4'
    } else if n == 5 {
        '5'
    } else if n == 6 {
        '6'
    } else if n == 7 {
        '7'
    } else if n == 8 {
        '8'
    } else if n == 9 {
        '9'
    } else if n == 10 {
        'a'
    } else if n == 11 {
        'b'
    } else if n == 12 {
        'c'
    } else if n == 13 {
        'd'
    } else if n == 14 {
        'e'
    } else {
        'f'
    }
}

fn nibble(c: char) -> (r: Option<u8>)
    ensures
        match r {
            Some(v) => nibble_of(c) == v as int,
            None => nibble_of(c) == -1,
        },
{
    let u = c as u32;
    if 48 <= u && u <= 57 {
        Some((u - 48) as u8)
    } else if 97 <= u && u <= 102 {
        Some((u - 87) as u8)
    } else if 65 <= u && u <= 70 {
        Some((u - 55) as u8)
    } else {
        None
    }
}

/// Writes `bytes` as lower-case hexadecimal text.
pub fn hex_encode(bytes: &[u8]) -> (r: String)
    ensures
        r@ == hex_encode_spec(bytes@),
{
    let mut r = String::new();
    let mut i: usize = 0;
    while i < bytes.len()
        invariant
            i <= bytes@.len(),
            r@ =~= hex_encode_spec(bytes@).subrange(0, 2 * i as int),
        decreases bytes@.len() - i,
    {
        let b = bytes[i];
        assert(b >> 4 < 16 && b & 0x0f < 16) by (bit_vector);
        push_char(&mut r, hex_char(b >> 4));
        push_char(&mut r, hex_char(b & 0x0f));
        assert(r@ =~= hex_encode_spec(bytes@).subrange(0, 2 * (i + 1) as int));
        i += 1;
    }
    assert(hex_encode_spec(bytes@).subrange(0, 2 * i as int) =~= hex_encode_spec(bytes@));
    r
}

/// Reads hexadecimal text back into bytes, in either case; `None` when the
/// text has odd length or a character outside the hexadecimal alphabet.
pub fn hex_decode(s: &str) -> (r: Option<Vec<u8>>)
    ensures
        match r {
            Some(v) => hex_decode_spec(s@) == Some(v@),
            None => hex_decode_spec(s@) is None,
        },
{
    let n = s.unicode_len();
    if n % 2 != 0 {
        return None;
    }
    let mut out: Vec<u8> = Vec::new();
    let mut i: usize = 0;
    while i < n / 2
        invariant
            s@.len() == n,
            n % 2 == 0,
            i <= n / 2,
            out@.len() == i,
            forall|j: int| 0 <= j < 2 * i ==> is_hex_digit(#[trigger] s@[j]),
            forall|j: int|
                0 <= j < i ==> #[trigger] out@[j] == (nibble_of(s@[2 * j]) * 16 + nibble_of(
                    s@[2 * j + 1],
                )) as u8,
        decreases n / 2 - i,
    {
        let hi = match nibble(s.get_char(2 * i)) {
            Some(v) => v,
            None => {
                return None;
            },
        };
        let lo = match nibble(s.get_char(2 * i + 1)) {
            Some(v) => v,
            None => {
                return None;
            },
        };
        out.push(hi * 16 + lo);
        i += 1;
    }
    Some(out)
}

} // verus!
