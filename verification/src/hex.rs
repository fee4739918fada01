//! Uppercase hexadecimal (RFC 4648 base16) as a mathematical code, together
//! with the executable encoder and decoder of the `data_encoding` crate.
//!
//! The spec functions below pin the code down exactly: `hex_of` maps a byte
//! sequence to its digit string, `bytes_of_hex` maps a well-formed digit
//! string back, and the lemmas prove the two are mutually inverse.

use vstd::prelude::*;

verus! {

/// The uppercase hexadecimal digit for a nibble value.
pub open spec fn hex_digit_char(n: u8) -> char
    recommends
        n < 16,
{
    if n == 0 {
        '0'
    } else if n == 1 {
        '1'
    } else if n == 2 {
        '2'
    } else if n == 3 {
        '3'
    } else if n == 4 {
        '4'
    } else if n == 5 {
        '5'
    } else if n == 6 {
        '6'
    } else if n == 7 {
        '7'
    } else if n == 8 {
        '8'
    } else if n == 9 {
        '9'
    } else if n == 10 {
        'A'
    } else if n == 11 {
        'B'
    } else if n == 12 {
        'C'
    } else if n == 13 {
        'D'
    } else if n == 14 {
        'E'
    } else {
        'F'
    }
}

/// Whether `c` is an uppercase hexadecimal digit.
pub open spec fn is_hex_digit(c: char) -> bool {
    (48 <= c as u32 && c as u32 <= 57) || (65 <= c as u32 && c as u32 <= 70)
}

/// The nibble value of an uppercase hexadecimal digit.
pub open spec fn hex_val(c: char) -> u8
    recommends
        is_hex_digit(c),
{
    if 48 <= c as u32 && c as u32 <= 57 {
        (c as u32 - 48) as u8
    } else {
        (c as u32 - 55) as u8
    }
}

/// The two digits of one byte, high nibble first.
pub open spec fn byte_hex(b: u8) -> Seq<char> {
    seq![hex_digit_char(b / 16), hex_digit_char(b % 16)]
}

/// The digit string of a byte sequence.
pub open spec fn hex_of(bs: Seq<u8>) -> Seq<char>
    decreases bs.len(),
{
    if bs.len() == 0 {
        Seq::empty()
    } else {
        byte_hex(bs[0]) + hex_of(bs.drop_first())
    }
}

/// Whether `s` is a well-formed digit string: even length, digits only.
pub open spec fn is_hex_seq(s: Seq<char>) -> bool {
    s.len() % 2 == 0 && forall|i: int| 0 <= i < s.len() ==> is_hex_digit(#[trigger] s[i])
}

/// The byte sequence a well-formed digit string stands for.
pub open spec fn bytes_of_hex(s: Seq<char>) -> Seq<u8>
    recommends
        is_hex_seq(s),
    decreases s.len(),
{
    if s.len() < 2 {
        Seq::empty()
    } else {
        seq![(hex_val(s[0]) * 16 + hex_val(s[1])) as u8] + bytes_of_hex(s.skip(2))
    }
}

proof fn lemma_digit_char_val(n: u8)
    requires
        n < 16,
    ensures
        is_hex_digit(hex_digit_char(n)),
        hex_val(hex_digit_char(n)) == n,
{
}

proof fn lemma_val_digit_char(c: char)
    requires
        is_hex_digit(c),
    ensures
        hex_val(c) < 16,
        hex_digit_char(hex_val(c)) == c,
{
}

/// The digit string of `bs` has twice its length.
pub proof fn lemma_hex_of_len(bs: Seq<u8>)
    ensures
        hex_of(bs).len() == 2 * bs.len(),
    decreases bs.len(),
{
    if bs.len() > 0 {
        lemma_hex_of_len(bs.drop_first());
    }
}

/// The digit string of any byte sequence is well formed.
pub proof fn lemma_hex_of_is_hex_seq(bs: Seq<u8>)
    ensures
        is_hex_seq(hex_of(bs)),
    decreases bs.len(),
{
    lemma_hex_of_len(bs);
    if bs.len() > 0 {
        lemma_hex_of_is_hex_seq(bs.drop_first());
        let rest = hex_of(bs.drop_first());
        lemma_digit_char_val(bs[0] / 16);
        lemma_digit_char_val(bs[0] % 16);
        assert forall|i: int| 0 <= i < hex_of(bs).len() implies is_hex_digit(
            #[trigger] hex_of(bs)[i],
        ) by {
            if i >= 2 {
                assert(hex_of(bs)[i] == rest[i - 2]);
            }
        }
    }
}

/// A digit string of even length stands for half as many bytes.
pub proof fn lemma_bytes_of_hex_len(s: Seq<char>)
    requires
        s.len() % 2 == 0,
    ensures
        bytes_of_hex(s).len() == s.len() / 2,
    decreases s.len(),
{
    if s.len() >= 2 {
        lemma_bytes_of_hex_len(s.skip(2));
    }
}

/// Decoding inverts encoding: the digit string of `bs` stands for `bs`.
pub proof fn lemma_bytes_of_hex_of(bs: Seq<u8>)
    ensures
        bytes_of_hex(hex_of(bs)) == bs,
    decreases bs.len(),
{
    lemma_hex_of_len(bs);
    if bs.len() == 0 {
        assert(bytes_of_hex(hex_of(bs)) =~= bs);
    } else {
        let s = hex_of(bs);
        let rest = hex_of(bs.drop_first());
        lemma_hex_of_len(bs.drop_first());
        lemma_bytes_of_hex_of(bs.drop_first());
        lemma_digit_char_val(bs[0] / 16);
        lemma_digit_char_val(bs[0] % 16);
        assert(s[0] == hex_digit_char(bs[0] / 16));
        assert(s[1] == hex_digit_char(bs[0] % 16));
        assert((hex_val(s[0]) * 16 + hex_val(s[1])) as u8 == bs[0]);
        assert(s.skip(2) =~= rest);
        assert(bytes_of_hex(s) =~= bs);
    }
}

/// Encoding inverts decoding on well-formed digit strings.
pub proof fn lemma_hex_of_bytes_of(s: Seq<char>)
    requires
        is_hex_seq(s),
    ensures
        hex_of(bytes_of_hex(s)) == s,
    decreases s.len(),
{
    if s.len() == 0 {
        assert(hex_of(bytes_of_hex(s)) =~= s);
    } else {
        let b = (hex_val(s[0]) * 16 + hex_val(s[1])) as u8;
        let bs = bytes_of_hex(s);
        assert(is_hex_seq(s.skip(2))) by {
            assert forall|i: int| 0 <= i < s.skip(2).len() implies is_hex_digit(
                #[trigger] s.skip(2)[i],
            ) by {
                assert(s.skip(2)[i] == s[i + 2]);
            }
        }
        lemma_hex_of_bytes_of(s.skip(2));
        lemma_val_digit_char(s[0]);
        lemma_val_digit_char(s[1]);
        assert(hex_val(s[0]) * 16 + hex_val(s[1]) < 256);
        assert(b / 16 == hex_val(s[0]) && b % 16 == hex_val(s[1])) by (nonlinear_arith)
            requires
                b == (hex_val(s[0]) * 16 + hex_val(s[1])) as u8,
                hex_val(s[0]) < 16,
                hex_val(s[1]) < 16,
        ;
        assert(bs[0] == b);
        assert(bs.drop_first() =~= bytes_of_hex(s.skip(2)));
        assert(hex_of(bs) =~= s);
    }
}

/// Relies on `data_encoding::HEXUPPER.encode`: each input byte becomes two
/// uppercase hexadecimal digits, high nibble first (RFC 4648 base16).
#[verifier::external_body]
pub(crate) fn hex_encode(bytes: &[u8]) -> (r: String)
    requires
        bytes@.len() * 512 <= usize::MAX,
    ensures
        r@ == hex_of(bytes@),
{
    data_encoding::HEXUPPER.encode(bytes)
}

/// Relies on `data_encoding::HEXUPPER.decode`: it succeeds exactly on
/// even-length strings of uppercase hexadecimal digits and returns the bytes
/// those digits stand for; any other input is rejected.
#[verifier::external_body]
pub(crate) fn hex_decode(s: &str) -> (r: Option<Vec<u8>>)
    ensures
        r is Some <==> is_hex_seq(s@),
        r matches Some(v) ==> v@ == bytes_of_hex(s@),
{
    match data_encoding::HEXUPPER.decode(s.as_bytes()) {
        Ok(v) => Some(v),
        Err(_) => None,
    }
}

} // verus!
