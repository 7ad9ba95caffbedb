//! Decoding of the textual fields that proposal requests carry: hex-encoded
//! proposal ids and decimal amounts.

use vstd::prelude::*;
use crate::errors::NoteError;

verus! {

/// Hex digits in either case.
pub open spec fn is_hex_digit(c: char) -> bool {
    (0x30 <= c as int && c as int <= 0x39)  // '0'..='9'
    || (0x61 <= c as int && c as int <= 0x66)  // 'a'..='f'
    || (0x41 <= c as int && c as int <= 0x46)  // 'A'..='F'
}

/// The numeric value of a hex digit.
pub open spec fn hex_val(c: char) -> int {
    if 0x30 <= c as int && c as int <= 0x39 {
        c as int - 0x30
    } else if 0x61 <= c as int && c as int <= 0x66 {
        c as int - 0x61 + 10
    } else {
        c as int - 0x41 + 10
    }
}

/// A hex string: an even number of hex digits.
pub open spec fn valid_hex(s: Seq<char>) -> bool {
    s.len() % 2 == 0 && forall|i: int| 0 <= i < s.len() ==> is_hex_digit(#[trigger] s[i])
}

/// The bytes a hex string denotes, one byte per digit pair.
pub open spec fn hex_bytes(s: Seq<char>) -> Seq<u8> {
    Seq::new((s.len() / 2) as nat, |i: int| (hex_val(s[2 * i]) * 16 + hex_val(s[2 * i + 1])) as u8)
}

/// Relies on hex::decode: a string of an even number of hex digits (either
/// case) decodes to its byte pairs; an odd length or any other character is
/// an error. A character outside ASCII encodes to bytes that hex refuses, so
/// the contract over characters matches hex's check over bytes.
#[verifier::external_body]
fn hex_decode(s: &str) -> (r: Result<Vec<u8>, hex::FromHexError>)
    ensures
        r is Ok <==> valid_hex(s@),
        r is Ok ==> r->Ok_0@ == hex_bytes(s@),
{
    hex::decode(s)
}

/// The error type hex::decode reports; mapped to the library's own errors
/// right after the call.
#[verifier::external_type_specification]
#[verifier::external_body]
pub struct ExFromHexError(hex::FromHexError);

/// Decodes a textual proposal id into its 32 raw bytes.
///
/// Fails with `InvalidAction` unless the text is valid hex denoting exactly
/// 32 bytes, as the collaboration store's proposal ids are.
pub fn decode_proposal_id(s: &str) -> (r: Result<Vec<u8>, NoteError>)
    ensures
        r is Ok <==> valid_hex(s@) && s@.len() == 64,
        r is Ok ==> r->Ok_0@ == hex_bytes(s@) && r->Ok_0@.len() == 32,
        r is Err ==> r->Err_0 == NoteError::InvalidAction,
{
    match hex_decode(s) {
        Ok(bytes) => {
            if bytes.len() == 32 {
                Ok(bytes)
            } else {
                Err(NoteError::InvalidAction)
            }
        },
        Err(_) => Err(NoteError::InvalidAction),
    }
}

/// Decimal digits.
pub open spec fn is_dec_digit(c: char) -> bool {
    0x30 <= c as int && c as int <= 0x39
}

/// The numeric value of a decimal digit.
pub open spec fn dec_val(c: char) -> int {
    c as int - 0x30
}

/// The non-negative integer a digit string denotes.
pub open spec fn dec_value(s: Seq<char>) -> int
    decreases s.len(),
{
    if s.len() == 0 {
        0
    } else {
        dec_value(s.drop_last()) * 10 + dec_val(s.last())
    }
}

/// A digit string's value is non-negative.
proof fn lemma_dec_value_nonneg(s: Seq<char>)
    requires
        forall|j: int| 0 <= j < s.len() ==> is_dec_digit(#[trigger] s[j]),
    ensures
        dec_value(s) >= 0,
    decreases s.len(),
{
    if s.len() > 0 {
        assert forall|j: int| 0 <= j < s.drop_last().len()
            implies is_dec_digit(#[trigger] s.drop_last()[j]) by {
            assert(s.drop_last()[j] == s[j]);
        }
        lemma_dec_value_nonneg(s.drop_last());
        assert(dec_value(s.drop_last()) * 10 >= 0) by (nonlinear_arith)
            requires dec_value(s.drop_last()) >= 0
        ;
    }
}

/// A digit string's value is non-negative and grows along its prefixes.
proof fn lemma_dec_value_prefix_le(s: Seq<char>, i: int)
    requires
        forall|j: int| 0 <= j < s.len() ==> is_dec_digit(#[trigger] s[j]),
        0 <= i <= s.len(),
    ensures
        0 <= dec_value(s.take(i)) <= dec_value(s),
    decreases s.len() - i,
{
    assert forall|j: int| 0 <= j < s.take(i).len()
        implies is_dec_digit(#[trigger] s.take(i)[j]) by {
        assert(s.take(i)[j] == s[j]);
    }
    lemma_dec_value_nonneg(s.take(i));
    if i == s.len() {
        assert(s.take(i) =~= s);
    } else {
        lemma_dec_value_prefix_le(s, i + 1);
        let t = s.take(i + 1);
        assert(t.drop_last() =~= s.take(i));
        assert(t.last() == s[i]);
        let v = dec_value(s.take(i));
        assert(v * 10 + dec_val(s[i]) >= v) by (nonlinear_arith)
            requires
                v >= 0,
                dec_val(s[i]) >= 0,
        ;
    }
}

/// Parses a string of decimal digits as a non-negative integer.
///
/// Returns the denoted value when the string is non-empty, all digits, and
/// the value fits; `None` otherwise. Signs, spaces and separators are not
/// accepted: a proposal request's numeric fields are bare digit strings.
pub fn parse_u128(s: &str) -> (r: Option<u128>)
    ensures
        r is Some <==> s@.len() > 0
            && (forall|i: int| 0 <= i < s@.len() ==> is_dec_digit(#[trigger] s@[i]))
            && dec_value(s@) <= u128::MAX,
        r is Some ==> r->0 == dec_value(s@),
{
    let n = s.unicode_len();
    if n == 0 {
        return None;
    }
    let mut acc: u128 = 0;
    let mut i: usize = 0;
    while i < n
        invariant
            n == s@.len(),
            0 < n,
            i <= n,
            forall|j: int| 0 <= j < i ==> is_dec_digit(#[trigger] s@[j]),
            acc == dec_value(s@.take(i as int)),
        decreases n - i,
    {
        let c = s.get_char(i);
        let cv = c as u32;
        if cv < 0x30 || cv > 0x39 {
            return None;
        }
        let d: u128 = (cv - 0x30) as u128;
        proof {
            assert(forall|j: int| 0 <= j < i + 1 ==> is_dec_digit(#[trigger] s@[j]));
        }
        if acc > (u128::MAX - d) / 10 {
            proof {
                if forall|j: int| 0 <= j < s@.len() ==> is_dec_digit(#[trigger] s@[j]) {
                    let t = s@.take(i + 1);
                    assert(t.drop_last() =~= s@.take(i as int));
                    assert(t.last() == s@[i as int]);
                    assert(dec_value(t) == acc * 10 + d);
                    assert(acc * 10 + d > u128::MAX) by (nonlinear_arith)
                        requires
                            acc > (u128::MAX - d) / 10,
                            0 <= d <= 9,
                    ;
                    lemma_dec_value_prefix_le(s@, i + 1);
                }
            }
            return None;
        }
        proof {
            assert(acc * 10 + d <= u128::MAX) by (nonlinear_arith)
                requires
                    acc <= (u128::MAX - d) / 10,
                    0 <= d <= 9,
            ;
            let t = s@.take(i + 1);
            assert(t.drop_last() =~= s@.take(i as int));
            assert(t.last() == s@[i as int]);
        }
        acc = acc * 10 + d;
        i = i + 1;
    }
    proof {
        assert(s@.take(n as int) =~= s@);
    }
    Some(acc)
}

/// The character for one decimal digit.
pub open spec fn digit_char(d: int) -> char {
    if d == 0 { '0' }
    else if d == 1 { '1' }
    else if d == 2 { '2' }
    else if d == 3 { '3' }
    else if d == 4 { '4' }
    else if d == 5 { '5' }
    else if d == 6 { '6' }
    else if d == 7 { '7' }
    else if d == 8 { '8' }
    else { '9' }
}

/// The decimal form of a non-negative integer, most significant digit first.
pub open spec fn dec_string(n: int) -> Seq<char>
    decreases n,
{
    if n < 10 {
        seq![digit_char(n)]
    } else {
        dec_string(n / 10).push(digit_char(n % 10))
    }
}

/// One digit as text.
fn digit_str(d: u64) -> (r: &'static str)
    requires
        d < 10,
    ensures
        r@ =~= seq![digit_char(d as int)],
{
    proof {
        reveal_strlit("0");
        reveal_strlit("1");
        reveal_strlit("2");
        reveal_strlit("3");
        reveal_strlit("4");
        reveal_strlit("5");
        reveal_strlit("6");
        reveal_strlit("7");
        reveal_strlit("8");
        reveal_strlit("9");
    }
    match d {
        0 => "0",
        1 => "1",
        2 => "2",
        3 => "3",
        4 => "4",
        5 => "5",
        6 => "6",
        7 => "7",
        8 => "8",
        _ => "9",
    }
}

/// Renders `n` in decimal.
pub fn u64_to_dec_string(n: u64) -> (r: String)
    ensures
        r@ == dec_string(n as int),
    decreases n,
{
    if n < 10 {
        digit_str(n).to_owned()
    } else {
        let s = u64_to_dec_string(n / 10);
        let r = s.concat(digit_str(n % 10));
        proof {
            assert(r@ =~= dec_string((n / 10) as int).push(digit_char((n % 10) as int)));
        }
        r
    }
}

} // verus!

