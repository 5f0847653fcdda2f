//! Hexadecimal text: the quantities EVM nodes answer with (`0x` and hex
//! digits) and the hex form of raw transactions.
use vstd::prelude::*;
use vstd::string::StrSliceExecFns;
use crate::error::GatewayError;

verus! {

pub open spec fn is_hex_digit(c: char) -> bool {
    ('0' <= c && c <= '9') || ('a' <= c && c <= 'f') || ('A' <= c && c <= 'F')
}

/// The value of a hex digit.
pub open spec fn hex_digit_value(c: char) -> nat {
    if '0' <= c && c <= '9' {
        (c as int - '0' as int) as nat
    } else if 'a' <= c && c <= 'f' {
        (c as int - 'a' as int + 10) as nat
    } else {
        (c as int - 'A' as int + 10) as nat
    }
}

/// The number that the hex digits `s` write, most significant first.
pub open spec fn hex_value(s: Seq<char>) -> nat
    decreases s.len(),
{
    if s.len() == 0 {
        0
    } else {
        hex_value(s.drop_last()) * 16 + hex_digit_value(s.last())
    }
}

/// The digits of `s` after an optional leading `+`.
pub open spec fn unsigned_digits(s: Seq<char>) -> Seq<char> {
    if s.len() > 0 && s[0] == '+' {
        s.drop_first()
    } else {
        s
    }
}

/// What `u128::from_str_radix(s, 16)` gives: an optional `+`, then at
/// least one hex digit and nothing else, of a value that fits in `u128`.
pub open spec fn parse_u128_hex(s: Seq<char>) -> Option<u128> {
    let d = unsigned_digits(s);
    if d.len() == 0 || exists|i: int| 0 <= i < d.len() && !is_hex_digit(#[trigger] d[i]) || hex_value(d)
        > u128::MAX {
        None
    } else {
        Some(hex_value(d) as u128)
    }
}

/// A node's answer for a quantity: `0x` followed by what
/// `parse_u128_hex` accepts.
pub open spec fn parse_quantity(s: Seq<char>) -> Result<u128, GatewayError> {
    if !(s.len() >= 2 && s[0] == '0' && s[1] == 'x') {
        Err(GatewayError::MissingHexPrefix)
    } else {
        match parse_u128_hex(s.subrange(2, s.len() as int)) {
            Some(v) => Ok(v),
            None => Err(GatewayError::InvalidNumber),
        }
    }
}

proof fn lemma_hex_value_grows(s: Seq<char>, i: int)
    requires
        0 <= i <= s.len(),
    ensures
        hex_value(s.take(i)) <= hex_value(s),
    decreases s.len() - i,
{
    if i < s.len() {
        lemma_hex_value_grows(s, i + 1);
        assert(s.take(i + 1).drop_last() =~= s.take(i));
        let a = hex_value(s.take(i));
        assert(a <= a * 16) by (nonlinear_arith);
    } else {
        assert(s.take(i) =~= s);
    }
}

fn hex_digit(c: char) -> (r: Option<u128>)
    ensures
        r is Some <==> is_hex_digit(c),
        r matches Some(v) ==> v == hex_digit_value(c) && v < 16,
{
    if '0' <= c && c <= '9' {
        Some((c as u32 - '0' as u32) as u128)
    } else if 'a' <= c && c <= 'f' {
        Some((c as u32 - 'a' as u32 + 10) as u128)
    } else if 'A' <= c && c <= 'F' {
        Some((c as u32 - 'A' as u32 + 10) as u128)
    } else {
        None
    }
}

/// Reads the hex number written by the characters of `s` from `start` on,
/// as `u128::from_str_radix` with radix 16 does.
fn parse_hex_from(s: &str, start: usize) -> (r: Option<u128>)
    requires
        start <= s@.len(),
    ensures
        r == parse_u128_hex(s@.subrange(start as int, s@.len() as int)),
{
    let n = s.unicode_len();
    let ghost t = s@.subrange(start as int, s@.len() as int);
    let mut i = start;
    if i < n && s.get_char(i) == '+' {
        i = i + 1;
    }
    let ghost d = unsigned_digits(t);
    proof {
        if t.len() > 0 && t[0] == '+' {
            assert(d =~= s@.subrange(start as int + 1, s@.len() as int));
        } else {
            assert(d =~= s@.subrange(start as int, s@.len() as int));
        }
    }
    let first = i;
    if first >= n {
        return None;
    }
    let mut value: u128 = 0;
    proof {
        assert(d.take(0) =~= Seq::<char>::empty());
    }
    while i < n
        invariant
            first <= i <= n,
            n == s@.len(),
            d == s@.subrange(first as int, n as int),
            d == unsigned_digits(t),
            t == s@.subrange(start as int, s@.len() as int),
            forall|j: int| 0 <= j < i - first ==> is_hex_digit(#[trigger] d[j]),
            value == hex_value(d.take(i - first)),
        decreases n - i,
    {
        let c = s.get_char(i);
        proof {
            assert(d[i - first] == c);
        }
        let dv = match hex_digit(c) {
            Some(v) => v,
            None => {
                proof {
                    assert(!is_hex_digit(d[i - first]));
                }
                return None;
            },
        };
        proof {
            assert(d.take(i - first + 1).drop_last() =~= d.take(i - first));
            assert(d.take(i - first + 1).last() == c);
        }
        if value > (u128::MAX - dv) / 16 {
            proof {
                assert(value * 16 + dv > u128::MAX) by (nonlinear_arith)
                    requires
                        value > (u128::MAX - dv) / 16,
                        dv < 16,
                ;
                lemma_hex_value_grows(d, i - first + 1);
            }
            return None;
        }
        proof {
            assert(value * 16 + dv <= u128::MAX) by (nonlinear_arith)
                requires
                    value <= (u128::MAX - dv) / 16,
                    dv < 16,
            ;
        }
        value = value * 16 + dv;
        i = i + 1;
    }
    proof {
        assert(d.take(i - first) =~= d);
    }
    Some(value)
}

/// The quantity a node answered with: `0x` then hex digits.
pub fn parse_quantity_str(s: &str) -> (r: Result<u128, GatewayError>)
    ensures
        r == parse_quantity(s@),
{
    let n = s.unicode_len();
    if n < 2 || s.get_char(0) != '0' || s.get_char(1) != 'x' {
        return Err(GatewayError::MissingHexPrefix);
    }
    match parse_hex_from(s, 2) {
        Some(v) => Ok(v),
        None => Err(GatewayError::InvalidNumber),
    }
}

/// The lowercase hex digit of `v`.
pub open spec fn lower_hex_char(v: nat) -> char {
    if v < 10 {
        ('0' as int + v) as char
    } else {
        ('a' as int + v - 10) as char
    }
}

/// `bytes` in lowercase hex, two digits per byte, high nibble first.
pub open spec fn hex_lower(bytes: Seq<u8>) -> Seq<char>
    decreases bytes.len(),
{
    if bytes.len() == 0 {
        Seq::empty()
    } else {
        hex_lower(bytes.drop_last()).push(lower_hex_char((bytes.last() / 16) as nat)).push(
            lower_hex_char((bytes.last() % 16) as nat),
        )
    }
}

/// `hex::encode`: the crate documents it as the bytes in lowercase hex,
/// two digits per byte.
#[verifier::external_body]
fn hex_encode(bytes: &[u8]) -> (r: String)
    ensures
        r@ == hex_lower(bytes@),
{
    hex::encode(bytes)
}

/// The parameter of `eth_sendRawTransaction`: the signed payload in hex,
/// after `0x`.
pub fn raw_transaction_hex(payload: &Vec<u8>) -> (r: String)
    ensures
        r@ == seq!['0', 'x'] + hex_lower(payload@),
{
    proof {
        reveal_strlit("0x");
    }
    let mut s = String::from_str("0x");
    let h = hex_encode(payload.as_slice());
    s.append(h.as_str());
    s
}

pub open spec fn is_dec_digit(c: char) -> bool {
    '0' <= c && c <= '9'
}

/// The number that the decimal digits `s` write.
pub open spec fn dec_value(s: Seq<char>) -> nat
    decreases s.len(),
{
    if s.len() == 0 {
        0
    } else {
        dec_value(s.drop_last()) * 10 + (s.last() as int - '0' as int) as nat
    }
}

/// What `str::parse::<u128>` gives: an optional `+`, then at least one
/// decimal digit and nothing else, of a value that fits in `u128`.
pub open spec fn parse_u128_dec(s: Seq<char>) -> Option<u128> {
    let d = unsigned_digits(s);
    if d.len() == 0 || exists|i: int| 0 <= i < d.len() && !is_dec_digit(#[trigger] d[i]) || dec_value(d)
        > u128::MAX {
        None
    } else {
        Some(dec_value(d) as u128)
    }
}

/// What `str::parse::<u64>` gives: as for `u128`, within `u64`.
pub open spec fn parse_u64_dec(s: Seq<char>) -> Option<u64> {
    match parse_u128_dec(s) {
        Some(v) => if v <= u64::MAX {
            Some(v as u64)
        } else {
            None
        },
        None => None,
    }
}

proof fn lemma_dec_value_grows(s: Seq<char>, i: int)
    requires
        0 <= i <= s.len(),
    ensures
        dec_value(s.take(i)) <= dec_value(s),
    decreases s.len() - i,
{
    if i < s.len() {
        lemma_dec_value_grows(s, i + 1);
        assert(s.take(i + 1).drop_last() =~= s.take(i));
        let a = dec_value(s.take(i));
        assert(a <= a * 10) by (nonlinear_arith);
    } else {
        assert(s.take(i) =~= s);
    }
}

/// Reads a decimal number as `str::parse::<u128>` does.
pub fn parse_u128_decimal(s: &str) -> (r: Option<u128>)
    ensures
        r == parse_u128_dec(s@),
{
    let n = s.unicode_len();
    let ghost t = s@;
    let mut i: usize = 0;
    if i < n && s.get_char(i) == '+' {
        i = i + 1;
    }
    let ghost d = unsigned_digits(t);
    proof {
        if t.len() > 0 && t[0] == '+' {
            assert(d =~= s@.subrange(1, s@.len() as int));
        } else {
            assert(d =~= s@.subrange(0, s@.len() as int));
        }
    }
    let first = i;
    if first >= n {
        return None;
    }
    let mut value: u128 = 0;
    proof {
        assert(d.take(0) =~= Seq::<char>::empty());
    }
    while i < n
        invariant
            first <= i <= n,
            n == s@.len(),
            t == s@,
            d == unsigned_digits(t),
            d == s@.subrange(first as int, n as int),
            forall|j: int| 0 <= j < i - first ==> is_dec_digit(#[trigger] d[j]),
            value == dec_value(d.take(i - first)),
        decreases n - i,
    {
        let c = s.get_char(i);
        proof {
            assert(d[i - first] == c);
        }
        if !('0' <= c && c <= '9') {
            proof {
                assert(!is_dec_digit(d[i - first]));
            }
            return None;
        }
        let dv = (c as u32 - '0' as u32) as u128;
        proof {
            assert(d.take(i - first + 1).drop_last() =~= d.take(i - first));
            assert(d.take(i - first + 1).last() == c);
        }
        if value > (u128::MAX - dv) / 10 {
            proof {
                assert(value * 10 + dv > u128::MAX) by (nonlinear_arith)
                    requires
                        value > (u128::MAX - dv) / 10,
                        dv < 10,
                ;
                lemma_dec_value_grows(d, i - first + 1);
            }
            return None;
        }
        proof {
            assert(value * 10 + dv <= u128::MAX) by (nonlinear_arith)
                requires
                    value <= (u128::MAX - dv) / 10,
                    dv < 10,
            ;
        }
        value = value * 10 + dv;
        i = i + 1;
    }
    proof {
        assert(d.take(i - first) =~= d);
    }
    Some(value)
}

/// Reads a decimal number as `str::parse::<u64>` does.
pub fn parse_u64_decimal(s: &str) -> (r: Option<u64>)
    ensures
        r == parse_u64_dec(s@),
{
    match parse_u128_decimal(s) {
        Some(v) => if v <= u64::MAX as u128 {
            Some(v as u64)
        } else {
            None
        },
        None => None,
    }
}

} // verus!
