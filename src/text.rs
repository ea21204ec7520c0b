//! Small operations on text shared by the other modules.
use vstd::prelude::*;
use vstd::utf8::encode_utf8;

verus! {

/// Relies on `String::push`: `c` appended.
#[verifier::external_body]
pub(crate) fn push_char(s: &mut String, c: char)
    ensures
        final(s)@ == old(s)@.push(c),
{
    s.push(c);
}

/// Sum of the code points of `s`.
pub open spec fn char_sum(s: Seq<char>) -> nat
    decreases s.len(),
{
    if s.len() == 0 {
        0
    } else {
        char_sum(s.drop_last()) + (s.last() as u32) as nat
    }
}

/// The sort key of an answer: the sum of its code points divided by its
/// length in UTF-8 bytes (at least one).
pub open spec fn answer_key(s: Seq<char>) -> nat {
    let n = encode_utf8(s).len();
    char_sum(s) / (if n == 0 { 1 } else { n })
}

/// `answer_key` of `s`.
pub fn key_of(s: &str) -> (r: u128)
    ensures
        r == answer_key(s@),
{
    let n = s.unicode_len();
    let mut sum: u128 = 0;
    let mut i: usize = 0;
    while i < n
        invariant
            0 <= i <= n,
            n == s@.len(),
            sum == char_sum(s@.subrange(0, i as int)),
            sum <= i * 0x110000,
        decreases n - i,
    {
        let c = s.get_char(i);
        proof {
            vstd::utf8::char_is_scalar(c);
            assert(s@.subrange(0, i as int + 1).drop_last() =~= s@.subrange(0, i as int));
        }
        sum = sum + (c as u32) as u128;
        i = i + 1;
    }
    assert(s@.subrange(0, n as int) =~= s@);
    let bytes = s.as_bytes().len();
    let divisor: u128 = if bytes == 0 {
        1
    } else {
        bytes as u128
    };
    sum / divisor
}

/// `s` with every `from` replaced by `to`.
pub open spec fn replaced(s: Seq<char>, from: char, to: char) -> Seq<char> {
    s.map_values(|c: char| if c == from { to } else { c })
}

/// The value of the decimal digits `s`.
pub open spec fn digits_value(s: Seq<char>) -> int
    decreases s.len(),
{
    if s.len() == 0 {
        0
    } else {
        digits_value(s.drop_last()) * 10 + (s.last() as int - '0' as int)
    }
}

/// The `u32` written in `s`: an optional `+` and then one or more decimal
/// digits, of a value that fits; `None` for any other text.
pub open spec fn decimal_u32(s: Seq<char>) -> Option<u32> {
    let digits = if s.len() > 0 && s[0] == '+' {
        s.drop_first()
    } else {
        s
    };
    if digits.len() > 0 && (forall|i: int| 0 <= i < digits.len() ==> '0' <= #[trigger] digits[i] <= '9')
        && digits_value(digits) <= u32::MAX {
        Some(digits_value(digits) as u32)
    } else {
        None
    }
}

/// The `i32` written in `s`: an optional sign and then one or more decimal
/// digits, of a value that fits; `None` for any other text.
pub open spec fn decimal_i32(s: Seq<char>) -> Option<i32> {
    let signed = s.len() > 0 && (s[0] == '+' || s[0] == '-');
    let digits = if signed {
        s.drop_first()
    } else {
        s
    };
    let value = if s.len() > 0 && s[0] == '-' {
        -digits_value(digits)
    } else {
        digits_value(digits)
    };
    if digits.len() > 0 && (forall|i: int| 0 <= i < digits.len() ==> '0' <= #[trigger] digits[i] <= '9')
        && i32::MIN <= value <= i32::MAX {
        Some(value as i32)
    } else {
        None
    }
}

} // verus!
