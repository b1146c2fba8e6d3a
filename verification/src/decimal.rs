//! Decimal numbers as text: how the scene file writes integers and which
//! texts it reads back as integers.

use crate::file_utils::chars_of;
use vstd::prelude::*;
use vstd::string::StringExecFns;

verus! {

pub open spec fn is_digit(c: char) -> bool {
    '0' <= c <= '9'
}

/// The number that the digit `c` stands for.
pub open spec fn digit_value(c: char) -> int {
    c as int - '0' as int
}

/// The digit that stands for `d`, for `d` from 0 to 9.
pub open spec fn digit_char(d: int) -> char {
    ('0' as int + d) as char
}

pub open spec fn all_digits(s: Seq<char>) -> bool {
    forall|i: int| 0 <= i < s.len() ==> is_digit(#[trigger] s[i])
}

/// The decimal digits of `n`, most significant first, without leading zeros.
pub open spec fn decimal_nat(n: nat) -> Seq<char>
    decreases n,
{
    if n < 10 {
        seq![digit_char(n as int)]
    } else {
        decimal_nat(n / 10).push(digit_char((n % 10) as int))
    }
}

/// The decimal form of `v`: a minus sign for a negative number, then the
/// digits of its magnitude.
pub open spec fn decimal_int(v: int) -> Seq<char> {
    if v < 0 {
        seq!['-'] + decimal_nat((-v) as nat)
    } else {
        decimal_nat(v as nat)
    }
}

/// The number that a row of digits stands for; leading zeros do not count.
pub open spec fn digits_value(s: Seq<char>) -> int
    decreases s.len(),
{
    if s.len() == 0 {
        0
    } else {
        digits_value(s.drop_last()) * 10 + digit_value(s.last())
    }
}

/// The integer that `s` is read as: an optional sign, `+` or `-`, and then at
/// least one digit and nothing else. Any other text stands for no number.
pub open spec fn parse_int(s: Seq<char>) -> Option<int> {
    if s.len() > 0 && (s[0] == '-' || s[0] == '+') {
        let body = s.skip(1);
        if body.len() > 0 && all_digits(body) {
            Some(
                if s[0] == '-' {
                    -digits_value(body)
                } else {
                    digits_value(body)
                },
            )
        } else {
            None
        }
    } else if s.len() > 0 && all_digits(s) {
        Some(digits_value(s))
    } else {
        None
    }
}

/// The signed 32-bit number that `s` is read as, if it is one.
pub open spec fn spec_parse_i32(s: Seq<char>) -> Option<i32> {
    match parse_int(s) {
        Some(v) => if i32::MIN <= v <= i32::MAX {
            Some(v as i32)
        } else {
            None
        },
        None => None,
    }
}

/// The count that `s` is read as, if it is one: as a signed number, but a
/// minus sign is not accepted, not even before zero.
pub open spec fn spec_parse_usize(s: Seq<char>) -> Option<usize> {
    match parse_int(s) {
        Some(v) => if s[0] != '-' && v <= usize::MAX {
            Some(v as usize)
        } else {
            None
        },
        None => None,
    }
}

/// The byte that `s` is read as, if it is one: as a count, up to 255.
pub open spec fn spec_parse_u8(s: Seq<char>) -> Option<u8> {
    match parse_int(s) {
        Some(v) => if s[0] != '-' && v <= u8::MAX {
            Some(v as u8)
        } else {
            None
        },
        None => None,
    }
}

/// Whether `c` can occur in the decimal form of an integer.
pub open spec fn is_number_char(c: char) -> bool {
    is_digit(c) || c == '-'
}

/// The digits of a number are digits, and stand for that number.
pub proof fn lemma_decimal_nat(n: nat)
    ensures
        decimal_nat(n).len() > 0,
        all_digits(decimal_nat(n)),
        digits_value(decimal_nat(n)) == n,
    decreases n,
{
    if n < 10 {
        let s = decimal_nat(n);
        assert(s.drop_last() =~= Seq::<char>::empty());
        assert(digits_value(s.drop_last()) == 0);
    } else {
        lemma_decimal_nat(n / 10);
        let head = decimal_nat(n / 10);
        let s = decimal_nat(n);
        assert(s.drop_last() =~= head);
        assert(s.last() == digit_char((n % 10) as int));
    }
}

/// Reading the decimal form of an integer gives the integer back.
pub proof fn lemma_parse_decimal(v: int)
    ensures
        parse_int(decimal_int(v)) == Some(v),
        forall|i: int|
            0 <= i < decimal_int(v).len() ==> is_number_char(#[trigger] decimal_int(v)[i]),
{
    if v < 0 {
        lemma_decimal_nat((-v) as nat);
        let s = decimal_int(v);
        assert(s.skip(1) =~= decimal_nat((-v) as nat));
        assert(s[0] == '-');
    } else {
        lemma_decimal_nat(v as nat);
    }
}

/// A longer row of digits stands for no smaller a number.
proof fn lemma_digits_value_grows(s: Seq<char>, k: int)
    requires
        0 <= k <= s.len(),
        all_digits(s),
    ensures
        0 <= digits_value(s.take(k)) <= digits_value(s),
    decreases s.len() - k,
{
    if k == s.len() {
        assert(s.take(k) =~= s);
        lemma_digits_value_nonnegative(s);
    } else {
        lemma_digits_value_grows(s, k + 1);
        let longer = s.take(k + 1);
        assert(longer.drop_last() =~= s.take(k));
        assert(longer.last() == s[k]);
        lemma_digits_value_nonnegative(s.take(k));
    }
}

proof fn lemma_digits_value_nonnegative(s: Seq<char>)
    requires
        all_digits(s),
    ensures
        0 <= digits_value(s),
    decreases s.len(),
{
    if s.len() > 0 {
        lemma_digits_value_nonnegative(s.drop_last());
    }
}

fn digit_text(d: u8) -> (s: &'static str)
    requires
        d <= 9,
    ensures
        s@ == seq![digit_char(d as int)],
{
    proof {
        reveal_strlit("0");
        reveal_strlit("1");
        reveal_strlit("2");
        reveal_strlit("3");
        reveal_strlit("4");
        reveal_strlit("5");
        reveal_strlit("6");
        reveal_strlit("7");
        reveal_strlit("8");
        reveal_strlit("9");
    }
    let s = if d == 0 {
        "0"
    } else if d == 1 {
        "1"
    } else if d == 2 {
        "2"
    } else if d == 3 {
        "3"
    } else if d == 4 {
        "4"
    } else if d == 5 {
        "5"
    } else if d == 6 {
        "6"
    } else if d == 7 {
        "7"
    } else if d == 8 {
        "8"
    } else {
        "9"
    };
    assert(s@ =~= seq![digit_char(d as int)]);
    s
}

/// Appends the decimal digits of `v` to `out`.
pub fn push_decimal(out: &mut String, v: u64)
    ensures
        final(out)@ == old(out)@ + decimal_nat(v as nat),
    decreases v,
{
    if v >= 10 {
        push_decimal(out, v / 10);
    }
    out.append(digit_text((v % 10) as u8));
    assert(out@ =~= old(out)@ + decimal_nat(v as nat));
}

/// Appends the decimal form of `v` to `out`.
pub fn push_i32(out: &mut String, v: i32)
    ensures
        final(out)@ == old(out)@ + decimal_int(v as int),
{
    if v < 0 {
        proof {
            reveal_strlit("-");
        }
        out.append("-");
        push_decimal(out, (-(v as i64)) as u64);
        assert(out@ =~= old(out)@ + decimal_int(v as int));
    } else {
        push_decimal(out, v as u64);
    }
}

/// The decimal form of `v`.
pub fn format_i32(v: i32) -> (s: String)
    ensures
        s@ == decimal_int(v as int),
{
    let mut s = String::new();
    push_i32(&mut s, v);
    assert(s@ =~= decimal_int(v as int));
    s
}

/// The decimal form of `v`.
pub fn format_usize(v: usize) -> (s: String)
    ensures
        s@ == decimal_nat(v as nat),
{
    let mut s = String::new();
    push_decimal(&mut s, v as u64);
    assert(s@ =~= decimal_nat(v as nat));
    s
}

/// Reads the digits `chars[from..]` as a number no larger than `limit`.
fn read_digits(chars: &Vec<char>, from: usize, limit: u64) -> (r: Option<u64>)
    requires
        from <= chars.len(),
    ensures
        r is Some <==> chars@.len() > from && all_digits(chars@.skip(from as int))
            && digits_value(chars@.skip(from as int)) <= limit,
        r is Some ==> r->0 as int == digits_value(chars@.skip(from as int)),
{
    let ghost body = chars@.skip(from as int);
    if from == chars.len() {
        return None;
    }
    let mut acc: u128 = 0;
    let mut i: usize = from;
    while i < chars.len()
        invariant
            from <= i <= chars.len(),
            body == chars@.skip(from as int),
            all_digits(body.take(i - from)),
            acc as int == digits_value(body.take(i - from)),
            acc <= limit,
        decreases chars.len() - i,
    {
        let c = chars[i];
        let ghost longer = body.take(i - from + 1);
        proof {
            assert(longer.drop_last() =~= body.take(i - from));
            assert(longer.last() == c);
            assert(body[i - from] == c);
        }
        if !('0' <= c && c <= '9') {
            return None;
        }
        let d: u128 = (c as u32 - '0' as u32) as u128;
        acc = acc * 10 + d;
        if acc > limit as u128 {
            proof {
                if all_digits(body) {
                    lemma_digits_value_grows(body, i - from + 1);
                }
            }
            return None;
        }
        proof {
            assert forall|k: int| 0 <= k < longer.len() implies is_digit(#[trigger] longer[k]) by {
                if k < i - from {
                    assert(longer[k] == body.take(i - from)[k]);
                }
            }
        }
        i += 1;
    }
    proof {
        assert(body.take(i - from) =~= body);
    }
    Some(acc as u64)
}

/// Reads a signed 32-bit number: an optional sign and then digits. Gives
/// `None` for any other text and for a number that does not fit.
pub fn parse_i32(text: &str) -> (r: Option<i32>)
    ensures
        r == spec_parse_i32(text@),
{
    let chars = chars_of(text);
    if chars.len() == 0 {
        return None;
    }
    let first = chars[0];
    if first == '-' {
        match read_digits(&chars, 1, 0x8000_0000) {
            Some(m) => Some((-(m as i64)) as i32),
            None => None,
        }
    } else if first == '+' {
        match read_digits(&chars, 1, 0x7fff_ffff) {
            Some(m) => Some(m as i32),
            None => None,
        }
    } else {
        proof {
            assert(chars@.skip(0) =~= chars@);
        }
        match read_digits(&chars, 0, 0x7fff_ffff) {
            Some(m) => Some(m as i32),
            None => None,
        }
    }
}

/// Reads a count: an optional `+` and then digits. Gives `None` for any other
/// text and for a number that does not fit.
pub fn parse_usize(text: &str) -> (r: Option<usize>)
    ensures
        r == spec_parse_usize(text@),
{
    let chars = chars_of(text);
    if chars.len() == 0 {
        return None;
    }
    let limit: u64 = usize::MAX as u64;
    let first = chars[0];
    if first == '-' {
        None
    } else if first == '+' {
        match read_digits(&chars, 1, limit) {
            Some(m) => Some(m as usize),
            None => None,
        }
    } else {
        proof {
            assert(chars@.skip(0) =~= chars@);
        }
        match read_digits(&chars, 0, limit) {
            Some(m) => Some(m as usize),
            None => None,
        }
    }
}

/// Reads a byte: an optional `+` and then digits. Gives `None` for any other
/// text and for a number above 255.
pub fn parse_u8(text: &str) -> (r: Option<u8>)
    ensures
        r == spec_parse_u8(text@),
{
    let chars = chars_of(text);
    if chars.len() == 0 {
        return None;
    }
    let first = chars[0];
    if first == '-' {
        None
    } else if first == '+' {
        match read_digits(&chars, 1, 255) {
            Some(m) => Some(m as u8),
            None => None,
        }
    } else {
        proof {
            assert(chars@.skip(0) =~= chars@);
        }
        match read_digits(&chars, 0, 255) {
            Some(m) => Some(m as u8),
            None => None,
        }
    }
}

} // verus!
