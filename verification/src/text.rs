//! Process and user ids as decimal text: writing a number out, and reading
//! one back the way `str::parse::<i32>` does.

use vstd::prelude::*;
use vstd::string::*;

verus! {

/// Whether a character is one of the ten ASCII digits.
pub open spec fn is_digit(c: char) -> bool {
    '0' <= c <= '9'
}

/// The number that a digit stands for.
pub open spec fn digit_value(c: char) -> int {
    c as int - '0' as int
}

/// The digit that stands for a number below ten.
pub open spec fn digit_char(d: int) -> char {
    (d + '0' as int) as char
}

/// A natural number in decimal, without leading zeros.
pub open spec fn decimal(n: nat) -> Seq<char>
    decreases n,
{
    if n < 10 {
        seq![digit_char(n as int)]
    } else {
        decimal(n / 10).push(digit_char((n % 10) as int))
    }
}

/// An integer in decimal, with a minus sign in front where it is negative.
pub open spec fn signed_decimal(v: int) -> Seq<char> {
    if v < 0 {
        seq!['-'] + decimal((-v) as nat)
    } else {
        decimal(v as nat)
    }
}

/// Whether every character is a digit.
pub open spec fn all_digits(s: Seq<char>) -> bool {
    forall|i: int| 0 <= i < s.len() ==> is_digit(#[trigger] s[i])
}

/// The number that a run of digits stands for; leading zeros count for
/// nothing.
pub open spec fn digits_value(s: Seq<char>) -> int
    decreases s.len(),
{
    if s.len() == 0 {
        0
    } else {
        digits_value(s.drop_last()) * 10 + digit_value(s.last())
    }
}

/// The digits of a text that may start with one sign.
pub open spec fn unsigned_part(s: Seq<char>) -> Seq<char> {
    if s.len() > 0 && (s[0] == '-' || s[0] == '+') {
        s.skip(1)
    } else {
        s
    }
}

/// The 32-bit integer that a text denotes: an optional `+` or `-`, then one
/// or more digits, the whole within the range of `i32`. Any other text
/// denotes none.
pub open spec fn parse_i32_spec(s: Seq<char>) -> Option<i32> {
    let body = unsigned_part(s);
    let value = if s.len() > 0 && s[0] == '-' {
        -digits_value(body)
    } else {
        digits_value(body)
    };
    if body.len() > 0 && all_digits(body) && i32::MIN <= value <= i32::MAX {
        Some(value as i32)
    } else {
        None
    }
}

/// A run of digits without its last is a run of digits.
pub proof fn lemma_front_is_digits(s: Seq<char>)
    requires
        all_digits(s),
        s.len() > 0,
    ensures
        all_digits(s.drop_last()),
        is_digit(s.last()),
{
    let front = s.drop_last();
    assert forall|i: int| 0 <= i < front.len() implies is_digit(#[trigger] front[i]) by {
        assert(front[i] == s[i]);
    }
}

/// A run of digits with one more digit behind it is a run of digits.
pub proof fn lemma_digits_with_last(s: Seq<char>)
    requires
        s.len() > 0,
        all_digits(s.drop_last()),
        is_digit(s.last()),
    ensures
        all_digits(s),
{
    let front = s.drop_last();
    assert forall|i: int| 0 <= i < s.len() implies is_digit(#[trigger] s[i]) by {
        if i < front.len() {
            assert(s[i] == front[i]);
        }
    }
}

/// A run of digits is worth at least as much as any of its beginnings, and
/// never less than zero.
pub proof fn lemma_digits_value_grows(s: Seq<char>, n: int)
    requires
        all_digits(s),
        0 <= n <= s.len(),
    ensures
        0 <= digits_value(s.take(n)) <= digits_value(s),
    decreases s.len(),
{
    if s.len() == 0 || n == s.len() {
        assert(s.take(n) == s);
    }
    if s.len() > 0 {
        let front = s.drop_last();
        lemma_front_is_digits(s);
        lemma_digits_value_grows(front, front.len() as int);
        assert(front.take(front.len() as int) == front);
        if n < s.len() {
            lemma_digits_value_grows(front, n);
            assert(front.take(n) == s.take(n));
        }
    }
}

/// The text of one digit.
fn digit_text(d: u64) -> (text: &'static str)
    requires
        d < 10,
    ensures
        text@ == seq![digit_char(d as int)],
{
    proof {
        reveal_strlit("0");
        reveal_strlit("1");
        reveal_strlit("2");
        reveal_strlit("3");
        reveal_strlit("4");
        reveal_strlit("5");
        reveal_strlit("6");
        reveal_strlit("7");
        reveal_strlit("8");
        reveal_strlit("9");
    }
    let text = if d == 0 {
        "0"
    } else if d == 1 {
        "1"
    } else if d == 2 {
        "2"
    } else if d == 3 {
        "3"
    } else if d == 4 {
        "4"
    } else if d == 5 {
        "5"
    } else if d == 6 {
        "6"
    } else if d == 7 {
        "7"
    } else if d == 8 {
        "8"
    } else {
        "9"
    };
    assert(text@ =~= seq![digit_char(d as int)]);
    text
}

/// Appends a number in decimal to a text.
pub fn append_decimal(out: &mut String, n: u64)
    ensures
        final(out)@ == old(out)@ + decimal(n as nat),
    decreases n,
{
    if n >= 10 {
        append_decimal(out, n / 10);
    }
    out.append(digit_text(n % 10));
    assert(final(out)@ =~= old(out)@ + decimal(n as nat));
}

/// An unsigned 32-bit number as decimal text.
pub fn u32_to_string(v: u32) -> (text: String)
    ensures
        text@ == decimal(v as nat),
{
    let mut text = String::new();
    append_decimal(&mut text, v as u64);
    assert(text@ =~= decimal(v as nat));
    text
}

/// A signed 32-bit number as decimal text.
pub fn i32_to_string(v: i32) -> (text: String)
    ensures
        text@ == signed_decimal(v as int),
{
    let mut text = String::new();
    if v < 0 {
        proof {
            reveal_strlit("-");
        }
        text.append("-");
        append_decimal(&mut text, (-(v as i64)) as u64);
        assert(text@ =~= signed_decimal(v as int));
    } else {
        append_decimal(&mut text, v as u64);
        assert(text@ =~= signed_decimal(v as int));
    }
    text
}

/// A text with a character outside ASCII denotes no number.
pub proof fn lemma_parse_needs_ascii(s: Seq<char>)
    requires
        !vstd::utf8::is_ascii_chars(s),
    ensures
        parse_i32_spec(s) is None,
{
    let i = choose|i: int| 0 <= i < s.len() && !('\0' <= #[trigger] s[i] <= '\u{7f}');
    let body = unsigned_part(s);
    if body.len() == s.len() {
        assert(!is_digit(body[i]));
    } else {
        assert(i > 0);
        assert(body[i - 1] == s[i]);
        assert(!is_digit(body[i - 1]));
    }
}

/// Reads a 32-bit integer from decimal text: an optional sign, then digits,
/// and nothing else.
pub fn parse_i32(s: &str) -> (number: Option<i32>)
    ensures
        number == parse_i32_spec(s@),
{
    broadcast use is_ascii_spec_bytes;

    if !s.is_ascii() {
        proof {
            lemma_parse_needs_ascii(s@);
        }
        return None;
    }
    let bytes = s.as_bytes();
    let n: usize = bytes.len();
    assert(n == s@.len());
    assert(forall|k: int| 0 <= k < n ==> bytes@[k] == s@[k] as u8);
    if n == 0 {
        return None;
    }
    let first: u8 = bytes[0];
    let negative = first == 45;
    let start: usize = if first == 45 || first == 43 {
        1
    } else {
        0
    };
    let ghost body = unsigned_part(s@);
    assert(body == s@.skip(start as int));
    assert(negative == (s@[0] == '-'));
    if start == n {
        return None;
    }
    let mut value: u64 = 0;
    let mut i: usize = start;
    while i < n
        invariant
            start <= i <= n,
            n == s@.len(),
            n == bytes@.len(),
            body == unsigned_part(s@),
            body == s@.skip(start as int),
            forall|k: int| 0 <= k < n ==> bytes@[k] == s@[k] as u8,
            vstd::utf8::is_ascii_chars(s@),
            all_digits(body.take(i - start)),
            value == digits_value(body.take(i - start)),
            value <= 0x8000_0000,
        decreases n - i,
    {
        let byte: u8 = bytes[i];
        let ghost c = s@[i as int];
        assert(c == body[i - start]);
        assert(byte == c as u8);
        if byte < 48 || byte > 57 {
            assert(!is_digit(body[i - start]));
            return None;
        }
        let digit: u64 = (byte - 48) as u64;
        let grown: u64 = value * 10 + digit;
        proof {
            let longer = body.take(i - start + 1);
            assert(longer.drop_last() == body.take(i - start));
            assert(longer.last() == c);
            assert(digit == digit_value(c));
            assert(grown == digits_value(longer));
            lemma_digits_with_last(longer);
        }
        if grown > 0x8000_0000 {
            proof {
                if all_digits(body) {
                    lemma_digits_value_grows(body, i - start + 1);
                }
            }
            return None;
        }
        value = grown;
        i += 1;
    }
    assert(body.take(i - start) == body);
    if negative {
        Some((-(value as i64)) as i32)
    } else if value > 0x7fff_ffff {
        None
    } else {
        Some(value as i32)
    }
}

/// The decimal text of a number is made of digits, at least one, and stands
/// for that number.
pub proof fn lemma_decimal_reads_back(n: nat)
    ensures
        decimal(n).len() > 0,
        all_digits(decimal(n)),
        digits_value(decimal(n)) == n,
    decreases n,
{
    if n < 10 {
        let text = decimal(n);
        assert(text.drop_last().len() == 0);
        assert(digits_value(text.drop_last()) == 0);
        assert(text.last() == digit_char(n as int));
        assert(digit_value(digit_char(n as int)) == n);
        assert(is_digit(text[0]));
    } else {
        let front = decimal(n / 10);
        let text = decimal(n);
        lemma_decimal_reads_back(n / 10);
        assert(text.drop_last() == front);
        assert(text.last() == digit_char((n % 10) as int));
        assert(digit_value(digit_char((n % 10) as int)) == n % 10);
        lemma_digits_with_last(text);
    }
}

/// Two numbers with the same decimal text are the same number.
pub proof fn lemma_decimal_is_unique(a: nat, b: nat)
    requires
        decimal(a) == decimal(b),
    ensures
        a == b,
{
    lemma_decimal_reads_back(a);
    lemma_decimal_reads_back(b);
}

/// What is written out as a signed decimal is read back as the same number.
pub proof fn lemma_parse_reads_decimal(v: i32)
    ensures
        parse_i32_spec(signed_decimal(v as int)) == Some(v),
{
    let text = signed_decimal(v as int);
    if v < 0 {
        let digits = decimal((-v) as nat);
        lemma_decimal_reads_back((-v) as nat);
        assert(text[0] == '-');
        assert(text.skip(1) == digits);
    } else {
        lemma_decimal_reads_back(v as nat);
        assert(is_digit(text[0]));
    }
}

} // verus!
