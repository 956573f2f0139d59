//! Interpreting the text of sysfs attribute files: trimming, and reading
//! unsigned numbers in decimal and hexadecimal notation.

use crate::error::Error;
use vstd::prelude::*;
use vstd::string::*;

verus! {

/// The code points with the Unicode property `White_Space`.
pub open spec fn is_whitespace(c: char) -> bool {
    let n = c as u32;
    ||| 0x09 <= n <= 0x0d
    ||| n == 0x20
    ||| n == 0x85
    ||| n == 0xa0
    ||| n == 0x1680
    ||| 0x2000 <= n <= 0x200a
    ||| n == 0x2028
    ||| n == 0x2029
    ||| n == 0x202f
    ||| n == 0x205f
    ||| n == 0x3000
}

/// `s` without its leading whitespace.
pub open spec fn trim_start(s: Seq<char>) -> Seq<char>
    decreases s.len(),
{
    if s.len() > 0 && is_whitespace(s.first()) {
        trim_start(s.drop_first())
    } else {
        s
    }
}

/// `s` without its trailing whitespace.
pub open spec fn trim_end(s: Seq<char>) -> Seq<char>
    decreases s.len(),
{
    if s.len() > 0 && is_whitespace(s.last()) {
        trim_end(s.drop_last())
    } else {
        s
    }
}

/// `s` without leading and trailing whitespace.
pub open spec fn trimmed(s: Seq<char>) -> Seq<char> {
    trim_end(trim_start(s))
}

/// The value of `c` as a digit in base `radix`: `0-9`, then `a-z` or `A-Z`
/// for ten and above.
pub open spec fn digit_of(c: char, radix: nat) -> Option<nat> {
    let n = c as nat;
    let value: Option<nat> = if '0' <= c <= '9' {
        Some((n - 0x30) as nat)
    } else if 'a' <= c <= 'z' {
        Some((n - 0x61 + 10) as nat)
    } else if 'A' <= c <= 'Z' {
        Some((n - 0x41 + 10) as nat)
    } else {
        None
    };
    match value {
        Some(d) if d < radix => Some(d),
        _ => None,
    }
}

/// Every character of `s` is a digit in base `radix`.
pub open spec fn all_digits(s: Seq<char>, radix: nat) -> bool {
    forall|i: int| 0 <= i < s.len() ==> (#[trigger] digit_of(s[i], radix)) is Some
}

/// The number written by the digits `s` in base `radix`, most significant
/// digit first.
pub open spec fn digits_value(s: Seq<char>, radix: nat) -> nat
    decreases s.len(),
{
    if s.len() == 0 {
        0
    } else {
        digits_value(s.drop_last(), radix) * radix + digit_of(s.last(), radix).unwrap_or(0)
    }
}

/// The digits of an unsigned number: `s` without one leading `+`.
pub open spec fn unsigned_digits(s: Seq<char>) -> Seq<char> {
    if s.len() > 0 && s[0] == '+' {
        s.drop_first()
    } else {
        s
    }
}

/// The number that `s` writes in base `radix`, where `s` is one or more
/// digits and nothing else, and the number does not exceed `max`. A sign is
/// no digit.
pub open spec fn parse_digits(s: Seq<char>, radix: nat, max: nat) -> Option<nat> {
    if s.len() > 0 && all_digits(s, radix) && digits_value(s, radix) <= max {
        Some(digits_value(s, radix))
    } else {
        None
    }
}

/// The number that `s` writes in base `radix` with an optional `+` in front:
/// what `parse_digits` reads after one leading `+`, if there is one.
pub open spec fn parse_unsigned(s: Seq<char>, radix: nat, max: nat) -> Option<nat> {
    parse_digits(unsigned_digits(s), radix, max)
}

/// `s` starts with the lowercase hexadecimal marker `0x`.
pub open spec fn has_hex_prefix(s: Seq<char>) -> bool {
    s.len() >= 2 && s[0] == '0' && s[1] == 'x'
}

/// `s` without a leading `0x`.
pub open spec fn without_hex_prefix(s: Seq<char>) -> Seq<char> {
    if has_hex_prefix(s) {
        s.subrange(2, s.len() as int)
    } else {
        s
    }
}

/// What a decimal attribute holding `s` reads as: one or more decimal digits,
/// which a `+` may precede.
pub open spec fn decimal_u64(s: Seq<char>) -> Result<u64, Error> {
    match parse_unsigned(s, 10, u64::MAX as nat) {
        Some(v) => Ok(v as u64),
        None => Err(Error::Parse),
    }
}

/// What a hexadecimal attribute holding `s` reads as: an optional `0x`, then
/// one or more hexadecimal digits and nothing else, no sign either.
pub open spec fn hexadecimal_u64(s: Seq<char>) -> Result<u64, Error> {
    match parse_digits(without_hex_prefix(s), 16, u64::MAX as nat) {
        Some(v) => Ok(v as u64),
        None => Err(Error::Parse),
    }
}

/// What a hexadecimal attribute holding `s` reads as, in the width of an
/// address: an optional `0x`, then one or more hexadecimal digits and nothing
/// else, no sign either.
pub open spec fn hexadecimal_usize(s: Seq<char>) -> Result<usize, Error> {
    match parse_digits(without_hex_prefix(s), 16, usize::MAX as nat) {
        Some(v) => Ok(v as usize),
        None => Err(Error::Parse),
    }
}

/// The digits of a number never denote less than any of their prefixes.
pub proof fn lemma_prefix_value(s: Seq<char>, radix: nat, k: int)
    requires
        0 <= k <= s.len(),
        radix >= 1,
    ensures
        digits_value(s.subrange(0, k), radix) <= digits_value(s, radix),
    decreases s.len() - k,
{
    if k == s.len() {
        assert(s.subrange(0, k) =~= s);
    } else {
        lemma_prefix_value(s, radix, k + 1);
        let longer = s.subrange(0, k + 1);
        assert(longer.drop_last() =~= s.subrange(0, k));
        let shorter = digits_value(s.subrange(0, k), radix);
        assert(shorter <= shorter * radix) by (nonlinear_arith)
            requires
                radix >= 1,
        ;
    }
}

/// Whether `c` is whitespace.
pub fn char_is_whitespace(c: char) -> (b: bool)
    ensures
        b == is_whitespace(c),
{
    let n: u32 = c as u32;
    (0x09 <= n && n <= 0x0d) || n == 0x20 || n == 0x85 || n == 0xa0 || n == 0x1680 || (0x2000 <= n
        && n <= 0x200a) || n == 0x2028 || n == 0x2029 || n == 0x202f || n == 0x205f || n
        == 0x3000
}

/// The characters of `text`, in order.
pub fn chars_of(text: &str) -> (chars: Vec<char>)
    ensures
        chars@ == text@,
{
    let mut chars: Vec<char> = Vec::new();
    for c in it: text.chars()
        invariant
            chars@ == text@.subrange(0, it.index() as int),
            it.seq() == text@,
    {
        chars.push(c);
    }
    chars
}

/// `text` without leading and trailing whitespace.
pub fn trim(text: &str) -> (out: String)
    ensures
        out@ == trimmed(text@),
{
    let chars = chars_of(text);
    let n: usize = chars.len();
    let mut start: usize = 0;
    assert(chars@.subrange(0, n as int) =~= chars@);
    while start < n && char_is_whitespace(chars[start])
        invariant
            start <= n,
            n == chars@.len(),
            trim_start(chars@) == trim_start(chars@.subrange(start as int, n as int)),
        decreases n - start,
    {
        proof {
            let rest = chars@.subrange(start as int, n as int);
            assert(rest.drop_first() =~= chars@.subrange(start + 1, n as int));
        }
        start += 1;
    }
    let ghost body = chars@.subrange(start as int, n as int);
    assert(trim_start(chars@) == body);
    let mut end: usize = n;
    while end > start && char_is_whitespace(chars[end - 1])
        invariant
            start <= end <= n,
            n == chars@.len(),
            body == chars@.subrange(start as int, n as int),
            trim_end(body) == trim_end(chars@.subrange(start as int, end as int)),
        decreases end,
    {
        proof {
            let rest = chars@.subrange(start as int, end as int);
            assert(rest.drop_last() =~= chars@.subrange(start as int, end - 1));
        }
        end -= 1;
    }
    assert(trim_end(body) == chars@.subrange(start as int, end as int));
    String::from_str(text.substring_char(start, end))
}

/// The value of `c` as a digit in base `radix`.
pub fn char_digit(c: char, radix: u32) -> (digit: Option<u32>)
    requires
        2 <= radix <= 36,
    ensures
        match digit {
            Some(d) => digit_of(c, radix as nat) == Some(d as nat),
            None => digit_of(c, radix as nat) is None,
        },
{
    let n: u32 = c as u32;
    let value: u32 = if 0x30 <= n && n <= 0x39 {
        n - 0x30
    } else if 0x61 <= n && n <= 0x7a {
        n - 0x61 + 10
    } else if 0x41 <= n && n <= 0x5a {
        n - 0x41 + 10
    } else {
        return None;
    };
    if value < radix {
        Some(value)
    } else {
        None
    }
}

/// Reads the number that the characters from `start` on write in base
/// `radix`, where they are one or more digits and nothing else and the number
/// does not exceed `max`.
pub fn parse_digits_from(chars: &Vec<char>, start: usize, radix: u32, max: u64) -> (value: Option<
    u64,
>)
    requires
        start <= chars.len(),
        2 <= radix <= 36,
    ensures
        match value {
            Some(v) => parse_digits(
                chars@.subrange(start as int, chars.len() as int),
                radix as nat,
                max as nat,
            ) == Some(v as nat),
            None => parse_digits(
                chars@.subrange(start as int, chars.len() as int),
                radix as nat,
                max as nat,
            ) is None,
        },
{
    let n: usize = chars.len();
    let ghost digits = chars@.subrange(start as int, n as int);
    if start == n {
        return None;
    }
    let mut acc: u64 = 0;
    let mut i: usize = start;
    while i < n
        invariant
            start <= i <= n,
            n == chars.len(),
            2 <= radix <= 36,
            digits == chars@.subrange(start as int, n as int),
            all_digits(digits.subrange(0, i - start), radix as nat),
            acc == digits_value(digits.subrange(0, i - start), radix as nat),
            acc <= max,
        decreases n - i,
    {
        let ghost seen = digits.subrange(0, i - start);
        let ghost next = digits.subrange(0, i - start + 1);
        assert(next.drop_last() =~= seen);
        assert(next.last() == chars@[i as int]);
        match char_digit(chars[i], radix) {
            None => {
                assert(digit_of(digits[i - start], radix as nat) is None);
                return None;
            },
            Some(d) => {
                assert(acc * radix + d <= 0xffff_ffff_ffff_ffff * 36 + 35) by (nonlinear_arith)
                    requires
                        acc <= 0xffff_ffff_ffff_ffff,
                        radix <= 36,
                        d < radix,
                ;
                let wide: u128 = acc as u128 * radix as u128 + d as u128;
                assert(wide == digits_value(next, radix as nat));
                if wide > max as u128 {
                    proof {
                        if all_digits(digits, radix as nat) {
                            lemma_prefix_value(digits, radix as nat, i - start + 1);
                        }
                    }
                    return None;
                }
                assert forall|j: int| 0 <= j < next.len() implies (#[trigger] digit_of(
                    next[j],
                    radix as nat,
                )) is Some by {
                    if j < seen.len() {
                        assert(next[j] == seen[j]);
                    }
                }
                acc = wide as u64;
            },
        }
        i += 1;
    }
    assert(digits.subrange(0, n - start) =~= digits);
    Some(acc)
}

/// Reads the number that the characters from `start` on write in base
/// `radix` with an optional `+` in front, where the number does not exceed
/// `max`.
pub fn parse_unsigned_from(chars: &Vec<char>, start: usize, radix: u32, max: u64) -> (value:
    Option<u64>)
    requires
        start <= chars.len(),
        2 <= radix <= 36,
    ensures
        match value {
            Some(v) => parse_unsigned(
                chars@.subrange(start as int, chars.len() as int),
                radix as nat,
                max as nat,
            ) == Some(v as nat),
            None => parse_unsigned(
                chars@.subrange(start as int, chars.len() as int),
                radix as nat,
                max as nat,
            ) is None,
        },
{
    let n: usize = chars.len();
    let first: usize = if start < n && chars[start] == '+' {
        start + 1
    } else {
        start
    };
    assert(chars@.subrange(first as int, n as int) =~= unsigned_digits(
        chars@.subrange(start as int, n as int),
    ));
    parse_digits_from(chars, first, radix, max)
}

/// Reads a decimal number, as the `event` attribute holds one. A `+` in
/// front is accepted.
pub fn parse_decimal_u64(text: &str) -> (value: Result<u64, Error>)
    ensures
        value == decimal_u64(text@),
{
    let chars = chars_of(text);
    assert(chars@.subrange(0, chars.len() as int) =~= text@);
    match parse_unsigned_from(&chars, 0, 10, u64::MAX) {
        Some(v) => Ok(v),
        None => Err(Error::Parse),
    }
}

/// The index of the first character of `chars` after a leading `0x`.
fn hex_digits_start(chars: &Vec<char>) -> (start: usize)
    ensures
        start <= chars.len(),
        chars@.subrange(start as int, chars.len() as int) == without_hex_prefix(chars@),
{
    if chars.len() >= 2 && chars[0] == '0' && chars[1] == 'x' {
        2
    } else {
        assert(chars@.subrange(0, chars.len() as int) =~= chars@);
        0
    }
}

/// Reads a hexadecimal number, with or without a leading `0x`. A sign is
/// malformed.
pub fn parse_hexadecimal_u64(text: &str) -> (value: Result<u64, Error>)
    ensures
        value == hexadecimal_u64(text@),
{
    let chars = chars_of(text);
    let start = hex_digits_start(&chars);
    match parse_digits_from(&chars, start, 16, u64::MAX) {
        Some(v) => Ok(v),
        None => Err(Error::Parse),
    }
}

/// Reads a hexadecimal number in the width of an address, with or without a
/// leading `0x`. A sign is malformed.
pub fn parse_hexadecimal_usize(text: &str) -> (value: Result<usize, Error>)
    ensures
        value == hexadecimal_usize(text@),
{
    let chars = chars_of(text);
    let start = hex_digits_start(&chars);
    match parse_digits_from(&chars, start, 16, usize::MAX as u64) {
        Some(v) => Ok(v as usize),
        None => Err(Error::Parse),
    }
}

/// The character that writes the digit `d`.
pub open spec fn digit_char(d: nat) -> char {
    (0x30 + d) as char
}

/// The decimal notation of `n`, without sign or leading zeros.
pub open spec fn decimal_text(n: nat) -> Seq<char>
    decreases n,
{
    if n < 10 {
        seq![digit_char(n)]
    } else {
        decimal_text(n / 10).push(digit_char(n % 10))
    }
}

/// The one-character text of the digit `d`.
fn digit_str(d: u64) -> (text: &'static str)
    requires
        d < 10,
    ensures
        text@ == seq![digit_char(d as nat)],
{
    proof {
        reveal_strlit("0");
        reveal_strlit("1");
        reveal_strlit("2");
        reveal_strlit("3");
        reveal_strlit("4");
        reveal_strlit("5");
        reveal_strlit("6");
        reveal_strlit("7");
        reveal_strlit("8");
        reveal_strlit("9");
    }
    let text = if d == 0 {
        "0"
    } else if d == 1 {
        "1"
    } else if d == 2 {
        "2"
    } else if d == 3 {
        "3"
    } else if d == 4 {
        "4"
    } else if d == 5 {
        "5"
    } else if d == 6 {
        "6"
    } else if d == 7 {
        "7"
    } else if d == 8 {
        "8"
    } else {
        "9"
    };
    assert(text@ =~= seq![digit_char(d as nat)]);
    text
}

/// Appends the decimal notation of `n` to `out`.
pub fn append_decimal(out: &mut String, n: u64)
    ensures
        final(out)@ == old(out)@ + decimal_text(n as nat),
    decreases n,
{
    if n >= 10 {
        append_decimal(out, n / 10);
    }
    out.append(digit_str(n % 10));
    assert(out@ =~= old(out)@ + decimal_text(n as nat));
}

/// The character that writes the hexadecimal digit `d`, in lower case.
pub open spec fn hex_char(d: nat) -> char {
    if d < 10 {
        (0x30 + d) as char
    } else {
        (0x61 + d - 10) as char
    }
}

/// The `width` low hexadecimal digits of `value`, most significant first.
pub open spec fn hex_text(value: nat, width: nat) -> Seq<char>
    decreases width,
{
    if width == 0 {
        Seq::empty()
    } else {
        hex_text(value / 16, (width - 1) as nat).push(hex_char(value % 16))
    }
}

/// The one-character text of the hexadecimal digit `d`.
fn hex_digit_str(d: u64) -> (text: &'static str)
    requires
        d < 16,
    ensures
        text@ == seq![hex_char(d as nat)],
{
    if d < 10 {
        digit_str(d)
    } else {
        proof {
            reveal_strlit("a");
            reveal_strlit("b");
            reveal_strlit("c");
            reveal_strlit("d");
            reveal_strlit("e");
            reveal_strlit("f");
        }
        let text = if d == 10 {
            "a"
        } else if d == 11 {
            "b"
        } else if d == 12 {
            "c"
        } else if d == 13 {
            "d"
        } else if d == 14 {
            "e"
        } else {
            "f"
        };
        assert(text@ =~= seq![hex_char(d as nat)]);
        text
    }
}

/// Appends the `width` low hexadecimal digits of `value` to `out`.
pub fn append_hex(out: &mut String, value: u64, width: usize)
    ensures
        final(out)@ == old(out)@ + hex_text(value as nat, width as nat),
    decreases width,
{
    if width > 0 {
        append_hex(out, value / 16, width - 1);
        out.append(hex_digit_str(value % 16));
    }
    assert(out@ =~= old(out)@ + hex_text(value as nat, width as nat));
}

/// The decimal notation of a number is made of digits, and they denote it.
pub proof fn lemma_decimal_text_digits(n: nat)
    ensures
        decimal_text(n).len() > 0,
        all_digits(decimal_text(n), 10),
        digits_value(decimal_text(n), 10) == n,
        decimal_text(n)[0] != '+',
    decreases n,
{
    let text = decimal_text(n);
    if n < 10 {
        assert(text.drop_last() =~= Seq::<char>::empty());
        assert(digit_of(digit_char(n), 10) == Some(n));
        assert(digits_value(text.drop_last(), 10) == 0);
    } else {
        lemma_decimal_text_digits(n / 10);
        let front = decimal_text(n / 10);
        assert(text.drop_last() =~= front);
        assert(digit_of(digit_char(n % 10), 10) == Some(n % 10));
        assert forall|i: int| 0 <= i < text.len() implies (#[trigger] digit_of(text[i], 10))
            is Some by {
            if i < front.len() {
                assert(text[i] == front[i]);
            }
        }
        assert(text[0] == front[0]);
    }
}

/// Writing a number in decimal and reading the text gives the number back.
pub proof fn lemma_decimal_text_reads_back(n: nat, max: nat)
    requires
        n <= max,
    ensures
        parse_digits(decimal_text(n), 10, max) == Some(n),
        parse_unsigned(decimal_text(n), 10, max) == Some(n),
{
    lemma_decimal_text_digits(n);
}

/// The marker `0x` in front of hexadecimal digits changes nothing: with it
/// and without it the same text reads as the same number, or fails alike.
pub proof fn lemma_hex_prefix_optional(digits: Seq<char>)
    requires
        !has_hex_prefix(digits),
    ensures
        hexadecimal_u64(seq!['0', 'x'] + digits) == hexadecimal_u64(digits),
        hexadecimal_usize(seq!['0', 'x'] + digits) == hexadecimal_usize(digits),
{
    let marked = seq!['0', 'x'] + digits;
    assert(has_hex_prefix(marked));
    assert(marked.subrange(2, marked.len() as int) =~= digits);
}

} // verus!
