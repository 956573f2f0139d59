use uio_rs::text::{
    append_decimal, char_digit, char_is_whitespace, chars_of, parse_decimal_u64,
    parse_digits_from, parse_hexadecimal_u64, parse_hexadecimal_usize, parse_unsigned_from, trim,
};
use uio_rs::Error;

#[test]
fn hexadecimal_accepts_prefix_and_bare_digits() {
    assert_eq!(parse_hexadecimal_u64("0x1000"), Ok(4096));
    assert_eq!(parse_hexadecimal_u64("1000"), Ok(4096));
    assert_eq!(parse_hexadecimal_usize("0x1000"), Ok(4096));
    assert_eq!(parse_hexadecimal_usize("1000"), Ok(4096));
    assert_eq!(parse_hexadecimal_u64("0x1000"), parse_hexadecimal_u64("1000"));
}

#[test]
fn hexadecimal_prefix_is_lowercase_and_single() {
    assert_eq!(parse_hexadecimal_u64("0X1000"), Err(Error::Parse));
    assert_eq!(parse_hexadecimal_u64("0x0x10"), Err(Error::Parse));
    assert_eq!(parse_hexadecimal_u64("0x"), Err(Error::Parse));
    assert_eq!(parse_hexadecimal_u64("x10"), Err(Error::Parse));
}

#[test]
fn hexadecimal_digits_in_both_cases() {
    assert_eq!(parse_hexadecimal_u64("0xdeadBEEF"), Ok(0xdead_beef));
    assert_eq!(parse_hexadecimal_u64("AbCdEf"), Ok(0xabcdef));
    assert_eq!(parse_hexadecimal_u64("0"), Ok(0));
    assert_eq!(parse_hexadecimal_u64("0x0000000000000000000000000000000a"), Ok(10));
}

#[test]
fn hexadecimal_rejects_malformed_text() {
    assert_eq!(parse_hexadecimal_u64(""), Err(Error::Parse));
    assert_eq!(parse_hexadecimal_u64("g"), Err(Error::Parse));
    assert_eq!(parse_hexadecimal_u64("12 34"), Err(Error::Parse));
    assert_eq!(parse_hexadecimal_u64("-1"), Err(Error::Parse));
    assert_eq!(parse_hexadecimal_u64("+"), Err(Error::Parse));
    assert_eq!(parse_hexadecimal_u64("1_000"), Err(Error::Parse));
    assert_eq!(parse_hexadecimal_u64(" 10"), Err(Error::Parse));
}

#[test]
fn hexadecimal_with_a_sign_is_malformed() {
    assert_eq!(parse_hexadecimal_u64("+1000"), Err(Error::Parse));
    assert_eq!(parse_hexadecimal_u64("+1f"), Err(Error::Parse));
    assert_eq!(parse_hexadecimal_u64("0x+1f"), Err(Error::Parse));
    assert_eq!(parse_hexadecimal_u64("+0x1f"), Err(Error::Parse));
    assert_eq!(parse_hexadecimal_u64("++1f"), Err(Error::Parse));
    assert_eq!(parse_hexadecimal_u64("-1f"), Err(Error::Parse));
    assert_eq!(parse_hexadecimal_usize("+1000"), Err(Error::Parse));
    assert_eq!(parse_hexadecimal_usize("0x+1000"), Err(Error::Parse));
    assert_eq!(parse_hexadecimal_usize("1000"), Ok(4096));
}

#[test]
fn decimal_with_a_plus_sign() {
    assert_eq!(parse_decimal_u64("+42"), Ok(42));
    assert_eq!(parse_decimal_u64("++42"), Err(Error::Parse));
    assert_eq!(parse_decimal_u64("+"), Err(Error::Parse));
    assert_eq!(parse_decimal_u64("4+2"), Err(Error::Parse));
}

#[test]
fn hexadecimal_limits() {
    assert_eq!(parse_hexadecimal_u64("ffffffffffffffff"), Ok(u64::MAX));
    assert_eq!(parse_hexadecimal_u64("0x10000000000000000"), Err(Error::Parse));
    let widest = format!("{:x}", usize::MAX);
    assert_eq!(parse_hexadecimal_usize(&widest), Ok(usize::MAX));
    let beyond = format!("{:x}0", usize::MAX);
    assert_eq!(parse_hexadecimal_usize(&beyond), Err(Error::Parse));
}

#[test]
fn decimal_numbers() {
    assert_eq!(parse_decimal_u64("42"), Ok(42));
    assert_eq!(parse_decimal_u64("+7"), Ok(7));
    assert_eq!(parse_decimal_u64("007"), Ok(7));
    assert_eq!(parse_decimal_u64("18446744073709551615"), Ok(u64::MAX));
    assert_eq!(parse_decimal_u64("18446744073709551616"), Err(Error::Parse));
    assert_eq!(parse_decimal_u64("0x10"), Err(Error::Parse));
    assert_eq!(parse_decimal_u64("1a"), Err(Error::Parse));
    assert_eq!(parse_decimal_u64(""), Err(Error::Parse));
    assert_eq!(parse_decimal_u64("-3"), Err(Error::Parse));
}

#[test]
fn parsing_agrees_with_the_standard_library() {
    let samples = [
        "", "+", "-", "0", "1", "+1", "-1", "++1", "10", "0010", "ff", "FF", "fg", "0x10", "1000",
        "65535", "65536", "18446744073709551615", "18446744073709551616", "ffffffffffffffff",
        "10000000000000000", " 1", "1 ", "1_0", "٣", "z", "7f", "+0", "+00ff", "99999999999999999999",
    ];
    for text in samples {
        let decimal = u64::from_str_radix(text, 10).map_err(|_| Error::Parse);
        assert_eq!(parse_decimal_u64(text), decimal, "decimal {:?}", text);
        let chars = chars_of(text);
        let index = u16::from_str_radix(text, 10).ok().map(u64::from);
        assert_eq!(parse_unsigned_from(&chars, 0, 10, 65535), index, "index {:?}", text);
        let unsigned = u16::from_str_radix(text, 10).ok().filter(|_| !text.starts_with('+'));
        assert_eq!(parse_digits_from(&chars, 0, 10, 65535), unsigned.map(u64::from), "{:?}", text);
        let digits = if text.starts_with("0x") { &text[2..] } else { text };
        let signed = digits.starts_with('+');
        let hex = u64::from_str_radix(digits, 16).map_err(|_| Error::Parse);
        let hex = if signed { Err(Error::Parse) } else { hex };
        assert_eq!(parse_hexadecimal_u64(text), hex, "hexadecimal {:?}", text);
        let address = usize::from_str_radix(digits, 16).map_err(|_| Error::Parse);
        let address = if signed { Err(Error::Parse) } else { address };
        assert_eq!(parse_hexadecimal_usize(text), address, "address {:?}", text);
    }
}

#[test]
fn parse_from_an_offset() {
    let chars = chars_of("map12");
    assert_eq!(parse_digits_from(&chars, 3, 10, 65535), Some(12));
    assert_eq!(parse_digits_from(&chars, 5, 10, 65535), None);
    assert_eq!(parse_digits_from(&chars, 0, 10, 65535), None);
    let chars = chars_of("map65535");
    assert_eq!(parse_digits_from(&chars, 3, 10, 65535), Some(65535));
    assert_eq!(parse_digits_from(&chars, 3, 10, 65534), None);
    let chars = chars_of("map65536");
    assert_eq!(parse_digits_from(&chars, 3, 10, 65535), None);
    let chars = chars_of("map+7");
    assert_eq!(parse_digits_from(&chars, 3, 10, 65535), None);
    assert_eq!(parse_unsigned_from(&chars, 3, 10, 65535), Some(7));
    assert_eq!(parse_unsigned_from(&chars, 4, 10, 65535), Some(7));
}

#[test]
fn whitespace_follows_unicode() {
    let mut code: u32 = 0;
    while code <= 0x10ffff {
        if let Some(c) = char::from_u32(code) {
            assert_eq!(char_is_whitespace(c), c.is_whitespace(), "U+{:04X}", code);
        }
        code += 1;
    }
}

#[test]
fn digits_are_those_of_the_standard_library() {
    let mut code: u32 = 0;
    while code <= 0x10ffff {
        if let Some(c) = char::from_u32(code) {
            assert_eq!(char_digit(c, 10), c.to_digit(10), "U+{:04X}", code);
            assert_eq!(char_digit(c, 16), c.to_digit(16), "U+{:04X}", code);
            assert_eq!(char_digit(c, 36), c.to_digit(36), "U+{:04X}", code);
            assert_eq!(char_digit(c, 2), c.to_digit(2), "U+{:04X}", code);
        }
        code += 1;
    }
}

#[test]
fn trim_removes_surrounding_whitespace_only() {
    assert_eq!(trim("  eth-dma\n"), "eth-dma");
    assert_eq!(trim("0x1000\n"), "0x1000");
    assert_eq!(trim("a b"), "a b");
    assert_eq!(trim("\t  a b \r\n"), "a b");
    assert_eq!(trim(""), "");
    assert_eq!(trim(" \n\t "), "");
    assert_eq!(trim("\u{a0}x\u{3000}"), "x");
    assert_eq!(trim("\u{feff}x"), "\u{feff}x");
    assert_eq!(trim("é\n"), "é");
}

#[test]
fn trim_agrees_with_the_standard_library() {
    let samples = [
        "", " ", "x", " x", "x ", " x ", "\n\nx y\n\n", "\u{2003}mid dle\u{2028}", "\u{85}\u{1680}",
        "none", "  \u{200b} ", "日本語 \n",
    ];
    for text in samples {
        assert_eq!(trim(text), text.trim(), "{:?}", text);
    }
}

#[test]
fn characters_in_order() {
    assert_eq!(chars_of("uio0"), vec!['u', 'i', 'o', '0']);
    assert_eq!(chars_of(""), Vec::<char>::new());
    assert_eq!(chars_of("é日"), vec!['é', '日']);
}

#[test]
fn decimal_notation() {
    for n in [0u64, 1, 9, 10, 11, 99, 100, 4096, 65535, 65536, u64::MAX] {
        let mut out = String::from("uio");
        append_decimal(&mut out, n);
        assert_eq!(out, format!("uio{}", n));
        assert_eq!(parse_decimal_u64(&out[3..]), Ok(n));
    }
}

#[test]
fn hexadecimal_notation_of_fixed_width() {
    for n in [0u64, 1, 0xa, 0xf, 0x10, 0xabc, 0xfe20_0000, u64::MAX] {
        let mut out = String::from("@");
        uio_rs::text::append_hex(&mut out, n, 16);
        assert_eq!(out, format!("@{:016x}", n));
        assert_eq!(parse_hexadecimal_u64(&out[1..]), Ok(n));
    }
    let mut out = String::new();
    uio_rs::text::append_hex(&mut out, 0x1234, 2);
    assert_eq!(out, "34");
    uio_rs::text::append_hex(&mut out, 0x1234, 0);
    assert_eq!(out, "34");
}
