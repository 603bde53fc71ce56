use motherduck_connector::quoting::{hex_encode, sql_string};
use motherduck_connector::text::{
    comes_before, is_white_space, joined, same_text, starts_with, text_after, to_lower, trim,
    trim_start, trim_start_char, trim_start_text,
};

const SAMPLES: [&str; 14] = [
    "",
    " ",
    "\t\n x \u{a0}",
    "plain",
    "  Lead",
    "Trail\u{3000}",
    "MiXeD \u{c9} \u{212a}",
    "a\u{2028}b",
    "//a/b",
    "mdmd/x",
    "it's",
    "z",
    "\u{10ffff}",
    "\u{ffff}",
];

#[test]
fn white_space_is_that_of_unicode() {
    for n in 0..=0x10ffffu32 {
        if let Some(c) = char::from_u32(n) {
            assert_eq!(is_white_space(c), c.is_whitespace(), "{:?}", c);
        }
    }
}

#[test]
fn text_functions_agree_with_the_standard_ones() {
    for s in SAMPLES {
        assert_eq!(trim(s), s.trim());
        assert_eq!(trim_start(s), s.trim_start());
        assert_eq!(to_lower(s), s.to_ascii_lowercase());
        assert_eq!(trim_start_char(s, '/'), s.trim_start_matches('/'));
        assert_eq!(trim_start_text(s, "md"), s.trim_start_matches("md"));
        assert_eq!(
            text_after(s, 'a').as_deref(),
            s.split_once('a').map(|(_, after)| after)
        );
        assert_eq!(sql_string(s), format!("'{}'", s.replace('\'', "''")));
        for t in SAMPLES {
            assert_eq!(same_text(s, t), s == t);
            assert_eq!(starts_with(s, t), s.starts_with(t));
            assert_eq!(comes_before(s, t), s < t, "{:?} {:?}", s, t);
            assert_eq!(joined(s, t), format!("{}{}", s, t));
        }
    }
}

#[test]
fn trimming_twice_is_trimming_once() {
    assert_eq!(trim("  a b \n"), "a b");
    assert_eq!(trim(&trim("  a b \n")), "a b");
}

#[test]
fn an_empty_prefix_is_not_trimmed() {
    assert_eq!(trim_start_text("abc", ""), "abc");
}

#[test]
fn a_literal_can_be_read_back() {
    let read = |literal: &str| {
        let inner = &literal[1..literal.len() - 1];
        inner.replace("''", "'")
    };
    for value in ["", "'", "''", "a'b", "'; drop table customers; --"] {
        assert_eq!(read(&sql_string(value)), value);
    }
    assert_eq!(
        sql_string("'; drop table customers; --"),
        "'''; drop table customers; --'"
    );
}

#[test]
fn bytes_are_written_in_lower_case_hexadecimal() {
    assert_eq!(hex_encode(&[]), "");
    assert_eq!(hex_encode(&[0x00, 0x0f, 0xab, 0xff]), "000fabff");
    let all: Vec<u8> = (0..=255u8).collect();
    let expected: String = all.iter().map(|byte| format!("{:02x}", byte)).collect();
    assert_eq!(hex_encode(&all), expected);
}
