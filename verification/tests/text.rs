use efbench_client::text::{parse_trimmed, push_decimal, white_space};

fn written(n: u64) -> String {
    let mut out = String::from("n=");
    push_decimal(&mut out, n);
    out
}

#[test]
fn decimal_agrees_with_display() {
    for n in [0, 1, 9, 10, 11, 99, 100, 101, 65535, 1_000_000, u64::MAX - 1, u64::MAX] {
        assert_eq!(written(n), format!("n={n}"));
    }
    assert_eq!(written(120), "n=120");
    for n in 0..2000u64 {
        assert_eq!(written(n * n * n), format!("n={}", n * n * n));
    }
}

#[test]
fn white_space_agrees_with_unicode() {
    for n in 0..=0x10_ffffu32 {
        if let Some(c) = char::from_u32(n) {
            assert_eq!(white_space(c), c.is_whitespace(), "{n:x}");
        }
    }
}

#[test]
fn parsing_agrees_with_trim_and_parse() {
    let cases = [
        "", " ", "\n", "0", "42\n", "  7", "\t12 \r\n", "+5", "+", "++5", "-0", "-1", "1 2", "1_000", "0x10", "007",
        "18446744073709551615", "18446744073709551616", "99999999999999999999", "+18446744073709551615\n",
        "\u{3000}3\u{a0}", "3.0", "abc", "12a", "a12", "\u{663}", "1\u{0}", "00000000000000000000000000001",
        "184467440737095516150", "18446744073709551616x",
    ];
    for case in cases {
        assert_eq!(parse_trimmed(case), case.trim().parse::<u64>().ok(), "{case:?}");
    }
    assert_eq!(parse_trimmed("42\n"), Some(42));
    assert_eq!(parse_trimmed("\u{2003}+7 "), Some(7));
    assert_eq!(parse_trimmed("18446744073709551616"), None);
}

#[test]
fn a_written_number_reads_back() {
    for n in [0, 5, 10, 4096, u64::MAX] {
        let mut text = String::from(" \t");
        push_decimal(&mut text, n);
        text.push_str("\n");
        assert_eq!(parse_trimmed(&text), Some(n));
    }
}

#[test]
fn different_numbers_are_written_differently() {
    assert_ne!(written(12), written(21));
    assert_ne!(written(1), written(10));
}
