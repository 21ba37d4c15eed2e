use syswatch::diskio::{total_block_io, BlockStats};
use syswatch::num::{decimal_chars, parse_i32, parse_i64, parse_u32, parse_u64, u64_to_string};
use syswatch::procs::{fill, table_window};
use syswatch::sampler::{failure_waits, next_backoff_ms, sample_interval_ms};
use syswatch::text::{chars_of, find, lines_of, trim_chars};

fn cs(s: &str) -> Vec<char> {
    s.chars().collect()
}

#[test]
fn fill_pads_to_width() {
    assert_eq!(fill(80, "bash"), "   ");
    assert_eq!(fill(77, "bash"), "");
    assert_eq!(fill(10, "bash"), "");
    assert_eq!(fill(75, ""), "  ");
}

#[test]
fn sampler_cadence() {
    assert_eq!(sample_interval_ms(100), 250);
    assert_eq!(sample_interval_ms(1000), 1000);
    let mut b = 1000;
    let mut seen = vec![];
    for _ in 0..7 {
        b = next_backoff_ms(b);
        seen.push(b);
    }
    assert_eq!(seen, vec![2000, 4000, 8000, 16000, 30000, 30000, 30000]);
}

#[test]
fn block_io_totals() {
    assert_eq!(total_block_io(&vec![]), None);
    let none = BlockStats { has_statistics: false, bytes_read: Some(5), bytes_written: Some(5) };
    assert_eq!(total_block_io(&vec![none]), None);
    let a = BlockStats { has_statistics: true, bytes_read: Some(10), bytes_written: None };
    let b = BlockStats { has_statistics: true, bytes_read: Some(-3), bytes_written: Some(7) };
    let c = BlockStats { has_statistics: true, bytes_read: Some(i64::MAX), bytes_written: Some(i64::MAX) };
    assert_eq!(total_block_io(&vec![a, none, b]), Some((10, 7)));
    assert_eq!(total_block_io(&vec![c, c, c]), Some((u64::MAX, u64::MAX)));
}

#[test]
fn integer_parsing_matches_std() {
    for s in ["0", "42", "+7", "-7", "", "+", "-", " 1", "1 ", "4294967295", "4294967296", "18446744073709551615", "18446744073709551616", "00012", "1e3", "١٢"] {
        assert_eq!(parse_u32(&cs(s)), s.parse::<u32>().ok(), "u32 {:?}", s);
        assert_eq!(parse_u64(&cs(s)), s.parse::<u64>().ok(), "u64 {:?}", s);
        assert_eq!(parse_i32(&cs(s)), s.parse::<i32>().ok(), "i32 {:?}", s);
        assert_eq!(parse_i64(&cs(s)), s.parse::<i64>().ok(), "i64 {:?}", s);
    }
    for s in ["-2147483648", "-2147483649", "2147483647", "-9223372036854775808", "-9223372036854775809"] {
        assert_eq!(parse_i32(&cs(s)), s.parse::<i32>().ok(), "i32 {:?}", s);
        assert_eq!(parse_i64(&cs(s)), s.parse::<i64>().ok(), "i64 {:?}", s);
    }
}

#[test]
fn decimal_formatting_matches_std() {
    for n in [0u64, 7, 10, 99, 1000, 123456789, u64::MAX] {
        assert_eq!(u64_to_string(n), n.to_string());
        assert_eq!(decimal_chars(n), cs(&n.to_string()));
    }
}

#[test]
fn text_helpers_match_std() {
    for s in ["", "  a b  ", "\t\u{a0}x\u{3000}", "\n\n", "abc"] {
        assert_eq!(trim_chars(&cs(s), false), cs(s.trim()));
        let lines: Vec<Vec<char>> = s.lines().map(cs).collect();
        assert_eq!(lines_of(&cs(s)), lines);
    }
    for s in ["a\r\nb\r\n", "a\n\nb", "x\r", "\r\n", "one"] {
        let lines: Vec<Vec<char>> = s.lines().map(cs).collect();
        assert_eq!(lines_of(&cs(s)), lines, "{:?}", s);
    }
    assert_eq!(trim_chars(&cs("\"\"key\""), true), cs("key"));
    assert_eq!(find(&cs("a = b = c"), &cs(" = ")), Some(1));
    assert_eq!(find(&cs("abc"), &cs("")), Some(0));
    assert_eq!(find(&cs("abc"), &cs("abcd")), None);
    assert_eq!(chars_of("héllo"), cs("héllo"));
}

#[test]
fn table_window_keeps_selection_visible() {
    assert_eq!(table_window(10, 0, 0), (0, 0, 0));
    assert_eq!(table_window(5, 20, 100), (20, 17, 21));
    assert_eq!(table_window(5, 200, 100), (99, 96, 100));
    assert_eq!(table_window(1, 3, 10), (3, 3, 3));
    assert_eq!(table_window(0, 3, 10), (3, 3, 3));
    assert_eq!(table_window(30, 2, 5), (2, 0, 5));
}

#[test]
fn backoff_starts_over_after_a_good_tick() {
    assert_eq!(failure_waits(1000, false), (1000, 2000));
    assert_eq!(failure_waits(16000, false), (16000, 30000));
    assert_eq!(failure_waits(30000, false), (30000, 30000));
    assert_eq!(failure_waits(30000, true), (1000, 2000));
    assert_eq!(failure_waits(8000, true), (1000, 2000));
}
