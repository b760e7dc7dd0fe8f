use emanager::logger::{last_line, needs_truncation, read_record, stored, update_argument, write_record, StoreError, MAX_STATE_FILE_LEN};
use emanager::text::{chars_of, compare, contains, decimal, is_whitespace, join, lines, parse_u32, same_text, split, starts_with, trim, Order};
use std::cmp::Ordering;

fn strings(items: &[&str]) -> Vec<String> {
    items.iter().map(|s| s.to_string()).collect()
}

#[test]
fn split_gives_one_piece_more_than_separators() {
    assert_eq!(split("a,b,c", ','), strings(&["a", "b", "c"]));
    assert_eq!(split("", ','), strings(&[""]));
    assert_eq!(split(",", ','), strings(&["", ""]));
    assert_eq!(split("a,,b,", ','), strings(&["a", "", "b", ""]));
    assert_eq!(split("no separator", ','), strings(&["no separator"]));
    assert_eq!(split("h\u{e9}:\u{1f600}:z", ':'), strings(&["h\u{e9}", "\u{1f600}", "z"]));
}

#[test]
fn split_agrees_with_the_standard_library() {
    for s in ["", "a", ":", "a:b", "::a::", "fr:azerty", "x:y:z:"] {
        let expected: Vec<String> = s.split(':').map(String::from).collect();
        assert_eq!(split(s, ':'), expected);
    }
}

#[test]
fn join_puts_the_separator_between_neighbours() {
    assert_eq!(join(&strings(&["a", "b", "c"]), ","), "a,b,c");
    assert_eq!(join(&strings(&["a"]), ","), "a");
    assert_eq!(join(&[], ","), "");
    assert_eq!(join(&strings(&["", ""]), ", "), ", ");
}

#[test]
fn join_undoes_split() {
    for s in ["", "a", ",", "a,b", ",,a,,", "us,fr,de"] {
        assert_eq!(join(&split(s, ','), ","), s);
    }
}

#[test]
fn chars_are_handed_out_in_order() {
    assert_eq!(chars_of("h\u{e9}!"), vec!['h', '\u{e9}', '!']);
    assert_eq!(chars_of(""), Vec::<char>::new());
}

#[test]
fn texts_are_compared_and_searched() {
    assert!(same_text("abc", "abc"));
    assert!(!same_text("abc", "abd"));
    assert!(starts_with("workspace>>1", "workspace"));
    assert!(starts_with("abc", ""));
    assert!(!starts_with("work", "workspace"));
    assert!(contains("Volume: 0.40 [MUTED]", "MUTED"));
    assert!(contains("MUTED", "MUTED"));
    assert!(contains("abc", ""));
    assert!(!contains("Volume: 0.40", "MUTED"));
    assert!(!contains("MUTE", "MUTED"));
}

#[test]
fn trim_agrees_with_the_standard_library() {
    for s in ["", " ", "  a b  ", "\t\nx\r\n", "x", "\u{a0}x\u{3000}", "\u{200b}x", " \u{2003}on\u{85}"] {
        assert_eq!(trim(s), s.trim());
    }
    for code in 0u32..0x3100 {
        if let Some(c) = char::from_u32(code) {
            assert_eq!(is_whitespace(c), c.is_whitespace());
        }
    }
}

#[test]
fn numbers_are_written_in_decimal() {
    assert_eq!(decimal(0), "0");
    assert_eq!(decimal(5), "5");
    assert_eq!(decimal(10), "10");
    assert_eq!(decimal(100), "100");
    assert_eq!(decimal(4294967295), "4294967295");
}

#[test]
fn numbers_are_read_as_the_standard_library_reads_them() {
    for s in ["0", "7", "42", "+42", "007", "4294967295", "4294967296", "99999999999999999999999", "", "+", "-1", "4 2", "42%", "++1", "1+", "\u{663}"] {
        assert_eq!(parse_u32(s), s.parse::<u32>().ok());
    }
}

#[test]
fn lines_agree_with_the_standard_library() {
    for s in ["", "\n", "a", "a\n", "a\nb", "a\r\nb\r\n", "a\r", "\r\n", "a\n\nb\n", "a\r\r\n"] {
        let expected: Vec<String> = s.lines().map(String::from).collect();
        assert_eq!(lines(s), expected);
        assert_eq!(last_line(s), expected.last().cloned());
    }
}

#[test]
fn a_record_is_one_line_of_json() {
    assert_eq!(write_record(&strings(&["us", "fr:azerty"])).unwrap(), b"[\"us\",\"fr:azerty\"]\n".to_vec());
    assert_eq!(write_record(&vec![]).unwrap(), b"[]\n".to_vec());
    assert_eq!(write_record(&strings(&["a\"b"])).unwrap(), b"[\"a\\\"b\"]\n".to_vec());
}

#[test]
fn the_last_record_is_the_state() {
    assert_eq!(read_record("[\"a\"]\n[\"b\",\"c\"]\n").unwrap(), strings(&["b", "c"]));
    assert_eq!(read_record("[ \"x\\ny\" ]").unwrap(), strings(&["x\ny"]));
    assert_eq!(read_record("").unwrap_err(), StoreError::NoRecord);
    assert_eq!(read_record("[\"a\"]\n\n").unwrap_err(), StoreError::Corrupt);
    assert_eq!(read_record("{\"a\":1}").unwrap_err(), StoreError::Corrupt);
    assert_eq!(read_record("[\"a\"").unwrap_err(), StoreError::Corrupt);
}

#[test]
fn a_written_record_reads_back() {
    let list = strings(&["us", "fr:azerty", "", "q\"uote", "\u{e9}"]);
    let record = String::from_utf8(write_record(&list).unwrap()).unwrap();
    assert_eq!(read_record(&record).unwrap(), list);
}

#[test]
fn a_state_file_is_emptied_above_its_limit() {
    assert_eq!(MAX_STATE_FILE_LEN, 65536);
    assert!(!needs_truncation(0));
    assert!(!needs_truncation(65536));
    assert!(needs_truncation(65537));
}

#[test]
fn the_view_is_told_a_name_and_a_value() {
    assert_eq!(update_argument("layout-selected", "\"fr\""), "layout-selected=\"fr\"");
}

#[test]
fn texts_are_ordered_as_the_standard_library_orders_them() {
    let samples = ["", "a", "ab", "abc", "b", "B", "\u{e9}", "e\u{301}", "\u{1f600}", "\u{ffff}", "z\u{10000}", "z\u{e000}"];
    for a in samples {
        for b in samples {
            let expected = match a.cmp(b) {
                Ordering::Less => Order::Less,
                Ordering::Equal => Order::Equal,
                Ordering::Greater => Order::Greater,
            };
            assert_eq!(compare(a, b), expected);
        }
    }
}

#[test]
fn a_file_that_is_not_there_is_no_failure() {
    assert_eq!(stored(false, None), Ok(None));
    assert_eq!(stored(false, Some("x".to_string())), Ok(None));
    assert_eq!(stored(true, Some("x".to_string())), Ok(Some("x".to_string())));
    assert_eq!(stored(true, None), Err(StoreError::Io));
}
