use emanager::layout::{Layout, ParseError};
use emanager::text::Order;
use std::cmp::Ordering;

fn strings(items: &[&str]) -> Vec<String> {
    items.iter().map(|s| s.to_string()).collect()
}

#[test]
fn parse_rejects_empty_and_three_parts() {
    assert_eq!(Layout::try_from("").unwrap_err(), ParseError::Empty);
    assert_eq!(Layout::try_from("a:b:c").unwrap_err(), ParseError::TooManyParts);
    assert_eq!(Layout::try_from("::").unwrap_err(), ParseError::TooManyParts);
}

#[test]
fn parse_reads_layout_and_variant() {
    let l = Layout::try_from("fr:azerty").unwrap();
    assert_eq!(l.layout, "fr");
    assert_eq!(l.variant.as_deref(), Some("azerty"));
    let l = Layout::try_from("us").unwrap();
    assert_eq!(l.layout, "us");
    assert_eq!(l.variant, None);
}

#[test]
fn parse_rejects_a_string_without_an_identifier() {
    assert_eq!(Layout::try_from(":azerty").unwrap_err(), ParseError::Empty);
    assert_eq!(Layout::try_from(":").unwrap_err(), ParseError::Empty);
    assert_eq!(Layout::try_from(":a:b").unwrap_err(), ParseError::TooManyParts);
}

#[test]
fn parse_keeps_an_empty_variant_behind_the_colon() {
    let l = Layout::try_from("us:").unwrap();
    assert_eq!(l.layout, "us");
    assert_eq!(l.variant.as_deref(), Some(""));
}

#[test]
fn to_string_of_parse_is_the_string() {
    for s in ["us", "fr:azerty", "de:nodeadkeys", "x", "us:", "gb:extd"] {
        assert_eq!(Layout::try_from(s).unwrap().to_string(), s);
    }
}

#[test]
fn parse_of_to_string_is_the_layout() {
    for l in [Layout::new("us", None), Layout::new("fr", Some("azerty")), Layout::new("de", Some(""))] {
        assert_eq!(Layout::try_from(l.to_string().as_str()).unwrap(), l);
    }
}

#[test]
fn new_takes_the_parts_as_they_are() {
    let l = Layout::new("fr", Some("azerty"));
    assert_eq!(l.layout, "fr");
    assert_eq!(l.variant, Some("azerty".to_string()));
    assert_eq!(l.to_string(), "fr:azerty");
    assert_eq!(Layout::new("us", None).to_string(), "us");
}

#[test]
fn layouts_are_equal_by_both_parts() {
    assert_eq!(Layout::new("fr", None), Layout::new("fr", None));
    assert_ne!(Layout::new("fr", None), Layout::new("fr", Some("azerty")));
    assert_ne!(Layout::new("fr", Some("bepo")), Layout::new("fr", Some("azerty")));
    assert_ne!(Layout::new("fr", None), Layout::new("us", None));
    assert_ne!(Layout::new("fr", None), Layout::new("fr", Some("")));
    assert_eq!(Layout::new("fr", Some("azerty")).clone(), Layout::new("fr", Some("azerty")));
}

#[test]
fn layout_sequence_puts_the_target_first() {
    let target = Layout::new("fr", Some("azerty"));
    assert_eq!(Layout::generate_layout_sequence(&target, &strings(&["us", "de"])), "fr,us,de");
    assert_eq!(Layout::generate_variant_sequence(&target, &strings(&["", "nodeadkeys"])), "azerty,,nodeadkeys");
}

#[test]
fn sequences_of_a_single_layout_end_with_a_comma() {
    let target = Layout::new("us", None);
    assert_eq!(Layout::generate_layout_sequence(&target, &[]), "us,");
    assert_eq!(Layout::generate_variant_sequence(&target, &[]), ",");
}

#[test]
fn layouts_are_ordered_by_layout_then_variant() {
    let samples = [
        Layout::new("de", None),
        Layout::new("fr", None),
        Layout::new("fr", Some("")),
        Layout::new("fr", Some("azerty")),
        Layout::new("fr", Some("bepo")),
        Layout::new("fra", None),
        Layout::new("us", Some("intl")),
        Layout::new("", None),
        Layout::new("\u{e9}", None),
        Layout::new("z", None),
    ];
    for a in samples.iter() {
        for b in samples.iter() {
            let expected = match a.cmp(b) {
                Ordering::Less => Order::Less,
                Ordering::Equal => Order::Equal,
                Ordering::Greater => Order::Greater,
            };
            assert_eq!(a.compare(b), expected);
            assert_eq!(a.partial_cmp(b), Some(a.cmp(b)));
            assert_eq!(a < b, a.cmp(b) == Ordering::Less);
            assert_eq!(a.compare(b) == Order::Equal, a == b);
        }
    }
    assert!(Layout::new("fr", None) < Layout::new("fr", Some("azerty")));
    assert!(Layout::new("de", Some("x")) < Layout::new("fr", None));
}
