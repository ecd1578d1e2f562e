use rtodo::text::clean_line;
use rtodo::text::format_line;
use rtodo::text::trim_str;
use rtodo::text::usize_to_string;

#[test]
fn decimal_rendering() {
    assert_eq!(usize_to_string(0), "0");
    assert_eq!(usize_to_string(7), "7");
    assert_eq!(usize_to_string(10), "10");
    assert_eq!(usize_to_string(105), "105");
    assert_eq!(usize_to_string(98765), "98765");
}

#[test]
fn format_line_numbers_text() {
    assert_eq!(format_line(1, "buy milk"), "1. buy milk");
    assert_eq!(format_line(12, ""), "12. ");
}

#[test]
fn clean_line_strips_prefix_run() {
    assert_eq!(clean_line("1. buy milk"), "buy milk");
    assert_eq!(clean_line("12. 3. old"), "old");
    assert_eq!(clean_line("no prefix"), "no prefix");
    assert_eq!(clean_line("   7"), "");
    assert_eq!(clean_line(""), "");
    // Only the leading run goes; inner digits stay.
    assert_eq!(clean_line("2. meet at 10. sharp"), "meet at 10. sharp");
}

#[test]
fn trim_removes_surrounding_whitespace_only() {
    assert_eq!(trim_str("  a b  "), "a b");
    assert_eq!(trim_str("\t\n x \u{A0}"), "x");
    assert_eq!(trim_str("   "), "");
    assert_eq!(trim_str(""), "");
    assert_eq!(trim_str("tight"), "tight");
}
