use plexpaper::text::{chars_of, decimal_string, join, lines, lowercase, parse_unsigned_max, str_eq, string_of, trim};

fn s(v: &[char]) -> String {
    v.iter().collect()
}

#[test]
fn trimming_unicode_whitespace() {
    let t = trim(&chars_of("\u{3000} \t a b \n\u{a0}"));
    assert_eq!(s(&t), "a b");
    assert!(trim(&chars_of("  \r\n")).is_empty());
    assert_eq!(s(&trim(&chars_of("x"))), "x");
}

#[test]
fn lines_like_std() {
    for text in ["", "a", "a\n", "a\nb", "a\r\nb\r\n", "\n", "a\n\n", "x\r", "x\r\ny\r", "\r\n\r\n"] {
        let ours: Vec<String> = lines(&chars_of(text)).iter().map(|l| s(l)).collect();
        let std: Vec<String> = text.lines().map(|l| l.to_string()).collect();
        assert_eq!(ours, std, "lines of {:?}", text);
    }
}

#[test]
fn join_and_decimal() {
    let parts = vec![chars_of("a"), chars_of("bc"), chars_of("")];
    assert_eq!(s(&join(&parts, &chars_of(", "))), "a, bc, ");
    assert_eq!(s(&join(&Vec::new(), &chars_of(","))), "");
    assert_eq!(decimal_string(0), "0");
    assert_eq!(decimal_string(25565), "25565");
    assert_eq!(decimal_string(u64::MAX), u64::MAX.to_string());
}

#[test]
fn parsing_like_std() {
    for text in ["0", "+0", "65535", "65536", "-0", "+", "", " 1", "1 ", "00042", "99999999999"] {
        let ours = parse_unsigned_max(&chars_of(text), 0xffff).map(|v| v as u16);
        assert_eq!(ours, text.parse::<u16>().ok(), "parse of {:?}", text);
    }
}

#[test]
fn conversions_and_case() {
    assert_eq!(string_of(&chars_of("héllo")), "héllo");
    assert_eq!(s(&lowercase(&chars_of("White-List"))), "white-list");
    assert!(str_eq("abc", "abc"));
    assert!(!str_eq("abc", "abd"));
}
