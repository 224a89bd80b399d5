use xingdu::text::{decimal_text, lines, starts_with, strip_prefix};

#[test]
fn digits_of_numbers() {
    assert_eq!(decimal_text(0), "0");
    assert_eq!(decimal_text(9), "9");
    assert_eq!(decimal_text(10), "10");
    assert_eq!(decimal_text(90210), "90210");
    assert_eq!(decimal_text(u64::MAX), "18446744073709551615");
}

#[test]
fn lines_end_in_line_feeds() {
    let samples = [
        "",
        "\n",
        "a",
        "a\n",
        "a\nb",
        "a\r\nb\r\n",
        "a\rb\n",
        "last\r",
        "\r\n\r\n",
        "data: {}\n\ndata: [DONE]\n\n",
        "星渡\n🚀\r\n\u{2028}x",
    ];
    for text in samples {
        let expected: Vec<String> = text.lines().map(|line| line.to_string()).collect();
        assert_eq!(lines(text), expected, "{text:?}");
    }
    assert_eq!(lines("a\r\nb\rc\n"), vec!["a", "b\rc"]);
}

#[test]
fn prefixes() {
    assert!(starts_with("deepseek-chat", "deepseek"));
    assert!(starts_with("abc", ""));
    assert!(starts_with("abc", "abc"));
    assert!(!starts_with("ab", "abc"));
    assert!(!starts_with("Deepseek", "deepseek"));
    assert_eq!(strip_prefix("data: x", "data: "), Some("x".to_string()));
    assert_eq!(strip_prefix("data:x", "data: "), None);
    assert_eq!(strip_prefix("星渡", "星"), Some("渡".to_string()));
    assert_eq!(strip_prefix("same", "same"), Some(String::new()));
}
