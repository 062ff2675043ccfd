use nitro_agent::telecode::stream::RollingBuffer;

#[test]
fn rolling_buffer_truncates() {
    let mut buf = RollingBuffer::new(10);
    buf.append("hello world!!");
    assert!(buf.value().len() <= 10);
}

#[test]
fn rolling_buffer_keeps_tail() {
    let mut buf = RollingBuffer::new(5);
    buf.append("abc");
    assert_eq!(buf.value(), "abc");
    buf.append("defg");
    assert_eq!(buf.value(), "cdefg");
}

#[test]
fn rolling_buffer_counts_characters() {
    let mut buf = RollingBuffer::new(3);
    buf.append("\u{e9}\u{e9}\u{e9}");
    assert_eq!(buf.value(), "\u{e9}\u{e9}\u{e9}");
    buf.append("x\u{1f600}");
    assert_eq!(buf.value(), "\u{e9}x\u{1f600}");
}

#[test]
fn rolling_buffer_appends_compose() {
    let parts = ["hello ", "", "wor", "ld, and more"];
    let mut buf = RollingBuffer::new(7);
    let mut all = String::new();
    for p in parts {
        buf.append(p);
        all.push_str(p);
        let n = all.chars().count();
        let expected: String = all.chars().skip(n.saturating_sub(7)).collect();
        assert_eq!(buf.value(), expected);
    }
}
