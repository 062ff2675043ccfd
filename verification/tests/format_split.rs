use nitro_agent::nitro::format::split_for_telegram;

#[test]
fn split_short_text() {
    let chunks = split_for_telegram("short", 4000);
    assert_eq!(chunks.len(), 1);
}

#[test]
fn split_long_text() {
    let text = "a\n\n".repeat(2000);
    let chunks = split_for_telegram(&text, 100);
    assert!(chunks.len() > 1);
    for chunk in &chunks {
        assert!(chunk.len() <= 110); // Some tolerance for trim
    }
}

fn rebuilds(text: &str, chunks: &[String]) -> bool {
    let mut rest = text;
    for c in chunks {
        match rest.strip_prefix(c.as_str()) {
            Some(r) => rest = r.trim_start(),
            None => return false,
        }
    }
    rest.trim_start().is_empty()
}

#[test]
fn split_pieces_fit_and_rebuild_the_text() {
    let text = format!("{}\n\nsecond part\nthird line {}", "x".repeat(60), "y".repeat(70));
    let chunks = split_for_telegram(&text, 64);
    assert_eq!(chunks[0], "x".repeat(60));
    for c in &chunks {
        assert!(c.len() <= 64 || c.ends_with("</pre>"));
    }
    assert!(rebuilds(&text, &chunks));
}

#[test]
fn split_keeps_pre_blocks_whole() {
    let text = format!("<pre>{}\n{}</pre>\n\nafter", "a".repeat(30), "b".repeat(30));
    let chunks = split_for_telegram(&text, 40);
    assert_eq!(chunks[0], format!("<pre>{}\n{}</pre>", "a".repeat(30), "b".repeat(30)));
    assert_eq!(chunks[1], "after");
    assert!(rebuilds(&text, &chunks));
}

#[test]
fn split_force_cuts_without_newlines() {
    let text = "z".repeat(250);
    let chunks = split_for_telegram(&text, 100);
    assert_eq!(chunks, vec!["z".repeat(100), "z".repeat(100), "z".repeat(50)]);
}

#[test]
fn split_keeps_code_spans_whole() {
    let text = "<code>aaa\nbbb</code>\nccc";
    let chunks = split_for_telegram(text, 12);
    assert_eq!(chunks, vec!["<code>aaa\nbbb</code>", "ccc"]);
    assert!(rebuilds(text, &chunks));
}
