use asuka::chunk::chunk_message;

#[test]
fn test_chunk_message_single_chunk() {
    let text = "This is a short message";
    let chunks = chunk_message(text, 100, 1000);
    assert_eq!(chunks.len(), 1);
    assert_eq!(chunks[0], text);
}

#[test]
fn test_chunk_message_multiple_chunks() {
    let text = "Line 1\nLine 2\nLine 3";
    let chunks = chunk_message(text, 10, 5);
    assert_eq!(chunks.len(), 3);
    assert_eq!(chunks[0], "Line 1");
    assert_eq!(chunks[1], "Line 2");
    assert_eq!(chunks[2], "Line 3");
}

#[test]
fn test_chunk_message_empty_lines() {
    let text = "Line 1\n\n\nLine 2";
    let chunks = chunk_message(text, 100, 1000);
    assert_eq!(chunks.len(), 1);
    assert_eq!(chunks[0], "Line 1\n\n\nLine 2");
}

#[test]
fn test_chunk_message_markdown() {
    let text = "# Heading 1\nSome text under heading 1\n## Heading 2\nMore text\n# Heading 3\nFinal text";
    let chunks = chunk_message(text, 100, 50);
    assert_eq!(chunks.len(), 2);
    assert_eq!(chunks[0], "# Heading 1\nSome text under heading 1");
    assert_eq!(
        chunks[1],
        "## Heading 2\nMore text\n# Heading 3\nFinal text"
    );
}

#[test]
fn test_no_chunking_under_min_length() {
    let text = "This is a message that won't be chunked because it's under the minimum length";
    let chunks = chunk_message(text, 10, 1000);
    assert_eq!(chunks.len(), 1);
    assert_eq!(chunks[0], text);
}

#[test]
fn chunk_trims_surrounding_white_space() {
    let text = "  first line here\nsecond line here  ";
    let chunks = chunk_message(text, 12, 5);
    assert_eq!(chunks, vec!["first line here".to_string(), "second line here".to_string()]);
}

#[test]
fn chunk_counts_bytes_not_characters() {
    // "é" takes two bytes: the text is 12 bytes long although it has 7 characters.
    let text = "éééééé\nx";
    let chunks = chunk_message(text, 12, 11);
    assert_eq!(chunks, vec!["éééééé".to_string(), "x".to_string()]);
    let whole = chunk_message(text, 100, 14);
    assert_eq!(whole, vec![text.to_string()]);
}

#[test]
fn chunk_repeated_heading_at_start_does_not_loop() {
    let text = "# A\n# A";
    let chunks = chunk_message(text, 100, 2);
    assert_eq!(chunks, vec!["# A\n# A".to_string()]);
}
