use rustirc::motd::{motd_chunks, CHUNK};

#[test]
fn chunk_length() {
    assert_eq!(CHUNK, 80);
}

#[test]
fn empty_content_has_no_chunk() {
    assert_eq!(motd_chunks(b""), Vec::<String>::new());
}

#[test]
fn short_content_is_one_chunk() {
    assert_eq!(motd_chunks(b"hello\n"), vec!["hello\n".to_string()]);
}

#[test]
fn exactly_eighty_bytes_are_one_chunk() {
    let content = "a".repeat(80);
    assert_eq!(motd_chunks(content.as_bytes()), vec![content.clone()]);
}

#[test]
fn eighty_one_bytes_are_two_chunks() {
    let content = format!("{}b", "a".repeat(80));
    assert_eq!(motd_chunks(content.as_bytes()), vec!["a".repeat(80), "b".to_string()]);
}

#[test]
fn chunks_follow_each_other() {
    let content = format!("{}{}{}", "a".repeat(80), "b".repeat(80), "c".repeat(17));
    assert_eq!(
        motd_chunks(content.as_bytes()),
        vec!["a".repeat(80), "b".repeat(80), "c".repeat(17)]
    );
}

#[test]
fn text_of_more_than_one_byte_per_character() {
    assert_eq!(motd_chunks("grüß dich ✓".as_bytes()), vec!["grüß dich ✓".to_string()]);
}

#[test]
fn a_character_cut_in_two_is_replaced() {
    let mut content = "a".repeat(79).into_bytes();
    content.extend_from_slice("é".as_bytes());
    content.extend_from_slice(b"z");
    let chunks = motd_chunks(&content);
    assert_eq!(chunks.len(), 2);
    assert_eq!(chunks[0], format!("{}\u{fffd}", "a".repeat(79)));
    assert_eq!(chunks[1], "\u{fffd}z");
}

#[test]
fn bytes_that_are_no_text_are_replaced() {
    assert_eq!(motd_chunks(&[b'a', 0xff, b'b']), vec!["a\u{fffd}b".to_string()]);
}
