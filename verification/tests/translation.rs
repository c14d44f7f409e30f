use openwiki::translation::{assemble_translation, read_translation_reply, translation_chunks};

#[test]
fn chunks_stay_near_the_byte_limit() {
    let line = "a".repeat(600);
    let text = format!("{line}\n{line}\n{line}\nshort");
    let chunks = translation_chunks(&text);
    // 600 + 600 fits (the newline is not counted); a third line would pass 1500 bytes.
    assert_eq!(chunks.len(), 2);
    assert_eq!(chunks[0], format!("{line}\n{line}"));
    assert_eq!(chunks[1], format!("{line}\nshort"));
    assert!(translation_chunks("").is_empty());
    assert_eq!(translation_chunks("one\ntwo\n"), vec!["one\ntwo".to_string()]);
    // A single long line is a chunk of its own.
    let long = "b".repeat(2000);
    assert_eq!(translation_chunks(&format!("x\n{long}")), vec!["x".to_string(), long.clone()]);
}

#[test]
fn translations_fall_back_to_the_original_chunk() {
    let chunks = vec!["hello".to_string(), "world".to_string()];
    let results = vec![Some("你好".to_string()), None];
    assert_eq!(assemble_translation(&chunks, &results), "你好\nworld");
}

#[test]
fn translation_reply_is_read() {
    let reply = r#"[[["你好，","Hello, ",null],["世界","world",null]],null,"en"]"#;
    assert_eq!(read_translation_reply(reply), Ok("你好，世界".to_string()));
    assert_eq!(read_translation_reply("[[]]"), Err("empty translation".to_string()));
    assert_eq!(read_translation_reply("[null]"), Err("empty translation".to_string()));
    let e = read_translation_reply("<html>").unwrap_err();
    assert!(e.starts_with("translate parse failed: "));
}
