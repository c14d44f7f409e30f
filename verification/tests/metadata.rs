use openwiki::metadata::{
    extract_structured_metadata, metadata_excerpt, metadata_needed, metadata_update,
    strip_json_fence,
};
use openwiki::models::CapturedContent;

fn capture(text: &str, summary: Option<&str>, tags: Option<&str>) -> CapturedContent {
    CapturedContent {
        id: "c1".to_string(),
        captured_at: "2024-01-01T00:00:00Z".to_string(),
        content_type: "text".to_string(),
        source_app: "notes.md".to_string(),
        source_url: None,
        raw_text: Some(text.to_string()),
        clean_content: None,
        summary: summary.map(|s| s.to_string()),
        tags: tags.map(|s| s.to_string()),
        digest: Some("old digest".to_string()),
        user_note: None,
        image_path: None,
        wiki_assessed_hash: None,
        wiki_compile_hash: None,
    }
}

#[test]
fn fences_are_removed() {
    assert_eq!(strip_json_fence("```json\n{\"a\":1}\n```"), "{\"a\":1}");
    assert_eq!(strip_json_fence("  ```\nx\n```  "), "x");
    assert_eq!(strip_json_fence("  plain "), "plain");
}

#[test]
fn metadata_from_a_fenced_reply() {
    let raw = "```json\n{\"summary\":\" S \",\"digest\":\" D \",\"tags\":[\" a \",\"\",3,\"b\"],\"candidate_concepts\":[{\"name\":\"Rust Ownership\",\"temporality\":\"recurring\",\"importance\":0.9,\"rationale\":\" why \"},{\"name\":\"rust-ownership\",\"temporality\":\"recurring\"},\"x\",{\"name\":\"Other\",\"temporality\":\"weird\"},{\"name\":\"Third\",\"temporality\":\"persistent\",\"rationale\":\"  \"}]}\n```";
    let m = extract_structured_metadata(raw);
    assert_eq!(m.summary, "S");
    assert_eq!(m.digest, "D");
    assert_eq!(m.tags, vec!["a".to_string(), "b".to_string()]);
    assert_eq!(m.candidate_concepts.len(), 2);
    let first = &m.candidate_concepts[0];
    assert_eq!(first.index, 0);
    assert_eq!(first.name, "Rust Ownership");
    assert_eq!(first.normalized_name, "rust-ownership");
    assert_eq!(first.temporality, "recurring");
    assert_eq!(first.rationale.as_deref(), Some("why"));
    assert_eq!(first.importance.as_deref(), Some("0.9"));
    let second = &m.candidate_concepts[1];
    assert_eq!(second.index, 4);
    assert_eq!(second.normalized_name, "third");
    assert_eq!(second.temporality, "recurring");
    assert_eq!(second.rationale, None);
    assert_eq!(second.importance, None);
}

#[test]
fn at_most_three_candidates() {
    let raw = r#"{"candidate_concepts":[{"name":"A","temporality":"transient"},{"name":"B","temporality":"one-off"},{"name":"C","temporality":"ephemeral"},{"name":"D","temporality":"temporary"}]}"#;
    let m = extract_structured_metadata(raw);
    assert_eq!(m.summary, "");
    let names: Vec<String> = m.candidate_concepts.iter().map(|c| c.normalized_name.clone()).collect();
    assert_eq!(names, vec!["a".to_string(), "b".to_string(), "c".to_string()]);
    assert!(m.candidate_concepts.iter().all(|c| c.temporality == "transient"));
}

#[test]
fn a_reply_without_metadata_is_its_own_summary() {
    let m = extract_structured_metadata("  just text  ");
    assert_eq!(m.summary, "just text");
    assert!(m.tags.is_empty());
    assert_eq!(m.digest, "");
    assert!(m.candidate_concepts.is_empty());
    let empty_json = "{\"summary\":\"  \",\"tags\":[]}";
    let m = extract_structured_metadata(empty_json);
    assert_eq!(m.summary, empty_json);
    assert_eq!(m.digest, "");
}

#[test]
fn metadata_is_generated_only_when_missing_and_text_is_long_enough() {
    let full = capture("text", Some("sum"), Some("a,b"));
    assert!(!metadata_needed(&full, true));
    assert!(metadata_needed(&full, false));
    assert!(metadata_needed(&capture("text", Some("  "), Some("a")), true));
    assert!(metadata_needed(&capture("text", Some("s"), Some(" , ")), true));

    assert_eq!(metadata_excerpt(&capture("   short   ", None, None)), None);
    let long = "x".repeat(6000);
    let e = metadata_excerpt(&capture(&format!("  {long}  "), None, None)).unwrap();
    assert_eq!(e.chars().count(), 5000);
    // Seventeen three-byte characters are 51 bytes: long enough.
    let cjk = "字".repeat(17);
    assert_eq!(metadata_excerpt(&capture(&cjk, None, None)), Some(cjk.clone()));
    assert_eq!(metadata_excerpt(&capture(&"字".repeat(16), None, None)), None);
}

#[test]
fn generated_metadata_fills_what_it_has() {
    let c = capture("text", Some("old summary"), Some("old,tags"));
    let m = extract_structured_metadata("{\"tags\": [\"x\", \"y\"]}");
    let u = metadata_update(&c, &m).unwrap();
    assert_eq!(u.summary, "old summary");
    assert_eq!(u.tags, "x,y");
    assert_eq!(u.digest, "old digest");

    let m = extract_structured_metadata("{\"summary\": \"new\", \"digest\": \"d\"}");
    let u = metadata_update(&c, &m).unwrap();
    assert_eq!((u.summary.as_str(), u.tags.as_str(), u.digest.as_str()), ("new", "old,tags", "d"));

    // A reply with none of summary, tags or candidates is taken whole as the summary.
    let only_digest = extract_structured_metadata("{\"digest\": \"only digest\"}");
    assert_eq!(metadata_update(&c, &only_digest).unwrap().summary, "{\"digest\": \"only digest\"}");
    let blank = extract_structured_metadata("   ");
    assert!(metadata_update(&c, &blank).is_none());
}
