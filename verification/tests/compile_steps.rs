use openwiki::compile_steps::{
    read_assessment_reply, read_assessment_reply_checked,
    chosen_themes, count_source_statuses, fallback_page_text, read_theme_choice, new_page_text, normalize_content_tags_for_page,
    parse_page_tags, plan_discovered, read_discover_reply, read_page_reply, reuses_as_fallback,
    updated_page_text, DiscoverFields, PageReplyFields,
};
use openwiki::models::CapturedContent;

fn content(source_app: &str, summary: Option<&str>, tags: Option<&str>) -> CapturedContent {
    CapturedContent {
        id: "id-1".to_string(),
        captured_at: "2024-01-01T00:00:00Z".to_string(),
        content_type: "text".to_string(),
        source_app: source_app.to_string(),
        source_url: None,
        raw_text: Some("raw text body".to_string()),
        clean_content: None,
        summary: summary.map(|s| s.to_string()),
        tags: tags.map(|s| s.to_string()),
        digest: None,
        user_note: None,
        image_path: None,
        wiki_assessed_hash: None,
        wiki_compile_hash: None,
    }
}

#[test]
fn discover_reply_plans_creates_and_updates() {
    let raw = "```json\n{\"creates\": [{\"title\": \"Rust\", \"page_type\": \"entity\"}, {}], \"updates\": [{\"page_id\": \"p1\"}, {\"page_id\": \"\"}, {}]}\n```";
    let plan = read_discover_reply(raw).expect("json");
    assert_eq!(
        plan.creates,
        vec![
            ("Rust".to_string(), "entity".to_string()),
            ("Untitled".to_string(), "concept".to_string())
        ]
    );
    assert_eq!(plan.updates, vec!["p1".to_string()]);
    assert!(read_discover_reply("not json").is_none());
    let empty = read_discover_reply("{}").unwrap();
    assert!(empty.creates.is_empty() && empty.updates.is_empty());
}

#[test]
fn discover_plan_from_fields() {
    let plan = plan_discovered(DiscoverFields {
        creates: Some(vec![(None, Some("theme".into()))]),
        updates: None,
    });
    assert_eq!(plan.creates, vec![("Untitled".to_string(), "theme".to_string())]);
}

#[test]
fn new_page_takes_reply_over_entry() {
    let reply = read_page_reply(
        "{\"title\": \"Hello World\", \"body_markdown\": \"# Hi\", \"tags\": [\"a\", \"b\"]}",
    )
    .unwrap();
    let p = new_page_text("Entry", "concept", reply);
    assert_eq!(p.title, "Hello World");
    assert_eq!(p.slug, "hello-world");
    assert_eq!(p.page_type, "concept");
    assert_eq!(p.body_markdown, "# Hi");
    assert_eq!(p.summary, None);
    assert_eq!(p.tags.as_deref(), Some("[\"a\",\"b\"]"));

    let bare = PageReplyFields {
        title: None,
        body_markdown: None,
        summary: Some("s".into()),
        page_type: Some("entity".into()),
        tags_json: None,
    };
    let p = new_page_text("Entry Title", "concept", bare);
    assert_eq!(p.title, "Entry Title");
    assert_eq!(p.page_type, "entity");
    assert_eq!(p.body_markdown, "");
    assert_eq!(p.summary.as_deref(), Some("s"));
}

#[test]
fn updated_page_keeps_what_the_reply_lacks() {
    let reply = PageReplyFields {
        title: None,
        body_markdown: Some("new body".into()),
        summary: None,
        page_type: None,
        tags_json: None,
    };
    let u = updated_page_text("old body", &Some("old summary".into()), &None, reply);
    assert_eq!(u.body_markdown, "new body");
    assert_eq!(u.summary.as_deref(), Some("old summary"));
    assert_eq!(u.tags, None);
}

#[test]
fn source_status_counts() {
    let s: Vec<String> = ["active", "stale", "active", "removed"].iter().map(|x| x.to_string()).collect();
    assert_eq!(count_source_statuses(&s), (2, 1));
    assert_eq!(count_source_statuses(&Vec::new()), (0, 0));
}

#[test]
fn page_tags_written_and_read() {
    assert_eq!(
        normalize_content_tags_for_page(&Some("rust, wasm; rust".to_string())).as_deref(),
        Some("[\"rust\",\"wasm\"]")
    );
    assert_eq!(normalize_content_tags_for_page(&Some(" , ".to_string())), None);
    assert_eq!(normalize_content_tags_for_page(&None), None);
    assert_eq!(
        parse_page_tags(&Some("[\"a\", \"b, c\", \"a\"]".to_string())),
        vec!["a".to_string(), "b".to_string(), "c".to_string()]
    );
    assert_eq!(parse_page_tags(&Some("x|y".to_string())), vec!["x".to_string(), "y".to_string()]);
    assert!(parse_page_tags(&None).is_empty());
}

#[test]
fn fallback_page_for_captures() {
    let imported = content("notes.md", Some("  "), Some("t1,t2"));
    let p = fallback_page_text(&imported);
    assert_eq!(p.page_type, "case");
    assert_eq!(p.summary, "raw text body");
    assert_eq!(p.tags.as_deref(), Some("[\"t1\",\"t2\"]"));
    let clip = content("Safari", Some("A summary"), None);
    let q = fallback_page_text(&clip);
    assert_eq!(q.page_type, "source");
    assert_eq!(q.summary, "A summary");
    assert_eq!(q.tags, None);
    assert!(reuses_as_fallback("case", "source"));
    assert!(reuses_as_fallback("source", "source"));
    assert!(!reuses_as_fallback("source", "case"));
    assert!(!reuses_as_fallback("case", "concept"));
}

#[test]
fn theme_choice_keeps_offered_themes_up_to_three() {
    let valid: Vec<String> = ["t1", "t2", "t3", "t4"].iter().map(|s| s.to_string()).collect();
    let r = read_theme_choice(
        "```json\n{\"theme_ids\": [\"t9\", \"t2\", 5, \"t1\", \"t4\", \"t3\"]}\n```",
        &valid,
    )
    .unwrap();
    assert_eq!(r, vec!["t2".to_string(), "t1".to_string(), "t4".to_string()]);
    assert_eq!(read_theme_choice("{}", &valid), Some(Vec::new()));
    assert_eq!(read_theme_choice("nope", &valid), None);
    assert!(chosen_themes(None, &valid).is_empty());
}

#[test]
fn page_tags_are_written_as_escaped_json() {
    assert_eq!(
        normalize_content_tags_for_page(&Some("say \"hi\", back\\slash, 中文".to_string())).as_deref(),
        Some(r#"["say \"hi\"","back\\slash","中文"]"#)
    );
}

#[test]
fn an_assessment_reply_gives_its_decision_reason_and_score() {
    let reply = "```json\n{\"should_compile\": true, \"knowledge_score\": 0.75, \"reason\": \"dense\"}\n```";
    assert_eq!(
        read_assessment_reply(reply),
        Ok((true, "dense".to_string(), Some("0.75".to_string())))
    );
    assert_eq!(
        read_assessment_reply(r#"{"knowledge_score": "high", "should_compile": "yes"}"#),
        Ok((false, "unknown".to_string(), None))
    );
    assert_eq!(
        read_assessment_reply(r#"{"knowledge_score": 3}"#),
        Ok((false, "unknown".to_string(), Some("3".to_string())))
    );
}

#[test]
fn an_assessment_reply_that_is_not_json_is_an_error() {
    let err = read_assessment_reply("  not json  ").unwrap_err();
    assert!(err.starts_with("JSON parse failed: "), "{}", err);
    assert!(err.ends_with(" — raw: not json"), "{}", err);
    let long = "é".repeat(150);
    let err = read_assessment_reply(&long).unwrap_err();
    assert!(err.ends_with(&format!(" — raw: {}", "é".repeat(100))), "{}", err);
    let cut = format!("a{}", "é".repeat(150));
    assert!(read_assessment_reply_checked(&cut).is_none());
    assert!(read_assessment_reply_checked(&long).is_some());
    assert!(read_assessment_reply_checked(r#"{"reason": "ok"}"#).is_some());
}
