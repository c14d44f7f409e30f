use openwiki::qa::{
    answer_to_save, chat_session_title, needs_query_rewrite, preceding_question, qa_page_text,
    read_answer_fields, read_answer_reply, read_retrieved_page_ids, referenced_id_of, referenced_page_ids, search_query,
    AnswerFields, StoredMessage,
};

#[test]
fn session_title_takes_thirty_chars() {
    let q = "什么是注意力雷达？它如何从我最近收藏的内容里找出反复出现的主题并生成报告";
    let t = chat_session_title(q);
    assert_eq!(t.chars().count(), 30);
    assert!(q.starts_with(&t));
    assert_eq!(chat_session_title("short"), "short");
}

#[test]
fn search_query_uses_rewrite_only_in_follow_ups() {
    assert!(!needs_query_rewrite(1));
    assert!(needs_query_rewrite(2));
    assert_eq!(search_query("q", 1, Some("rewritten".into())), "q");
    assert_eq!(search_query("q", 3, Some("rewritten".into())), "rewritten");
    assert_eq!(search_query("q", 3, None), "q");
}

#[test]
fn answer_reply_reads_json_fields() {
    let raw = "```json\n{\"answer\": \"A\", \"page_ids_used\": [\"p1\", 3, \"p2\"]}\n```";
    let r = read_answer_reply(raw);
    assert_eq!(r.answer, "A");
    assert_eq!(r.page_ids, vec!["p1".to_string(), "p2".to_string()]);
    assert_eq!(r.source_mode, "knowledge_base");

    let r = read_answer_reply("{\"answer\": \"B\", \"source_mode\": \"mixed\"}");
    assert_eq!(r.answer, "B");
    assert!(r.page_ids.is_empty());
    assert_eq!(r.source_mode, "mixed");

    let r = read_answer_reply("{\"page_ids_used\": []}");
    assert_eq!(r.answer, "{\"page_ids_used\": []}");
    assert_eq!(r.source_mode, "ai_only");
}

#[test]
fn answer_reply_recovers_from_broken_json() {
    let raw = "{\"answer\": \"Hello \\\"world\\\"\", \"page_ids_used\": [";
    let r = read_answer_reply(raw);
    assert_eq!(r.answer, "Hello \"world\"");
    assert!(r.page_ids.is_empty());
    assert_eq!(r.source_mode, "ai_only");
}

#[test]
fn answer_fields_default_source_mode() {
    let r = read_answer_fields(
        "raw",
        Some(AnswerFields {
            answer: None,
            page_ids: Some(vec![None, Some("x".into())]),
            source_mode: None,
        }),
    );
    assert_eq!(r.answer, "raw");
    assert_eq!(r.page_ids, vec!["x".to_string()]);
    assert_eq!(r.source_mode, "knowledge_base");
}

fn msg(id: &str, role: &str, content: &str, mode: Option<&str>, turn: i64) -> StoredMessage {
    StoredMessage {
        id: id.to_string(),
        role: role.to_string(),
        content: content.to_string(),
        source_mode: mode.map(|m| m.to_string()),
        turn_index: turn,
    }
}

#[test]
fn saving_answers_checks_message_and_source() {
    let ms = vec![
        msg("u1", "user", "What is Rust?", None, 0),
        msg("a1", "assistant", "A language", Some("knowledge_base"), 1),
        msg("a2", "assistant", "Guess", Some("ai_only"), 3),
        msg("a3", "assistant", "No mode", None, 5),
    ];
    assert_eq!(answer_to_save(&ms, "a1"), Ok(1));
    assert_eq!(answer_to_save(&ms, "u1"), Err("Message not found".to_string()));
    assert_eq!(answer_to_save(&ms, "zz"), Err("Message not found".to_string()));
    let ai_only =
        Err("AI-only answers cannot be saved as wiki pages (no knowledge base sources)".to_string());
    assert_eq!(answer_to_save(&ms, "a2"), ai_only);
    assert_eq!(answer_to_save(&ms, "a3"), ai_only);
}

#[test]
fn saved_answer_page_text() {
    let ms = vec![
        msg("u1", "user", "first", None, 0),
        msg("a1", "assistant", "one", Some("knowledge_base"), 1),
        msg("u2", "user", "second question", None, 2),
        msg("a2", "assistant", "two", Some("knowledge_base"), 3),
    ];
    assert_eq!(preceding_question(&ms, 3), "second question");
    assert_eq!(preceding_question(&ms, 1), "first");
    assert_eq!(preceding_question(&ms, 0), "Q&A");
    let p = qa_page_text("second question", "two", "0123abcd-ffff-4000-8000-000000000000");
    assert_eq!(p.title, "second question");
    assert_eq!(p.slug, "qa-0123abcd");
    assert_eq!(p.body_markdown, "## Question\n\nsecond question\n\n## Answer\n\ntwo");
    assert_eq!(p.summary, "Q&A: second question");
    let long = "x".repeat(50);
    let p = qa_page_text(&long, "a", "abcdefgh");
    assert_eq!(p.title.chars().count(), 40);
    assert_eq!(p.summary, format!("Q&A: {}", "x".repeat(30)));
}

#[test]
fn referenced_pages_from_pages_used() {
    let json = r#"["p1", "{\"id\":\"p2\",\"title\":\"T\"}", "", "{\"title\":\"no id\"}"]"#;
    assert_eq!(
        referenced_page_ids(json),
        vec!["p1".to_string(), "p2".to_string(), "{\"title\":\"no id\"}".to_string()]
    );
    assert!(referenced_page_ids("not json").is_empty());
    assert!(referenced_page_ids("[1, 2]").is_empty());
    assert_eq!(referenced_id_of("x".into(), Some(Some("y".into()))), "y");
    assert_eq!(referenced_id_of("x".into(), Some(None)), "x");
}

#[test]
fn retrieval_reply_page_ids() {
    assert_eq!(
        read_retrieved_page_ids("```json\n{\"page_ids\": [\"a\", 1, \"b\"]}\n```"),
        Some(vec!["a".to_string(), "b".to_string()])
    );
    assert_eq!(read_retrieved_page_ids("{}"), Some(Vec::new()));
    assert_eq!(read_retrieved_page_ids("not json"), None);
}
