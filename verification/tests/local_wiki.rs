use openwiki::local_sync::{
    build_local_wiki_doc, extract_local_wiki_links, local_page_keys, local_page_tag_list,
    local_slug_candidate, local_source_id, local_tags_json, local_wiki_root,
    requested_local_wiki_path,
    plan_local_wiki_edges, render_local_wiki_markdown, stale_local_pages, LocalPageRecord,
    LocalWikiEntry,
};
use openwiki::local_wiki::{
    build_conversation_context, extract_answer_from_malformed_json, extract_local_wiki_summary,
    extract_local_wiki_title, local_wiki_folders, local_wiki_type_from_folder, normalize_local_wiki_key,
    slugify_local_wiki_title, truncate_local_text, wiki_link_lookup, ChatTurn,
};

fn strings(v: &[&str]) -> Vec<String> {
    v.iter().map(|s| s.to_string()).collect()
}

#[test]
fn folders_name_page_types() {
    assert_eq!(local_wiki_type_from_folder("concepts").as_deref(), Some("concept"));
    assert_eq!(local_wiki_type_from_folder("dashboards").as_deref(), Some("dashboard"));
    assert_eq!(local_wiki_type_from_folder("raw"), None);
}

#[test]
fn keys_and_slugs() {
    assert_eq!(normalize_local_wiki_key("  /Concepts\\Rust.md|alias ").as_deref(), Some("concepts/rust"));
    assert_eq!(normalize_local_wiki_key("Page#Section").as_deref(), Some("page"));
    assert_eq!(normalize_local_wiki_key(" // "), None);
    assert_eq!(slugify_local_wiki_title("Hello, World! 你好"), "hello-world-你好");
    assert_eq!(truncate_local_text("héllo", 2), "hé");
}

#[test]
fn titles_and_summaries() {
    assert_eq!(extract_local_wiki_title("intro\n#  My Title  \n", "fallback"), "My Title");
    assert_eq!(extract_local_wiki_title("##Not a title\n", "fallback"), "fallback");
    assert_eq!(extract_local_wiki_summary("# T\n\n> quoted summary\n").as_deref(), Some("quoted summary"));
    assert_eq!(
        extract_local_wiki_summary("# T\n\nFirst para line\nsecond line\n\nNext para").as_deref(),
        Some("First para line second line")
    );
    assert_eq!(extract_local_wiki_summary("# T\n- item\n\nPara").as_deref(), Some("Para"));
    assert_eq!(extract_local_wiki_summary("# Only a heading\n"), None);
}

#[test]
fn answers_from_broken_json() {
    let raw = r#"{"answer": "Line1\nLine2 \"q\"", "page_ids_used": ["#;
    assert_eq!(extract_answer_from_malformed_json(raw), "Line1\nLine2 \"q\"");
    assert_eq!(extract_answer_from_malformed_json("plain text"), "plain text");
}

#[test]
fn conversation_context() {
    let turns = vec![
        ChatTurn { role: "user".to_string(), content: "hi".to_string() },
        ChatTurn { role: "assistant".to_string(), content: "hello".to_string() },
    ];
    assert_eq!(build_conversation_context(&turns, 3), "User: hi\nAssistant: hello");
    assert_eq!(build_conversation_context(&turns, 0), "");
}

#[test]
fn looking_up_a_link() {
    let (slugs, titles) = wiki_link_lookup("Concepts/Rust Ownership").unwrap();
    assert_eq!(slugs, strings(&["concepts-rust-ownership", "rust-ownership"]));
    assert_eq!(titles, strings(&["rust ownership", "concepts rust ownership", "concepts/rust ownership"]));
    assert!(wiki_link_lookup("  |alias").is_none());
}

#[test]
fn links_in_a_page() {
    let md = "See [[Concepts/Rust Ownership|ownership]] and [[raw/note]] and [[rust ownership]] and [[Cases/Foo.md#x]] and [[rust ownership]].";
    assert_eq!(
        extract_local_wiki_links(md),
        strings(&["concepts/rust ownership", "rust ownership", "cases/foo"])
    );
}

#[test]
fn links_rendered_for_the_knowledge_base() {
    assert_eq!(
        render_local_wiki_markdown("A [[Concepts/Rust|the rust]] B [[raw/x]] C"),
        "A [the rust](openwiki://page/Y29uY2VwdHMvcnVzdA) B x C"
    );
    assert_eq!(render_local_wiki_markdown("no links, 中文"), "no links, 中文");
    assert_eq!(render_local_wiki_markdown("中 [[ / ]] 文"), "中  文");
}

#[test]
fn pages_read_from_the_folder() {
    assert_eq!(local_source_id("/w/cases/a.md"), "local-wiki:/w/cases/a.md");
    assert_eq!(local_page_tag_list("dashboard"), strings(&["地图", "索引"]));
    assert!(local_page_tag_list("case").is_empty());
    assert_eq!(
        local_page_keys("concepts/Rust Ownership", &Some("Rust Ownership".to_string()), "Rust ownership"),
        strings(&["concepts/rust ownership", "rust ownership", "rust ownership"])
    );
    assert_eq!(local_page_keys("", &None, "T"), strings(&["t"]));
}

#[test]
fn edges_between_local_pages() {
    let entries = vec![
        LocalWikiEntry {
            page_id: "p0".to_string(),
            keys: strings(&["cases/a", "a"]),
            link_targets: strings(&["b", "a", "missing", "b"]),
        },
        LocalWikiEntry {
            page_id: "p1".to_string(),
            keys: strings(&["concepts/b", "b"]),
            link_targets: strings(&["a"]),
        },
    ];
    assert_eq!(
        plan_local_wiki_edges(&entries),
        vec![("p0".to_string(), "p1".to_string()), ("p1".to_string(), "p0".to_string())]
    );
    let mut later = entries;
    later.push(LocalWikiEntry { page_id: "p2".to_string(), keys: strings(&["b"]), link_targets: vec![] });
    assert_eq!(
        plan_local_wiki_edges(&later),
        vec![("p0".to_string(), "p2".to_string()), ("p1".to_string(), "p0".to_string())]
    );
}

#[test]
fn pages_gone_from_the_folder_are_stale() {
    let pages = vec![
        LocalPageRecord { id: "1".to_string(), source_message_id: Some("local-wiki:/a.md".to_string()) },
        LocalPageRecord { id: "2".to_string(), source_message_id: Some("local-wiki:/b.md".to_string()) },
        LocalPageRecord { id: "3".to_string(), source_message_id: None },
        LocalPageRecord { id: "4".to_string(), source_message_id: Some("chat:x".to_string()) },
    ];
    assert_eq!(stale_local_pages(&pages, &strings(&["local-wiki:/a.md"])), strings(&["2"]));
}

#[test]
fn pages_built_from_local_files() {
    let md = "# Ownership\n\n> Who frees what.\n\nSee [[Concepts/Borrowing]].";
    let doc = build_local_wiki_doc(
        &Some("concepts".to_string()),
        &Some("ownership".to_string()),
        "/kb/wiki/concepts/ownership.md",
        md,
    )
    .unwrap()
    .unwrap();
    assert_eq!(doc.page_type, "concept");
    assert_eq!(doc.title, "Ownership");
    assert_eq!(doc.slug_seed, "ownership");
    assert_eq!(doc.summary.as_deref(), Some("Who frees what."));
    assert!(doc.tags.is_empty());
    assert_eq!(doc.source_message_id, "local-wiki:/kb/wiki/concepts/ownership.md");
    assert_eq!(doc.link_targets, strings(&["concepts/borrowing"]));

    let dash = build_local_wiki_doc(&Some("dashboards".into()), &None, "p", "no heading").unwrap().unwrap();
    assert_eq!(dash.title, "Untitled");
    assert_eq!(dash.tags, strings(&["地图", "索引"]));
    assert!(build_local_wiki_doc(&Some("notes".into()), &None, "p", "x").unwrap().is_none());
    assert_eq!(
        build_local_wiki_doc(&None, &None, "/a/b.md", "x").err().as_deref(),
        Some("Cannot determine page type for /a/b.md")
    );
}

#[test]
fn local_slug_candidates_and_tags() {
    assert_eq!(local_slug_candidate("Rust Ownership", "concept", "id1", 0), "rust-ownership");
    assert_eq!(local_slug_candidate("Rust Ownership", "concept", "id1", 1), "rust-ownership-2");
    assert_eq!(local_slug_candidate("Rust Ownership", "concept", "id1", 2), "rust-ownership-3");
    assert_eq!(local_slug_candidate("!!!", "case", "id9", 0), "case-id9");
    assert_eq!(local_slug_candidate("!!!", "case", "id9", 1), "-2");
    assert_eq!(local_tags_json(&Vec::new()), None);
    assert_eq!(local_tags_json(&strings(&["地图", "索引"])).as_deref(), Some("[\"地图\",\"索引\"]"));
}

#[test]
fn local_wiki_folders_in_order() {
    let folders = local_wiki_folders();
    assert_eq!(folders, strings(&["cases", "concepts", "themes", "dashboards"]));
    for f in &folders {
        assert!(local_wiki_type_from_folder(f).is_some());
    }
}

#[test]
fn a_blank_local_wiki_path_is_refused_and_others_are_trimmed() {
    assert_eq!(
        requested_local_wiki_path("   ").err().as_deref(),
        Some("Please provide a local knowledge base path")
    );
    assert_eq!(requested_local_wiki_path("  /notes/kb \n").ok().as_deref(), Some("/notes/kb"));
    assert_eq!(local_wiki_root("/notes/kb", false), "/notes/kb");
    assert_eq!(local_wiki_root("/notes/kb", true), "/notes/kb/wiki");
}
