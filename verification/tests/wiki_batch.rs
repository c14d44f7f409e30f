use openwiki::wiki_batch::{
    graph_page_positions, lint_finding, needs_auto_compile, page_edge_count, touched_page_set,
};

fn strings(v: &[&str]) -> Vec<String> {
    v.iter().map(|s| s.to_string()).collect()
}

#[test]
fn auto_compile_selection() {
    let h = Some("h1".to_string());
    // Never processed at this hash: compile.
    assert!(needs_auto_compile(false, &None, &None, "h1", None));
    assert!(needs_auto_compile(false, &Some("old".into()), &None, "h1", None));
    // Processed, not imported: up to date.
    assert!(!needs_auto_compile(false, &h, &None, "h1", None));
    assert!(!needs_auto_compile(false, &None, &h, "h1", Some(true)));
    // Processed imported file: only when it still needs its structured pages.
    assert!(needs_auto_compile(true, &h, &None, "h1", Some(true)));
    assert!(!needs_auto_compile(true, &h, &None, "h1", Some(false)));
    assert!(needs_auto_compile(true, &h, &None, "h1", None));
}

#[test]
fn touched_pages_sorted_and_distinct() {
    let lists = vec![strings(&["b", "a"]), strings(&[]), strings(&["c", "a", "b"])];
    assert_eq!(touched_page_set(&lists), strings(&["a", "b", "c"]));
    assert!(touched_page_set(&Vec::new()).is_empty());
}

#[test]
fn graph_skips_sources_and_questions_and_caps_pages() {
    let types = strings(&["concept", "source", "qa", "entity", "theme"]);
    assert_eq!(graph_page_positions(&types), vec![0, 3, 4]);
    let many: Vec<String> = (0..1000).map(|_| "concept".to_string()).collect();
    let kept = graph_page_positions(&many);
    assert_eq!(kept.len(), 800);
    assert_eq!(kept[799], 799);
}

#[test]
fn graph_edge_counts() {
    let edges = vec![
        ("a".to_string(), "b".to_string()),
        ("b".to_string(), "c".to_string()),
        ("a".to_string(), "a".to_string()),
    ];
    assert_eq!(page_edge_count("a", &edges), 2);
    assert_eq!(page_edge_count("b", &edges), 2);
    assert_eq!(page_edge_count("z", &edges), 0);
}

#[test]
fn lint_findings_for_stale_and_draft_pages() {
    let f = lint_finding("needs_recompile", "Rust", "p1").unwrap();
    assert_eq!(f.kind, "stale");
    assert_eq!(f.severity, "warning");
    assert_eq!(f.title, "\"Rust\" has stale sources");
    assert_eq!(f.page_ids, "[\"p1\"]");
    let g = lint_finding("draft", "Go", "p2").unwrap();
    assert_eq!(g.kind, "orphan");
    assert_eq!(g.severity, "critical");
    assert_eq!(g.title, "\"Go\" is invalid");
    assert_eq!(g.description, "All sources have been deleted, please decide to keep or remove");
    assert!(lint_finding("active", "X", "p3").is_none());
}
