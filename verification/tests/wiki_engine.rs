use openwiki::models::CapturedContent;
use openwiki::wiki_engine::{
    compute_content_hash, compute_content_hash_with_policy, concept_policy_text,
    is_promotion_candidate, load_concept_thresholds, merge_unique_tags, should_promote_candidate,
    DEFAULT_IMPORTANCE_TEXT,
    normalize_candidate_name, normalize_candidate_temporality, parse_tag_terms, slugify,
    truncate_chars,
};
use std::collections::hash_map::DefaultHasher;
use std::hash::{Hash, Hasher};

fn strings(v: &[&str]) -> Vec<String> {
    v.iter().map(|s| s.to_string()).collect()
}

fn content(source_app: &str) -> CapturedContent {
    CapturedContent {
        id: "id-1".to_string(),
        captured_at: "2024-01-01T00:00:00Z".to_string(),
        content_type: "text".to_string(),
        source_app: source_app.to_string(),
        source_url: Some("https://e.com".to_string()),
        raw_text: Some("raw text".to_string()),
        clean_content: None,
        summary: Some("sum".to_string()),
        tags: None,
        digest: None,
        user_note: Some("note".to_string()),
        image_path: None,
        wiki_assessed_hash: None,
        wiki_compile_hash: None,
    }
}

#[test]
fn slugs_and_truncation() {
    assert_eq!(slugify("Hello, World! 你好"), "hello-world-你好");
    assert_eq!(slugify("--A  B--"), "a-b");
    assert_eq!(truncate_chars("héllo", 2), "hé");
}

#[test]
fn tag_lists() {
    assert_eq!(parse_tag_terms("a, b;a|c\n b "), strings(&["a", "b", "c"]));
    assert!(parse_tag_terms(" , ;").is_empty());
    assert_eq!(
        merge_unique_tags(&strings(&["a", "b"]), &strings(&["b", "c", "c"])),
        strings(&["a", "b", "c"])
    );
}

#[test]
fn candidate_names_and_temporality() {
    assert_eq!(normalize_candidate_temporality(" Long-Term ").as_deref(), Some("recurring"));
    assert_eq!(normalize_candidate_temporality("one_off").as_deref(), Some("transient"));
    assert_eq!(normalize_candidate_temporality("sometimes"), None);
    assert_eq!(normalize_candidate_name("  Rust Ownership ").as_deref(), Some("rust-ownership"));
    assert_eq!(normalize_candidate_name("!!!"), None);
}

#[test]
fn content_fingerprints_hash_the_fields_in_order() {
    let c = content("Safari");
    let mut h = DefaultHasher::new();
    "raw text".hash(&mut h);
    "sum".hash(&mut h);
    "".hash(&mut h);
    "".hash(&mut h);
    "note".hash(&mut h);
    "https://e.com".hash(&mut h);
    assert_eq!(compute_content_hash(&c), format!("{:016x}", h.finish()));
}

#[test]
fn imported_files_hash_the_concept_policy_too() {
    let c = content("notes.md");
    let mut h = DefaultHasher::new();
    "candidate-concepts-v3".hash(&mut h);
    "0.65:2:2".hash(&mut h);
    "raw text".hash(&mut h);
    "sum".hash(&mut h);
    "".hash(&mut h);
    "".hash(&mut h);
    "note".hash(&mut h);
    "https://e.com".hash(&mut h);
    assert_eq!(compute_content_hash(&c), format!("{:016x}", h.finish()));
    assert_ne!(compute_content_hash_with_policy(&c, "0.80:2:2"), compute_content_hash(&c));
}

#[test]
fn merging_the_same_tags_twice_changes_nothing() {
    let existing: Vec<String> = vec!["rust".into(), "wasm".into()];
    let incoming: Vec<String> = vec!["go".into(), "rust".into(), "go".into()];
    let once = merge_unique_tags(&existing, &incoming);
    assert_eq!(once, vec!["rust".to_string(), "wasm".to_string(), "go".to_string()]);
    assert_eq!(merge_unique_tags(&once, &incoming), once);
}

#[test]
fn unset_concept_settings_keep_the_default_fingerprint() {
    let defaults = load_concept_thresholds(None, None);
    let policy = concept_policy_text(DEFAULT_IMPORTANCE_TEXT, &defaults);
    assert_eq!(policy, "0.65:2:2");
    let imported = content("notes.md");
    assert_eq!(compute_content_hash_with_policy(&imported, &policy), compute_content_hash(&imported));
    let stored = load_concept_thresholds(Some("5"), Some("0"));
    let other = concept_policy_text("0.80", &stored);
    assert_eq!(other, "0.80:5:1");
    assert_ne!(compute_content_hash_with_policy(&imported, &other), compute_content_hash(&imported));
    let captured = content("Safari");
    assert_eq!(compute_content_hash_with_policy(&captured, &other), compute_content_hash(&captured));
}

#[test]
fn recurring_well_supported_candidates_are_promoted() {
    let t = load_concept_thresholds(None, Some("3"));
    assert!(is_promotion_candidate("recurring", true));
    assert!(!is_promotion_candidate("recurring", false));
    assert!(!is_promotion_candidate("transient", true));
    assert!(should_promote_candidate("recurring", true, 2, 3, &t));
    assert!(!should_promote_candidate("recurring", true, 1, 3, &t));
    assert!(!should_promote_candidate("recurring", true, 2, 2, &t));
    assert!(!should_promote_candidate("transient", true, 5, 5, &t));
}
