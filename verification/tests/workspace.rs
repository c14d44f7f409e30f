use openwiki::models::CapturedContent;
use openwiki::workspace::{
    default_workspace_root_from, expand_user_path_with, has_processed_signal, markdown_title,
    note_file_name_with_stamp, path_set, raw_asset_link, render_workspace_markdown,
    resolve_workspace_paths_from_repo, resolve_workspace_root_with, workspace_asset_path,
    workspace_inbox_note_path, workspace_note_file_name,
};

fn some(s: &str) -> Option<String> {
    Some(s.to_string())
}

fn content(content_type: &str) -> CapturedContent {
    CapturedContent {
        id: "abcdef123456".to_string(),
        captured_at: "2024-03-05T10:20:30+00:00".to_string(),
        content_type: content_type.to_string(),
        source_app: "Safari".to_string(),
        source_url: None,
        raw_text: None,
        clean_content: None,
        summary: None,
        tags: None,
        digest: None,
        user_note: None,
        image_path: None,
        wiki_assessed_hash: None,
        wiki_compile_hash: None,
    }
}

#[test]
fn the_workspace_folders() {
    let p = path_set("/ws", true);
    assert!(p.initialized);
    assert_eq!(p.root, "/ws");
    assert_eq!(p.inbox, "/ws/inbox");
    assert_eq!(p.raw, "/ws/raw");
    assert_eq!(p.wiki_root, "/ws/wiki");
    assert_eq!(p.wiki_cases, "/ws/wiki/cases");
    assert_eq!(p.wiki_concepts, "/ws/wiki/concepts");
    assert_eq!(p.wiki_themes, "/ws/wiki/themes");
    assert_eq!(p.wiki_dashboards, "/ws/wiki/dashboards");
    assert_eq!(p.wiki_drafts, "/ws/wiki/_drafts");
    assert_eq!(p.wiki_candidates, "/ws/wiki/_candidates");
    assert_eq!(p.insights, "/ws/insights");
}

#[test]
fn typed_paths_are_expanded() {
    let home = some("/home/u");
    assert_eq!(expand_user_path_with("  ~/notes ", &home, "/def"), "/home/u/notes");
    assert_eq!(expand_user_path_with("   ", &home, "/def"), "/def");
    assert_eq!(expand_user_path_with("~", &home, "/def"), "/home/u");
    assert_eq!(expand_user_path_with("~", &None, "/def"), "~");
    assert_eq!(expand_user_path_with("~/x", &None, "/def"), "x");
    assert_eq!(expand_user_path_with("/abs/path", &home, "/def"), "/abs/path");
}

#[test]
fn the_default_workspace() {
    assert_eq!(default_workspace_root_from(&some("/docs"), &some("/home/u")), "/docs/OpenWiki Workspace");
    assert_eq!(default_workspace_root_from(&None, &some("/home/u")), "/home/u/OpenWiki Workspace");
    assert_eq!(default_workspace_root_from(&None, &None), "./OpenWiki Workspace");
}

#[test]
fn a_blank_setting_means_the_default_workspace() {
    assert_eq!(resolve_workspace_root_with(&some("  "), &None, "/def"), "/def");
    assert_eq!(resolve_workspace_root_with(&None, &None, "/def"), "/def");
    assert_eq!(resolve_workspace_root_with(&some("~/w"), &some("/home/u"), "/def"), "/home/u/w");
}

#[test]
fn resolved_paths_ask_the_disk_about_the_root() {
    let p = resolve_workspace_paths_from_repo(&some("/tmp/ws-one"), |path: &str| path == "/tmp/ws-one");
    assert!(p.initialized);
    assert_eq!(p.root, "/tmp/ws-one");
    assert_eq!(p.inbox, "/tmp/ws-one/inbox");
    let q = resolve_workspace_paths_from_repo(&some("/tmp/ws-two"), |_: &str| false);
    assert!(!q.initialized);
}

#[test]
fn note_file_names() {
    let c = content("text");
    assert_eq!(note_file_name_with_stamp("20240305-102030", &c), "20240305-102030-text-abcdef12.md");
    let name = workspace_note_file_name(&c);
    assert!(name.ends_with("-text-abcdef12.md"));
    assert_eq!(name.chars().count(), "20240305-102030-text-abcdef12.md".chars().count());
    let p = path_set("/ws", true);
    let path = workspace_inbox_note_path(&p, &c);
    assert!(path.starts_with("/ws/inbox/"));
    assert!(path.ends_with("-text-abcdef12.md"));
}

#[test]
fn asset_paths_and_links() {
    let p = path_set("/ws", true);
    let c = content("image");
    assert_eq!(workspace_asset_path(&p, &c, "/tmp/shot.jpeg"), "/ws/inbox/assets/abcdef123456.jpeg");
    assert_eq!(workspace_asset_path(&p, &c, "/tmp/shot"), "/ws/inbox/assets/abcdef123456.png");
    assert_eq!(raw_asset_link("assets/a.png"), "../inbox/assets/a.png");
}

#[test]
fn titles_of_notes() {
    let mut c = content("text");
    c.raw_text = some("\n\n  ## Hello world  \nmore");
    assert_eq!(markdown_title(&c), "Hello world");
    c.raw_text = some("###\nnext line");
    assert_eq!(markdown_title(&c), "Captured note abcdef12");
    let long: String = std::iter::repeat('a').take(70).collect();
    c.raw_text = Some(long);
    assert_eq!(markdown_title(&c).chars().count(), 60);
    let link = content("url");
    assert_eq!(markdown_title(&link), "Captured link abcdef12");
    let image = content("image");
    assert_eq!(markdown_title(&image), "Captured image abcdef12");
}

#[test]
fn a_note_is_worked_on_once_it_has_a_summary_digest_tags_or_clean_text() {
    let mut c = content("text");
    assert!(!has_processed_signal(&c));
    c.summary = some("   ");
    assert!(!has_processed_signal(&c));
    c.tags = some("x");
    assert!(has_processed_signal(&c));
}

#[test]
fn the_markdown_of_a_note() {
    let mut c = content("url");
    c.source_url = some("https://example.com");
    c.raw_text = some("# Title\nBody text\n");
    c.summary = some("  A summary ");
    c.tags = some("rust, verus,, ");
    c.digest = some("   ");
    let expected = [
        "---\n",
        "openwiki_id: abcdef123456\n",
        "captured_at: 2024-03-05T10:20:30+00:00\n",
        "content_type: url\n",
        "source_app: Safari\n",
        "managed_by: openwiki\n",
        "workspace_layer: inbox\n",
        "source_url: https://example.com\n",
        "---\n\n",
        "# Title\n\n",
        "- Captured at: 2024-03-05T10:20:30+00:00\n",
        "- Source app: Safari\n",
        "- Content type: url\n",
        "- Source URL: https://example.com\n",
        "\n",
        "## Summary\n\nA summary\n\n",
        "## Tags\n\n- rust\n- verus\n\n",
        "## Content\n\n# Title\nBody text\n",
    ]
    .concat();
    assert_eq!(render_workspace_markdown(&c, &None, "inbox"), expected);
    c.user_note = some(" remember ");
    c.clean_content = some("clean");
    let with_asset = render_workspace_markdown(&c, &some("../inbox/assets/a.png"), "raw");
    assert!(with_asset.contains("workspace_layer: raw\n"));
    assert!(with_asset.contains("- Source URL: https://example.com\n\n## Note\n\nremember\n\n## Summary"));
    assert!(with_asset.contains(
        "- verus\n\n## Asset\n\n![Captured image](../inbox/assets/a.png)\n\n## Clean content\n\nclean\n\n## Content"
    ));
}
