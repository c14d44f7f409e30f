use openwiki::detector::{
    compute_dedup_keys, is_xiaoyun_source_app, plan_auto_save, route_capture,
    should_show_confirmation_bubble, url_fetch_failure_note, follow_up_after_save,
    CaptureDetector, CaptureRoute, DeduplicationState, DetectedCapture, SaveFollowUp,
};
use openwiki::models::CapturedContent;

fn clipboard_event(content_type: &str, source_app: &str, from_clipboard: bool) -> DetectedCapture {
    DetectedCapture {
        content_type: Some(content_type.to_string()),
        preview: None,
        source_app: Some(source_app.to_string()),
        raw_text: None,
        image_path: None,
        image_width: None,
        image_height: None,
        from_clipboard: Some(from_clipboard),
    }
}

fn empty_event() -> DetectedCapture {
    DetectedCapture {
        content_type: None,
        preview: None,
        source_app: None,
        raw_text: None,
        image_path: None,
        image_width: None,
        image_height: None,
        from_clipboard: None,
    }
}

fn keys(v: &[&str]) -> Vec<String> {
    v.iter().map(|s| s.to_string()).collect()
}

fn content(content_type: &str) -> CapturedContent {
    CapturedContent {
        id: "abcdef123456".to_string(),
        captured_at: "2024-03-05T10:20:30+00:00".to_string(),
        content_type: content_type.to_string(),
        source_app: "Safari".to_string(),
        source_url: None,
        raw_text: None,
        clean_content: None,
        summary: None,
        tags: None,
        digest: None,
        user_note: None,
        image_path: None,
        wiki_assessed_hash: None,
        wiki_compile_hash: None,
    }
}

#[test]
fn bubble_shows_for_non_text_content() {
    let event = clipboard_event("image", "WeChat", true);
    assert!(should_show_confirmation_bubble(&event));
}

#[test]
fn bubble_is_suppressed_for_external_clipboard_text() {
    let event = clipboard_event("text", "WeChat", true);
    assert!(!should_show_confirmation_bubble(&event));
}

#[test]
fn bubble_is_allowed_for_xiaoyun_clipboard_text() {
    let event = clipboard_event("text", "xiaoyun", true);
    assert!(should_show_confirmation_bubble(&event));
}

#[test]
fn bubble_shows_for_text_not_from_the_clipboard_and_for_unknown_types() {
    assert!(should_show_confirmation_bubble(&clipboard_event("text", "WeChat", false)));
    assert!(should_show_confirmation_bubble(&empty_event()));
    let mut text_without_flag = empty_event();
    text_without_flag.content_type = Some("text".to_string());
    assert!(should_show_confirmation_bubble(&text_without_flag));
}

#[test]
fn xiaoyun_is_recognised_in_any_case() {
    assert!(is_xiaoyun_source_app("XiaoYun"));
    assert!(!is_xiaoyun_source_app("xiaoyun2"));
}

#[test]
fn image_keys_use_path_and_size() {
    let mut e = empty_event();
    e.content_type = Some("image".to_string());
    e.image_path = Some("/tmp/shot.png".to_string());
    e.image_width = Some(1920);
    e.image_height = Some(1080);
    assert_eq!(compute_dedup_keys(&e), keys(&["img:path:/tmp/shot.png", "img:dims:1920x1080"]));
    e.image_path = Some(String::new());
    e.image_height = Some(0);
    assert_eq!(compute_dedup_keys(&e), keys(&["img:unknown"]));
}

#[test]
fn text_keys_keep_the_first_64_characters() {
    let mut e = empty_event();
    e.content_type = Some("text".to_string());
    assert_eq!(compute_dedup_keys(&e), keys(&["text:empty"]));
    let long: String = std::iter::repeat('字').take(70).collect();
    e.raw_text = Some(long);
    let expected = format!("text:{}", std::iter::repeat('字').take(64).collect::<String>());
    assert_eq!(compute_dedup_keys(&e), vec![expected]);
}

#[test]
fn other_kinds_are_keyed_by_their_type() {
    let mut e = empty_event();
    assert_eq!(compute_dedup_keys(&e), keys(&["other:unknown"]));
    e.content_type = Some("url".to_string());
    assert_eq!(compute_dedup_keys(&e), keys(&["other:url"]));
}

#[test]
fn a_key_seen_within_the_window_suppresses() {
    let mut state = DeduplicationState::new();
    assert!(state.should_emit(&keys(&["a"]), 1_000));
    assert!(!state.should_emit(&keys(&["b", "a"]), 2_000));
    // The suppressed capture's own keys were not recorded.
    assert!(state.should_emit(&keys(&["b"]), 2_500));
    // Exactly the window later the key goes through again.
    assert!(state.should_emit(&keys(&["a"]), 4_000));
}

#[test]
fn a_repeat_within_the_window_is_suppressed_whatever_came_between() {
    let mut state = DeduplicationState::new();
    assert!(state.should_emit(&keys(&["a"]), 1_000));
    assert!(state.should_emit(&keys(&["b"]), 1_500));
    assert!(!state.should_emit(&keys(&["b", "c"]), 2_000));
    assert!(state.should_emit(&keys(&["c"]), 2_500));
    assert!(!state.should_emit(&keys(&["a"]), 3_999));
}

#[test]
fn a_clock_going_backwards_counts_as_no_time() {
    let mut state = DeduplicationState::new();
    assert!(state.should_emit(&keys(&["a"]), 5_000));
    assert!(!state.should_emit(&keys(&["a"]), 4_000));
}

#[test]
fn the_clipboard_copy_and_the_screenshot_of_one_capture_count_once() {
    let mut detector = CaptureDetector::new();
    detector.start();
    let mut from_clipboard = empty_event();
    from_clipboard.content_type = Some("image".to_string());
    from_clipboard.image_width = Some(800);
    from_clipboard.image_height = Some(600);
    let mut from_file = empty_event();
    from_file.content_type = Some("image".to_string());
    from_file.image_path = Some("/Users/me/Desktop/Screenshot.png".to_string());
    from_file.image_width = Some(800);
    from_file.image_height = Some(600);
    assert!(detector.accept_capture(&from_clipboard, 10_000));
    assert!(!detector.accept_capture(&from_file, 11_500));
    detector.stop();
}

#[test]
fn texts_that_start_alike_count_once_within_the_window() {
    let mut detector = CaptureDetector::new();
    detector.start();
    let shared = "x".repeat(64);
    let mut first = empty_event();
    first.content_type = Some("text".to_string());
    first.raw_text = Some(format!("{}first ending", shared));
    let mut second = empty_event();
    second.content_type = Some("text".to_string());
    second.raw_text = Some(format!("{}another ending", shared));
    assert!(detector.accept_capture(&first, 20_000));
    assert!(!detector.accept_capture(&second, 21_000));
    detector.stop();
}

#[test]
fn routes_follow_source_mode_and_bubble() {
    assert!(matches!(route_capture(false, false, &None, false), CaptureRoute::Discard));
    assert!(matches!(route_capture(true, true, &None, false), CaptureRoute::AutoSave));
    assert!(matches!(
        route_capture(false, true, &None, false),
        CaptureRoute::AwaitConfirmation { open_bubble: true }
    ));
    assert!(matches!(
        route_capture(false, true, &Some("confirm".to_string()), true),
        CaptureRoute::AwaitConfirmation { open_bubble: false }
    ));
    assert!(matches!(
        route_capture(false, true, &Some("auto".to_string()), false),
        CaptureRoute::AutoSave
    ));
}

#[test]
fn sensitive_text_is_not_saved_when_the_filter_is_on() {
    let mut e = empty_event();
    e.raw_text = Some("password: hunter2".to_string());
    assert!(plan_auto_save(&e, &Some("true".to_string()), true).is_none());
    let saved = plan_auto_save(&e, &Some("false".to_string()), true).unwrap();
    assert_eq!(saved.content_type, "text");
    assert_eq!(saved.preview, "");
    assert_eq!(saved.source_app, "Unknown");
    assert_eq!(saved.raw_text.as_deref(), Some("password: hunter2"));
    let mut no_text = empty_event();
    no_text.content_type = Some("image".to_string());
    let saved = plan_auto_save(&no_text, &Some("true".to_string()), true).unwrap();
    assert_eq!(saved.content_type, "image");
}

#[test]
fn what_follows_a_save() {
    let mut text = content("text");
    assert!(matches!(follow_up_after_save(&text, &None), SaveFollowUp::Nothing));
    text.raw_text = Some("hello".to_string());
    match follow_up_after_save(&text, &None) {
        SaveFollowUp::Summarize { text } => assert_eq!(text, "hello"),
        _ => panic!("expected a summary"),
    }
    let mut link = content("url");
    assert!(matches!(follow_up_after_save(&link, &None), SaveFollowUp::MissingSourceUrl));
    link.source_url = Some("https://example.com/a".to_string());
    link.raw_text = Some("https://example.com/a".to_string());
    match follow_up_after_save(&link, &None) {
        SaveFollowUp::FetchUrl { url } => assert_eq!(url, "https://example.com/a"),
        _ => panic!("expected a fetch"),
    }
    assert!(matches!(
        follow_up_after_save(&link, &Some("false".to_string())),
        SaveFollowUp::UrlReadingDisabled
    ));
    link.raw_text = Some("the page text".to_string());
    assert!(matches!(follow_up_after_save(&link, &None), SaveFollowUp::AlreadyFetched));
    let mut image = content("image");
    image.image_path = Some("/tmp/a.png".to_string());
    match follow_up_after_save(&image, &None) {
        SaveFollowUp::RecognizeImage { path } => assert_eq!(path, "/tmp/a.png"),
        _ => panic!("expected text recognition"),
    }
}

#[test]
fn a_failed_read_leaves_a_note() {
    assert_eq!(
        url_fetch_failure_note("timeout", "https://example.com"),
        "[读取失败] timeout\n\n原始链接: https://example.com"
    );
}
