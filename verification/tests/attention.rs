use openwiki::attention::{
    analysis_item_payload, batch_key_payload, earliest_capture_time, earliest_of, first_model_call_step, first_wiki_model_step,
    login_failure_message, model_step_without_login, wiki_model_step_without_login, ModelCallStep,
};
use openwiki::attention::{
    ai_provider, api_key_setting_name, auto_radar_item_budget, batch_count,
    build_attention_batches, build_exact_heatmap, check_attention_run, date_range_is_splittable,
    days_are_splittable, decide_radar_status, format_short_date_range, get_attention_insights,
    radar_progress, read_radar_analysis_days, read_radar_analysis_limit, read_radar_interval_days,
    resolve_api_key, select_radar_items, ContentForAnalysis, RunCheck,
};
use openwiki::models::AttentionInsight;

fn item(id: usize, captured_at: &str) -> ContentForAnalysis {
    ContentForAnalysis {
        id: id.to_string(),
        captured_at: captured_at.to_string(),
        source_app: "app".to_string(),
        content_type: "text".to_string(),
        source_url: None,
        summary: None,
        tags: None,
        user_note: None,
        raw_text: None,
    }
}

fn items(n: usize) -> Vec<ContentForAnalysis> {
    (0..n).map(|i| item(i, "2024-03-05T10:00:00Z")).collect()
}

fn insight(status: &str, analyzed_at: &str) -> AttentionInsight {
    AttentionInsight {
        id: 7,
        status: status.to_string(),
        report_json: None,
        window_start: String::new(),
        window_end: String::new(),
        item_count: 10,
        model: "m".to_string(),
        analyzed_at: analyzed_at.to_string(),
        error_message: None,
    }
}

#[test]
fn settings_with_defaults() {
    assert_eq!(read_radar_analysis_days(Some("30")), 30);
    assert_eq!(read_radar_analysis_days(Some("-1")), 100);
    assert_eq!(read_radar_analysis_days(Some("x")), 100);
    assert_eq!(read_radar_analysis_days(None), 100);
    assert_eq!(read_radar_analysis_limit(Some("0")), 0);
    assert_eq!(read_radar_analysis_limit(Some("abc")), 500);
    assert_eq!(read_radar_interval_days(Some("-2")), -2);
    assert_eq!(read_radar_interval_days(None), 3);
}

#[test]
fn sampling_budgets() {
    assert_eq!(auto_radar_item_budget(100), 100);
    assert_eq!(auto_radar_item_budget(121), 120);
    assert_eq!(auto_radar_item_budget(500), 120);
    assert_eq!(auto_radar_item_budget(501), 160);
    assert_eq!(auto_radar_item_budget(2000), 160);
    assert_eq!(auto_radar_item_budget(2001), 200);
    assert_eq!(auto_radar_item_budget(5001), 240);
}

#[test]
fn a_configured_limit_takes_the_newest() {
    let all = items(10);
    let picked = select_radar_items(&all, 2);
    let ids: Vec<String> = picked.iter().map(|i| i.id.clone()).collect();
    assert_eq!(ids, vec!["0".to_string(), "1".to_string()]);
}

#[test]
fn sampling_keeps_the_newest_and_spreads_over_the_rest() {
    let all = items(130);
    let picked = select_radar_items(&all, 0);
    assert_eq!(picked.len(), 120);
    for (k, it) in picked.iter().take(80).enumerate() {
        assert_eq!(it.id, k.to_string());
    }
    assert_eq!(picked[80].id, "80");
    assert_eq!(picked[83].id, "83");
    assert_eq!(picked[84].id, "85");
    let small = items(50);
    assert_eq!(select_radar_items(&small, 0).len(), 50);
}

#[test]
fn batches_of_a_hundred() {
    let batches = build_attention_batches(&items(250));
    let sizes: Vec<usize> = batches.iter().map(|b| b.len()).collect();
    assert_eq!(sizes, vec![100, 100, 50]);
    assert_eq!(batch_count(0), 0);
    assert_eq!(batch_count(100), 1);
    assert_eq!(batch_count(101), 2);
}

#[test]
fn keys_and_providers() {
    assert_eq!(ai_provider(&None), "anthropic");
    assert_eq!(api_key_setting_name("openai"), "ai_api_key_openai");
    assert_eq!(resolve_api_key(&None, &Some("legacy".to_string())), "legacy");
    assert_eq!(resolve_api_key(&Some("own".to_string()), &Some("legacy".to_string())), "own");
    assert_eq!(resolve_api_key(&None, &None), "");
}

#[test]
fn the_radar_panel_state() {
    let (s, reset) = decide_radar_status("anthropic", "", 10, None, 0, 0, false, 3);
    assert_eq!((s.status.as_str(), s.has_new_content, reset), ("no_api_key", false, false));
    let (s, _) = decide_radar_status("openai", "", 3, None, 0, 0, false, 3);
    assert_eq!(s.status, "not_enough_content");
    let (s, _) = decide_radar_status("openai", "", 10, None, 0, 0, false, 3);
    assert_eq!((s.status.as_str(), s.has_new_content), ("empty", true));
    let (s, reset) = decide_radar_status("x", "k", 10, Some(insight("analyzing", "t")), 10, 0, false, 3);
    assert_eq!((s.status.as_str(), s.has_new_content, reset), ("error", true, true));
    assert_eq!(s.insight.map(|i| i.id), Some(7));
    let (s, reset) = decide_radar_status("x", "k", 10, Some(insight("analyzing", "t")), 3, 0, false, 3);
    assert_eq!((s.status.as_str(), s.has_new_content, reset), ("analyzing", false, false));
    let (s, _) = decide_radar_status("x", "k", 10, Some(insight("error", "t")), 0, 0, false, 3);
    assert_eq!((s.status.as_str(), s.has_new_content), ("error", true));
    let (s, _) = decide_radar_status("x", "k", 10, Some(insight("complete", "t")), 0, 4, true, 3);
    assert_eq!((s.status.as_str(), s.has_new_content), ("stale", true));
    let (s, _) = decide_radar_status("x", "k", 10, Some(insight("complete", "t")), 0, 2, true, 3);
    assert_eq!((s.status.as_str(), s.has_new_content), ("fresh", true));
    let (s, _) = decide_radar_status("x", "k", 10, Some(insight("complete", "t")), 0, 9, false, 3);
    assert_eq!((s.status.as_str(), s.has_new_content), ("fresh", false));
}

#[test]
fn the_panel_state_against_the_clock() {
    let (s, _) = get_attention_insights(
        "x", "k", 10, Some(insight("complete", "2020-01-01T00:00:00Z")), true, Some("3"),
    );
    assert_eq!(s.status, "stale");
    let (s, _) = get_attention_insights("x", "k", 10, Some(insight("complete", "not a time")), true, Some("3"));
    assert_eq!(s.status, "fresh");
}

#[test]
fn a_run_is_aged_from_its_analysis_time_not_its_window() {
    let mut stuck = insight("analyzing", "2001-01-01T00:00:00Z");
    stuck.window_start = "2999-01-01T00:00:00Z".to_string();
    let (s, reset) = get_attention_insights("x", "k", 10, Some(stuck), false, None);
    assert_eq!(s.status, "error");
    assert!(reset);
    let mut running = insight("analyzing", "not a time");
    running.window_start = "2001-01-01T00:00:00Z".to_string();
    let (s, reset) = get_attention_insights("x", "k", 10, Some(running), false, None);
    assert_eq!(s.status, "analyzing");
    assert!(!reset);
}

#[test]
fn starting_a_run() {
    assert!(matches!(
        check_attention_run(&Some(insight("analyzing", "t")), "anthropic", "k"),
        RunCheck::AlreadyRunning
    ));
    match check_attention_run(&None, "anthropic", "") {
        RunCheck::Refused { message } => {
            assert_eq!(message, "Please configure an AI API Key in settings first")
        },
        _ => panic!("expected a refusal"),
    }
    assert!(matches!(check_attention_run(&None, "google", ""), RunCheck::Proceed));
    assert!(matches!(check_attention_run(&Some(insight("complete", "t")), "anthropic", "k"), RunCheck::Proceed));
    let p = radar_progress("batching", 1, 3, 120, 400);
    assert_eq!((p.stage.as_str(), p.current, p.total, p.selected_items, p.total_items), ("batching", 1, 3, Some(120), Some(400)));
}

#[test]
fn date_ranges_and_heat_map() {
    let v = vec![
        item(1, "2024-03-05T10:00:00Z"),
        item(2, "2024-03-01T09:00:00Z"),
        item(3, "2024-03-09T08:00:00Z"),
        item(4, "2024-03-05T23:00:00Z"),
        item(5, "bad"),
    ];
    assert!(date_range_is_splittable(&v));
    assert!(days_are_splittable(&v));
    assert_eq!(format_short_date_range(&v), "03-01~03-09");
    let one_day = vec![item(1, "2024-03-05T10:00:00Z"), item(2, "2024-03-05T11:00:00Z")];
    assert_eq!(format_short_date_range(&one_day), "2024-03-05");
    assert_eq!(format_short_date_range(&vec![item(1, "bad")]), "");
    let map = build_exact_heatmap(&v);
    let cells: Vec<(String, u32, bool)> = map.iter().map(|d| (d.date.clone(), d.count, d.is_peak)).collect();
    assert_eq!(
        cells,
        vec![
            ("03-01".to_string(), 1, false),
            ("03-05".to_string(), 2, true),
            ("03-09".to_string(), 1, false),
        ]
    );
    assert!(build_exact_heatmap(&vec![item(1, "bad")]).is_empty());
}

#[test]
fn batch_key_payloads() {
    let mut it = item(5, "2024-03-05T10:00:00Z");
    it.summary = Some("sum".to_string());
    assert_eq!(
        analysis_item_payload(&it),
        "5|2024-03-05T10:00:00Z|app|text||sum|||"
    );
    let sigs = vec!["aa".to_string(), "bb".to_string()];
    assert_eq!(
        batch_key_payload(&sigs, "openai", "gpt", "en"),
        "radar-batch-v1|openai|gpt|en|2|aa|bb|"
    );
    assert_eq!(batch_key_payload(&Vec::new(), "p", "m", "l"), "radar-batch-v1|p|m|l|0|");
}

#[test]
fn model_call_steps() {
    assert!(matches!(first_model_call_step("openai", ""), ModelCallStep::TryOpenAiLogin));
    assert!(matches!(first_model_call_step("google", "k"), ModelCallStep::TryGoogleLogin));
    assert!(matches!(first_model_call_step("anthropic", "k"), ModelCallStep::CallWithKey));
    match first_model_call_step("anthropic", "") {
        ModelCallStep::Fail { message } => {
            assert_eq!(message, "Please configure an API Key or log in via OAuth first")
        }
        _ => panic!("expected failure"),
    }
    match model_step_without_login("openai", "") {
        ModelCallStep::Fail { message } => {
            assert_eq!(message, "OpenAI 登录已失效，请重新登录或填写 API Key")
        }
        _ => panic!("expected failure"),
    }
    assert!(matches!(model_step_without_login("google", "key"), ModelCallStep::CallWithKey));
    assert_eq!(login_failure_message("google", "boom"), "Google OAuth 分析失败：boom");
    assert_eq!(login_failure_message("openai", "x"), "OpenAI OAuth 分析失败：x");
}

#[test]
fn wiki_model_call_steps() {
    assert!(matches!(first_wiki_model_step("openai", ""), ModelCallStep::TryOpenAiLogin));
    assert!(matches!(first_wiki_model_step("google", ""), ModelCallStep::TryGoogleLogin));
    assert!(matches!(first_wiki_model_step("anthropic", "k"), ModelCallStep::CallWithKey));
    match first_wiki_model_step("anthropic", "") {
        ModelCallStep::Fail { message } => assert_eq!(message, "AI API Key not configured"),
        _ => panic!("expected failure"),
    }
    assert!(matches!(wiki_model_step_without_login("k"), ModelCallStep::CallWithKey));
}

#[test]
fn analysis_window_starts_at_the_earliest_capture() {
    let items = vec![
        item(1, "2024-03-05T10:00:00+08:00"),
        item(2, "2024-03-05T01:00:00Z"),
        item(3, "not a time"),
    ];
    assert_eq!(earliest_capture_time(&items).as_deref(), Some("2024-03-05T01:00:00+00:00"));
    assert_eq!(earliest_capture_time(&vec![item(1, "nope")]), None);
    assert_eq!(earliest_of(&vec![Some((5, 0)), None, Some((3, 9)), Some((3, 1))]), Some((3, 1)));
    assert_eq!(earliest_of(&Vec::new()), None);
}
