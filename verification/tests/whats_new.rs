use openwiki::whats_new::{
    decide_launch, get_whats_new, launch_setting_writes, LaunchDecision, WhatsNewState,
    CURRENT_ANNOUNCEMENT,
};

fn some(s: &str) -> Option<String> {
    Some(s.to_string())
}

#[test]
fn an_update_shows_the_card_until_it_is_seen() {
    let mut state = WhatsNewState::new();
    assert_eq!(get_whats_new(&state, &None), None);
    let (shown, writes) = state.prepare("2.0.0", &some("1.4.0"), &None, &None, true, &some("circle"));
    assert!(shown);
    assert_eq!(writes, vec![("last_run_version".to_string(), "2.0.0".to_string())]);
    assert_eq!(get_whats_new(&state, &None).as_deref(), Some("football-2026-09"));
    assert_eq!(get_whats_new(&state, &some("an-older-card")).as_deref(), Some(CURRENT_ANNOUNCEMENT));
    assert_eq!(get_whats_new(&state, &some(CURRENT_ANNOUNCEMENT)), None);
}

#[test]
fn a_fresh_install_marks_the_card_as_seen() {
    let mut state = WhatsNewState::new();
    let (shown, writes) = state.prepare("2.0.0", &None, &None, &None, true, &None);
    assert!(!shown);
    assert_eq!(
        writes,
        vec![
            ("last_run_version".to_string(), "2.0.0".to_string()),
            ("whats_new_seen".to_string(), CURRENT_ANNOUNCEMENT.to_string()),
        ]
    );
    assert!(matches!(decide_launch(false, &None, true, &None), LaunchDecision::MarkSeen));
    assert_eq!(get_whats_new(&state, &None), None);
}

#[test]
fn a_first_run_marker_counts_as_an_earlier_version() {
    let mut state = WhatsNewState::new();
    assert!(state.prepare("2.0.0", &None, &some("1"), &None, true, &None).0);
    let mut elsewhere = WhatsNewState::new();
    let (shown, writes) = elsewhere.prepare("2.0.0", &None, &some("1"), &None, false, &None);
    assert!(!shown);
    assert_eq!(writes, vec![("last_run_version".to_string(), "2.0.0".to_string())]);
}

#[test]
fn football_users_and_other_platforms_do_not_get_the_card() {
    assert!(matches!(decide_launch(true, &None, true, &some("football")), LaunchDecision::MarkSeen));
    assert!(matches!(decide_launch(true, &None, false, &None), LaunchDecision::NotOnThisPlatform));
    assert!(matches!(
        decide_launch(true, &some(CURRENT_ANNOUNCEMENT), true, &None),
        LaunchDecision::AlreadySeen
    ));
    assert!(matches!(decide_launch(true, &some("older"), true, &some("bar")), LaunchDecision::Show));
}

#[test]
fn a_launch_records_its_version_and_marks_the_card_only_when_it_skips_it() {
    let pair = |k: &str, v: &str| (k.to_string(), v.to_string());
    assert_eq!(
        launch_setting_writes("2.0.0", &LaunchDecision::MarkSeen),
        vec![pair("last_run_version", "2.0.0"), pair("whats_new_seen", CURRENT_ANNOUNCEMENT)]
    );
    assert_eq!(
        launch_setting_writes("2.0.0", &LaunchDecision::Show),
        vec![pair("last_run_version", "2.0.0")]
    );
    assert_eq!(
        launch_setting_writes("2.0.0", &LaunchDecision::NotOnThisPlatform),
        vec![pair("last_run_version", "2.0.0")]
    );
    assert_eq!(
        launch_setting_writes("2.0.0", &LaunchDecision::AlreadySeen),
        vec![pair("last_run_version", "2.0.0")]
    );
}
