use openwiki::preferences::{check_xreader_status, screenshot_dir_from, get_system_dark_mode};

fn some(s: &str) -> Option<String> {
    Some(s.to_string())
}

#[test]
fn readers_are_built_in() {
    let status = check_xreader_status().unwrap();
    assert!(status.installed);
    assert_eq!(
        status.supported_platforms,
        vec![
            "mp.weixin.qq.com (WeChat)".to_string(),
            "x.com / twitter.com (X/Twitter)".to_string(),
            "Other web pages (via Jina Reader)".to_string(),
        ]
    );
    assert_eq!(status.install_command, "");
}

#[test]
fn screenshot_folder_defaults() {
    assert_eq!(
        screenshot_dir_from(true, &some("/home/u/Bilder"), &some("/home/u"), &None),
        "/home/u/Bilder/openwiki-screenshots"
    );
    assert_eq!(
        screenshot_dir_from(true, &None, &some("/home/u"), &None),
        "/home/u/Pictures/openwiki-screenshots"
    );
    assert_eq!(screenshot_dir_from(true, &None, &None, &None), "/tmp/openwiki-screenshots");
    assert_eq!(
        screenshot_dir_from(false, &None, &None, &some("/data")),
        "/data/com.openwiki.app/screenshots"
    );
    assert_eq!(screenshot_dir_from(false, &None, &None, &None), "com.openwiki.app/screenshots");
}

#[test]
fn dark_mode_from_gsettings() {
    assert_eq!(get_system_dark_mode(false, &some("'prefer-dark'"), &None), None);
    assert_eq!(get_system_dark_mode(true, &some("'prefer-dark'\n"), &None), Some(true));
    assert_eq!(get_system_dark_mode(true, &some("'default'\n"), &some("'Adwaita-dark'")), Some(false));
    assert_eq!(get_system_dark_mode(true, &some("'unset'\n"), &some("'Adwaita-Dark'")), Some(true));
    assert_eq!(get_system_dark_mode(true, &None, &some("'Yaru'")), Some(false));
    assert_eq!(get_system_dark_mode(true, &None, &None), Some(false));
}
