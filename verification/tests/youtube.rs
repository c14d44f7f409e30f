use openwiki::youtube::{
    caption_block_reason, caption_language_attempts, choose_yt_dlp_binary, clean_srv1_text,
    empty_captions_error, extract_youtube_chapters, extract_youtube_description,
    extract_youtube_id, init_yt_dlp_binary_path, node_candidates, node_runtime_arg,
    parse_vtt_cues, srv1_cues, vtt_timing_fields, youtube_watch_url, youtube_without_captions, yt_dlp_args,
    yt_dlp_candidates, YtDlpBinary,
};

#[test]
fn video_ids_from_links() {
    assert_eq!(extract_youtube_id("https://youtu.be/dQw4w9WgXcQ?t=10").as_deref(), Some("dQw4w9WgXcQ"));
    assert_eq!(
        extract_youtube_id("https://www.youtube.com/watch?v=dQw4w9WgXcQ&list=PL1").as_deref(),
        Some("dQw4w9WgXcQ")
    );
    assert_eq!(
        extract_youtube_id("https://www.youtube.com/shorts/abcdefghijk").as_deref(),
        Some("abcdefghijk")
    );
    assert_eq!(
        extract_youtube_id("https://www.youtube.com/embed/ABCDEFGHIJK?rel=0").as_deref(),
        Some("ABCDEFGHIJK")
    );
    assert_eq!(extract_youtube_id("https://youtu.be/short"), None);
    assert_eq!(extract_youtube_id("https://example.com/"), None);
    assert_eq!(youtube_watch_url("abc"), "https://www.youtube.com/watch?v=abc");
}

#[test]
fn chapters_from_the_description() {
    let html = r#"<script>var x = {"shortDescription":"Intro line\n0:00 Start\n1:30 Middle part\n1:02:03 End","isLive":false};</script>"#;
    assert_eq!(
        extract_youtube_chapters(html),
        vec![(0, "Start".to_string()), (90, "Middle part".to_string()), (3723, "End".to_string())]
    );
    let late = r#"{"shortDescription":"0:15 A\n1:00 B"}"#;
    assert!(extract_youtube_chapters(late).is_empty());
    let single = r#"{"shortDescription":"0:00 Only"}"#;
    assert!(extract_youtube_chapters(single).is_empty());
    assert!(extract_youtube_chapters("<html></html>").is_empty());
}

#[test]
fn description_from_og_tags() {
    let html = r#"<meta property="og:description" content="A &amp; B">"#;
    assert_eq!(extract_youtube_description(html).as_deref(), Some("A & B"));
    let empty = r#"<meta name="og:description" content="">"#;
    assert_eq!(extract_youtube_description(empty), None);
}

#[test]
fn webvtt_cues() {
    let vtt = "WEBVTT\nKind: captions\n\n00:00:01.000 --> 00:00:04.500\nHello <c>world</c>\nsecond line\n\nNOTE this is a note\nstill note\n\n00:00:05.000 --> 00:00:06.000 align:start\n&amp; more\n\n00:00:07.000 --> 00:00:08.000\n<i></i>\n";
    assert_eq!(
        parse_vtt_cues(vtt),
        vec![
            ("00:00:01.000 --> 00:00:04.500".to_string(), "Hello world second line".to_string()),
            ("00:00:05.000 --> 00:00:06.000 align:start".to_string(), "& more".to_string()),
        ]
    );
    assert!(parse_vtt_cues("WEBVTT\n").is_empty());
}

#[test]
fn srv1_caption_text() {
    assert_eq!(clean_srv1_text("Hello&amp;<b>bye</b>\n "), "Hello&bye");
}

#[test]
fn why_there_are_no_captions() {
    assert_eq!(
        caption_block_reason("ERROR: Sign in to confirm you're not a bot").as_deref(),
        Some("YouTube 需要登录验证，无法提取字幕。请稍后再试")
    );
    assert_eq!(
        caption_block_reason("ERROR: No supported JavaScript runtime could be found").as_deref(),
        Some("缺少 JavaScript 运行时，YouTube 字幕提取需要 Node.js。请安装: https://nodejs.org")
    );
    assert_eq!(
        caption_block_reason("HTTP Error 429: Too Many Requests").as_deref(),
        Some("YouTube 请求被限流（429），请稍后再试")
    );
    assert_eq!(caption_block_reason("no subtitles for this video"), None);
}

#[test]
fn reads_without_captions() {
    let r = youtube_without_captions(Some("Talk".to_string()), "");
    assert_eq!(r.content, "Talk\n\n（该视频没有字幕）");
    assert_eq!(r.title.as_deref(), Some("Talk"));
    let r = youtube_without_captions(None, "About it");
    assert_eq!(r.content, "About it");
    assert_eq!(r.title, None);
    assert_eq!(empty_captions_error("vtt"), "YouTube: vtt 字幕已下载但解析未提取到文本");
}

#[test]
fn running_yt_dlp() {
    assert_eq!(
        caption_language_attempts(),
        vec!["en".to_string(), "zh-Hans".to_string(), "zh".to_string(), "zh-Hant".to_string()]
    );
    assert_eq!(
        yt_dlp_candidates("/home/u"),
        vec![
            "/home/u/anaconda3/bin/yt-dlp".to_string(),
            "/home/u/miniconda3/bin/yt-dlp".to_string(),
            "/home/u/.local/bin/yt-dlp".to_string(),
            "/usr/local/bin/yt-dlp".to_string(),
            "/opt/homebrew/bin/yt-dlp".to_string(),
        ]
    );
    assert_eq!(node_candidates("/home/u")[2], "/home/u/.nvm/current/bin/node");
    assert_eq!(node_runtime_arg("/usr/bin/node"), "node:/usr/bin/node");
    let args = yt_dlp_args("en", &Some("node:/n".to_string()), "/tmp/sub", "https://w");
    assert_eq!(
        args,
        vec![
            "--write-auto-sub", "--sub-lang", "en", "--skip-download", "--sub-format", "vtt/srv1",
            "--js-runtimes", "node:/n", "--remote-components", "ejs:github", "-o", "/tmp/sub",
            "https://w",
        ]
        .into_iter()
        .map(String::from)
        .collect::<Vec<_>>()
    );
    assert_eq!(yt_dlp_args("zh", &None, "/o", "u").len(), 11);
    let preferred = vec!["/a".to_string(), "/b".to_string(), "/c".to_string()];
    assert_eq!(choose_yt_dlp_binary(&preferred, &|p: &String| p == "/b" || p == "/c"), "/b");
    assert_eq!(choose_yt_dlp_binary(&preferred, &|_: &String| false), "yt-dlp");
}

#[test]
fn the_bundled_binary_is_registered_once() {
    let mut binary = YtDlpBinary::new();
    assert_eq!(binary.get(), None);
    init_yt_dlp_binary_path(&mut binary, "/app/yt-dlp_macos".to_string());
    init_yt_dlp_binary_path(&mut binary, "/other".to_string());
    assert_eq!(binary.get().as_deref(), Some("/app/yt-dlp_macos"));
}

#[test]
fn srv1_captions_keep_their_times_and_cleaned_text() {
    let file = [
        r#"<transcript><text start="0.5" dur="1.25">Hello &amp; <b>welcome</b></text>"#,
        r#"<text start="2" dur="0.5">   </text>"#,
        r#"<text start="3.1" dur="2">it&#39;s &lt;fine&gt;</text></transcript>"#,
    ]
    .join("");
    let cues = srv1_cues(&file);
    assert_eq!(
        cues,
        vec![
            ("0.5".to_string(), "1.25".to_string(), "Hello & welcome".to_string()),
            ("3.1".to_string(), "2".to_string(), "it's".to_string()),
        ]
    );
    assert!(srv1_cues("no captions here").is_empty());
}

#[test]
fn vtt_timing_lines_give_their_eight_numbers() {
    let fields = vtt_timing_fields("00:01:02.345 --> 01:02:03.456 align:start").unwrap();
    assert_eq!(fields, vec!["00", "01", "02", "345", "01", "02", "03", "456"]);
    assert_eq!(vtt_timing_fields("not a timing line"), None);
}
