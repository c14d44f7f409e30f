use openwiki::reader::{
    base64_decode, choose_fetch_route, clean_xiaohongshu_url, extract_html_title,
    extract_json_string_field, extract_markdown_title, extract_og_title, extract_wechat_show_type,
    extract_wechat_title, format_clock, format_with_title, github_result, html_decode,
    needs_translation, parse_github_repo_url, parse_twitter_url, reddit_json_address,
    reddit_result, should_translate, strip_markdown, truncate_content, tweet_result, FetchRoute,
};

fn some(s: &str) -> Option<String> {
    Some(s.to_string())
}

#[test]
fn entities_are_decoded() {
    assert_eq!(
        html_decode("a &amp; b &lt;c&gt; &quot;d&quot; &#39;e&#39;&nbsp;f &#x27;g&#x2F;h&#x3D;"),
        "a & b <c> \"d\" 'e' f 'g/h="
    );
}

#[test]
fn titles_from_pages() {
    assert_eq!(
        extract_og_title(r#"<meta property="og:title" content=" Hello &amp; bye ">"#).as_deref(),
        Some("Hello & bye")
    );
    assert_eq!(extract_html_title("<head><title> T1 </title></head>").as_deref(), Some("T1"));
    assert_eq!(extract_html_title("<title>   </title>"), None);
    assert_eq!(extract_markdown_title("intro\n# Heading\n").as_deref(), Some("Heading"));
    assert_eq!(extract_markdown_title("## Sub\n"), None);
    assert_eq!(format_with_title(&some("T"), "body"), "# T\n\nbody");
    assert_eq!(format_with_title(&None, "body"), "body");
}

#[test]
fn long_content_is_cut() {
    assert_eq!(truncate_content("short".to_string()), "short");
    let long: String = std::iter::repeat('a').take(50_001).collect();
    let cut = truncate_content(long);
    assert!(cut.ends_with("...\n\n[内容已截断]"));
    assert_eq!(cut.chars().count(), 50_000 + "...\n\n[内容已截断]".chars().count());
}

#[test]
fn wechat_helpers() {
    assert_eq!(extract_wechat_title("var msg_title = 'My &amp; Title';").as_deref(), Some("My & Title"));
    assert_eq!(extract_wechat_title("var msg_title = \"Double\";").as_deref(), Some("Double"));
    assert_eq!(extract_wechat_show_type("var item_show_type = \"10\";"), Some(10));
    assert_eq!(extract_wechat_show_type("var item_show_type = 'x';"), None);
    assert_eq!(
        extract_json_string_field(r#"{"title":"A \"q\" b","x":1}"#, "title").as_deref(),
        Some("A \"q\" b")
    );
    assert_eq!(extract_json_string_field(r#"{"title":""}"#, "title"), None);
}

#[test]
fn links_of_platforms() {
    assert_eq!(
        parse_twitter_url("https://x.com/jack/status/20?s=1"),
        Some(("jack".to_string(), "20".to_string()))
    );
    assert_eq!(parse_twitter_url("https://x.com/jack"), None);
    assert_eq!(
        parse_github_repo_url("https://github.com/rust-lang/rust/tree/master"),
        Some(("rust-lang".to_string(), "rust".to_string()))
    );
    assert_eq!(parse_github_repo_url("https://github.com/-x/y"), None);
    assert_eq!(
        reddit_json_address("https://www.reddit.com/r/x/comments/1/t/?utm=1"),
        "https://www.reddit.com/r/x/comments/1/t.json"
    );
    assert_eq!(
        clean_xiaohongshu_url("https://www.xiaohongshu.com/explore/abc123?xsec_token=TOK&xsec_source=pc"),
        "https://www.xiaohongshu.com/explore/abc123?xsec_source=app_share&xsec_token=TOK"
    );
    assert_eq!(clean_xiaohongshu_url("https://xhslink.com/a/b"), "https://xhslink.com/a/b");
}

#[test]
fn each_link_goes_to_its_reader() {
    assert!(matches!(choose_fetch_route("   "), FetchRoute::Empty));
    assert!(matches!(choose_fetch_route("https://mp.weixin.qq.com/s/x"), FetchRoute::WeChat));
    assert!(matches!(choose_fetch_route("https://x.com/a/status/1"), FetchRoute::Twitter));
    assert!(matches!(choose_fetch_route("https://youtu.be/abc"), FetchRoute::YouTube));
    match choose_fetch_route("https://github.com/a/b") {
        FetchRoute::GitHubRepo(o, r) => assert_eq!((o.as_str(), r.as_str()), ("a", "b")),
        _ => panic!("expected a repository"),
    }
    assert!(matches!(choose_fetch_route("https://github.com/a"), FetchRoute::General));
    assert!(matches!(choose_fetch_route("https://www.reddit.com/r/x/comments/1/t/"), FetchRoute::Reddit));
    assert!(matches!(choose_fetch_route("https://www.xiaohongshu.com/explore/1"), FetchRoute::Xiaohongshu));
    assert!(matches!(choose_fetch_route("https://example.com"), FetchRoute::General));
}

#[test]
fn clock_times() {
    assert_eq!(format_clock(3725), "01:02:05");
    assert_eq!(format_clock(65), "01:05");
    assert_eq!(format_clock(0), "00:00");
}

#[test]
fn translation_is_for_mostly_non_chinese_text() {
    let english = "This is an English sentence with many words in it";
    assert!(needs_translation(english));
    assert!(!needs_translation("这是一个中文句子，里面有很多汉字和一些词语，足够长了"));
    assert!(!needs_translation("short"));
    assert!(should_translate("zh-CN", english));
    assert!(!should_translate("en-US", english));
}

#[test]
fn base64_of_readmes() {
    assert_eq!(base64_decode("aGVs\nbG8=").as_deref(), Some("hello"));
    assert_eq!(base64_decode("a*"), None);
}

#[test]
fn markdown_is_reduced_to_text() {
    assert_eq!(
        strip_markdown("Intro ![img](a.png) see [docs](http://x) and `code`, ~~old~~ **bold** _em_<br>done\n\n\n\nEnd"),
        "Intro  see docs and code, old bold emdone\n\nEnd"
    );
}

#[test]
fn platform_reads() {
    let t = tweet_result(None, some("jack"), some("Jack"), "hello world".to_string());
    assert_eq!(t.content, "> @jack (Jack)\n\nhello world");
    assert_eq!(t.title.as_deref(), Some("@jack: hello world…"));
    let a = tweet_result(some("Art"), some("jack"), None, "body".to_string());
    assert_eq!(a.content, "# Art\n\n> @jack ()\n\nbody");
    assert_eq!(a.title.as_deref(), Some("Art"));
    let r = reddit_result(some("T"), some(""), some("rust"), some("bob"), Some(42), some("http://l"));
    assert_eq!(r.content, "# T\n\n> r/rust · u/bob · 42 points\n\nLink: http://l");
    assert_eq!(r.title.as_deref(), Some("T"));
    let g = github_result(some("a/b"), some("desc"), Some(5), None, String::new());
    assert_eq!(g.content, "# a/b\n\ndesc\n\n⭐ 5 stars · Language: Unknown\n");
    assert_eq!(g.title.as_deref(), Some("a/b — desc"));
    let g = github_result(some("a/b"), None, None, some("Rust"), "R".to_string());
    assert_eq!(g.content, "# a/b\n\n\n\n⭐ 0 stars · Language: Rust\n\n---\n\nR");
}
