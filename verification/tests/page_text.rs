use openwiki::html_text::{extract_wechat_content, extract_wechat_content_noencode, strip_html_to_text};
use openwiki::page_reads::{
    assemble_bilingual, combined_read_error, direct_html_read, jina_reply_read, long_enough_read,
    plan_bilingual, read_wechat_html, readme_text, wechat_title_only, xiaohongshu_read,
    BilingualPart,
};
use openwiki::query_terms::build_wiki_query_terms;

#[test]
fn page_text_skips_chrome_and_keeps_blocks() {
    let html = "<html><head><title>x</title></head><body><nav>Menu items</nav><h1>Title here</h1><p>First &amp; para</p><script>var a=1;</script><p>Second para</p><footer>foot</footer><div>a</div></body></html>";
    assert_eq!(strip_html_to_text(html), "Title here\nFirst & para\nSecond para");
}

#[test]
fn page_text_starts_at_the_article() {
    let html = "<div>before</div><article><p>Inside text</p></article>";
    assert_eq!(strip_html_to_text(html), "Inside text");
}

#[test]
fn wechat_classic_body() {
    let html = "<div id=\"js_content\" style=\"x\"><section><p>Hello &amp; welcome</p><p>Line two</p></section><br/>tail</div><div>after</div>";
    assert_eq!(extract_wechat_content(html), "Hello & welcome\nLine two\ntail");
    assert_eq!(extract_wechat_content("<p>no marker</p>"), "");
}

#[test]
fn wechat_encoded_body() {
    let html = "x content_noencode: JsDecode('\\x3cp\\x3eHello \\x26amp; bye\\x3c/p\\x3e\\x0a\\x0a\\x3cp\\x3eNext\\x3c/p\\x3e') y";
    assert_eq!(extract_wechat_content_noencode(html), "Hello & bye\nNext");
    assert_eq!(extract_wechat_content_noencode("nothing"), "");
}

#[test]
fn wechat_reads() {
    let long = "这是一篇足够长的微信文章内容，用来测试读取。";
    let html = format!("var msg_title = 'T';<div id=\"js_content\"><p>{}</p></div>", long);
    let r = read_wechat_html(&html).unwrap();
    assert_eq!(r.content, format!("# T\n\n{}", long));
    assert_eq!(r.title.as_deref(), Some("T"));
    let short = "var msg_title = 'Only';<div id=\"js_content\"><p>hi</p></div>";
    assert!(read_wechat_html(short).is_none());
    let last = wechat_title_only(short).unwrap();
    assert_eq!(last.content, "Only");
    let bare = "<div id=\"js_content\"><p>hi</p></div>";
    assert_eq!(wechat_title_only(bare).err().as_deref(), Some("WeChat content too short (2 chars)"));
}

#[test]
fn other_reads() {
    let html = "<title>Page</title><body><p>Enough text to count as a page read.</p></body>";
    let r = direct_html_read(html).unwrap();
    assert_eq!(r.content, "# Page\n\nEnough text to count as a page read.");
    assert_eq!(direct_html_read("<body><p>tiny</p></body>").err().as_deref(), Some("Direct HTML: content too short (4 chars)"));
    let j = jina_reply_read("Title: x\n\n# Heading\n\nThe body of the page goes here.".to_string()).unwrap();
    assert_eq!(j.title.as_deref(), Some("Heading"));
    assert_eq!(jina_reply_read("  short  ".to_string()).err().as_deref(), Some("Content too short"));
    let x = xiaohongshu_read(r#"{"title":"Note","desc":"line\nnext\tend"}"#).unwrap();
    assert_eq!(x.content, "line\nnext end");
    assert_eq!(x.title.as_deref(), Some("Note"));
    assert_eq!(xiaohongshu_read("{}").err().as_deref(), Some("小红书笔记内容提取失败"));
    assert_eq!(combined_read_error("a", "b"), "Jina: a | Direct: b");
}

#[test]
fn bilingual_layout_and_assembly() {
    let text = "这是中文段落，不需要翻译。\n\n[00:05 → 00:33]\nThis is an English sentence that needs translating\n\n【00:26】 – Genesis of the product idea here\n\nAnother English paragraph that is long enough to translate";
    let parts = plan_bilingual(text);
    assert_eq!(parts.len(), 4);
    assert!(matches!(parts[0], BilingualPart::Keep { .. }));
    match &parts[1] {
        BilingualPart::Timed { timestamp, content, translate } => {
            assert_eq!(timestamp, "[00:05 → 00:33]");
            assert_eq!(content, "This is an English sentence that needs translating");
            assert!(*translate);
        },
        _ => panic!("expected a timed paragraph"),
    }
    match &parts[2] {
        BilingualPart::Chapter { title, translate, .. } => {
            assert_eq!(title, "Genesis of the product idea here");
            assert!(*translate);
        },
        _ => panic!("expected a chapter"),
    }
    assert!(matches!(parts[3], BilingualPart::Regular { .. }));
    let translations = vec![None, Some("甲".to_string()), Some("乙".to_string()), None];
    assert_eq!(
        assemble_bilingual(&parts, &translations),
        "这是中文段落，不需要翻译。\n\n[00:05 → 00:33]\nThis is an English sentence that needs translating\n翻译：甲\n\n【00:26】 – Genesis of the product idea here\n翻译：乙\n\nAnother English paragraph that is long enough to translate"
    );
}

#[test]
fn query_terms_for_a_capture() {
    let terms = build_wiki_query_terms(
        "word1 word2 word3",
        "A summary sentence. ok. Another phrase",
        "rust, verus;rust",
        "",
    );
    assert_eq!(
        terms,
        vec![
            "rust".to_string(),
            "verus".to_string(),
            "A summary sentence".to_string(),
            "Another phrase".to_string(),
            "word1 word2 word3".to_string(),
        ]
    );
    let many = build_wiki_query_terms("", "", "a,b,c,d,e,f,g,h,i,j,k,l", "");
    assert_eq!(many.len(), 10);
    assert_eq!(build_wiki_query_terms("abc", "", "", "").len(), 0);
    assert_eq!(build_wiki_query_terms("  abcdefgh  ", "", "", ""), vec!["abcdefgh".to_string()]);
}

#[test]
fn readme_and_read_length() {
    // GitHub wraps the Base64 README content over several lines.
    assert_eq!(readme_text("SGVsbG8s\nIFdvcmxk\nIQ==\n"), "Hello, World!");
    assert_eq!(readme_text("%%%"), "");
    assert!(long_enough_read("twenty bytes exactly"));
    assert!(!long_enough_read("nineteen bytes only"));
    // Seven three-byte characters are 21 bytes.
    assert!(long_enough_read("一二三四五六七"));
    assert!(!long_enough_read("一二三四五六"));
}
