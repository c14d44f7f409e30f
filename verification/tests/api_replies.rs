use openwiki::api_replies::{read_github_reply, read_reddit_reply, read_tweet_reply};

#[test]
fn a_tweet_reply_reads_its_author_and_text() {
    let reply = r#"{"tweet":{"text":"hello world","author":{"name":"Jack","screen_name":"jack"}}}"#;
    let read = read_tweet_reply(reply).unwrap();
    assert_eq!(read.content, "> @jack (Jack)\n\nhello world");
    assert_eq!(read.title.as_deref(), Some("@jack: hello world…"));
}

#[test]
fn a_tweet_article_lays_out_its_blocks() {
    let reply = r#"{"tweet":{"author":{"screen_name":"jack"},"article":{"title":"Art",
        "content":{"blocks":[{"type":"header-one","text":"Head"},{"text":"plain"},{"type":"unstyled"}]}}}}"#;
    let read = read_tweet_reply(reply).unwrap();
    assert_eq!(read.content, "# Art\n\n> @jack ()\n\n## Head\n\nplain");
    assert_eq!(read.title.as_deref(), Some("Art"));
}

#[test]
fn a_reply_without_a_tweet_is_an_error() {
    assert_eq!(read_tweet_reply(r#"{"code":404}"#).err().as_deref(), Some("fxtwitter: no tweet"));
    assert_eq!(read_tweet_reply("not json").err().as_deref(), Some("fxtwitter: no tweet"));
}

#[test]
fn a_github_reply_reads_the_repository_and_its_readme() {
    let repo = r#"{"full_name":"a/b","description":"desc","stargazers_count":5,"language":null}"#;
    let g = read_github_reply(repo, None);
    assert_eq!(g.content, "# a/b\n\ndesc\n\n⭐ 5 stars · Language: Unknown\n");
    assert_eq!(g.title.as_deref(), Some("a/b — desc"));
    let readme = r#"{"content":"Ug==\n"}"#;
    let g = read_github_reply(r#"{"full_name":"a/b","language":"Rust"}"#, Some(readme));
    assert_eq!(g.content, "# a/b\n\n\n\n⭐ 0 stars · Language: Rust\n\n---\n\nR");
}

#[test]
fn a_reddit_reply_reads_the_first_post() {
    let reply = r#"[{"data":{"children":[{"data":{"title":"T","selftext":"","subreddit":"rust",
        "author":"bob","score":42,"url":"http://l"}}]}},{"data":{}}]"#;
    let r = read_reddit_reply(reply).unwrap();
    assert_eq!(r.content, "# T\n\n> r/rust · u/bob · 42 points\n\nLink: http://l");
    assert_eq!(r.title.as_deref(), Some("T"));
}

#[test]
fn a_reddit_reply_without_a_post_is_an_error() {
    let expected = Some("Reddit: cannot find post data");
    assert_eq!(read_reddit_reply(r#"{"0":{"data":{"children":[{"data":{}}]}}}"#).err().as_deref(), expected);
    assert_eq!(read_reddit_reply(r#"[{"data":{"children":[]}}]"#).err().as_deref(), expected);
}
