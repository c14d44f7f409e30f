//! The JSON replies of the fxtwitter, GitHub and Reddit APIs: which fields a read takes from
//! each, and what it makes of them. The replies are read with `serde_json`, field by field,
//! through JSON pointers.

use vstd::prelude::*;
use crate::page_reads::{readme_text, readme_text_of};
use crate::reader::{
    article_lines, block_views, format_article_blocks, github_read, github_result, reddit_read,
    reddit_result, tweet_read, tweet_result, UrlReadResult,
};
use crate::text::{append, chars_of, decimal, or_default, string_from_chars, u64_decimal};

verus! {

broadcast use vstd::seq::group_seq_axioms;

// ─── Trusted: fields of a JSON text ────────────────────────────────────────

/// The string at `pointer` in the JSON document `text`, by serde_json; `None` when the text
/// does not parse, nothing is there, or what is there is not a string.
pub uninterp spec fn json_text_at(text: Seq<char>, pointer: Seq<char>) -> Option<Seq<char>>;

/// `serde_json::from_str::<Value>(text)`, then `pointer(pointer)` and `as_str`. Trusted: the
/// result is a function of the two texts.
#[verifier::external_body]
fn text_at(text: &str, pointer: &str) -> (r: Option<String>)
    ensures
        crate::text::opt_string(r) == json_text_at(text@, pointer@),
{
    match serde_json::from_str::<serde_json::Value>(text) {
        Ok(v) => v.pointer(pointer).and_then(|x| x.as_str()).map(|s| s.to_string()),
        Err(_) => None,
    }
}

/// The length of the array at `pointer` in the JSON document `text`, by serde_json; `None`
/// when the text does not parse, nothing is there, or what is there is not an array.
pub uninterp spec fn json_array_len_at(text: Seq<char>, pointer: Seq<char>) -> Option<nat>;

/// `serde_json::from_str::<Value>(text)`, then `pointer(pointer)`, `as_array` and `len`.
/// Trusted: the result is a function of the two texts.
#[verifier::external_body]
fn array_len_at(text: &str, pointer: &str) -> (r: Option<usize>)
    ensures
        match r {
            Some(n) => json_array_len_at(text@, pointer@) == Some(n as nat),
            None => json_array_len_at(text@, pointer@) is None,
        },
{
    match serde_json::from_str::<serde_json::Value>(text) {
        Ok(v) => v.pointer(pointer).and_then(|x| x.as_array()).map(|a| a.len()),
        Err(_) => None,
    }
}

/// Whether the JSON document `text` holds a value (of any kind, `null` too) at `pointer`, by
/// serde_json; false when the text does not parse.
pub uninterp spec fn json_value_at(text: Seq<char>, pointer: Seq<char>) -> bool;

/// `serde_json::from_str::<Value>(text)`, then `pointer(pointer).is_some()`. Trusted: the
/// result is a function of the two texts.
#[verifier::external_body]
fn has_value_at(text: &str, pointer: &str) -> (r: bool)
    ensures
        r == json_value_at(text@, pointer@),
{
    match serde_json::from_str::<serde_json::Value>(text) {
        Ok(v) => v.pointer(pointer).is_some(),
        Err(_) => false,
    }
}

/// The unsigned integer at `pointer` in the JSON document `text`, by serde_json; `None` when
/// the text does not parse, nothing is there, or it is not a number that fits a `u64`.
pub uninterp spec fn json_u64_at(text: Seq<char>, pointer: Seq<char>) -> Option<u64>;

/// `serde_json::from_str::<Value>(text)`, then `pointer(pointer)` and `as_u64`. Trusted: the
/// result is a function of the two texts.
#[verifier::external_body]
fn u64_at(text: &str, pointer: &str) -> (r: Option<u64>)
    ensures
        r == json_u64_at(text@, pointer@),
{
    match serde_json::from_str::<serde_json::Value>(text) {
        Ok(v) => v.pointer(pointer).and_then(|x| x.as_u64()),
        Err(_) => None,
    }
}

/// The signed integer at `pointer` in the JSON document `text`, by serde_json; `None` when
/// the text does not parse, nothing is there, or it is not a number that fits an `i64`.
pub uninterp spec fn json_i64_at(text: Seq<char>, pointer: Seq<char>) -> Option<i64>;

/// `serde_json::from_str::<Value>(text)`, then `pointer(pointer)` and `as_i64`. Trusted: the
/// result is a function of the two texts.
#[verifier::external_body]
fn i64_at(text: &str, pointer: &str) -> (r: Option<i64>)
    ensures
        r == json_i64_at(text@, pointer@),
{
    match serde_json::from_str::<serde_json::Value>(text) {
        Ok(v) => v.pointer(pointer).and_then(|x| x.as_i64()),
        Err(_) => None,
    }
}

// ─── X/Twitter (fxtwitter) ─────────────────────────────────────────────────

/// Where field `field` of the `i`-th block of a tweet's article lies.
pub open spec fn block_pointer(i: nat, field: Seq<char>) -> Seq<char> {
    "/tweet/article/content/blocks/"@ + decimal(i) + "/"@ + field
}

/// The blocks of a tweet's article as `(type, text)`: a block without a type is `unstyled`,
/// one without text is empty; none when there is no block array.
pub open spec fn tweet_blocks(text: Seq<char>) -> Seq<(Seq<char>, Seq<char>)> {
    match json_array_len_at(text, "/tweet/article/content/blocks"@) {
        Some(n) => Seq::new(
            n,
            |i: int|
                (
                    or_default(json_text_at(text, block_pointer(i as nat, "type"@)), "unstyled"@),
                    or_default(json_text_at(text, block_pointer(i as nat, "text"@)), Seq::empty()),
                ),
        ),
        None => Seq::empty(),
    }
}

/// What an fxtwitter reply reads as: an error without a `tweet`; otherwise the tweet's
/// author, and either its article (title, and the blocks laid out) or its text.
pub open spec fn tweet_reply(text: Seq<char>) -> Result<(Seq<char>, Option<Seq<char>>), Seq<char>> {
    if !json_value_at(text, "/tweet"@) {
        Err("fxtwitter: no tweet"@)
    } else {
        let name = json_text_at(text, "/tweet/author/name"@);
        let handle = json_text_at(text, "/tweet/author/screen_name"@);
        if json_value_at(text, "/tweet/article"@) {
            Ok(
                tweet_read(
                    json_text_at(text, "/tweet/article/title"@),
                    handle,
                    name,
                    crate::text::join(article_lines(tweet_blocks(text)), "\n\n"@),
                ),
            )
        } else {
            Ok(
                tweet_read(
                    None,
                    handle,
                    name,
                    or_default(json_text_at(text, "/tweet/text"@), Seq::empty()),
                ),
            )
        }
    }
}

fn block_field_pointer(i: usize, field: &str) -> (r: String)
    ensures
        r@ == block_pointer(i as nat, field@),
{
    let a = chars_of("/tweet/article/content/blocks/");
    let b = crate::text::concat_chars(&a, &u64_decimal(i as u64));
    let c = append(b, "/");
    string_from_chars(&append(c, field))
}

fn article_blocks(text: &str) -> (r: Vec<(String, String)>)
    ensures
        block_views(r@) == tweet_blocks(text@),
{
    let mut out: Vec<(String, String)> = Vec::new();
    match array_len_at(text, "/tweet/article/content/blocks") {
        Some(n) => {
            let mut i: usize = 0;
            while i < n
                invariant
                    i <= n,
                    json_array_len_at(text@, "/tweet/article/content/blocks"@) == Some(n as nat),
                    block_views(out@) == tweet_blocks(text@).take(i as int),
                decreases n - i,
            {
                let kp = block_field_pointer(i, "type");
                let kind = match text_at(text, kp.as_str()) {
                    Some(k) => k,
                    None => "unstyled".to_owned(),
                };
                let tp = block_field_pointer(i, "text");
                let body = match text_at(text, tp.as_str()) {
                    Some(t) => t,
                    None => String::new(),
                };
                let ghost before = out@;
                out.push((kind, body));
                proof {
                    let want = tweet_blocks(text@);
                    assert(kind@ == want[i as int].0);
                    assert(body@ == want[i as int].1);
                    assert(block_views(out@) =~= block_views(before).push((kind@, body@)));
                    assert(want.take(i + 1) =~= want.take(i as int).push(want[i as int]));
                    assert(block_views(out@) =~= want.take(i + 1));
                }
                i += 1;
            }
            proof {
                assert(tweet_blocks(text@).take(n as int) =~= tweet_blocks(text@));
            }
        },
        None => {
            proof {
                assert(block_views(out@) =~= tweet_blocks(text@));
            }
        },
    }
    out
}

/// An X/Twitter read from the fxtwitter reply `text` (see `tweet_reply`).
pub fn read_tweet_reply(text: &str) -> (r: Result<UrlReadResult, String>)
    ensures
        match r {
            Ok(x) => tweet_reply(text@) == Ok::<(Seq<char>, Option<Seq<char>>), Seq<char>>(x@),
            Err(e) => tweet_reply(text@) == Err::<(Seq<char>, Option<Seq<char>>), Seq<char>>(e@),
        },
{
    if !has_value_at(text, "/tweet") {
        return Err("fxtwitter: no tweet".to_owned());
    }
    let name = text_at(text, "/tweet/author/name");
    let handle = text_at(text, "/tweet/author/screen_name");
    if has_value_at(text, "/tweet/article") {
        let blocks = article_blocks(text);
        let body = format_article_blocks(&blocks);
        Ok(tweet_result(text_at(text, "/tweet/article/title"), handle, name, body))
    } else {
        let body = match text_at(text, "/tweet/text") {
            Some(t) => t,
            None => String::new(),
        };
        proof {
            reveal_strlit("");
        }
        Ok(tweet_result(None, handle, name, body))
    }
}

// ─── GitHub ────────────────────────────────────────────────────────────────

/// What a repository read yields from the GitHub replies: the repository's fields, and the
/// README decoded from the readme reply's `content` (empty when there is no readme reply or
/// no such field).
pub open spec fn github_reply(repo: Seq<char>, readme: Option<Seq<char>>) -> (Seq<char>, Option<Seq<char>>) {
    let readme_text = match readme {
        Some(t) => match json_text_at(t, "/content"@) {
            Some(c) => readme_text_of(c),
            None => Seq::empty(),
        },
        None => Seq::empty(),
    };
    github_read(
        json_text_at(repo, "/full_name"@),
        json_text_at(repo, "/description"@),
        match json_u64_at(repo, "/stargazers_count"@) {
            Some(v) => Some(v as nat),
            None => None,
        },
        json_text_at(repo, "/language"@),
        readme_text,
    )
}

/// A GitHub repository read from the repository reply `repo` and, when it came, the readme
/// reply `readme` (see `github_reply`).
pub fn read_github_reply(repo: &str, readme: Option<&str>) -> (r: UrlReadResult)
    ensures
        r@ == github_reply(
            repo@,
            match readme {
                Some(t) => Some(t@),
                None => None,
            },
        ),
{
    let readme_content = match readme {
        Some(t) => match text_at(t, "/content") {
            Some(c) => readme_text(c.as_str()),
            None => String::new(),
        },
        None => String::new(),
    };
    proof {
        assert(readme_content@ =~= match readme {
            Some(t) => match json_text_at(t@, "/content"@) {
                Some(c) => readme_text_of(c),
                None => Seq::<char>::empty(),
            },
            None => Seq::<char>::empty(),
        });
    }
    github_result(
        text_at(repo, "/full_name"),
        text_at(repo, "/description"),
        u64_at(repo, "/stargazers_count"),
        text_at(repo, "/language"),
        readme_content,
    )
}

// ─── Reddit ────────────────────────────────────────────────────────────────

/// Where field `field` of the post lies in a Reddit listing reply.
pub open spec fn post_pointer(field: Seq<char>) -> Seq<char> {
    "/0/data/children/0/data/"@ + field
}

/// What a Reddit read yields from the listing reply: an error unless the reply is an array
/// whose first listing holds a post; otherwise the post's fields.
pub open spec fn reddit_reply(text: Seq<char>) -> Result<(Seq<char>, Option<Seq<char>>), Seq<char>> {
    if json_array_len_at(text, Seq::empty()) is None || !json_value_at(
        text,
        "/0/data/children/0/data"@,
    ) {
        Err("Reddit: cannot find post data"@)
    } else {
        Ok(
            reddit_read(
                json_text_at(text, post_pointer("title"@)),
                json_text_at(text, post_pointer("selftext"@)),
                json_text_at(text, post_pointer("subreddit"@)),
                json_text_at(text, post_pointer("author"@)),
                match json_i64_at(text, post_pointer("score"@)) {
                    Some(v) => Some(v as int),
                    None => None,
                },
                json_text_at(text, post_pointer("url"@)),
            ),
        )
    }
}

fn post_field_pointer(field: &str) -> (r: String)
    ensures
        r@ == post_pointer(field@),
{
    string_from_chars(&append(chars_of("/0/data/children/0/data/"), field))
}

/// A Reddit post read from the listing reply `text` (see `reddit_reply`).
pub fn read_reddit_reply(text: &str) -> (r: Result<UrlReadResult, String>)
    ensures
        match r {
            Ok(x) => reddit_reply(text@) == Ok::<(Seq<char>, Option<Seq<char>>), Seq<char>>(x@),
            Err(e) => reddit_reply(text@) == Err::<(Seq<char>, Option<Seq<char>>), Seq<char>>(e@),
        },
{
    proof {
        reveal_strlit("");
        assert(""@ =~= Seq::<char>::empty());
    }
    if array_len_at(text, "").is_none() || !has_value_at(text, "/0/data/children/0/data") {
        return Err("Reddit: cannot find post data".to_owned());
    }
    Ok(
        reddit_result(
            text_at(text, post_field_pointer("title").as_str()),
            text_at(text, post_field_pointer("selftext").as_str()),
            text_at(text, post_field_pointer("subreddit").as_str()),
            text_at(text, post_field_pointer("author").as_str()),
            i64_at(text, post_field_pointer("score").as_str()),
            text_at(text, post_field_pointer("url").as_str()),
        ),
    )
}

} // verus!
