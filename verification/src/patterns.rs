//! The calls into the `regex` and `base64` crates. What each returns is named here, as a
//! function of its arguments; the library's logic around the calls is verified against those
//! names.

use vstd::prelude::*;
use crate::text::opt_string;

verus! {

/// The first group of the first match of `pattern` in `text`, by the regex crate; `None`
/// when there is no match, the group did not take part, or the pattern does not compile.
pub uninterp spec fn regex_first_group(pattern: Seq<char>, text: Seq<char>) -> Option<Seq<char>>;

/// `Regex::new(pattern)` and `captures(text)`, group 1. Trusted: the result is a function of
/// the two texts.
#[verifier::external_body]
pub(crate) fn first_group(pattern: &str, text: &str) -> (r: Option<String>)
    ensures
        opt_string(r) == regex_first_group(pattern@, text@),
{
    match regex::Regex::new(pattern) {
        Ok(re) => match re.captures(text) {
            Some(c) => match c.get(1) {
                Some(m) => Some(m.as_str().to_string()),
                None => None,
            },
            None => None,
        },
        Err(_) => None,
    }
}

/// `text` with every match of `pattern` replaced by `replacement` (where `$1` stands for the
/// first group), by the regex crate; `text` itself when the pattern does not compile.
pub uninterp spec fn regex_replaced(
    pattern: Seq<char>,
    text: Seq<char>,
    replacement: Seq<char>,
) -> Seq<char>;

/// `Regex::new(pattern)` and `replace_all(text, replacement)`. Trusted: the result is a
/// function of the three texts.
#[verifier::external_body]
pub(crate) fn replace_matches(pattern: &str, text: &str, replacement: &str) -> (r: String)
    ensures
        r@ == regex_replaced(pattern@, text@, replacement@),
{
    match regex::Regex::new(pattern) {
        Ok(re) => re.replace_all(text, replacement).into_owned(),
        Err(_) => text.to_string(),
    }
}

/// Whether `pattern` matches somewhere in `text`, by the regex crate; false when the pattern
/// does not compile.
pub uninterp spec fn regex_found(pattern: Seq<char>, text: Seq<char>) -> bool;

/// `Regex::new(pattern)` and `is_match(text)`. Trusted: the result is a function of the two
/// texts.
#[verifier::external_body]
pub(crate) fn is_match(pattern: &str, text: &str) -> (r: bool)
    ensures
        r == regex_found(pattern@, text@),
{
    match regex::Regex::new(pattern) {
        Ok(re) => re.is_match(text),
        Err(_) => false,
    }
}

/// The successive matches of `pattern` in `text`, by the regex crate: for each, the byte
/// offsets where the whole match starts and ends and its first group (empty when the group did
/// not take part); none when the pattern does not compile.
pub uninterp spec fn regex_group_spans(pattern: Seq<char>, text: Seq<char>) -> Seq<
    (int, int, Seq<char>),
>;

pub open spec fn span_views(v: Seq<(usize, usize, String)>) -> Seq<(int, int, Seq<char>)> {
    Seq::new(v.len(), |i: int| (v[i].0 as int, v[i].1 as int, v[i].2@))
}

/// `Regex::new(pattern)` and `captures_iter(text)`, each match as its offsets and group 1.
/// Trusted: the result is a function of the two texts.
#[verifier::external_body]
pub(crate) fn group_spans(pattern: &str, text: &str) -> (r: Vec<(usize, usize, String)>)
    ensures
        span_views(r@) == regex_group_spans(pattern@, text@),
{
    match regex::Regex::new(pattern) {
        Ok(re) => re.captures_iter(text).map(
            |c| (c.get_match().start(), c.get_match().end(), c.get(1).map_or(String::new(), |g| g.as_str().to_string())),
        ).collect(),
        Err(_) => Vec::new(),
    }
}

/// The first two groups of each successive match of `pattern` in `text`, by the regex crate
/// (empty when a group did not take part); none when the pattern does not compile.
pub uninterp spec fn regex_group_pairs(pattern: Seq<char>, text: Seq<char>) -> Seq<
    (Seq<char>, Seq<char>),
>;

/// `Regex::new(pattern)` and `captures_iter(text)`, each match as its groups 1 and 2.
/// Trusted: the result is a function of the two texts.
#[verifier::external_body]
pub(crate) fn group_pairs(pattern: &str, text: &str) -> (r: Vec<(String, String)>)
    ensures
        crate::wiki_engine::pair_views(r@) == regex_group_pairs(pattern@, text@),
{
    match regex::Regex::new(pattern) {
        Ok(re) => re.captures_iter(text).map(
            |c| (c.get(1).map_or(String::new(), |g| g.as_str().to_string()), c.get(2).map_or(String::new(), |g| g.as_str().to_string())),
        ).collect(),
        Err(_) => Vec::new(),
    }
}

/// The first three groups of each successive match of `pattern` in `text`, by the regex
/// crate (empty when a group did not take part); none when the pattern does not compile.
pub uninterp spec fn regex_group_triples(pattern: Seq<char>, text: Seq<char>) -> Seq<
    (Seq<char>, Seq<char>, Seq<char>),
>;

pub open spec fn triple_views(v: Seq<(String, String, String)>) -> Seq<
    (Seq<char>, Seq<char>, Seq<char>),
> {
    Seq::new(v.len(), |i: int| (v[i].0@, v[i].1@, v[i].2@))
}

/// `Regex::new(pattern)` and `captures_iter(text)`, each match as its groups 1, 2 and 3.
/// Trusted: the result is a function of the two texts.
#[verifier::external_body]
pub(crate) fn group_triples(pattern: &str, text: &str) -> (r: Vec<(String, String, String)>)
    ensures
        triple_views(r@) == regex_group_triples(pattern@, text@),
{
    match regex::Regex::new(pattern) {
        Ok(re) => re.captures_iter(text).map(
            |c| (c.get(1).map_or(String::new(), |g| g.as_str().to_string()), c.get(2).map_or(String::new(), |g| g.as_str().to_string()), c.get(3).map_or(String::new(), |g| g.as_str().to_string())),
        ).collect(),
        Err(_) => Vec::new(),
    }
}

/// The groups of the first match of `pattern` in `text`, by the regex crate, in order from
/// group 1 (empty when a group did not take part); `None` when nothing matches or the
/// pattern does not compile.
pub uninterp spec fn regex_all_groups(pattern: Seq<char>, text: Seq<char>) -> Option<
    Seq<Seq<char>>,
>;

pub open spec fn opt_views(o: Option<Vec<String>>) -> Option<Seq<Seq<char>>> {
    match o {
        Some(v) => Some(crate::wiki_engine::string_views(v@)),
        None => None,
    }
}

/// `Regex::new(pattern)` and `captures(text)`, the match's groups from the first on.
/// Trusted: the result is a function of the two texts.
#[verifier::external_body]
pub(crate) fn all_groups(pattern: &str, text: &str) -> (r: Option<Vec<String>>)
    ensures
        opt_views(r) == regex_all_groups(pattern@, text@),
{
    match regex::Regex::new(pattern) {
        Ok(re) => re.captures(text).map(
            |c| c.iter().skip(1).map(|g| g.map_or(String::new(), |m| m.as_str().to_string())).collect(),
        ),
        Err(_) => None,
    }
}

/// The digit of six bits `v` in the URL-safe Base64 alphabet: `A`–`Z`, `a`–`z`, `0`–`9`, `-`
/// and `_`.
pub open spec fn url_safe_digit(v: int) -> char {
    if v < 26 {
        ((v + 65) as u32) as char
    } else if v < 52 {
        ((v + 71) as u32) as char
    } else if v < 62 {
        ((v - 4) as u32) as char
    } else if v == 62 {
        '-'
    } else {
        '_'
    }
}

/// Base64 of `b` in the URL-safe alphabet, without padding: each three bytes as four digits of
/// six bits, a last one or two bytes as two or three digits (their bits followed by zeros).
pub open spec fn url_safe_base64_of(b: Seq<u8>) -> Seq<char>
    decreases b.len(),
{
    if b.len() == 0 {
        Seq::empty()
    } else if b.len() == 1 {
        seq![url_safe_digit((b[0] as int) / 4), url_safe_digit(((b[0] as int) % 4) * 16)]
    } else if b.len() == 2 {
        seq![
            url_safe_digit((b[0] as int) / 4),
            url_safe_digit(((b[0] as int) % 4) * 16 + (b[1] as int) / 16),
            url_safe_digit(((b[1] as int) % 16) * 4),
        ]
    } else {
        seq![
            url_safe_digit((b[0] as int) / 4),
            url_safe_digit(((b[0] as int) % 4) * 16 + (b[1] as int) / 16),
            url_safe_digit(((b[1] as int) % 16) * 4 + (b[2] as int) / 64),
            url_safe_digit((b[2] as int) % 64),
        ] + url_safe_base64_of(b.subrange(3, b.len() as int))
    }
}

/// The URL-safe base64 text of the UTF-8 bytes of `text`, without padding.
pub open spec fn url_safe_base64(text: Seq<char>) -> Seq<char> {
    url_safe_base64_of(vstd::utf8::encode_utf8(text))
}

/// `URL_SAFE_NO_PAD.encode(text.as_bytes())` from the base64 crate. Trusted: the crate's
/// encoder writes exactly `url_safe_base64` of the text's UTF-8 bytes (RFC 4648, section 5,
/// without padding).
#[verifier::external_body]
pub(crate) fn encode_url_safe(text: &str) -> (r: String)
    ensures
        r@ == url_safe_base64(text@),
{
    base64::Engine::encode(&base64::engine::general_purpose::URL_SAFE_NO_PAD, text.as_bytes())
}

} // verus!
