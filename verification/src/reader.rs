//! Turning fetched web pages into readable text: HTML entity decoding, title and description
//! extraction, the WeChat, X/Twitter, GitHub, Reddit and Xiaohongshu helpers, and the choice of
//! which reader a link goes to. The fetching itself happens around the library.

use vstd::prelude::*;
use crate::patterns::{regex_replaced, replace_matches};
use crate::text::{
    append, chars_of, concat_chars, ends_with, find, find_chars, find_str, first_index, lines,
    lines_chars, opt_chars, opt_string, or_default, replace_all, replace_str, slice_chars, starts_with,
    starts_with_str, string_from_chars, take_chars, take_prefix, text_or, text_or_empty, trim,
    trim_chars, utf8_len, utf8_len_capped,
};

verus! {

broadcast use vstd::seq::group_seq_axioms;

/// Content longer than this many bytes is cut.
pub const MAX_CONTENT_LENGTH: usize = 50000;

/// Content shorter than this many bytes does not count as a successful read.
pub const MIN_CONTENT_LENGTH: usize = 20;

/// What a reader hands back for a link.
pub struct UrlReadResult {
    pub content: String,
    pub title: Option<String>,
}

// ─── HTML entities ─────────────────────────────────────────────────────────

/// The entity replacements `html_decode` applies, in order.
pub open spec fn html_decoded(s: Seq<char>) -> Seq<char> {
    let s1 = replace_all(s, "&amp;"@, "&"@);
    let s2 = replace_all(s1, "&lt;"@, "<"@);
    let s3 = replace_all(s2, "&gt;"@, ">"@);
    let s4 = replace_all(s3, "&quot;"@, "\""@);
    let s5 = replace_all(s4, "&#39;"@, "'"@);
    let s6 = replace_all(s5, "&nbsp;"@, " "@);
    let s7 = replace_all(s6, "&#x27;"@, "'"@);
    let s8 = replace_all(s7, "&#x2F;"@, "/"@);
    replace_all(s8, "&#x3D;"@, "="@)
}

pub fn html_decode_chars(s: &[char]) -> (r: Vec<char>)
    ensures
        r@ == html_decoded(s@),
{
    let s1 = replace_str(s, "&amp;", "&");
    let s2 = replace_str(&s1, "&lt;", "<");
    let s3 = replace_str(&s2, "&gt;", ">");
    let s4 = replace_str(&s3, "&quot;", "\"");
    let s5 = replace_str(&s4, "&#39;", "'");
    let s6 = replace_str(&s5, "&nbsp;", " ");
    let s7 = replace_str(&s6, "&#x27;", "'");
    let s8 = replace_str(&s7, "&#x2F;", "/");
    replace_str(&s8, "&#x3D;", "=")
}

/// Decodes the common HTML entities (`&amp;` first, so `&amp;lt;` becomes `&lt;`).
pub fn html_decode(s: &str) -> (r: String)
    ensures
        r@ == html_decoded(s@),
{
    let c = chars_of(s);
    string_from_chars(&html_decode_chars(&c))
}

// ─── Titles and descriptions ───────────────────────────────────────────────

/// The `content="…"` value that follows the first occurrence of `key` in `html`, trimmed and
/// decoded; `None` when it is missing or blank.
pub open spec fn meta_content(html: Seq<char>, key: Seq<char>) -> Option<Seq<char>> {
    match find(html, key) {
        None => None,
        Some(start) => {
            let rest = html.skip(start);
            match find(rest, "content=\""@) {
                None => None,
                Some(c) => {
                    let c_rest = rest.skip(c + "content=\""@.len());
                    match find(c_rest, "\""@) {
                        None => None,
                        Some(end) => {
                            let value = trim(c_rest.take(end));
                            if value.len() == 0 {
                                None
                            } else {
                                Some(html_decoded(value))
                            }
                        },
                    }
                },
            }
        },
    }
}

fn meta_content_chars(html: &[char], key: &str) -> (r: Option<Vec<char>>)
    ensures
        opt_chars(r) == meta_content(html@, key@),
{
    let keyc = chars_of(key);
    let start = match find_chars(html, &keyc) {
        Some(i) => i,
        None => return None,
    };
    proof {
        crate::text::lemma_find_from(html@, key@, 0);
    }
    let rest = slice_chars(html, start, html.len());
    let marker = chars_of("content=\"");
    let c = match find_chars(&rest, &marker) {
        Some(i) => i,
        None => return None,
    };
    proof {
        crate::text::lemma_find_from(rest@, marker@, 0);
    }
    let c_rest = slice_chars(&rest, c + marker.len(), rest.len());
    let end = match find_str(&c_rest, "\"") {
        Some(i) => i,
        None => return None,
    };
    proof {
        crate::text::lemma_find_from(c_rest@, "\""@, 0);
    }
    let raw = slice_chars(&c_rest, 0, end);
    let value = trim_chars(&raw);
    if value.len() == 0 {
        None
    } else {
        Some(html_decode_chars(&value))
    }
}

/// The page's `og:title`, trimmed and decoded.
pub open spec fn og_title(html: Seq<char>) -> Option<Seq<char>> {
    meta_content(html, "og:title"@)
}

/// The page's `og:description`, trimmed and decoded.
pub open spec fn og_description(html: Seq<char>) -> Option<Seq<char>> {
    meta_content(html, "og:description"@)
}

pub fn extract_og_title(html: &str) -> (r: Option<String>)
    ensures
        opt_string(r) == og_title(html@),
{
    let h = chars_of(html);
    match meta_content_chars(&h, "og:title") {
        Some(v) => Some(string_from_chars(&v)),
        None => None,
    }
}

pub fn extract_og_description(html: &str) -> (r: Option<String>)
    ensures
        opt_string(r) == og_description(html@),
{
    let h = chars_of(html);
    match meta_content_chars(&h, "og:description") {
        Some(v) => Some(string_from_chars(&v)),
        None => None,
    }
}

/// The text between the first `<title>` and the `</title>` after it, trimmed and decoded.
pub open spec fn title_tag(html: Seq<char>) -> Option<Seq<char>> {
    match find(html, "<title>"@) {
        None => None,
        Some(start) => {
            let rest = html.skip(start + "<title>"@.len());
            match find(rest, "</title>"@) {
                None => None,
                Some(end) => {
                    let t = trim(rest.take(end));
                    if t.len() == 0 {
                        None
                    } else {
                        Some(html_decoded(t))
                    }
                },
            }
        },
    }
}

/// A page title: `og:title` when present, otherwise the `<title>` element.
pub open spec fn html_title(html: Seq<char>) -> Option<Seq<char>> {
    match og_title(html) {
        Some(t) => Some(t),
        None => title_tag(html),
    }
}

/// A page without `og:title` is titled by its first `<title>` element, with the element's
/// text (which holds no tag) trimmed and its HTML entities decoded.
pub proof fn law_title_element_is_decoded(p: Seq<char>, t: Seq<char>, q: Seq<char>)
    requires
        find(p + "<title>"@ + t + "</title>"@ + q, "<title>"@) == Some(p.len() as int),
        forall|i: int| 0 <= i < t.len() ==> t[i] != '<',
        trim(t).len() > 0,
        og_title(p + "<title>"@ + t + "</title>"@ + q) is None,
    ensures
        html_title(p + "<title>"@ + t + "</title>"@ + q) == Some(html_decoded(trim(t))),
{
    reveal_strlit("<title>");
    reveal_strlit("</title>");
    let html = p + "<title>"@ + t + "</title>"@ + q;
    let rest = html.skip(p.len() + "<title>"@.len() as int);
    assert(rest =~= t + "</title>"@ + q);
    crate::text::lemma_find_from(rest, "</title>"@, 0);
    assert(rest.subrange(t.len() as int, t.len() + 8int) =~= "</title>"@);
    assert(crate::text::occurs_at(rest, "</title>"@, t.len() as int));
    match find(rest, "</title>"@) {
        Some(e) => {
            if e < t.len() {
                assert(rest.subrange(e, e + 8)[0] == '<');
                assert(rest[e] == t[e]);
            }
            assert(e == t.len());
            assert(rest.take(e) =~= t);
        },
        None => {},
    }
}

fn title_tag_chars(html: &[char]) -> (r: Option<Vec<char>>)
    ensures
        opt_chars(r) == title_tag(html@),
{
    let hl = html.len();
    let open = chars_of("<title>");
    let start = match find_chars(html, &open) {
        Some(i) => i,
        None => return None,
    };
    proof {
        crate::text::lemma_find_from(html@, open@, 0);
    }
    let rest = slice_chars(html, start + open.len(), html.len());
    let end = match find_str(&rest, "</title>") {
        Some(i) => i,
        None => return None,
    };
    proof {
        crate::text::lemma_find_from(rest@, "</title>"@, 0);
    }
    let t = trim_chars(&slice_chars(&rest, 0, end));
    if t.len() == 0 {
        None
    } else {
        Some(html_decode_chars(&t))
    }
}

pub fn html_title_chars(html: &[char]) -> (r: Option<Vec<char>>)
    ensures
        opt_chars(r) == html_title(html@),
{
    match meta_content_chars(html, "og:title") {
        Some(t) => Some(t),
        None => title_tag_chars(html),
    }
}

/// Title of a page: `og:title`, else `<title>`.
pub fn extract_html_title(html: &str) -> (r: Option<String>)
    ensures
        opt_string(r) == html_title(html@),
{
    let h = chars_of(html);
    match html_title_chars(&h) {
        Some(v) => Some(string_from_chars(&v)),
        None => None,
    }
}

/// Among the first ten lines, the first one that (trimmed) starts with `"# "`, with its
/// leading `#`s and surrounding whitespace removed.
pub open spec fn markdown_heading(md: Seq<char>) -> Option<Seq<char>> {
    let ls = lines(md);
    let n = if ls.len() < 10 {
        ls.len() as int
    } else {
        10
    };
    match heading_line(ls, 0, n) {
        Some(i) => Some(trim(crate::text::trim_start_char(trim(ls[i]), '#'))),
        None => None,
    }
}

/// The first of lines `i..n` that, trimmed, starts with `"# "`.
pub open spec fn heading_line(ls: Seq<Seq<char>>, i: int, n: int) -> Option<int>
    decreases n - i,
{
    if i >= n {
        None
    } else if starts_with(trim(ls[i]), "# "@) {
        Some(i)
    } else {
        heading_line(ls, i + 1, n)
    }
}

pub fn extract_markdown_title(markdown: &str) -> (r: Option<String>)
    ensures
        opt_string(r) == markdown_heading(markdown@),
{
    let md = chars_of(markdown);
    let ls = lines_chars(&md);
    let n: usize = if ls.len() < 10 {
        ls.len()
    } else {
        10
    };
    let mut i: usize = 0;
    while i < n
        invariant
            i <= n <= ls@.len(),
            n == (if ls@.len() < 10 {
                ls@.len() as int
            } else {
                10
            }),
            crate::text::views(ls@) == lines(md@),
            md@ == markdown@,
            heading_line(lines(md@), 0, n as int) == heading_line(lines(md@), i as int, n as int),
        decreases n - i,
    {
        proof {
            assert(crate::text::views(ls@)[i as int] == ls@[i as int]@);
        }
        let t = trim_chars(&ls[i]);
        if starts_with_str(&t, "# ") {
            let stripped = crate::text::trim_start_matches_char(&t, '#');
            let title = trim_chars(&stripped);
            proof {
                assert(t@ == trim(lines(md@)[i as int]));
                assert(heading_line(lines(md@), i as int, n as int) == Some(i as int));
                assert(markdown_heading(md@) == Some(title@));
            }
            return Some(string_from_chars(&title));
        }
        i += 1;
    }
    None
}

/// `"# {title}\n\n{content}"`, or just `content` without a title.
pub open spec fn with_title(title: Option<Seq<char>>, content: Seq<char>) -> Seq<char> {
    match title {
        Some(t) => "# "@ + t + "\n\n"@ + content,
        None => content,
    }
}

pub fn format_with_title(title: &Option<String>, content: &str) -> (r: String)
    ensures
        r@ == with_title(opt_string(*title), content@),
{
    match title {
        Some(t) => {
            let a = chars_of("# ");
            let b = append(a, t.as_str());
            let c = append(b, "\n\n");
            let d = append(c, content);
            string_from_chars(&d)
        },
        None => string_from_chars(&chars_of(content)),
    }
}

/// Content over `MAX_CONTENT_LENGTH` bytes keeps its first `MAX_CONTENT_LENGTH` characters
/// and a note that it was cut.
pub open spec fn truncated(content: Seq<char>) -> Seq<char> {
    if utf8_len(content) > MAX_CONTENT_LENGTH {
        take_chars(content, MAX_CONTENT_LENGTH as int) + "...\n\n[内容已截断]"@
    } else {
        content
    }
}

pub fn truncate_content_chars(content: &[char]) -> (r: Vec<char>)
    ensures
        r@ == truncated(content@),
{
    let n = utf8_len_capped(content, MAX_CONTENT_LENGTH + 1);
    if n > MAX_CONTENT_LENGTH {
        let head = take_prefix(content, MAX_CONTENT_LENGTH);
        append(head, "...\n\n[内容已截断]")
    } else {
        slice_chars(content, 0, content.len())
    }
}

pub fn truncate_content(content: String) -> (r: String)
    ensures
        r@ == truncated(content@),
{
    let c = chars_of(content.as_str());
    string_from_chars(&truncate_content_chars(&c))
}

/// A text takes at least one byte per character.
pub proof fn lemma_utf8_len_at_least_len(s: Seq<char>)
    ensures
        utf8_len(s) >= s.len(),
    decreases s.len(),
{
    if s.len() > 0 {
        lemma_utf8_len_at_least_len(s.drop_last());
    }
}

} // verus!

verus! {

// ─── Delimited values ──────────────────────────────────────────────────────

/// The text between the first `open` and the first `close` after it, trimmed and decoded;
/// `None` when either is missing or the text is blank.
pub open spec fn between(html: Seq<char>, open: Seq<char>, close: Seq<char>) -> Option<Seq<char>> {
    match find(html, open) {
        None => None,
        Some(start) => {
            let rest = html.skip(start + open.len());
            match find(rest, close) {
                None => None,
                Some(end) => {
                    let t = trim(rest.take(end));
                    if t.len() == 0 {
                        None
                    } else {
                        Some(html_decoded(t))
                    }
                },
            }
        },
    }
}

pub fn between_chars(html: &[char], open: &str, close: &str) -> (r: Option<Vec<char>>)
    ensures
        opt_chars(r) == between(html@, open@, close@),
{
    let hl = html.len();
    let o = chars_of(open);
    let start = match find_chars(html, &o) {
        Some(i) => i,
        None => return None,
    };
    let rest = slice_chars(html, start + o.len(), hl);
    let end = match find_str(&rest, close) {
        Some(i) => i,
        None => return None,
    };
    let t = trim_chars(&slice_chars(&rest, 0, end));
    if t.len() == 0 {
        None
    } else {
        Some(html_decode_chars(&t))
    }
}

/// Title of a WeChat article: `msg_title = '…'`, else `msg_title = "…"`, else `og:title`.
pub open spec fn wechat_title(html: Seq<char>) -> Option<Seq<char>> {
    match between(html, "msg_title = '"@, "'"@) {
        Some(t) => Some(t),
        None => match between(html, "msg_title = \""@, "\""@) {
            Some(t) => Some(t),
            None => og_title(html),
        },
    }
}

pub fn extract_wechat_title(html: &str) -> (r: Option<String>)
    ensures
        opt_string(r) == wechat_title(html@),
{
    let h = chars_of(html);
    let found = match between_chars(&h, "msg_title = '", "'") {
        Some(t) => Some(t),
        None => match between_chars(&h, "msg_title = \"", "\"") {
            Some(t) => Some(t),
            None => meta_content_chars(&h, "og:title"),
        },
    };
    match found {
        Some(v) => Some(string_from_chars(&v)),
        None => None,
    }
}

/// Number of ASCII digits that open `s`.
pub open spec fn leading_digits(s: Seq<char>) -> nat
    decreases s.len(),
{
    if s.len() > 0 && crate::text::is_digit(s[0]) {
        1 + leading_digits(s.drop_first())
    } else {
        0
    }
}

proof fn lemma_leading_digits_step(s: Seq<char>, i: int)
    requires
        0 <= i <= s.len(),
        forall|k: int| 0 <= k < i ==> crate::text::is_digit(#[trigger] s[k]),
    ensures
        leading_digits(s) == i + leading_digits(s.skip(i)),
    decreases i,
{
    if i > 0 {
        let t = s.drop_first();
        assert forall|k: int| 0 <= k < i - 1 implies crate::text::is_digit(#[trigger] t[k]) by {
            assert(t[k] == s[k + 1]);
        }
        lemma_leading_digits_step(t, i - 1);
        assert(t.skip(i - 1) =~= s.skip(i));
    } else {
        assert(s.skip(0) =~= s);
    }
}

/// The number written right after `pat`, when it fits a `u32`.
pub open spec fn number_after(html: Seq<char>, pat: Seq<char>) -> Option<int> {
    match find(html, pat) {
        None => None,
        Some(start) => {
            let rest = html.skip(start + pat.len());
            let end = leading_digits(rest);
            if end > 0 {
                crate::text::parse_unsigned_below(rest.take(end as int), u32::MAX as int)
            } else {
                None
            }
        },
    }
}

/// `item_show_type` of a WeChat page (0 = article, 5 = video, 7 = gallery, 8 = image,
/// 10 = channels video), written with double or single quotes.
pub open spec fn wechat_show_type(html: Seq<char>) -> Option<int> {
    match number_after(html, "item_show_type = \""@) {
        Some(n) => Some(n),
        None => number_after(html, "item_show_type = '"@),
    }
}

fn number_after_chars(html: &[char], pat: &str) -> (r: Option<u32>)
    ensures
        r matches Some(n) ==> number_after(html@, pat@) == Some(n as int),
        r is None ==> number_after(html@, pat@) is None,
{
    let hl = html.len();
    let p = chars_of(pat);
    let start = match find_chars(html, &p) {
        Some(i) => i,
        None => return None,
    };
    let rest = slice_chars(html, start + p.len(), hl);
    let mut end: usize = 0;
    while end < rest.len() && '0' <= rest[end] && rest[end] <= '9'
        invariant
            end <= rest@.len(),
            forall|k: int| 0 <= k < end ==> crate::text::is_digit(#[trigger] rest@[k]),
        decreases rest.len() - end,
    {
        end += 1;
    }
    proof {
        lemma_leading_digits_step(rest@, end as int);
        if end < rest@.len() {
            assert(rest@.skip(end as int)[0] == rest@[end as int]);
        }
    }
    if end == 0 {
        return None;
    }
    let digits = slice_chars(&rest, 0, end);
    match crate::text::parse_unsigned_chars(&digits, 4294967295u64) {
        Some(n) => Some(n as u32),
        None => None,
    }
}

pub fn extract_wechat_show_type(html: &str) -> (r: Option<u32>)
    ensures
        r matches Some(n) ==> wechat_show_type(html@) == Some(n as int),
        r is None ==> wechat_show_type(html@) is None,
{
    let h = chars_of(html);
    match number_after_chars(&h, "item_show_type = \"") {
        Some(n) => Some(n),
        None => number_after_chars(&h, "item_show_type = '"),
    }
}

// ─── SSR JSON fields ───────────────────────────────────────────────────────

/// Position of the first `"` in `r` at or after `i` that is not preceded by a backslash
/// (the length of `r` when there is none).
pub open spec fn closing_quote(r: Seq<char>, i: int) -> int
    decreases r.len() - i,
{
    if i >= r.len() {
        r.len() as int
    } else if r[i] == '"' && (i == 0 || r[i - 1] != '\\') {
        i
    } else {
        closing_quote(r, i + 1)
    }
}

/// The value of `"field":"…"` embedded in a page, with `\"` unescaped; `None` when the field
/// is missing, empty or unterminated.
pub open spec fn json_string_field(html: Seq<char>, field: Seq<char>) -> Option<Seq<char>> {
    let pattern = "\""@ + field + "\":\""@;
    match find(html, pattern) {
        None => None,
        Some(start) => {
            let rest = html.skip(start + pattern.len());
            let end = closing_quote(rest, 0);
            if end == 0 || end >= rest.len() {
                None
            } else {
                let value = replace_all(rest.take(end), "\\\""@, "\""@);
                if value.len() == 0 {
                    None
                } else {
                    Some(value)
                }
            }
        },
    }
}

pub fn extract_json_string_field(html: &str, field: &str) -> (r: Option<String>)
    ensures
        opt_string(r) == json_string_field(html@, field@),
{
    let h = chars_of(html);
    let hl = h.len();
    let pattern = append(append(chars_of("\""), field), "\":\"");
    let start = match find_chars(&h, &pattern) {
        Some(i) => i,
        None => return None,
    };
    let rest = slice_chars(&h, start + pattern.len(), hl);
    let mut end: usize = 0;
    while end < rest.len() && !(rest[end] == '"' && (end == 0 || rest[end - 1] != '\\'))
        invariant
            end <= rest@.len(),
            closing_quote(rest@, 0) == closing_quote(rest@, end as int),
        decreases rest.len() - end,
    {
        end += 1;
    }
    if end == 0 || end >= rest.len() {
        return None;
    }
    let value = replace_str(&slice_chars(&rest, 0, end), "\\\"", "\"");
    if value.len() == 0 {
        None
    } else {
        Some(string_from_chars(&value))
    }
}

// ─── X/Twitter and GitHub links ────────────────────────────────────────────

/// The link without surrounding whitespace, trailing slashes or query string, cut at `/`.
pub open spec fn url_path_parts(url: Seq<char>) -> Seq<Seq<char>> {
    let clean = crate::text::split_on(crate::text::trim_end_char(trim(url), '/'), seq!['?'])[0];
    crate::text::split_on(clean, seq!['/'])
}

/// `parts[i]` is `status`, preceded by a non-empty user and followed by a numeric id.
pub open spec fn twitter_status_at(parts: Seq<Seq<char>>, i: int) -> bool {
    &&& parts[i] == "status"@
    &&& i > 0
    &&& i + 1 < parts.len()
    &&& parts[i - 1].len() > 0
    &&& crate::text::all_digits(parts[i + 1])
}

pub open spec fn first_twitter_status(parts: Seq<Seq<char>>, i: int) -> Option<int>
    decreases parts.len() - i,
{
    if i >= parts.len() {
        None
    } else if twitter_status_at(parts, i) {
        Some(i)
    } else {
        first_twitter_status(parts, i + 1)
    }
}

/// `(user, status id)` of an X/Twitter status link.
pub open spec fn twitter_status(url: Seq<char>) -> Option<(Seq<char>, Seq<char>)> {
    let parts = url_path_parts(url);
    match first_twitter_status(parts, 0) {
        Some(i) => Some((parts[i - 1], parts[i + 1])),
        None => None,
    }
}

/// The pieces of a link's path, as `url_path_parts` describes.
pub fn url_path_parts_chars(url: &[char]) -> (r: Vec<Vec<char>>)
    ensures
        crate::text::views(r@) == url_path_parts(url@),
        r@.len() >= 1,
{
    let t = trim_chars(url);
    let t2 = crate::text::trim_end_matches_char(&t, '/');
    let q = vec!['?'];
    proof {
        assert(q@ =~= seq!['?']);
    }
    let pieces = crate::text::split_chars(&t2, &q);
    proof {
        crate::text::lemma_split_on_nonempty(t2@, seq!['?']);
        assert(crate::text::views(pieces@)[0] == pieces@[0]@);
    }
    let slash = vec!['/'];
    proof {
        assert(slash@ =~= seq!['/']);
    }
    let r = crate::text::split_chars(&pieces[0], &slash);
    proof {
        crate::text::lemma_split_on_nonempty(pieces@[0]@, seq!['/']);
    }
    r
}

fn str_pair(a: &Vec<char>, b: &Vec<char>) -> (r: (String, String))
    ensures
        r.0@ == a@,
        r.1@ == b@,
{
    (string_from_chars(a), string_from_chars(b))
}

/// Parses an X/Twitter status link into `(user, status id)`.
pub fn parse_twitter_url(url: &str) -> (r: Option<(String, String)>)
    ensures
        match r {
            Some((u, id)) => twitter_status(url@) == Some((u@, id@)),
            None => twitter_status(url@) is None,
        },
{
    let uc = chars_of(url);
    let parts = url_path_parts_chars(&uc);
    let ghost ps = url_path_parts(url@);
    let mut i: usize = 0;
    while i < parts.len()
        invariant
            i <= parts@.len(),
            crate::text::views(parts@) == ps,
            ps == url_path_parts(url@),
            first_twitter_status(ps, 0) == first_twitter_status(ps, i as int),
        decreases parts.len() - i,
    {
        proof {
            assert(crate::text::views(parts@)[i as int] == parts@[i as int]@);
            if i > 0 {
                assert(crate::text::views(parts@)[i - 1] == parts@[i - 1]@);
            }
            if i + 1 < parts@.len() {
                assert(crate::text::views(parts@)[i + 1] == parts@[i + 1]@);
            }
        }
        if crate::text::eq_str(&parts[i], "status") && i > 0 && i + 1 < parts.len()
            && parts[i - 1].len() > 0 && parts[i + 1].len() > 0 && crate::text::is_all_ascii_digits(
            &parts[i + 1],
        ) {
            return Some(str_pair(&parts[i - 1], &parts[i + 1]));
        }
        i += 1;
    }
    None
}

/// `parts[i]` is `github.com`, followed by an owner and a repository name that are non-empty
/// and not `.`, the owner not starting with `-`.
pub open spec fn github_repo_at(parts: Seq<Seq<char>>, i: int) -> bool {
    &&& parts[i] == "github.com"@
    &&& i + 2 < parts.len()
    &&& parts[i + 1].len() > 0
    &&& parts[i + 2].len() > 0
    &&& parts[i + 1] != "."@
    &&& parts[i + 2] != "."@
    &&& parts[i + 1][0] != '-'
}

pub open spec fn first_github_repo(parts: Seq<Seq<char>>, i: int) -> Option<int>
    decreases parts.len() - i,
{
    if i >= parts.len() {
        None
    } else if github_repo_at(parts, i) {
        Some(i)
    } else {
        first_github_repo(parts, i + 1)
    }
}

/// `(owner, repository)` of a GitHub repository link.
pub open spec fn github_repo(url: Seq<char>) -> Option<(Seq<char>, Seq<char>)> {
    let parts = url_path_parts(url);
    match first_github_repo(parts, 0) {
        Some(i) => Some((parts[i + 1], parts[i + 2])),
        None => None,
    }
}

/// Parses `https://github.com/owner/repo[/...]` into `(owner, repo)`.
pub fn parse_github_repo_url(url: &str) -> (r: Option<(String, String)>)
    ensures
        match r {
            Some((o, n)) => github_repo(url@) == Some((o@, n@)),
            None => github_repo(url@) is None,
        },
{
    let uc = chars_of(url);
    let parts = url_path_parts_chars(&uc);
    let ghost ps = url_path_parts(url@);
    let mut i: usize = 0;
    while i < parts.len()
        invariant
            i <= parts@.len(),
            crate::text::views(parts@) == ps,
            ps == url_path_parts(url@),
            first_github_repo(ps, 0) == first_github_repo(ps, i as int),
        decreases parts.len() - i,
    {
        proof {
            assert(crate::text::views(parts@)[i as int] == parts@[i as int]@);
            if i + 2 < parts@.len() {
                assert(crate::text::views(parts@)[i + 1] == parts@[i + 1]@);
                assert(crate::text::views(parts@)[i + 2] == parts@[i + 2]@);
            }
        }
        if crate::text::eq_str(&parts[i], "github.com") && parts.len() - i > 2 {
            let owner = &parts[i + 1];
            let repo = &parts[i + 2];
            if owner.len() > 0 && repo.len() > 0 && !crate::text::eq_str(owner, ".")
                && !crate::text::eq_str(repo, ".") && owner[0] != '-' {
                return Some(str_pair(owner, repo));
            }
        }
        i += 1;
    }
    None
}

} // verus!

verus! {

// ─── YouTube ───────────────────────────────────────────────────────────────

/// `s.trim_end_matches(p)` for a non-empty pattern: every trailing copy of `p` removed.
pub open spec fn trim_end_str(s: Seq<char>, p: Seq<char>) -> Seq<char>
    decreases s.len(),
{
    if p.len() > 0 && ends_with(s, p) {
        trim_end_str(s.take(s.len() - p.len()), p)
    } else {
        s
    }
}

pub fn trim_end_matches_str(s: &[char], p: &str) -> (r: Vec<char>)
    ensures
        r@ == trim_end_str(s@, p@),
{
    let pc = chars_of(p);
    let mut cur = slice_chars(s, 0, s.len());
    proof {
        assert(cur@ =~= s@);
    }
    if pc.len() == 0 {
        return cur;
    }
    while crate::text::ends_with_chars(&cur, &pc)
        invariant
            pc@ == p@,
            pc@.len() > 0,
            trim_end_str(s@, p@) == trim_end_str(cur@, p@),
        decreases cur@.len(),
    {
        cur = slice_chars(&cur, 0, cur.len() - pc.len());
    }
    cur
}

/// Title of a YouTube page (`og:title`, else `<title>`) without its `" - YouTube"` suffix.
pub open spec fn youtube_title(html: Seq<char>) -> Option<Seq<char>> {
    match html_title(html) {
        Some(t) => Some(trim(trim_end_str(t, " - YouTube"@))),
        None => None,
    }
}

pub fn extract_youtube_title(html: &str) -> (r: Option<String>)
    ensures
        opt_string(r) == youtube_title(html@),
{
    let h = chars_of(html);
    match html_title_chars(&h) {
        Some(t) => {
            let cut = trim_end_matches_str(&t, " - YouTube");
            Some(string_from_chars(&trim_chars(&cut)))
        },
        None => None,
    }
}

/// `HH:MM:SS` (or `MM:SS` under an hour) for a whole number of seconds.
pub open spec fn clock(total: nat) -> Seq<char> {
    let h = total / 3600;
    let m = (total % 3600) / 60;
    let s = total % 60;
    if h > 0 {
        two_digits_at_least(h) + ":"@ + two_digits_at_least(m) + ":"@ + two_digits_at_least(s)
    } else {
        two_digits_at_least(m) + ":"@ + two_digits_at_least(s)
    }
}

/// `format!("{:02}", n)`.
pub open spec fn two_digits_at_least(n: nat) -> Seq<char> {
    if n < 10 {
        seq!['0'] + crate::text::decimal(n)
    } else {
        crate::text::decimal(n)
    }
}

fn two_digits(n: u64) -> (r: Vec<char>)
    ensures
        r@ == two_digits_at_least(n as nat),
{
    let d = crate::text::u64_decimal(n);
    if n < 10 {
        let z = vec!['0'];
        proof {
            assert(z@ =~= seq!['0']);
        }
        concat_chars(&z, &d)
    } else {
        d
    }
}

/// Formats whole seconds as `HH:MM:SS`, or `MM:SS` under an hour.
pub fn format_clock(total: u64) -> (r: String)
    ensures
        r@ == clock(total as nat),
{
    let h = total / 3600;
    let m = (total % 3600) / 60;
    let s = total % 60;
    let out = if h > 0 {
        let a = append(two_digits(h), ":");
        let b = concat_chars(&a, &two_digits(m));
        let c = append(b, ":");
        concat_chars(&c, &two_digits(s))
    } else {
        let a = append(two_digits(m), ":");
        concat_chars(&a, &two_digits(s))
    };
    string_from_chars(&out)
}

// ─── Language detection ────────────────────────────────────────────────────

/// What `char::is_alphanumeric` answers: Unicode `Alphabetic` or `Numeric`.
pub uninterp spec fn unicode_alphanumeric(c: char) -> bool;

/// `char::is_alphanumeric`. Trusted: it reports the Unicode `Alphabetic`/`Numeric`
/// properties; among ASCII characters exactly the letters and digits have them.
#[verifier::external_body]
fn is_alphanumeric(c: char) -> (b: bool)
    ensures
        b == unicode_alphanumeric(c),
        (c as u32) < 0x80 ==> (b <==> ('0' <= c <= '9' || 'a' <= c <= 'z' || 'A' <= c <= 'Z')),
{
    c.is_alphanumeric()
}

/// `char::is_alphanumeric`, for the other modules.
pub(crate) fn is_alphanumeric_pub(c: char) -> (b: bool)
    ensures
        b == unicode_alphanumeric(c),
        (c as u32) < 0x80 ==> (b <==> ('0' <= c <= '9' || 'a' <= c <= 'z' || 'A' <= c <= 'Z')),
{
    is_alphanumeric(c)
}

/// A CJK unified ideograph (basic block or extension A).
pub open spec fn is_cjk(c: char) -> bool {
    let u = c as u32;
    (0x4E00 <= u && u <= 0x9FFF) || (0x3400 <= u && u <= 0x4DBF)
}

pub open spec fn count_alnum(s: Seq<char>) -> nat
    decreases s.len(),
{
    if s.len() == 0 {
        0
    } else {
        count_alnum(s.drop_last()) + if unicode_alphanumeric(s.last()) {
            1nat
        } else {
            0nat
        }
    }
}

pub open spec fn count_cjk(s: Seq<char>) -> nat
    decreases s.len(),
{
    if s.len() == 0 {
        0
    } else {
        count_cjk(s.drop_last()) + if is_cjk(s.last()) {
            1nat
        } else {
            0nat
        }
    }
}

/// The text is mostly not Chinese: it has at least 20 alphanumeric characters, and CJK
/// ideographs make up less than 30% of that count.
pub open spec fn mostly_non_chinese(s: Seq<char>) -> bool {
    count_alnum(s) >= 20 && count_cjk(s) * 10 < count_alnum(s) * 3
}

proof fn lemma_counts_bounded(s: Seq<char>)
    ensures
        count_alnum(s) <= s.len(),
        count_cjk(s) <= s.len(),
    decreases s.len(),
{
    if s.len() > 0 {
        lemma_counts_bounded(s.drop_last());
    }
}

/// Whether a text is predominantly non-Chinese and so worth translating.
pub fn needs_translation(text: &str) -> (r: bool)
    ensures
        r == mostly_non_chinese(text@),
{
    let s = chars_of(text);
    let mut alnum: usize = 0;
    let mut cjk: usize = 0;
    let mut i: usize = 0;
    while i < s.len()
        invariant
            i <= s@.len(),
            alnum == count_alnum(s@.take(i as int)),
            cjk == count_cjk(s@.take(i as int)),
        decreases s.len() - i,
    {
        proof {
            let t = s@.take(i + 1);
            assert(t.drop_last() =~= s@.take(i as int));
            lemma_counts_bounded(s@.take(i as int));
        }
        if is_alphanumeric(s[i]) {
            alnum += 1;
        }
        let u = s[i] as u32;
        if (0x4E00 <= u && u <= 0x9FFF) || (0x3400 <= u && u <= 0x4DBF) {
            cjk += 1;
        }
        i += 1;
    }
    proof {
        assert(s@.take(s@.len() as int) =~= s@);
    }
    if alnum < 20 {
        return false;
    }
    (cjk as u128) * 10 < (alnum as u128) * 3
}

} // verus!

verus! {

// ─── Base64 (GitHub README payloads) ───────────────────────────────────────

/// The 6-bit value of a standard Base64 alphabet byte.
pub open spec fn b64_value(b: u8) -> Option<int> {
    if 65 <= b <= 90 {
        Some(b - 65)
    } else if 97 <= b <= 122 {
        Some(b - 97 + 26)
    } else if 48 <= b <= 57 {
        Some(b - 48 + 52)
    } else if b == 43 {
        Some(62)
    } else if b == 47 {
        Some(63)
    } else {
        None
    }
}

/// Padding and whitespace bytes that the decoder passes over.
pub open spec fn b64_skipped(b: u8) -> bool {
    b == 61 || b == 10 || b == 13 || b == 32
}

pub open spec fn pow2(n: nat) -> nat
    decreases n,
{
    if n == 0 {
        1
    } else {
        2 * pow2((n - 1) as nat)
    }
}

/// Decoder state `(pending bits, number of pending bits, bytes so far)` after reading
/// `bytes`; `None` once a byte outside the alphabet has been met.
pub open spec fn b64_run(bytes: Seq<u8>) -> Option<(nat, nat, Seq<u8>)>
    decreases bytes.len(),
{
    if bytes.len() == 0 {
        Some((0, 0, Seq::empty()))
    } else {
        match b64_run(bytes.drop_last()) {
            None => None,
            Some((buf, bits, out)) => {
                let b = bytes.last();
                if b64_skipped(b) {
                    Some((buf, bits, out))
                } else {
                    match b64_value(b) {
                        None => None,
                        Some(v) => {
                            let nb = (buf * 64 + v) as nat;
                            let nbits = bits + 6;
                            if nbits >= 8 {
                                let r = (nbits - 8) as nat;
                                Some((nb % pow2(r), r, out.push((nb / pow2(r)) as u8)))
                            } else {
                                Some((nb, nbits, out))
                            }
                        },
                    }
                }
            },
        }
    }
}

/// The bytes a Base64 text decodes to (padding, line breaks and spaces ignored; leftover
/// bits dropped); `None` when it holds any other character.
pub open spec fn base64_bytes(s: Seq<char>) -> Option<Seq<u8>> {
    match b64_run(vstd::utf8::encode_utf8(s)) {
        None => None,
        Some((_, _, out)) => Some(out),
    }
}

/// The text Base64 `s` decodes to, when the bytes are valid UTF-8.
pub open spec fn base64_text(s: Seq<char>) -> Option<Seq<char>> {
    match base64_bytes(s) {
        Some(b) => if vstd::utf8::valid_utf8(b) {
            Some(vstd::utf8::decode_utf8(b))
        } else {
            None
        },
        None => None,
    }
}

/// `String::from_utf8(bytes).ok()`. Trusted: std returns the string exactly when the bytes
/// are valid UTF-8, and its characters are the decoded scalars.
#[verifier::external_body]
fn utf8_string(bytes: Vec<u8>) -> (r: Option<String>)
    ensures
        r is Some <==> vstd::utf8::valid_utf8(bytes@),
        r matches Some(s) ==> s@ == vstd::utf8::decode_utf8(bytes@),
{
    String::from_utf8(bytes).ok()
}

fn b64_byte_value(b: u8) -> (r: Option<u32>)
    ensures
        match r {
            Some(v) => b64_value(b) == Some(v as int) && v < 64,
            None => b64_value(b) is None,
        },
{
    if 65 <= b && b <= 90 {
        Some((b - 65) as u32)
    } else if 97 <= b && b <= 122 {
        Some((b - 97 + 26) as u32)
    } else if 48 <= b && b <= 57 {
        Some((b - 48 + 52) as u32)
    } else if b == 43 {
        Some(62)
    } else if b == 47 {
        Some(63)
    } else {
        None
    }
}

fn pow2_small(n: u32) -> (p: u32)
    requires
        n < 8,
    ensures
        p == pow2(n as nat),
{
    proof {
        reveal_with_fuel(pow2, 8);
    }
    if n == 0 {
        1
    } else if n == 1 {
        2
    } else if n == 2 {
        4
    } else if n == 3 {
        8
    } else if n == 4 {
        16
    } else if n == 5 {
        32
    } else if n == 6 {
        64
    } else {
        128
    }
}

/// Decodes standard Base64 (as GitHub sends README files) into UTF-8 text.
pub fn base64_decode(input: &str) -> (r: Option<String>)
    ensures
        opt_string(r) == base64_text(input@),
{
    let bytes = input.as_bytes();
    let mut out: Vec<u8> = Vec::new();
    let mut buf: u32 = 0;
    let mut bits: u32 = 0;
    let mut i: usize = 0;
    let ghost all = vstd::utf8::encode_utf8(input@);
    while i < bytes.len()
        invariant
            bytes@ == all,
            all == vstd::utf8::encode_utf8(input@),
            i <= bytes@.len(),
            bits < 8,
            buf < pow2(bits as nat),
            b64_run(all.take(i as int)) == Some((buf as nat, bits as nat, out@)),
        decreases bytes.len() - i,
    {
        let b = bytes[i];
        proof {
            let t = all.take(i + 1);
            assert(t.drop_last() =~= all.take(i as int));
            assert(t.last() == b);
        }
        if b == 61 || b == 10 || b == 13 || b == 32 {
            i += 1;
            continue;
        }
        let v = match b64_byte_value(b) {
            Some(v) => v,
            None => {
                proof {
                    lemma_b64_run_stays_none(all, i as int + 1);
                }
                return None;
            },
        };
        let p_old = pow2_small(bits);
        proof {
            assert(buf * 64 + v < p_old * 64) by (nonlinear_arith)
                requires
                    buf < p_old,
                    v < 64,
            ;
            assert(p_old <= 128) by {
                reveal_with_fuel(pow2, 8);
            }
        }
        let nb = buf * 64 + v;
        let nbits = bits + 6;
        if nbits >= 8 {
            let r = nbits - 8;
            let p = pow2_small(r);
            proof {
                reveal_with_fuel(pow2, 8);
                assert(p_old * 64 == p * 256);
                assert(nb / p < 256) by (nonlinear_arith)
                    requires
                        nb < p * 256,
                        p > 0,
                ;
                assert(nb % p < p) by (nonlinear_arith)
                    requires
                        p > 0,
                ;
            }
            out.push((nb / p) as u8);
            buf = nb % p;
            bits = r;
        } else {
            proof {
                reveal_with_fuel(pow2, 8);
            }
            buf = nb;
            bits = nbits;
        }
        i += 1;
    }
    proof {
        assert(all.take(all.len() as int) =~= all);
    }
    utf8_string(out)
}

proof fn lemma_b64_run_stays_none(all: Seq<u8>, i: int)
    requires
        0 <= i <= all.len(),
        b64_run(all.take(i)) is None,
    ensures
        b64_run(all) is None,
    decreases all.len() - i,
{
    if i < all.len() {
        let t = all.take(i + 1);
        assert(t.drop_last() =~= all.take(i));
        lemma_b64_run_stays_none(all, i + 1);
    } else {
        assert(all.take(i) =~= all);
    }
}

} // verus!

verus! {

// ─── Choosing a reader ─────────────────────────────────────────────────────

/// Which reader a link goes to first.
pub enum FetchRoute {
    /// Nothing to fetch: the link is blank.
    Empty,
    /// WeChat articles: the page's own HTML (Jina Reader is blocked there).
    WeChat,
    /// X/Twitter: the fxtwitter API.
    Twitter,
    /// YouTube: subtitles and chapters.
    YouTube,
    /// A GitHub repository: the GitHub API for `(owner, repo)`.
    GitHubRepo(String, String),
    /// Reddit: the JSON API, then the general readers if that fails.
    Reddit,
    /// Xiaohongshu: the server-rendered JSON, then the general readers if that fails.
    Xiaohongshu,
    /// Anything else: Jina Reader, then the page's HTML.
    General,
}

/// `FetchRoute` with its texts as character sequences.
pub enum SpecRoute {
    Empty,
    WeChat,
    Twitter,
    YouTube,
    GitHubRepo(Seq<char>, Seq<char>),
    Reddit,
    Xiaohongshu,
    General,
}

impl View for FetchRoute {
    type V = SpecRoute;

    open spec fn view(&self) -> SpecRoute {
        match self {
            FetchRoute::Empty => SpecRoute::Empty,
            FetchRoute::WeChat => SpecRoute::WeChat,
            FetchRoute::Twitter => SpecRoute::Twitter,
            FetchRoute::YouTube => SpecRoute::YouTube,
            FetchRoute::GitHubRepo(o, r) => SpecRoute::GitHubRepo(o@, r@),
            FetchRoute::Reddit => SpecRoute::Reddit,
            FetchRoute::Xiaohongshu => SpecRoute::Xiaohongshu,
            FetchRoute::General => SpecRoute::General,
        }
    }
}

/// The reader for a link, by the first rule that applies to the trimmed link: blank;
/// `mp.weixin.qq.com`; `x.com/` or `twitter.com/`; `youtube.com/` or `youtu.be/`; a GitHub
/// repository link under `github.com/`; `reddit.com/`; `xiaohongshu.com/` or
/// `xhslink.com/`; otherwise the general readers.
pub open spec fn fetch_route(url: Seq<char>) -> SpecRoute {
    let u = trim(url);
    if u.len() == 0 {
        SpecRoute::Empty
    } else if crate::text::contains(u, "mp.weixin.qq.com"@) {
        SpecRoute::WeChat
    } else if crate::text::contains(u, "x.com/"@) || crate::text::contains(u, "twitter.com/"@) {
        SpecRoute::Twitter
    } else if crate::text::contains(u, "youtube.com/"@) || crate::text::contains(
        u,
        "youtu.be/"@,
    ) {
        SpecRoute::YouTube
    } else if crate::text::contains(u, "github.com/"@) && github_repo(u) is Some {
        match github_repo(u) {
            Some((owner, repo)) => SpecRoute::GitHubRepo(owner, repo),
            None => SpecRoute::General,
        }
    } else if crate::text::contains(u, "reddit.com/"@) {
        SpecRoute::Reddit
    } else if crate::text::contains(u, "xiaohongshu.com/"@) || crate::text::contains(
        u,
        "xhslink.com/"@,
    ) {
        SpecRoute::Xiaohongshu
    } else {
        SpecRoute::General
    }
}

/// A text that neither starts nor ends with whitespace occurs in the trimmed link exactly when
/// it occurs in the link.
proof fn lemma_trim_keeps_occurrences(s: Seq<char>, x: Seq<char>)
    requires
        x.len() > 0,
        !crate::text::is_ws(x[0]),
        !crate::text::is_ws(x.last()),
    ensures
        crate::text::contains(trim(s), x) == crate::text::contains(s, x),
{
    let a = crate::text::leading_ws(s) as int;
    crate::text::lemma_leading_ws_bound(s);
    let m = crate::text::trim_start(s);
    crate::text::lemma_trailing_ws_bound(m);
    let b = m.len() - crate::text::trailing_ws(m);
    let t = trim(s);
    assert(t =~= s.subrange(a, a + b));
    crate::text::lemma_find_from(t, x, 0);
    crate::text::lemma_find_from(s, x, 0);
    match crate::text::find_from(t, x, 0) {
        Some(j) => {
            assert(s.subrange(a + j, a + j + x.len()) =~= t.subrange(j, j + x.len()));
            assert(crate::text::occurs_at(s, x, a + j));
        },
        None => {
            match crate::text::find_from(s, x, 0) {
                Some(i) => {
                    assert(s.subrange(i, i + x.len())[0] == x[0]);
                    if i < a {
                        assert(crate::text::is_ws(s[i]));
                    }
                    let e = i + x.len() - 1;
                    assert(s.subrange(i, i + x.len())[x.len() - 1] == x.last());
                    if e >= a + b {
                        assert(m[e - a] == s[e]);
                        assert(crate::text::is_ws(m[e - a]));
                    }
                    assert(t.subrange(i - a, i - a + x.len()) =~= s.subrange(i, i + x.len()));
                    assert(crate::text::occurs_at(t, x, i - a));
                },
                None => {},
            }
        },
    }
}

/// Any non-blank link that names `youtube.com/` goes to the YouTube reader, unless it is a
/// WeChat article or an X/Twitter link, whose rules come first.
pub proof fn law_youtube_links_go_to_the_youtube_reader(url: Seq<char>)
    requires
        trim(url).len() > 0,
        crate::text::contains(url, "youtube.com/"@),
        !crate::text::contains(url, "mp.weixin.qq.com"@),
        !crate::text::contains(url, "x.com/"@),
        !crate::text::contains(url, "twitter.com/"@),
    ensures
        fetch_route(url) == SpecRoute::YouTube,
{
    reveal_strlit("youtube.com/");
    reveal_strlit("mp.weixin.qq.com");
    reveal_strlit("x.com/");
    reveal_strlit("twitter.com/");
    lemma_trim_keeps_occurrences(url, "youtube.com/"@);
    lemma_trim_keeps_occurrences(url, "mp.weixin.qq.com"@);
    lemma_trim_keeps_occurrences(url, "x.com/"@);
    lemma_trim_keeps_occurrences(url, "twitter.com/"@);
}

fn contains_str(hay: &[char], needle: &str) -> (b: bool)
    ensures
        b == crate::text::contains(hay@, needle@),
{
    find_str(hay, needle).is_some()
}

/// Picks the reader for a link.
pub fn choose_fetch_route(url: &str) -> (r: FetchRoute)
    ensures
        r@ == fetch_route(url@),
{
    let u = trim_chars(&chars_of(url));
    if u.len() == 0 {
        return FetchRoute::Empty;
    }
    if contains_str(&u, "mp.weixin.qq.com") {
        return FetchRoute::WeChat;
    }
    if contains_str(&u, "x.com/") || contains_str(&u, "twitter.com/") {
        return FetchRoute::Twitter;
    }
    if contains_str(&u, "youtube.com/") || contains_str(&u, "youtu.be/") {
        return FetchRoute::YouTube;
    }
    if contains_str(&u, "github.com/") {
        let us = string_from_chars(&u);
        match parse_github_repo_url(us.as_str()) {
            Some((o, r)) => return FetchRoute::GitHubRepo(o, r),
            None => {},
        }
    }
    if contains_str(&u, "reddit.com/") {
        return FetchRoute::Reddit;
    }
    if contains_str(&u, "xiaohongshu.com/") || contains_str(&u, "xhslink.com/") {
        return FetchRoute::Xiaohongshu;
    }
    FetchRoute::General
}

/// The Reddit JSON API address for a post link: query string and trailing slashes dropped,
/// `.json` appended.
pub open spec fn reddit_json_url(url: Seq<char>) -> Seq<char> {
    crate::text::trim_end_char(crate::text::split_on(url, seq!['?'])[0], '/') + ".json"@
}

pub fn reddit_json_address(url: &str) -> (r: String)
    ensures
        r@ == reddit_json_url(url@),
{
    let u = chars_of(url);
    let q = vec!['?'];
    proof {
        assert(q@ =~= seq!['?']);
    }
    let pieces = crate::text::split_chars(&u, &q);
    proof {
        crate::text::lemma_split_on_nonempty(u@, seq!['?']);
        assert(crate::text::views(pieces@)[0] == pieces@[0]@);
    }
    let base = crate::text::trim_end_matches_char(&pieces[0], '/');
    string_from_chars(&append(base, ".json"))
}

/// A Xiaohongshu note link reduced to the note path, keeping the `xsec_token` the note
/// needs for access; links without `/explore/` are kept as they are.
pub open spec fn xiaohongshu_clean_url(url: Seq<char>) -> Seq<char> {
    match find(url, "/explore/"@) {
        None => url,
        Some(pos) => {
            let base = url.take(pos + 9);
            let rest = url.skip(pos + 9);
            let note_id = crate::text::split_on(rest, seq!['?'])[0];
            let xsec = match find(url, "xsec_token="@) {
                None => Seq::empty(),
                Some(start) => {
                    let token_part = url.skip(start);
                    let end = match find(token_part, "&"@) {
                        Some(e) => e,
                        None => token_part.len() as int,
                    };
                    "?xsec_source=app_share&"@ + token_part.take(end)
                },
            };
            base + note_id + xsec
        },
    }
}

pub fn clean_xiaohongshu_url(url: &str) -> (r: String)
    ensures
        r@ == xiaohongshu_clean_url(url@),
{
    let u = chars_of(url);
    let ul = u.len();
    let pos = match find_str(&u, "/explore/") {
        Some(p) => p,
        None => return string_from_chars(&u),
    };
    proof {
        reveal_strlit("/explore/");
    }
    let base = slice_chars(&u, 0, pos + 9);
    let rest = slice_chars(&u, pos + 9, ul);
    let q = vec!['?'];
    proof {
        assert(q@ =~= seq!['?']);
    }
    let pieces = crate::text::split_chars(&rest, &q);
    proof {
        crate::text::lemma_split_on_nonempty(rest@, seq!['?']);
        assert(crate::text::views(pieces@)[0] == pieces@[0]@);
    }
    let xsec: Vec<char> = match find_str(&u, "xsec_token=") {
        None => Vec::new(),
        Some(start) => {
            let token_part = slice_chars(&u, start, ul);
            let end = match find_str(&token_part, "&") {
                Some(e) => e,
                None => token_part.len(),
            };
            let head = chars_of("?xsec_source=app_share&");
            concat_chars(&head, &slice_chars(&token_part, 0, end))
        },
    };
    let out = concat_chars(&concat_chars(&base, &pieces[0]), &xsec);
    proof {
        assert(xsec@ == (match find(u@, "xsec_token="@) {
            None => Seq::<char>::empty(),
            Some(start) => {
                let token_part = u@.skip(start);
                let end = match find(token_part, "&"@) {
                    Some(e) => e,
                    None => token_part.len() as int,
                };
                "?xsec_source=app_share&"@ + token_part.take(end)
            },
        }));
    }
    string_from_chars(&out)
}

// ─── Formatting what the platform readers fetched ──────────────────────────

/// The Markdown line an X article block becomes; `None` for empty and `atomic` blocks.
pub open spec fn article_block_line(kind: Seq<char>, text: Seq<char>) -> Option<Seq<char>> {
    if text.len() == 0 {
        None
    } else if kind == "header-one"@ {
        Some("## "@ + text)
    } else if kind == "header-two"@ {
        Some("### "@ + text)
    } else if kind == "header-three"@ {
        Some("#### "@ + text)
    } else if kind == "blockquote"@ {
        Some("> "@ + text)
    } else if kind == "ordered-list-item"@ || kind == "unordered-list-item"@ {
        Some("- "@ + text)
    } else if kind == "atomic"@ {
        None
    } else {
        Some(text)
    }
}

/// The lines of an X article, one per block that has one.
pub open spec fn article_lines(blocks: Seq<(Seq<char>, Seq<char>)>) -> Seq<Seq<char>>
    decreases blocks.len(),
{
    if blocks.len() == 0 {
        Seq::empty()
    } else {
        let init = article_lines(blocks.drop_last());
        match article_block_line(blocks.last().0, blocks.last().1) {
            Some(l) => init.push(l),
            None => init,
        }
    }
}

pub open spec fn block_views(blocks: Seq<(String, String)>) -> Seq<(Seq<char>, Seq<char>)> {
    Seq::new(blocks.len(), |i: int| (blocks[i].0@, blocks[i].1@))
}

/// An X article as Markdown: the blocks' lines separated by blank lines. Each block is
/// `(type, text)`, the type `"unstyled"` when the article gives none.
pub fn format_article_blocks(blocks: &Vec<(String, String)>) -> (r: String)
    ensures
        r@ == crate::text::join(article_lines(block_views(blocks@)), "\n\n"@),
{
    let mut out: Vec<Vec<char>> = Vec::new();
    let mut i: usize = 0;
    while i < blocks.len()
        invariant
            i <= blocks@.len(),
            crate::text::views(out@) == article_lines(block_views(blocks@).take(i as int)),
        decreases blocks.len() - i,
    {
        let kind = chars_of(blocks[i].0.as_str());
        let text = chars_of(blocks[i].1.as_str());
        proof {
            let t = block_views(blocks@).take(i + 1);
            assert(t.drop_last() =~= block_views(blocks@).take(i as int));
            assert(t.last() == (kind@, text@));
        }
        let line: Option<Vec<char>> = if text.len() == 0 {
            None
        } else if crate::text::eq_str(&kind, "header-one") {
            Some(append(chars_of("## "), blocks[i].1.as_str()))
        } else if crate::text::eq_str(&kind, "header-two") {
            Some(append(chars_of("### "), blocks[i].1.as_str()))
        } else if crate::text::eq_str(&kind, "header-three") {
            Some(append(chars_of("#### "), blocks[i].1.as_str()))
        } else if crate::text::eq_str(&kind, "blockquote") {
            Some(append(chars_of("> "), blocks[i].1.as_str()))
        } else if crate::text::eq_str(&kind, "ordered-list-item") || crate::text::eq_str(
            &kind,
            "unordered-list-item",
        ) {
            Some(append(chars_of("- "), blocks[i].1.as_str()))
        } else if crate::text::eq_str(&kind, "atomic") {
            None
        } else {
            Some(text)
        };
        match line {
            Some(l) => {
                out.push(l);
                proof {
                    assert(crate::text::views(out@) =~= article_lines(
                        block_views(blocks@).take(i + 1),
                    ));
                }
            },
            None => {},
        }
        i += 1;
    }
    proof {
        assert(block_views(blocks@).take(blocks@.len() as int) =~= block_views(blocks@));
    }
    let sep = chars_of("\n\n");
    string_from_chars(&crate::text::join_chars(&out, &sep))
}

} // verus!

verus! {

impl View for UrlReadResult {
    type V = (Seq<char>, Option<Seq<char>>);

    open spec fn view(&self) -> (Seq<char>, Option<Seq<char>>) {
        (self.content@, opt_string(self.title))
    }
}

/// What an X/Twitter read yields from the fxtwitter fields (missing author fields read as
/// empty): the body cut to size under an `@handle (name)` quote line, headed by the article
/// title when there is one; the title falls back to `@handle: ` and the first 50 characters.
pub open spec fn tweet_read(
    title: Option<Seq<char>>,
    handle: Option<Seq<char>>,
    name: Option<Seq<char>>,
    body: Seq<char>,
) -> (Seq<char>, Option<Seq<char>>) {
    let h = or_default(handle, Seq::empty());
    let n = or_default(name, Seq::empty());
    let content = truncated(body);
    let quote = "> @"@ + h + " ("@ + n + ")\n\n"@ + content;
    let markdown = match title {
        Some(t) => "# "@ + t + "\n\n"@ + quote,
        None => quote,
    };
    let shown = match title {
        Some(t) => t,
        None => "@"@ + h + ": "@ + take_chars(content, 50) + "…"@,
    };
    (markdown, Some(shown))
}

pub fn tweet_result(
    title: Option<String>,
    handle: Option<String>,
    name: Option<String>,
    body: String,
) -> (r: UrlReadResult)
    ensures
        r@ == tweet_read(opt_string(title), opt_string(handle), opt_string(name), body@),
{
    let h = text_or_empty(&handle);
    let n = text_or_empty(&name);
    let content = truncate_content_chars(&chars_of(body.as_str()));
    let q1 = concat_chars(&chars_of("> @"), &h);
    let q2 = concat_chars(&append(q1, " ("), &n);
    let quote = concat_chars(&append(q2, ")\n\n"), &content);
    match title {
        Some(t) => {
            let md = concat_chars(&append(append(chars_of("# "), t.as_str()), "\n\n"), &quote);
            UrlReadResult { content: string_from_chars(&md), title: Some(t) }
        },
        None => {
            let s1 = append(concat_chars(&chars_of("@"), &h), ": ");
            let s2 = append(concat_chars(&s1, &take_prefix(&content, 50)), "…");
            UrlReadResult {
                content: string_from_chars(&quote),
                title: Some(string_from_chars(&s2)),
            }
        },
    }
}

/// What a Reddit read yields from the post fields (missing ones read as empty, the score as
/// 0): a title heading, an `r/… · u/… · N points` line and the text, or `Link: …` for link
/// posts, cut to size. A blank title gives no title.
pub open spec fn reddit_read(
    title: Option<Seq<char>>,
    selftext: Option<Seq<char>>,
    subreddit: Option<Seq<char>>,
    author: Option<Seq<char>>,
    score: Option<int>,
    linked_url: Option<Seq<char>>,
) -> (Seq<char>, Option<Seq<char>>) {
    let t = or_default(title, Seq::empty());
    let st = or_default(selftext, Seq::empty());
    let body = if st.len() == 0 {
        "Link: "@ + or_default(linked_url, Seq::empty())
    } else {
        st
    };
    let sc = match score {
        Some(v) => v,
        None => 0,
    };
    let md = "# "@ + t + "\n\n> r/"@ + or_default(subreddit, Seq::empty()) + " · u/"@ + or_default(
        author,
        Seq::empty(),
    ) + " · "@ + crate::text::signed_decimal(sc) + " points\n\n"@ + truncated(body);
    (md, if t.len() == 0 {
        None
    } else {
        Some(t)
    })
}

pub fn reddit_result(
    title: Option<String>,
    selftext: Option<String>,
    subreddit: Option<String>,
    author: Option<String>,
    score: Option<i64>,
    linked_url: Option<String>,
) -> (r: UrlReadResult)
    ensures
        r@ == reddit_read(
            opt_string(title),
            opt_string(selftext),
            opt_string(subreddit),
            opt_string(author),
            match score {
                Some(v) => Some(v as int),
                None => None,
            },
            opt_string(linked_url),
        ),
{
    let t = text_or_empty(&title);
    let st = text_or_empty(&selftext);
    let body = if st.len() == 0 {
        concat_chars(&chars_of("Link: "), &text_or_empty(&linked_url))
    } else {
        st
    };
    let sc: i64 = match score {
        Some(v) => v,
        None => 0,
    };
    let a = concat_chars(&chars_of("# "), &t);
    let b = concat_chars(&append(a, "\n\n> r/"), &text_or_empty(&subreddit));
    let c = concat_chars(&append(b, " · u/"), &text_or_empty(&author));
    let d = concat_chars(&append(c, " · "), &crate::text::i64_decimal(sc));
    let md = concat_chars(&append(d, " points\n\n"), &truncate_content_chars(&body));
    let shown = if t.len() == 0 {
        None
    } else {
        Some(string_from_chars(&t))
    };
    UrlReadResult { content: string_from_chars(&md), title: shown }
}

/// What a GitHub repository read yields from the API fields (missing name and description
/// read as empty, stars as 0, language as `Unknown`): a header with name, description, stars
/// and language, then the README (cut to size) when there is one; the title is
/// `name — description`.
pub open spec fn github_read(
    full_name: Option<Seq<char>>,
    description: Option<Seq<char>>,
    stars: Option<nat>,
    language: Option<Seq<char>>,
    readme: Seq<char>,
) -> (Seq<char>, Option<Seq<char>>) {
    let name = or_default(full_name, Seq::empty());
    let desc = or_default(description, Seq::empty());
    let st = match stars {
        Some(v) => v,
        None => 0,
    };
    let header = "# "@ + name + "\n\n"@ + desc + "\n\n⭐ "@ + crate::text::decimal(st)
        + " stars · Language: "@ + or_default(language, "Unknown"@) + "\n"@;
    let content = if readme.len() == 0 {
        header
    } else {
        header + "\n---\n\n"@ + truncated(readme)
    };
    (content, Some(name + " — "@ + desc))
}

pub fn github_result(
    full_name: Option<String>,
    description: Option<String>,
    stars: Option<u64>,
    language: Option<String>,
    readme: String,
) -> (r: UrlReadResult)
    ensures
        r@ == github_read(
            opt_string(full_name),
            opt_string(description),
            match stars {
                Some(v) => Some(v as nat),
                None => None,
            },
            opt_string(language),
            readme@,
        ),
{
    let name = text_or_empty(&full_name);
    let desc = text_or_empty(&description);
    let st: u64 = match stars {
        Some(v) => v,
        None => 0,
    };
    let a = append(concat_chars(&chars_of("# "), &name), "\n\n");
    let b = append(concat_chars(&a, &desc), "\n\n⭐ ");
    let c = append(concat_chars(&b, &crate::text::u64_decimal(st)), " stars · Language: ");
    let header = append(concat_chars(&c, &text_or(&language, "Unknown")), "\n");
    let rd = chars_of(readme.as_str());
    let content = if rd.len() == 0 {
        header
    } else {
        concat_chars(&append(header, "\n---\n\n"), &truncate_content_chars(&rd))
    };
    let title = concat_chars(&append(name, " — "), &desc);
    UrlReadResult { content: string_from_chars(&content), title: Some(string_from_chars(&title)) }
}


// ─── Plain text from fetched Markdown ──────────────────────────────────────

pub const IMAGE_PATTERN: &'static str = r"!\[[^\]]*\]\([^)]*\)";

pub const LINK_PATTERN: &'static str = r"\[([^\]]*)\]\([^)]*\)";

pub const CODE_BLOCK_PATTERN: &'static str = r"(?s)```[^\n]*\n.*?```";

pub const INLINE_CODE_PATTERN: &'static str = r"`([^`]+)`";

pub const STRIKE_PATTERN: &'static str = r"~~([^~]+)~~";

pub const STAR_EMPHASIS_PATTERN: &'static str = r"\*{1,3}([^*]+)\*{1,3}";

pub const UNDERSCORE_EMPHASIS_PATTERN: &'static str = r"_{1,3}([^_]+)_{1,3}";

pub const HTML_TAG_PATTERN: &'static str = r"<[^>]+>";

pub const RULE_PATTERN: &'static str = r"(?m)^[\s]*([-*_]){3,}\s*$";

pub const BLANK_RUN_PATTERN: &'static str = r"\n{3,}";

/// Fetched Markdown as readable text: images, code blocks and HTML tags removed; links, inline
/// code, strike-through and emphasis reduced to their text; rules as a line break; runs of
/// blank lines collapsed; trimmed. Headings, lists and quotes stay.
pub open spec fn markdown_stripped(input: Seq<char>) -> Seq<char> {
    let s1 = regex_replaced(IMAGE_PATTERN@, input, ""@);
    let s2 = regex_replaced(LINK_PATTERN@, s1, "$1"@);
    let s3 = regex_replaced(CODE_BLOCK_PATTERN@, s2, ""@);
    let s4 = regex_replaced(INLINE_CODE_PATTERN@, s3, "$1"@);
    let s5 = regex_replaced(STRIKE_PATTERN@, s4, "$1"@);
    let s6 = regex_replaced(STAR_EMPHASIS_PATTERN@, s5, "$1"@);
    let s7 = regex_replaced(UNDERSCORE_EMPHASIS_PATTERN@, s6, "$1"@);
    let s8 = regex_replaced(HTML_TAG_PATTERN@, s7, ""@);
    let s9 = regex_replaced(RULE_PATTERN@, s8, "\n"@);
    let s10 = regex_replaced(BLANK_RUN_PATTERN@, s9, "\n\n"@);
    trim(s10)
}

pub fn strip_markdown(input: &str) -> (r: String)
    ensures
        r@ == markdown_stripped(input@),
{
    let s1 = replace_matches(IMAGE_PATTERN, input, "");
    let s2 = replace_matches(LINK_PATTERN, s1.as_str(), "$1");
    let s3 = replace_matches(CODE_BLOCK_PATTERN, s2.as_str(), "");
    let s4 = replace_matches(INLINE_CODE_PATTERN, s3.as_str(), "$1");
    let s5 = replace_matches(STRIKE_PATTERN, s4.as_str(), "$1");
    let s6 = replace_matches(STAR_EMPHASIS_PATTERN, s5.as_str(), "$1");
    let s7 = replace_matches(UNDERSCORE_EMPHASIS_PATTERN, s6.as_str(), "$1");
    let s8 = replace_matches(HTML_TAG_PATTERN, s7.as_str(), "");
    let s9 = replace_matches(RULE_PATTERN, s8.as_str(), "\n");
    let s10 = replace_matches(BLANK_RUN_PATTERN, s9.as_str(), "\n\n");
    string_from_chars(&trim_chars(&chars_of(s10.as_str())))
}

/// A read is translated for a Chinese interface when its text is mostly not Chinese.
pub open spec fn wants_translation(locale: Seq<char>, text: Seq<char>) -> bool {
    starts_with(locale, "zh"@) && mostly_non_chinese(text)
}

pub fn should_translate(locale: &str, text: &str) -> (r: bool)
    ensures
        r == wants_translation(locale@, text@),
{
    starts_with_str(&chars_of(locale), "zh") && needs_translation(text)
}

} // verus!
