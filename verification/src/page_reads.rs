//! What a read yields from a fetched page: a WeChat article in one of its shapes, a page whose
//! HTML is stripped to text, a Jina Reader reply, a Xiaohongshu note; and the bilingual layout
//! of a translated read. Fetching and translating happen around the library.

use vstd::prelude::*;
use crate::html_text::{
    extract_wechat_content, extract_wechat_content_noencode, page_text, strip_html_to_text,
    wechat_article_text, wechat_noencode_text,
};
use crate::reader::{
    extract_html_title, extract_json_string_field, extract_markdown_title, extract_og_description,
    extract_wechat_title, format_with_title, html_title, json_string_field, markdown_heading,
    mostly_non_chinese, needs_translation, og_description, truncate_content, truncated,
    wechat_title, with_title, UrlReadResult, MIN_CONTENT_LENGTH,
};
use crate::text::{
    append, chars_of, concat_chars, contains, find, opt_string, replace_all, replace_str,
    starts_with, string_from_chars, trim, trim_chars, u64_decimal, decimal, utf8_len,
    utf8_len_capped,
};

verus! {

broadcast use vstd::seq::group_seq_axioms;

/// A text of at least `MIN_CONTENT_LENGTH` bytes counts as read.
pub open spec fn enough(s: Seq<char>) -> bool {
    utf8_len(s) >= MIN_CONTENT_LENGTH
}

fn is_enough(s: &[char]) -> (b: bool)
    ensures
        b == enough(s@),
{
    utf8_len_capped(s, MIN_CONTENT_LENGTH) >= MIN_CONTENT_LENGTH
}

/// A read from its content and title.
pub open spec fn read_of(content: Seq<char>, title: Option<Seq<char>>) -> (Seq<char>, Option<Seq<char>>) {
    (content, title)
}

/// Whether a read's text is long enough to count: at least `MIN_CONTENT_LENGTH` bytes.
pub fn long_enough_read(content: &str) -> (b: bool)
    ensures
        b == enough(content@),
{
    is_enough(&chars_of(content))
}

/// The README text from the GitHub API's Base64 `content` (which wraps its lines): the
/// newlines dropped and the rest decoded, empty when it does not decode to UTF-8 text.
pub open spec fn readme_text_of(content: Seq<char>) -> Seq<char> {
    match crate::reader::base64_text(replace_all(content, "\n"@, ""@)) {
        Some(t) => t,
        None => Seq::empty(),
    }
}

pub fn readme_text(content: &str) -> (r: String)
    ensures
        r@ == readme_text_of(content@),
{
    let clean = string_from_chars(&replace_str(&chars_of(content), "\n", ""));
    match crate::reader::base64_decode(clean.as_str()) {
        Some(t) => t,
        None => String::new(),
    }
}

// ─── WeChat ────────────────────────────────────────────────────────────────

/// A short article's `og:description` with its escapes undone.
pub open spec fn og_fallback_text(d: Seq<char>) -> Seq<char> {
    replace_all(replace_all(d, "\\x0a"@, "\n"@), "\\x26amp;amp;"@, "&"@)
}

/// A WeChat page read from its HTML: the classic article body, else the newer encoded body,
/// else a long enough `og:description`; each cut to size under the title. `None` when none
/// is long enough.
pub open spec fn wechat_html_read(html: Seq<char>) -> Option<(Seq<char>, Option<Seq<char>>)> {
    let title = wechat_title(html);
    let a = wechat_article_text(html);
    let b = wechat_noencode_text(html);
    if enough(a) {
        Some((with_title(title, truncated(a)), title))
    } else if enough(b) {
        Some((with_title(title, truncated(b)), title))
    } else {
        match og_description(html) {
            Some(d) => if enough(d) {
                Some((with_title(title, truncated(og_fallback_text(d))), title))
            } else {
                None
            },
            None => None,
        }
    }
}

fn titled_read(title: &Option<String>, content: String) -> (r: UrlReadResult)
    ensures
        r@ == (with_title(opt_string(*title), truncated(content@)), opt_string(*title)),
{
    let body = truncate_content(content);
    let c = format_with_title(title, body.as_str());
    let t = match title {
        Some(x) => Some(x.clone()),
        None => None,
    };
    UrlReadResult { content: c, title: t }
}

pub fn read_wechat_html(html: &str) -> (r: Option<UrlReadResult>)
    ensures
        match r {
            Some(x) => wechat_html_read(html@) == Some(x@),
            None => wechat_html_read(html@) is None,
        },
{
    let title = extract_wechat_title(html);
    let a = extract_wechat_content(html);
    if is_enough(&chars_of(a.as_str())) {
        return Some(titled_read(&title, a));
    }
    let b = extract_wechat_content_noencode(html);
    if is_enough(&chars_of(b.as_str())) {
        return Some(titled_read(&title, b));
    }
    match extract_og_description(html) {
        Some(d) => {
            if is_enough(&chars_of(d.as_str())) {
                let d1 = replace_str(&chars_of(d.as_str()), "\\x0a", "\n");
                let d2 = replace_str(&d1, "\\x26amp;amp;", "&");
                Some(titled_read(&title, string_from_chars(&d2)))
            } else {
                None
            }
        },
        None => None,
    }
}

/// When nothing else read: the title alone, or an error giving the article body's size.
pub open spec fn wechat_last_resort(html: Seq<char>) -> Result<(Seq<char>, Option<Seq<char>>), Seq<char>> {
    match wechat_title(html) {
        Some(t) => if t.len() > 0 {
            Ok((t, Some(t)))
        } else {
            Err("WeChat content too short ("@ + decimal(utf8_len(wechat_article_text(html))) + " chars)"@)
        },
        None => Err("WeChat content too short ("@ + decimal(utf8_len(wechat_article_text(html))) + " chars)"@),
    }
}

fn too_short_error(prefix: &str, text: &[char]) -> (r: String)
    requires
        !enough(text@),
    ensures
        r@ == prefix@ + decimal(utf8_len(text@)) + " chars)"@,
{
    let n = utf8_len_capped(text, MIN_CONTENT_LENGTH);
    let a = concat_chars(&chars_of(prefix), &u64_decimal(n as u64));
    string_from_chars(&append(a, " chars)"))
}

/// The last resort of a WeChat read (see `wechat_last_resort`), for a page whose HTML read
/// nothing long enough.
pub fn wechat_title_only(html: &str) -> (r: Result<UrlReadResult, String>)
    requires
        wechat_html_read(html@) is None,
    ensures
        match r {
            Ok(x) => wechat_last_resort(html@) == Ok::<(Seq<char>, Option<Seq<char>>), Seq<char>>(x@),
            Err(e) => wechat_last_resort(html@) == Err::<(Seq<char>, Option<Seq<char>>), Seq<char>>(e@),
        },
{
    let title = extract_wechat_title(html);
    let a = chars_of(extract_wechat_content(html).as_str());
    match title {
        Some(t) => {
            if chars_of(t.as_str()).len() > 0 {
                let c = t.clone();
                return Ok(UrlReadResult { content: c, title: Some(t) });
            }
        },
        None => {},
    }
    Err(too_short_error("WeChat content too short (", &a))
}

// ─── Other pages ───────────────────────────────────────────────────────────

/// A page read by stripping its HTML: its text cut to size under its title, or an error
/// giving the text's size when it is too short.
pub open spec fn direct_read(html: Seq<char>) -> Result<(Seq<char>, Option<Seq<char>>), Seq<char>> {
    let title = html_title(html);
    let content = page_text(html);
    if !enough(content) {
        Err("Direct HTML: content too short ("@ + decimal(utf8_len(content)) + " chars)"@)
    } else {
        Ok((with_title(title, truncated(content)), title))
    }
}

pub fn direct_html_read(html: &str) -> (r: Result<UrlReadResult, String>)
    ensures
        match r {
            Ok(x) => direct_read(html@) == Ok::<(Seq<char>, Option<Seq<char>>), Seq<char>>(x@),
            Err(e) => direct_read(html@) == Err::<(Seq<char>, Option<Seq<char>>), Seq<char>>(e@),
        },
{
    let title = extract_html_title(html);
    let content = strip_html_to_text(html);
    let cc = chars_of(content.as_str());
    if !is_enough(&cc) {
        return Err(too_short_error("Direct HTML: content too short (", &cc));
    }
    Ok(titled_read(&title, content))
}

/// A Jina Reader reply: cut to size, titled by its first `# ` heading; too short when the
/// trimmed reply is under the minimum.
pub open spec fn jina_read(body: Seq<char>) -> Result<(Seq<char>, Option<Seq<char>>), Seq<char>> {
    if !enough(trim(body)) {
        Err("Content too short"@)
    } else {
        Ok((truncated(body), markdown_heading(truncated(body))))
    }
}

pub fn jina_reply_read(body: String) -> (r: Result<UrlReadResult, String>)
    ensures
        match r {
            Ok(x) => jina_read(body@) == Ok::<(Seq<char>, Option<Seq<char>>), Seq<char>>(x@),
            Err(e) => jina_read(body@) == Err::<(Seq<char>, Option<Seq<char>>), Seq<char>>(e@),
        },
{
    if !is_enough(&trim_chars(&chars_of(body.as_str()))) {
        return Err("Content too short".to_owned());
    }
    let content = truncate_content(body);
    let title = extract_markdown_title(content.as_str());
    Ok(UrlReadResult { content, title })
}

/// A Xiaohongshu note from its page's embedded JSON: the description with `\n` and `\t`
/// unescaped (a tab as a space), titled by the note's title; an error without a description.
pub open spec fn xhs_read(html: Seq<char>) -> Result<(Seq<char>, Option<Seq<char>>), Seq<char>> {
    let title = json_string_field(html, "title"@);
    match json_string_field(html, "desc"@) {
        Some(c) => if c.len() > 0 {
            Ok((replace_all(replace_all(c, "\\n"@, "\n"@), "\\t"@, " "@), title))
        } else {
            Err("小红书笔记内容提取失败"@)
        },
        None => Err("小红书笔记内容提取失败"@),
    }
}

pub fn xiaohongshu_read(html: &str) -> (r: Result<UrlReadResult, String>)
    ensures
        match r {
            Ok(x) => xhs_read(html@) == Ok::<(Seq<char>, Option<Seq<char>>), Seq<char>>(x@),
            Err(e) => xhs_read(html@) == Err::<(Seq<char>, Option<Seq<char>>), Seq<char>>(e@),
        },
{
    let title = extract_json_string_field(html, "title");
    match extract_json_string_field(html, "desc") {
        Some(c) => {
            let cc = chars_of(c.as_str());
            if cc.len() > 0 {
                let c1 = replace_str(&cc, "\\n", "\n");
                let c2 = replace_str(&c1, "\\t", " ");
                return Ok(UrlReadResult { content: string_from_chars(&c2), title });
            }
        },
        None => {},
    }
    Err("小红书笔记内容提取失败".to_owned())
}

/// The error when both the Jina Reader and the direct read failed.
pub fn combined_read_error(jina_error: &str, direct_error: &str) -> (r: String)
    ensures
        r@ == "Jina: "@ + jina_error@ + " | Direct: "@ + direct_error@,
{
    let a = append(chars_of("Jina: "), jina_error);
    let b = append(a, " | Direct: ");
    string_from_chars(&append(b, direct_error))
}


// ─── Bilingual layout ──────────────────────────────────────────────────────

/// The text cut at every `sep`, left to right.
pub open spec fn split_text(s: Seq<char>, sep: Seq<char>) -> Seq<Seq<char>>
    decreases s.len(),
{
    if sep.len() == 0 {
        seq![s]
    } else {
        match find(s, sep) {
            Some(i) => if 0 <= i && i + sep.len() <= s.len() {
                seq![s.take(i)] + split_text(s.skip(i + sep.len()), sep)
            } else {
                seq![s]
            },
            None => seq![s],
        }
    }
}

/// The paragraphs of a text: its pieces between blank lines, trimmed, the empty ones left out.
pub open spec fn paragraphs(pieces: Seq<Seq<char>>) -> Seq<Seq<char>>
    decreases pieces.len(),
{
    if pieces.len() == 0 {
        Seq::empty()
    } else {
        let init = paragraphs(pieces.drop_last());
        let t = trim(pieces.last());
        if t.len() > 0 {
            init.push(t)
        } else {
            init
        }
    }
}

/// How one paragraph of a read is laid out for translation.
pub enum BilingualPart {
    /// Chinese or short: kept as it is.
    Keep { text: String },
    /// A timed paragraph `[.. → ..]` and its text; the text is translated when it is not
    /// mostly Chinese.
    Timed { timestamp: String, content: String, translate: bool },
    /// A timing line with nothing after it.
    TimingOnly { text: String },
    /// A chapter heading `【..】 – title`; the title is translated when it is not mostly
    /// Chinese.
    Chapter { heading: String, title: String, translate: bool },
    /// Any other paragraph: it is translated.
    Regular { text: String },
}

pub enum PartView {
    Keep(Seq<char>),
    Timed(Seq<char>, Seq<char>, bool),
    TimingOnly(Seq<char>),
    Chapter(Seq<char>, Seq<char>, bool),
    Regular(Seq<char>),
}

pub open spec fn part_view(p: BilingualPart) -> PartView {
    match p {
        BilingualPart::Keep { text } => PartView::Keep(text@),
        BilingualPart::Timed { timestamp, content, translate } => PartView::Timed(
            timestamp@,
            content@,
            translate,
        ),
        BilingualPart::TimingOnly { text } => PartView::TimingOnly(text@),
        BilingualPart::Chapter { heading, title, translate } => PartView::Chapter(
            heading@,
            title@,
            translate,
        ),
        BilingualPart::Regular { text } => PartView::Regular(text@),
    }
}

pub open spec fn part_views(v: Seq<BilingualPart>) -> Seq<PartView> {
    Seq::new(v.len(), |i: int| part_view(v[i]))
}

/// The layout of a paragraph: kept when it is mostly Chinese or under ten bytes; a timed
/// paragraph when it starts with `[` and holds `→` (split at its first line break, or a timing
/// line alone); a chapter when it starts with `【` and holds `–` (its title after the first
/// `–`); otherwise a regular paragraph.
pub open spec fn classify(p: Seq<char>) -> PartView {
    if !mostly_non_chinese(p) || utf8_len(p) < 10 {
        PartView::Keep(p)
    } else if starts_with(p, "["@) && contains(p, "→"@) {
        match find(p, "\n"@) {
            Some(nl) => {
                let content = trim(p.skip(nl + 1));
                PartView::Timed(p.take(nl), content, content.len() > 0 && mostly_non_chinese(content))
            },
            None => PartView::TimingOnly(p),
        }
    } else if starts_with(p, "【"@) && contains(p, "–"@) {
        match find(p, "–"@) {
            Some(d) => {
                let title = trim(p.skip(d + 1));
                PartView::Chapter(p, title, title.len() > 0 && mostly_non_chinese(title))
            },
            None => PartView::Regular(p),
        }
    } else {
        PartView::Regular(p)
    }
}

/// The layout of a read for translation, paragraph by paragraph.
pub open spec fn bilingual_layout(text: Seq<char>) -> Seq<PartView> {
    paragraphs(split_text(text, "\n\n"@)).map_values(|p: Seq<char>| classify(p))
}

fn split_blank_lines(s: &[char]) -> (r: Vec<Vec<char>>)
    ensures
        crate::text::views(r@) == split_text(s@, "\n\n"@),
{
    proof {
        reveal_strlit("\n\n");
    }
    let sep = chars_of("\n\n");
    let mut out: Vec<Vec<char>> = Vec::new();
    let mut rest = crate::text::slice_chars(s, 0, s.len());
    assert(rest@ =~= s@);
    let ghost whole = split_text(s@, "\n\n"@);
    assert(crate::text::views(out@) + split_text(rest@, "\n\n"@) =~= whole);
    let mut done = false;
    while !done
        invariant
            sep@ == "\n\n"@,
            !done ==> crate::text::views(out@) + split_text(rest@, "\n\n"@) == whole,
            done ==> crate::text::views(out@) == whole,
        decreases rest@.len() + (if done {
            0int
        } else {
            1int
        }),
    {
        proof {
            reveal_strlit("\n\n");
        }
        let rl = rest.len();
        match crate::text::find_str(&rest, "\n\n") {
            Some(i) => {
                assert(i + 2 <= rl);
                let head = crate::text::slice_chars(&rest, 0, i);
                let tail = crate::text::slice_chars(&rest, i + 2, rl);
                let ghost before = crate::text::views(out@);
                assert(head@ =~= rest@.take(i as int));
                assert(tail@ =~= rest@.skip(i + 2));
                out.push(head);
                assert(crate::text::views(out@) =~= before.push(rest@.take(i as int)));
                assert(seq![rest@.take(i as int)] + split_text(tail@, "\n\n"@) == split_text(
                    rest@,
                    "\n\n"@,
                ));
                assert(crate::text::views(out@) + split_text(tail@, "\n\n"@) =~= before
                    + split_text(rest@, "\n\n"@));
                rest = tail;
            },
            None => {
                let ghost before = crate::text::views(out@);
                let last = crate::text::slice_chars(&rest, 0, rest.len());
                assert(last@ =~= rest@);
                out.push(last);
                assert(crate::text::views(out@) =~= before + seq![rest@]);
                done = true;
            },
        }
    }
    out
}


fn holds_str(s: &[char], needle: &str) -> (b: bool)
    ensures
        b == contains(s@, needle@),
{
    match crate::text::find_str(s, needle) {
        Some(i) => {
            assert(find(s@, needle@) == Some(i as int));
            true
        },
        None => false,
    }
}

fn classify_exec(p: &Vec<char>) -> (r: BilingualPart)
    ensures
        part_view(r) == classify(p@),
{
    let ps = string_from_chars(p);
    if !needs_translation(ps.as_str()) || utf8_len_capped(p, 10) < 10 {
        return BilingualPart::Keep { text: ps };
    }
    if crate::text::starts_with_str(p, "[") && holds_str(p, "→") {
        proof {
            reveal_strlit("\n");
        }
        match crate::text::find_str(p, "\n") {
            Some(nl) => {
                let pl = p.len();
                let ts = crate::text::slice_chars(p, 0, nl);
                let after = crate::text::slice_chars(p, nl + 1, pl);
                assert(ts@ =~= p@.take(nl as int));
                assert(after@ =~= p@.skip(nl + 1));
                let content = trim_chars(&after);
                let cs = string_from_chars(&content);
                let translate = content.len() > 0 && needs_translation(cs.as_str());
                BilingualPart::Timed { timestamp: string_from_chars(&ts), content: cs, translate }
            },
            None => BilingualPart::TimingOnly { text: ps },
        }
    } else if crate::text::starts_with_str(p, "【") && holds_str(p, "–") {
        proof {
            reveal_strlit("–");
        }
        match crate::text::find_str(p, "–") {
            Some(d) => {
                let pl = p.len();
                let rest = crate::text::slice_chars(p, d + 1, pl);
                assert(rest@ =~= p@.skip(d + 1));
                let title = trim_chars(&rest);
                let tsx = string_from_chars(&title);
                let translate = title.len() > 0 && needs_translation(tsx.as_str());
                BilingualPart::Chapter { heading: ps, title: tsx, translate }
            },
            None => BilingualPart::Regular { text: ps },
        }
    } else {
        BilingualPart::Regular { text: ps }
    }
}

/// The layout of a read for translation (see `bilingual_layout`).
pub fn plan_bilingual(text: &str) -> (r: Vec<BilingualPart>)
    ensures
        part_views(r@) == bilingual_layout(text@),
{
    let pieces = split_blank_lines(&chars_of(text));
    let ghost pv = crate::text::views(pieces@);
    let mut paras: Vec<Vec<char>> = Vec::new();
    let mut i: usize = 0;
    assert(pv.take(0) =~= Seq::<Seq<char>>::empty());
    while i < pieces.len()
        invariant
            i <= pieces@.len(),
            pv == crate::text::views(pieces@),
            crate::text::views(paras@) == paragraphs(pv.take(i as int)),
        decreases pieces.len() - i,
    {
        assert(pv.take(i + 1).drop_last() =~= pv.take(i as int));
        assert(pv.take(i + 1).last() == pieces@[i as int]@);
        let t = trim_chars(&pieces[i]);
        if t.len() > 0 {
            let ghost before = crate::text::views(paras@);
            paras.push(t);
            assert(crate::text::views(paras@) =~= before.push(paras@[paras@.len() - 1]@));
        }
        i += 1;
    }
    assert(pv.take(pv.len() as int) =~= pv);
    let ghost para_v = crate::text::views(paras@);
    let mut r: Vec<BilingualPart> = Vec::new();
    let mut j: usize = 0;
    while j < paras.len()
        invariant
            j <= paras@.len(),
            para_v == crate::text::views(paras@),
            para_v == paragraphs(pv),
            part_views(r@) =~= para_v.take(j as int).map_values(|p: Seq<char>| classify(p)),
        decreases paras.len() - j,
    {
        let part = classify_exec(&paras[j]);
        let ghost before = part_views(r@);
        r.push(part);
        assert(para_v[j as int] == paras@[j as int]@);
        assert(part_views(r@) =~= before.push(classify(para_v[j as int])));
        assert(para_v.take(j + 1).map_values(|p: Seq<char>| classify(p)) =~= para_v.take(
            j as int,
        ).map_values(|p: Seq<char>| classify(p)).push(classify(para_v[j as int])));
        j += 1;
    }
    assert(para_v.take(para_v.len() as int) =~= para_v);
    r
}

/// A translation line, when there is a translation.
pub open spec fn translated_line(t: Option<Seq<char>>) -> Seq<char> {
    match t {
        Some(x) => "翻译："@ + x + "\n"@,
        None => Seq::empty(),
    }
}

/// A paragraph laid out with its translation (ignored where none is asked for): kept and
/// timing-only paragraphs as they are; a timed paragraph as its timing line, its text and the
/// translation; a chapter as its heading and the title's translation; a regular paragraph as
/// itself and its translation. Each ends with a blank line.
pub open spec fn part_text(p: PartView, t: Option<Seq<char>>) -> Seq<char> {
    match p {
        PartView::Keep(x) => x + "\n\n"@,
        PartView::Timed(ts, c, tr) => ts + "\n"@ + c + "\n"@ + (if tr {
            translated_line(t)
        } else {
            Seq::empty()
        }) + "\n"@,
        PartView::TimingOnly(x) => x + "\n\n"@,
        PartView::Chapter(h, _title, tr) => h + "\n"@ + (if tr {
            translated_line(t)
        } else {
            Seq::empty()
        }) + "\n"@,
        PartView::Regular(x) => x + "\n"@ + (match t {
            Some(y) => "翻译："@ + y,
            None => Seq::empty(),
        }) + "\n\n"@,
    }
}

pub open spec fn opt_views(v: Seq<Option<String>>) -> Seq<Option<Seq<char>>> {
    Seq::new(v.len(), |i: int| opt_string(v[i]))
}

/// The laid-out paragraphs, each with the translation at its position (none past the end).
pub open spec fn laid_out(parts: Seq<PartView>, ts: Seq<Option<Seq<char>>>, n: int) -> Seq<char>
    decreases n,
{
    if n <= 0 {
        Seq::empty()
    } else {
        laid_out(parts, ts, n - 1) + part_text(
            parts[n - 1],
            if n - 1 < ts.len() {
                ts[n - 1]
            } else {
                None
            },
        )
    }
}

fn translated_line_exec(t: &Option<String>) -> (r: Vec<char>)
    ensures
        r@ == translated_line(opt_string(*t)),
{
    match t {
        Some(x) => {
            let a = append(chars_of("翻译："), x.as_str());
            append(a, "\n")
        },
        None => Vec::new(),
    }
}

fn part_text_exec(p: &BilingualPart, t: &Option<String>) -> (r: Vec<char>)
    ensures
        r@ == part_text(part_view(*p), opt_string(*t)),
{
    match p {
        BilingualPart::Keep { text } => append(chars_of(text.as_str()), "\n\n"),
        BilingualPart::Timed { timestamp, content, translate } => {
            let a = append(chars_of(timestamp.as_str()), "\n");
            let a = append(a, content.as_str());
            let a = append(a, "\n");
            let tl = if *translate {
                translated_line_exec(t)
            } else {
                Vec::new()
            };
            let a = concat_chars(&a, &tl);
            append(a, "\n")
        },
        BilingualPart::TimingOnly { text } => append(chars_of(text.as_str()), "\n\n"),
        BilingualPart::Chapter { heading, title, translate } => {
            let a = append(chars_of(heading.as_str()), "\n");
            let tl = if *translate {
                translated_line_exec(t)
            } else {
                Vec::new()
            };
            let a = concat_chars(&a, &tl);
            append(a, "\n")
        },
        BilingualPart::Regular { text } => {
            let a = append(chars_of(text.as_str()), "\n");
            let tl = match t {
                Some(y) => append(chars_of("翻译："), y.as_str()),
                None => Vec::new(),
            };
            let a = concat_chars(&a, &tl);
            append(a, "\n\n")
        },
    }
}

/// The bilingual read: the paragraphs laid out with their translations (`translations[i]` for
/// paragraph `i`, absent where translating failed or was not asked), trimmed.
pub fn assemble_bilingual(parts: &Vec<BilingualPart>, translations: &Vec<Option<String>>) -> (r:
    String)
    ensures
        r@ == trim(laid_out(part_views(parts@), opt_views(translations@), parts@.len() as int)),
{
    let mut out: Vec<char> = Vec::new();
    let mut i: usize = 0;
    while i < parts.len()
        invariant
            i <= parts@.len(),
            out@ == laid_out(part_views(parts@), opt_views(translations@), i as int),
        decreases parts.len() - i,
    {
        let none: Option<String> = None;
        let t = if i < translations.len() {
            &translations[i]
        } else {
            &none
        };
        let piece = part_text_exec(&parts[i], t);
        out = concat_chars(&out, &piece);
        i += 1;
    }
    string_from_chars(&trim_chars(&out))
}

} // verus!
