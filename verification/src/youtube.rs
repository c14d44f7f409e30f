//! Reading a YouTube video: its id in a link, its chapters and description in the watch page,
//! the cues of a WebVTT caption file, and the text a read yields when there are no captions.
//! Fetching the page and running yt-dlp happen around the library; timings of cues are
//! floating-point and are handled there too.

use vstd::prelude::*;
use crate::patterns::{
    all_groups, first_group, group_pairs, group_triples, is_match, opt_views, regex_all_groups,
    regex_first_group, regex_found, regex_group_pairs, regex_group_triples, regex_replaced,
    replace_matches, triple_views,
};
use crate::reader::{html_decode, html_decoded, truncate_content, truncated, UrlReadResult};
use crate::text::{
    append, chars_of, concat_chars, contains, find_str, join, join_chars, lines, lines_chars,
    opt_string, parse_unsigned_below, parse_unsigned_chars, replace_all, replace_str, split_chars,
    split_on, starts_with, starts_with_str, string_from_chars, trim, trim_chars, views,
};
use crate::wiki_engine::{pair_views, string_views};

verus! {

broadcast use vstd::seq::group_seq_axioms;

pub const YOUTU_BE_PATTERN: &'static str = r"youtu\.be/([a-zA-Z0-9_-]{11})";

pub const WATCH_PATTERN: &'static str = r"[?&]v=([a-zA-Z0-9_-]{11})";

pub const EMBED_PATTERN: &'static str = r"youtube\.com/(?:embed|shorts)/([a-zA-Z0-9_-]{11})";

pub const SHORT_DESCRIPTION_PATTERN: &'static str = r#""shortDescription"\s*:\s*"((?:[^"\\]|\\.)*)""#;

pub const CHAPTER_PATTERN: &'static str = r"(?m)^(\d{1,2}:\d{2}(?::\d{2})?)\s+(.+)$";

pub const OG_DESCRIPTION_PATTERN: &'static str = r#"<meta\s+(?:property|name)="og:description"\s+content="([^"]*)"#;

pub const TAG_PATTERN: &'static str = r"<[^>]*>";

/// One caption of an srv1 file: its start, its duration and its text.
pub const SRV1_TEXT_PATTERN: &'static str = r#"<text\s+start="([^"]+)"\s+dur="([^"]+)"[^>]*>(.*?)</text>"#;

pub const VTT_TIMING_PATTERN: &'static str = r"(\d{1,2}):(\d{2}):(\d{2})\.(\d{3})\s*-->\s*(\d{1,2}):(\d{2}):(\d{2})\.(\d{3})";

/// Caption languages tried one at a time: yt-dlp gives up on all of them at the first refusal.
pub open spec fn caption_languages() -> Seq<Seq<char>> {
    seq!["en"@, "zh-Hans"@, "zh"@, "zh-Hant"@]
}

pub fn caption_language_attempts() -> (r: Vec<String>)
    ensures
        string_views(r@) == caption_languages(),
{
    let mut r: Vec<String> = Vec::new();
    r.push("en".to_owned());
    r.push("zh-Hans".to_owned());
    r.push("zh".to_owned());
    r.push("zh-Hant".to_owned());
    assert(string_views(r@) =~= caption_languages());
    r
}

// ─── The video id ──────────────────────────────────────────────────────────

/// The eleven-character id of a `youtu.be/`, `watch?v=`, `embed/` or `shorts/` link.
pub open spec fn youtube_id(url: Seq<char>) -> Option<Seq<char>> {
    if contains(url, "youtu.be/"@) {
        regex_first_group(YOUTU_BE_PATTERN@, url)
    } else {
        match regex_first_group(WATCH_PATTERN@, url) {
            Some(id) => Some(id),
            None => regex_first_group(EMBED_PATTERN@, url),
        }
    }
}

fn holds(s: &[char], needle: &str) -> (b: bool)
    ensures
        b == contains(s@, needle@),
{
    match find_str(s, needle) {
        Some(i) => {
            assert(crate::text::find(s@, needle@) == Some(i as int));
            true
        },
        None => false,
    }
}

pub fn extract_youtube_id(url: &str) -> (r: Option<String>)
    ensures
        opt_string(r) == youtube_id(url@),
{
    if holds(&chars_of(url), "youtu.be/") {
        return first_group(YOUTU_BE_PATTERN, url);
    }
    match first_group(WATCH_PATTERN, url) {
        Some(id) => Some(id),
        None => first_group(EMBED_PATTERN, url),
    }
}

/// The page a video is watched on.
pub fn youtube_watch_url(video_id: &str) -> (r: String)
    ensures
        r@ == "https://www.youtube.com/watch?v="@ + video_id@,
{
    string_from_chars(&append(chars_of("https://www.youtube.com/watch?v="), video_id))
}

// ─── Description and chapters ──────────────────────────────────────────────

/// The page's `og:description`, entities decoded, when not empty.
pub open spec fn youtube_description(html: Seq<char>) -> Option<Seq<char>> {
    match regex_first_group(OG_DESCRIPTION_PATTERN@, html) {
        Some(d) => if html_decoded(d).len() > 0 {
            Some(html_decoded(d))
        } else {
            None
        },
        None => None,
    }
}

pub fn extract_youtube_description(html: &str) -> (r: Option<String>)
    ensures
        opt_string(r) == youtube_description(html@),
{
    match first_group(OG_DESCRIPTION_PATTERN, html) {
        Some(d) => {
            let decoded = html_decode(d.as_str());
            if chars_of(decoded.as_str()).len() > 0 {
                Some(decoded)
            } else {
                None
            }
        },
        None => None,
    }
}

/// The description as stored in the page's data: `\n`, `\"` and `\\` unescaped, in that order.
pub open spec fn unescaped_description(raw: Seq<char>) -> Seq<char> {
    replace_all(replace_all(replace_all(raw, "\\n"@, "\n"@), "\\\""@, "\""@), "\\\\"@, "\\"@)
}

/// The parts of a chapter time that read as numbers, in order.
pub open spec fn number_parts(pieces: Seq<Seq<char>>) -> Seq<int>
    decreases pieces.len(),
{
    if pieces.len() == 0 {
        Seq::empty()
    } else {
        let init = number_parts(pieces.drop_last());
        match parse_unsigned_below(pieces.last(), u64::MAX as int) {
            Some(v) => init.push(v),
            None => init,
        }
    }
}

/// Seconds of `m:ss` or `h:mm:ss`.
pub open spec fn chapter_seconds(parts: Seq<int>) -> Option<int> {
    if parts.len() == 2 {
        Some(parts[0] * 60 + parts[1])
    } else if parts.len() == 3 {
        Some(parts[0] * 3600 + parts[1] * 60 + parts[2])
    } else {
        None
    }
}

/// The chapters the description lines name, with a time and a non-blank title. (A time beyond
/// `u64` seconds, which the pattern's two-digit parts rule out, is left out.)
pub open spec fn chapter_list(pairs: Seq<(Seq<char>, Seq<char>)>) -> Seq<(int, Seq<char>)>
    decreases pairs.len(),
{
    if pairs.len() == 0 {
        Seq::empty()
    } else {
        let acc = chapter_list(pairs.drop_last());
        let title = trim(pairs.last().1);
        match chapter_seconds(number_parts(split_on(pairs.last().0, seq![':']))) {
            Some(secs) => if secs <= u64::MAX && title.len() > 0 {
                acc.push((secs, title))
            } else {
                acc
            },
            None => acc,
        }
    }
}

/// The chapters of a video: lines `0:00 Title` of its description, kept only when there are
/// at least two and the first starts within ten seconds.
pub open spec fn youtube_chapters(html: Seq<char>) -> Seq<(int, Seq<char>)> {
    match regex_first_group(SHORT_DESCRIPTION_PATTERN@, html) {
        Some(raw) => {
            let list = chapter_list(
                regex_group_pairs(CHAPTER_PATTERN@, unescaped_description(raw)),
            );
            if list.len() >= 2 && list[0].0 < 10 {
                list
            } else {
                Seq::empty()
            }
        },
        None => Seq::empty(),
    }
}

pub open spec fn chapter_views(v: Seq<(u64, String)>) -> Seq<(int, Seq<char>)> {
    Seq::new(v.len(), |i: int| (v[i].0 as int, v[i].1@))
}

fn number_parts_exec(pieces: &Vec<Vec<char>>) -> (r: Vec<u64>)
    ensures
        r@.len() == number_parts(views(pieces@)).len(),
        forall|i: int| 0 <= i < r@.len() ==> r@[i] as int == #[trigger] number_parts(views(pieces@))[i],
{
    let ghost pv = views(pieces@);
    let mut r: Vec<u64> = Vec::new();
    let mut i: usize = 0;
    assert(pv.take(0) =~= Seq::<Seq<char>>::empty());
    while i < pieces.len()
        invariant
            i <= pieces@.len(),
            pv == views(pieces@),
            r@.len() == number_parts(pv.take(i as int)).len(),
            forall|k: int| 0 <= k < r@.len() ==> r@[k] as int == #[trigger] number_parts(pv.take(i as int))[k],
        decreases pieces.len() - i,
    {
        assert(pv.take(i + 1).drop_last() =~= pv.take(i as int));
        assert(pv.take(i + 1).last() == pieces@[i as int]@);
        match parse_unsigned_chars(&pieces[i], u64::MAX) {
            Some(v) => {
                r.push(v);
            },
            None => {},
        }
        i += 1;
    }
    assert(pv.take(pv.len() as int) =~= pv);
    r
}

/// The chapters of a video as seconds and title (see `youtube_chapters`).
pub fn extract_youtube_chapters(html: &str) -> (r: Vec<(u64, String)>)
    ensures
        chapter_views(r@) == youtube_chapters(html@),
{
    let raw = match first_group(SHORT_DESCRIPTION_PATTERN, html) {
        Some(raw) => raw,
        None => {
            let r: Vec<(u64, String)> = Vec::new();
            assert(chapter_views(r@) =~= youtube_chapters(html@));
            return r;
        },
    };
    let d1 = replace_str(&chars_of(raw.as_str()), "\\n", "\n");
    let d2 = replace_str(&d1, "\\\"", "\"");
    let d3 = replace_str(&d2, "\\\\", "\\");
    let desc = string_from_chars(&d3);
    let pairs = group_pairs(CHAPTER_PATTERN, desc.as_str());
    let ghost pv = pair_views(pairs@);
    let colon = vec![':'];
    assert(colon@ =~= seq![':']);
    let mut list: Vec<(u64, String)> = Vec::new();
    let mut i: usize = 0;
    assert(pv.take(0) =~= Seq::<(Seq<char>, Seq<char>)>::empty());
    while i < pairs.len()
        invariant
            i <= pairs@.len(),
            pv == pair_views(pairs@),
            colon@ == seq![':'],
            chapter_views(list@) == chapter_list(pv.take(i as int)),
        decreases pairs.len() - i,
    {
        assert(pv.take(i + 1).drop_last() =~= pv.take(i as int));
        assert(pv.take(i + 1).last() == (pairs@[i as int].0@, pairs@[i as int].1@));
        let title = trim_chars(&chars_of(pairs[i].1.as_str()));
        let parts = number_parts_exec(&split_chars(&chars_of(pairs[i].0.as_str()), &colon));
        let secs: Option<u128> = if parts.len() == 2 {
            Some(parts[0] as u128 * 60 + parts[1] as u128)
        } else if parts.len() == 3 {
            Some(parts[0] as u128 * 3600 + parts[1] as u128 * 60 + parts[2] as u128)
        } else {
            None
        };
        match secs {
            Some(s) => {
                if s <= u64::MAX as u128 && title.len() > 0 {
                    let ghost before = chapter_views(list@);
                    list.push((s as u64, string_from_chars(&title)));
                    assert(chapter_views(list@) =~= before.push((s as int, title@)));
                }
            },
            None => {},
        }
        i += 1;
    }
    assert(pv.take(pv.len() as int) =~= pv);
    if list.len() >= 2 && list[0].0 < 10 {
        list
    } else {
        let r: Vec<(u64, String)> = Vec::new();
        assert(chapter_views(r@) =~= Seq::<(int, Seq<char>)>::empty());
        r
    }
}

// ─── Captions ──────────────────────────────────────────────────────────────

/// A caption line's text: entities decoded, newlines as spaces.
pub open spec fn caption_line(t: Seq<char>) -> Seq<char> {
    replace_all(html_decoded(t), "\n"@, " "@)
}

/// A caption's text without tags, trimmed.
pub open spec fn caption_text(joined: Seq<char>) -> Seq<char> {
    trim(regex_replaced(TAG_PATTERN@, joined, ""@))
}

/// The text of one srv1 caption (see `caption_line` and `caption_text`).
pub fn clean_srv1_text(raw: &str) -> (r: String)
    ensures
        r@ == caption_text(caption_line(raw@)),
{
    let decoded = html_decode(raw);
    let line = string_from_chars(&replace_str(&chars_of(decoded.as_str()), "\n", " "));
    let stripped = replace_matches(TAG_PATTERN, line.as_str(), "");
    string_from_chars(&trim_chars(&chars_of(stripped.as_str())))
}

/// The captions of an srv1 file, from the matches of `SRV1_TEXT_PATTERN`: each one's start
/// and duration as written, and its cleaned text; those whose text is empty are left out.
pub open spec fn srv1_cues_of(m: Seq<(Seq<char>, Seq<char>, Seq<char>)>) -> Seq<
    (Seq<char>, Seq<char>, Seq<char>),
>
    decreases m.len(),
{
    if m.len() == 0 {
        Seq::empty()
    } else {
        let rest = srv1_cues_of(m.drop_last());
        let last = m.last();
        let text = caption_text(caption_line(last.2));
        if text.len() == 0 {
            rest
        } else {
            rest.push((last.0, last.1, text))
        }
    }
}

/// The captions of an srv1 caption file (see `srv1_cues_of`).
pub fn srv1_cues(content: &str) -> (r: Vec<(String, String, String)>)
    ensures
        triple_views(r@) == srv1_cues_of(regex_group_triples(SRV1_TEXT_PATTERN@, content@)),
{
    let matches = group_triples(SRV1_TEXT_PATTERN, content);
    let ghost ms = regex_group_triples(SRV1_TEXT_PATTERN@, content@);
    let mut out: Vec<(String, String, String)> = Vec::new();
    let mut i: usize = 0;
    proof {
        assert(ms.take(0) =~= Seq::<(Seq<char>, Seq<char>, Seq<char>)>::empty());
        assert(triple_views(out@) =~= Seq::<(Seq<char>, Seq<char>, Seq<char>)>::empty());
    }
    while i < matches.len()
        invariant
            i <= matches@.len(),
            triple_views(matches@) == ms,
            triple_views(out@) == srv1_cues_of(ms.take(i as int)),
        decreases matches.len() - i,
    {
        proof {
            assert(ms.take(i + 1).drop_last() =~= ms.take(i as int));
            assert(ms.take(i + 1).last() == ms[i as int]);
            assert(ms[i as int] == (matches@[i as int].0@, matches@[i as int].1@, matches@[i as int].2@));
        }
        let text = clean_srv1_text(matches[i].2.as_str());
        if chars_of(text.as_str()).len() > 0 {
            let ghost before = out@;
            out.push((matches[i].0.clone(), matches[i].1.clone(), text));
            proof {
                assert(triple_views(out@) =~= triple_views(before).push(
                    (matches@[i as int].0@, matches@[i as int].1@, caption_text(caption_line(matches@[i as int].2@))),
                ));
            }
        }
        i += 1;
    }
    proof {
        assert(ms.take(matches@.len() as int) =~= ms);
    }
    out
}

/// The eight numbers of a WebVTT cue's timing line (hours, minutes, seconds and milliseconds
/// of its start and of its end), as written; `None` when the line does not match
/// `VTT_TIMING_PATTERN`.
pub fn vtt_timing_fields(timing: &str) -> (r: Option<Vec<String>>)
    ensures
        opt_views(r) == regex_all_groups(VTT_TIMING_PATTERN@, timing@),
{
    all_groups(VTT_TIMING_PATTERN, timing)
}

/// Reading a WebVTT file: in the header, in a NOTE/STYLE/REGION block, the open cue (its
/// timing line and text lines), and the cues read so far (timing line and text).
pub type VttState = (bool, bool, Option<(Seq<char>, Seq<Seq<char>>)>, Seq<(Seq<char>, Seq<char>)>);

/// The cues read, with the open cue added when its text is not empty.
pub open spec fn flushed(out: Seq<(Seq<char>, Seq<char>)>, cue: Option<(Seq<char>, Seq<Seq<char>>)>) -> Seq<
    (Seq<char>, Seq<char>),
> {
    match cue {
        Some(c) => {
            let text = caption_text(join(c.1, " "@));
            if text.len() > 0 {
                out.push((c.0, text))
            } else {
                out
            }
        },
        None => out,
    }
}

/// One line of a WebVTT file: the header and NOTE/STYLE/REGION blocks end at a blank line; a
/// timing line closes the open cue and opens a new one; another non-blank line is text of the
/// open cue.
pub open spec fn vtt_step(st: VttState, line: Seq<char>) -> VttState {
    let t = trim(line);
    if st.0 {
        (t.len() != 0, st.1, st.2, st.3)
    } else if st.1 {
        (false, t.len() != 0, st.2, st.3)
    } else if starts_with(t, "NOTE"@) || starts_with(t, "STYLE"@) || starts_with(t, "REGION"@) {
        (false, true, st.2, st.3)
    } else if regex_found(VTT_TIMING_PATTERN@, t) {
        (false, false, Some((t, Seq::empty())), flushed(st.3, st.2))
    } else if t.len() == 0 {
        st
    } else {
        match st.2 {
            Some(c) => (false, false, Some((c.0, c.1.push(caption_line(t)))), st.3),
            None => st,
        }
    }
}

pub open spec fn vtt_run(ls: Seq<Seq<char>>) -> VttState
    decreases ls.len(),
{
    if ls.len() == 0 {
        (true, false, None, Seq::empty())
    } else {
        vtt_step(vtt_run(ls.drop_last()), ls.last())
    }
}

/// The cues of a WebVTT file: each timing line with its text, cues without text left out.
pub open spec fn vtt_cues(content: Seq<char>) -> Seq<(Seq<char>, Seq<char>)> {
    let st = vtt_run(lines(content));
    flushed(st.3, st.2)
}

fn flush_exec(out: &mut Vec<(String, String)>, cue_ts: &Option<String>, texts: &Vec<Vec<char>>)
    ensures
        pair_views(final(out)@) == flushed(
            pair_views(old(out)@),
            match cue_ts {
                Some(ts) => Some((ts@, views(texts@))),
                None => None,
            },
        ),
{
    match cue_ts {
        Some(ts) => {
            let joined = join_chars(texts, &chars_of(" "));
            let stripped = replace_matches(TAG_PATTERN, string_from_chars(&joined).as_str(), "");
            let text = trim_chars(&chars_of(stripped.as_str()));
            if text.len() > 0 {
                let ghost before = pair_views(out@);
                out.push((ts.clone(), string_from_chars(&text)));
                assert(pair_views(out@) =~= before.push((ts@, text@)));
            }
        },
        None => {},
    }
}

/// The cues of a WebVTT caption file (see `vtt_cues`), as timing line and text.
pub fn parse_vtt_cues(content: &str) -> (r: Vec<(String, String)>)
    ensures
        pair_views(r@) == vtt_cues(content@),
{
    let ls = lines_chars(&chars_of(content));
    let ghost lv = views(ls@);
    let mut in_header = true;
    let mut in_skip = false;
    let mut cue_ts: Option<String> = None;
    let mut texts: Vec<Vec<char>> = Vec::new();
    let mut out: Vec<(String, String)> = Vec::new();
    let mut i: usize = 0;
    assert(lv.take(0) =~= Seq::<Seq<char>>::empty());
    while i < ls.len()
        invariant
            i <= ls@.len(),
            lv == views(ls@),
            vtt_run(lv.take(i as int)) == (
                in_header,
                in_skip,
                match cue_ts {
                    Some(ts) => Some((ts@, views(texts@))),
                    None => None::<(Seq<char>, Seq<Seq<char>>)>,
                },
                pair_views(out@),
            ),
            cue_ts is None ==> texts@.len() == 0,
        decreases ls.len() - i,
    {
        assert(lv.take(i + 1).drop_last() =~= lv.take(i as int));
        assert(lv.take(i + 1).last() == ls@[i as int]@);
        let t = trim_chars(&ls[i]);
        if in_header {
            in_header = t.len() != 0;
        } else if in_skip {
            in_skip = t.len() != 0;
        } else if starts_with_str(&t, "NOTE") || starts_with_str(&t, "STYLE") || starts_with_str(
            &t,
            "REGION",
        ) {
            in_skip = true;
        } else if is_match(VTT_TIMING_PATTERN, string_from_chars(&t).as_str()) {
            flush_exec(&mut out, &cue_ts, &texts);
            cue_ts = Some(string_from_chars(&t));
            texts = Vec::new();
            assert(views(texts@) =~= Seq::<Seq<char>>::empty());
        } else if t.len() == 0 {
        } else if cue_ts.is_some() {
            let decoded = crate::reader::html_decode_chars(&t);
            let line = replace_str(&decoded, "\n", " ");
            let ghost before = views(texts@);
            texts.push(line);
            assert(views(texts@) =~= before.push(caption_line(t@)));
        }
        i += 1;
    }
    assert(lv.take(lv.len() as int) =~= lv);
    flush_exec(&mut out, &cue_ts, &texts);
    out
}

// ─── When there are no captions ────────────────────────────────────────────

/// Why yt-dlp got no captions, from what it printed: a sign-in wall, a missing JavaScript
/// runtime, or rate limiting; `None` when the video has no captions at all.
pub open spec fn blocked_reason(stderr: Seq<char>) -> Option<Seq<char>> {
    if contains(stderr, "Sign in to confirm"@) || contains(stderr, "sign in"@) {
        Some("YouTube 需要登录验证，无法提取字幕。请稍后再试"@)
    } else if contains(stderr, "No supported JavaScript runtime"@) {
        Some("缺少 JavaScript 运行时，YouTube 字幕提取需要 Node.js。请安装: https://nodejs.org"@)
    } else if contains(stderr, "429"@) || contains(stderr, "Too Many Requests"@) {
        Some("YouTube 请求被限流（429），请稍后再试"@)
    } else {
        None
    }
}

pub fn caption_block_reason(stderr: &str) -> (r: Option<String>)
    ensures
        opt_string(r) == blocked_reason(stderr@),
{
    let s = chars_of(stderr);
    if holds(&s, "Sign in to confirm") || holds(&s, "sign in") {
        Some("YouTube 需要登录验证，无法提取字幕。请稍后再试".to_owned())
    } else if holds(&s, "No supported JavaScript runtime") {
        Some("缺少 JavaScript 运行时，YouTube 字幕提取需要 Node.js。请安装: https://nodejs.org".to_owned())
    } else if holds(&s, "429") || holds(&s, "Too Many Requests") {
        Some("YouTube 请求被限流（429），请稍后再试".to_owned())
    } else {
        None
    }
}

/// Without captions a read gives the title and the description, or a note that the video has
/// no captions; cut to size.
pub open spec fn no_caption_content(title: Option<Seq<char>>, description: Seq<char>) -> Seq<char> {
    let body = if description.len() == 0 {
        "（该视频没有字幕）"@
    } else {
        description
    };
    match title {
        Some(t) => t + "\n\n"@ + body,
        None => body,
    }
}

pub fn youtube_without_captions(title: Option<String>, description: &str) -> (r: UrlReadResult)
    ensures
        r.content@ == truncated(no_caption_content(opt_string(title), description@)),
        opt_string(r.title) == opt_string(title),
{
    let d = chars_of(description);
    let body = if d.len() == 0 {
        chars_of("（该视频没有字幕）")
    } else {
        d
    };
    let content = match &title {
        Some(t) => {
            let a = append(chars_of(t.as_str()), "\n\n");
            concat_chars(&a, &body)
        },
        None => body,
    };
    UrlReadResult { content: truncate_content(string_from_chars(&content)), title }
}

/// The error when a caption file was read but held no text.
pub fn empty_captions_error(format: &str) -> (r: String)
    ensures
        r@ == "YouTube: "@ + format@ + " 字幕已下载但解析未提取到文本"@,
{
    let a = append(chars_of("YouTube: "), format);
    string_from_chars(&append(a, " 字幕已下载但解析未提取到文本"))
}

// ─── Running yt-dlp ────────────────────────────────────────────────────────

/// Where a user's own yt-dlp may be installed.
pub open spec fn yt_dlp_locations(home: Seq<char>) -> Seq<Seq<char>> {
    seq![
        home + "/anaconda3/bin/yt-dlp"@,
        home + "/miniconda3/bin/yt-dlp"@,
        home + "/.local/bin/yt-dlp"@,
        "/usr/local/bin/yt-dlp"@,
        "/opt/homebrew/bin/yt-dlp"@,
    ]
}

pub fn yt_dlp_candidates(home: &str) -> (r: Vec<String>)
    ensures
        string_views(r@) == yt_dlp_locations(home@),
{
    let mut r: Vec<String> = Vec::new();
    r.push(string_from_chars(&append(chars_of(home), "/anaconda3/bin/yt-dlp")));
    r.push(string_from_chars(&append(chars_of(home), "/miniconda3/bin/yt-dlp")));
    r.push(string_from_chars(&append(chars_of(home), "/.local/bin/yt-dlp")));
    r.push("/usr/local/bin/yt-dlp".to_owned());
    r.push("/opt/homebrew/bin/yt-dlp".to_owned());
    assert(string_views(r@) =~= yt_dlp_locations(home@));
    r
}

/// Where Node.js may be installed, for yt-dlp's JavaScript challenges.
pub open spec fn node_locations(home: Seq<char>) -> Seq<Seq<char>> {
    seq![
        "/usr/local/bin/node"@,
        "/opt/homebrew/bin/node"@,
        home + "/.nvm/current/bin/node"@,
        home + "/.local/bin/node"@,
    ]
}

pub fn node_candidates(home: &str) -> (r: Vec<String>)
    ensures
        string_views(r@) == node_locations(home@),
{
    let mut r: Vec<String> = Vec::new();
    r.push("/usr/local/bin/node".to_owned());
    r.push("/opt/homebrew/bin/node".to_owned());
    r.push(string_from_chars(&append(chars_of(home), "/.nvm/current/bin/node")));
    r.push(string_from_chars(&append(chars_of(home), "/.local/bin/node")));
    assert(string_views(r@) =~= node_locations(home@));
    r
}

/// The arguments yt-dlp is run with for one language: automatic captions only, VTT or srv1,
/// Node.js for its challenges when one was found.
pub open spec fn yt_dlp_arguments(
    langs: Seq<char>,
    js_runtime: Option<Seq<char>>,
    out_path: Seq<char>,
    watch_url: Seq<char>,
) -> Seq<Seq<char>> {
    let head = seq![
        "--write-auto-sub"@,
        "--sub-lang"@,
        langs,
        "--skip-download"@,
        "--sub-format"@,
        "vtt/srv1"@,
    ];
    let runtime = match js_runtime {
        Some(r) => seq!["--js-runtimes"@, r],
        None => Seq::empty(),
    };
    head + runtime + seq!["--remote-components"@, "ejs:github"@, "-o"@, out_path, watch_url]
}

pub fn yt_dlp_args(langs: &str, js_runtime: &Option<String>, out_path: &str, watch_url: &str) -> (r:
    Vec<String>)
    ensures
        string_views(r@) == yt_dlp_arguments(langs@, opt_string(*js_runtime), out_path@, watch_url@),
{
    let mut r: Vec<String> = Vec::new();
    r.push("--write-auto-sub".to_owned());
    r.push("--sub-lang".to_owned());
    r.push(langs.to_owned());
    r.push("--skip-download".to_owned());
    r.push("--sub-format".to_owned());
    r.push("vtt/srv1".to_owned());
    let ghost head = string_views(r@);
    match js_runtime {
        Some(rt) => {
            r.push("--js-runtimes".to_owned());
            r.push(rt.clone());
        },
        None => {},
    }
    let ghost mid = string_views(r@);
    r.push("--remote-components".to_owned());
    r.push("ejs:github".to_owned());
    r.push("-o".to_owned());
    r.push(out_path.to_owned());
    r.push(watch_url.to_owned());
    assert(string_views(r@) =~= yt_dlp_arguments(
        langs@,
        opt_string(*js_runtime),
        out_path@,
        watch_url@,
    ));
    r
}

/// The first candidate `on_disk` says exists: its position, or `None` when none does.
pub fn first_existing<F: Fn(&String) -> bool>(candidates: &Vec<String>, on_disk: &F) -> (r: Option<
    usize,
>)
    requires
        forall|s: &String| on_disk.requires((s,)),
    ensures
        r matches Some(i) ==> i < candidates@.len() && on_disk.ensures((&candidates@[i as int],), true)
            && forall|j: int|
            0 <= j < i ==> on_disk.ensures((&candidates@[j],), false),
        r is None ==> forall|j: int|
            0 <= j < candidates@.len() ==> on_disk.ensures((&candidates@[j],), false),
{
    let mut i: usize = 0;
    while i < candidates.len()
        invariant
            i <= candidates@.len(),
            forall|s: &String| on_disk.requires((s,)),
            forall|j: int| 0 <= j < i ==> on_disk.ensures((&candidates@[j],), false),
        decreases candidates.len() - i,
    {
        let found = on_disk(&candidates[i]);
        if found {
            return Some(i);
        }
        i += 1;
    }
    None
}

/// The yt-dlp to run: the first of the preferred paths that exists (the bundled binary, then
/// the user's installs), else `yt-dlp` on the search path.
pub fn choose_yt_dlp_binary<F: Fn(&String) -> bool>(preferred: &Vec<String>, on_disk: &F) -> (r:
    String)
    requires
        forall|s: &String| on_disk.requires((s,)),
    ensures
        (exists|i: int|
            0 <= i < preferred@.len() && r@ == preferred@[i]@ && on_disk.ensures(
                (&preferred@[i],),
                true,
            ) && forall|j: int| 0 <= j < i ==> on_disk.ensures((&preferred@[j],), false))
            || (r@ == "yt-dlp"@ && forall|j: int|
            0 <= j < preferred@.len() ==> on_disk.ensures((&preferred@[j],), false)),
{
    match first_existing(preferred, on_disk) {
        Some(i) => preferred[i].clone(),
        None => "yt-dlp".to_owned(),
    }
}

/// The `--js-runtimes` value for a Node.js binary.
pub fn node_runtime_arg(node: &str) -> (r: String)
    ensures
        r@ == "node:"@ + node@,
{
    string_from_chars(&append(chars_of("node:"), node))
}

/// The path the bundled yt-dlp was registered under, at most once.
pub struct YtDlpBinary(Option<String>);

impl YtDlpBinary {
    pub fn new() -> (r: Self)
        ensures
            r.registered() is None,
    {
        YtDlpBinary(None)
    }

    pub closed spec fn registered(&self) -> Option<Seq<char>> {
        opt_string(self.0)
    }

    pub fn get(&self) -> (r: Option<String>)
        ensures
            opt_string(r) == self.registered(),
    {
        match &self.0 {
            Some(p) => Some(p.clone()),
            None => None,
        }
    }
}

/// Registers the bundled yt-dlp binary; the first registration stays.
pub fn init_yt_dlp_binary_path(binary: &mut YtDlpBinary, path: String)
    ensures
        final(binary).registered() == match old(binary).registered() {
            Some(p) => Some(p),
            None => Some(path@),
        },
{
    if binary.0.is_none() {
        binary.0 = Some(path);
    }
}

} // verus!
