//! Readable text from HTML: a general page (tags dropped, navigation, headers, footers,
//! asides, scripts and styles skipped, block ends as line breaks), and the two shapes of a
//! WeChat article. Output stops once it passes the content limit.

use vstd::prelude::*;
use crate::local_wiki::{to_lowercase, unicode_lowercase};
use crate::reader::{html_decode_chars, html_decoded, MAX_CONTENT_LENGTH};
use crate::text::{
    char_utf8_width, chars_of, find, find_str, join, join_chars, lines, lines_chars, slice_chars,
    starts_with, starts_with_str, string_from_chars, trim, trim_chars, utf8_len, utf8_width,
    views,
};
use crate::wiki_engine::string_views;

verus! {

broadcast use vstd::seq::group_seq_axioms;

/// The parts of a page whose text is skipped: where a tag of the kind opened and its closing
/// tag has not come yet.
#[derive(Clone, Copy)]
pub struct Zones {
    pub script: bool,
    pub style: bool,
    pub nav: bool,
    pub header: bool,
    pub footer: bool,
    pub aside: bool,
}

pub open spec fn no_zone() -> Zones {
    Zones { script: false, style: false, nav: false, header: false, footer: false, aside: false }
}

pub open spec fn skipping(z: Zones) -> bool {
    z.script || z.style || z.nav || z.header || z.footer || z.aside
}

/// The zones after a tag, lowercased: the first of `<nav`, `</nav`, `<header`, `</header`,
/// `<footer`, `</footer`, `<aside`, `</aside`, `<script`, `</script`, `<style`, `</style` that
/// it starts with opens or closes its zone.
pub open spec fn zones_after(z: Zones, t: Seq<char>) -> Zones {
    if starts_with(t, "<nav"@) {
        Zones { nav: true, ..z }
    } else if starts_with(t, "</nav"@) {
        Zones { nav: false, ..z }
    } else if starts_with(t, "<header"@) {
        Zones { header: true, ..z }
    } else if starts_with(t, "</header"@) {
        Zones { header: false, ..z }
    } else if starts_with(t, "<footer"@) {
        Zones { footer: true, ..z }
    } else if starts_with(t, "</footer"@) {
        Zones { footer: false, ..z }
    } else if starts_with(t, "<aside"@) {
        Zones { aside: true, ..z }
    } else if starts_with(t, "</aside"@) {
        Zones { aside: false, ..z }
    } else if starts_with(t, "<script"@) {
        Zones { script: true, ..z }
    } else if starts_with(t, "</script"@) {
        Zones { script: false, ..z }
    } else if starts_with(t, "<style"@) {
        Zones { style: true, ..z }
    } else if starts_with(t, "</style"@) {
        Zones { style: false, ..z }
    } else {
        z
    }
}

/// A tag that ends a block of text: `<br`, `</p`, `</div`, `</h…`, `</li`, `</tr`.
pub open spec fn block_end(t: Seq<char>) -> bool {
    starts_with(t, "<br"@) || starts_with(t, "</p"@) || starts_with(t, "</div"@) || starts_with(
        t,
        "</h"@,
    ) || starts_with(t, "</li"@) || starts_with(t, "</tr"@)
}

/// The text with a line break at its end, unless it ends with one.
pub open spec fn with_break(out: Seq<char>) -> Seq<char> {
    if out.len() > 0 && out.last() == '\n' {
        out
    } else {
        out.push('\n')
    }
}

/// Reading a page: inside a tag and the tag so far, the zones, and the text kept.
pub type PageScan = (bool, Seq<char>, Zones, Seq<char>);

/// One character of a page. Nothing changes once the text kept passes the content limit.
pub open spec fn page_step(st: PageScan, c: char) -> PageScan {
    if utf8_len(st.3) >= MAX_CONTENT_LENGTH {
        st
    } else if c == '<' {
        (true, seq!['<'], st.2, st.3)
    } else if st.0 {
        let tag = st.1.push(c);
        if c == '>' {
            let lower = unicode_lowercase(tag);
            let out = if block_end(lower) {
                with_break(st.3)
            } else {
                st.3
            };
            (false, tag, zones_after(st.2, lower), out)
        } else {
            (true, tag, st.2, st.3)
        }
    } else if skipping(st.2) {
        st
    } else {
        (st.0, st.1, st.2, st.3.push(c))
    }
}

pub open spec fn page_scan(s: Seq<char>) -> PageScan
    decreases s.len(),
{
    if s.len() == 0 {
        (false, Seq::empty(), no_zone(), Seq::empty())
    } else {
        page_step(page_scan(s.drop_last()), s.last())
    }
}

pub open spec fn min_found(a: Option<int>, b: Option<int>) -> Option<int> {
    match (a, b) {
        (Some(x), Some(y)) => Some(if x <= y {
            x
        } else {
            y
        }),
        (Some(x), None) => Some(x),
        (None, y) => y,
    }
}

/// Where the page's content starts: the first `<article`, `<main` or `<body`, else the start.
pub open spec fn content_start(html: Seq<char>) -> int {
    match min_found(min_found(find(html, "<article"@), find(html, "<main"@)), find(html, "<body"@)) {
        Some(i) => i,
        None => 0,
    }
}

/// The lines, trimmed, that take more than one byte.
pub open spec fn lines_longer_than_one_byte(ls: Seq<Seq<char>>) -> Seq<Seq<char>>
    decreases ls.len(),
{
    if ls.len() == 0 {
        Seq::empty()
    } else {
        let init = lines_longer_than_one_byte(ls.drop_last());
        let t = trim(ls.last());
        if utf8_len(t) > 1 {
            init.push(t)
        } else {
            init
        }
    }
}

/// The readable text of a page: the text of its content outside tags and skipped zones,
/// entities decoded, as trimmed lines of more than one byte.
pub open spec fn page_text(html: Seq<char>) -> Seq<char> {
    let body = html.subrange(content_start(html), html.len() as int);
    join(lines_longer_than_one_byte(lines(html_decoded(page_scan(body).3))), "\n"@)
}

fn zones_after_exec(z: Zones, t: &[char]) -> (r: Zones)
    ensures
        r == zones_after(z, t@),
{
    if starts_with_str(t, "<nav") {
        Zones { nav: true, ..z }
    } else if starts_with_str(t, "</nav") {
        Zones { nav: false, ..z }
    } else if starts_with_str(t, "<header") {
        Zones { header: true, ..z }
    } else if starts_with_str(t, "</header") {
        Zones { header: false, ..z }
    } else if starts_with_str(t, "<footer") {
        Zones { footer: true, ..z }
    } else if starts_with_str(t, "</footer") {
        Zones { footer: false, ..z }
    } else if starts_with_str(t, "<aside") {
        Zones { aside: true, ..z }
    } else if starts_with_str(t, "</aside") {
        Zones { aside: false, ..z }
    } else if starts_with_str(t, "<script") {
        Zones { script: true, ..z }
    } else if starts_with_str(t, "</script") {
        Zones { script: false, ..z }
    } else if starts_with_str(t, "<style") {
        Zones { style: true, ..z }
    } else if starts_with_str(t, "</style") {
        Zones { style: false, ..z }
    } else {
        z
    }
}

fn block_end_exec(t: &[char]) -> (b: bool)
    ensures
        b == block_end(t@),
{
    starts_with_str(t, "<br") || starts_with_str(t, "</p") || starts_with_str(t, "</div")
        || starts_with_str(t, "</h") || starts_with_str(t, "</li") || starts_with_str(t, "</tr")
}

fn push_break(out: &mut Vec<char>, len: &mut usize)
    requires
        *old(len) == utf8_len(old(out)@),
        *old(len) < MAX_CONTENT_LENGTH + 4,
    ensures
        final(out)@ == with_break(old(out)@),
        *final(len) == utf8_len(final(out)@),
        *final(len) <= *old(len) + 1,
{
    if out.len() > 0 && out[out.len() - 1] == '\n' {
        return ;
    }
    let ghost before = out@;
    out.push('\n');
    assert(out@.drop_last() =~= before);
    *len = *len + 1;
}

fn first_found(a: Option<usize>, b: Option<usize>) -> (r: Option<usize>)
    ensures
        match r {
            Some(x) => min_found(
                match a {
                    Some(v) => Some(v as int),
                    None => None,
                },
                match b {
                    Some(v) => Some(v as int),
                    None => None,
                },
            ) == Some(x as int),
            None => a is None && b is None,
        },
{
    match (a, b) {
        (Some(x), Some(y)) => Some(
            if x <= y {
                x
            } else {
                y
            },
        ),
        (Some(x), None) => Some(x),
        (None, y) => y,
    }
}

fn found_at(hay: &[char], needle: &str) -> (r: Option<usize>)
    ensures
        match r {
            Some(i) => find(hay@, needle@) == Some(i as int) && i <= hay@.len(),
            None => find(hay@, needle@) is None,
        },
{
    match find_str(hay, needle) {
        Some(i) => Some(i),
        None => None,
    }
}

fn keep_long_lines(ls: &Vec<Vec<char>>) -> (r: Vec<Vec<char>>)
    ensures
        views(r@) == lines_longer_than_one_byte(views(ls@)),
{
    let ghost lv = views(ls@);
    let mut r: Vec<Vec<char>> = Vec::new();
    let mut i: usize = 0;
    assert(lv.take(0) =~= Seq::<Seq<char>>::empty());
    while i < ls.len()
        invariant
            i <= ls@.len(),
            lv == views(ls@),
            views(r@) == lines_longer_than_one_byte(lv.take(i as int)),
        decreases ls.len() - i,
    {
        assert(lv.take(i + 1).drop_last() =~= lv.take(i as int));
        assert(lv.take(i + 1).last() == ls@[i as int]@);
        let t = trim_chars(&ls[i]);
        if crate::text::utf8_len_capped(&t, 2) > 1 {
            let ghost before = views(r@);
            r.push(t);
            assert(views(r@) =~= before.push(r@[r@.len() - 1]@));
        }
        i += 1;
    }
    assert(lv.take(lv.len() as int) =~= lv);
    r
}

// ─── What page text skips ──────────────────────────────────────────────────

/// One tag as it stands in a page: `<`, what it holds (no `<` or `>`), and `>`.
pub open spec fn is_tag(t: Seq<char>) -> bool {
    &&& t.len() >= 2
    &&& t[0] == '<'
    &&& t.last() == '>'
    &&& forall|i: int| 0 < i < t.len() - 1 ==> #[trigger] t[i] != '<' && t[i] != '>'
}

proof fn lemma_scan_push(x: Seq<char>, ch: char)
    ensures
        page_scan(x.push(ch)) == page_step(page_scan(x), ch),
{
    assert(x.push(ch).drop_last() =~= x);
}

/// Pages read alike so far read alike after the same rest.
proof fn lemma_scan_same_after(x: Seq<char>, y: Seq<char>, b: Seq<char>)
    requires
        page_scan(x) == page_scan(y),
    ensures
        page_scan(x + b) == page_scan(y + b),
    decreases b.len(),
{
    if b.len() > 0 {
        let bd = b.drop_last();
        lemma_scan_same_after(x, y, bd);
        assert(x + b =~= (x + bd).push(b.last()));
        assert(y + b =~= (y + bd).push(b.last()));
        lemma_scan_push(x + bd, b.last());
        lemma_scan_push(y + bd, b.last());
    }
}

/// Once the text kept reaches the limit, nothing further changes.
proof fn lemma_scan_frozen(x: Seq<char>, b: Seq<char>)
    requires
        utf8_len(page_scan(x).3) >= MAX_CONTENT_LENGTH,
    ensures
        page_scan(x + b) == page_scan(x),
    decreases b.len(),
{
    if b.len() > 0 {
        let bd = b.drop_last();
        lemma_scan_frozen(x, bd);
        assert(x + b =~= (x + bd).push(b.last()));
        lemma_scan_push(x + bd, b.last());
    }
}

/// Inside a skipped part, text without `<` changes nothing.
proof fn lemma_scan_skips(x: Seq<char>, c: Seq<char>)
    requires
        !page_scan(x).0,
        skipping(page_scan(x).2),
        forall|i: int| 0 <= i < c.len() ==> #[trigger] c[i] != '<',
    ensures
        page_scan(x + c) == page_scan(x),
    decreases c.len(),
{
    if c.len() > 0 {
        let cd = c.drop_last();
        assert forall|i: int| 0 <= i < cd.len() implies #[trigger] cd[i] != '<' by {
            assert(cd[i] == c[i]);
        }
        lemma_scan_skips(x, cd);
        assert(x + c =~= (x + cd).push(c.last()));
        lemma_scan_push(x + cd, c.last());
        assert(c.last() == c[c.len() - 1]);
    }
}

/// Reading a tag: while it is open the tag so far is held and nothing else changes.
proof fn lemma_scan_open_tag(x: Seq<char>, t: Seq<char>, j: int)
    requires
        is_tag(t),
        1 <= j < t.len(),
        utf8_len(page_scan(x).3) < MAX_CONTENT_LENGTH,
    ensures
        page_scan(x + t.take(j)) == (true, t.take(j), page_scan(x).2, page_scan(x).3),
    decreases j,
{
    let st = page_scan(x);
    if j == 1 {
        assert(x + t.take(1) =~= x.push(t[0]));
        lemma_scan_push(x, t[0]);
        assert(t.take(1) =~= seq!['<']);
    } else {
        lemma_scan_open_tag(x, t, j - 1);
        assert(x + t.take(j) =~= (x + t.take(j - 1)).push(t[j - 1]));
        lemma_scan_push(x + t.take(j - 1), t[j - 1]);
        assert(t[j - 1] != '<' && t[j - 1] != '>');
        assert(t.take(j - 1).push(t[j - 1]) =~= t.take(j));
    }
}

/// After a tag the reader is outside tags, with the zones the tag leaves.
proof fn lemma_scan_tag(x: Seq<char>, t: Seq<char>)
    requires
        is_tag(t),
        utf8_len(page_scan(x).3) < MAX_CONTENT_LENGTH,
    ensures
        !page_scan(x + t).0,
        page_scan(x + t).2 == zones_after(page_scan(x).2, unicode_lowercase(t)),
{
    let n = t.len() - 1;
    lemma_scan_open_tag(x, t, n);
    assert(x + t =~= (x + t.take(n)).push(t[n]));
    lemma_scan_push(x + t.take(n), t[n]);
    assert(t.take(n).push(t[n]) =~= t);
}

/// A tag whose lowercase starts with `<style` opens the style zone.
proof fn lemma_style_tag_opens(z: Zones, lower: Seq<char>)
    requires
        starts_with(lower, "<style"@),
    ensures
        zones_after(z, lower).style,
{
    reveal_strlit("<style");
    reveal_strlit("<nav");
    reveal_strlit("</nav");
    reveal_strlit("<header");
    reveal_strlit("</header");
    reveal_strlit("<footer");
    reveal_strlit("</footer");
    reveal_strlit("<aside");
    reveal_strlit("</aside");
    reveal_strlit("<script");
    reveal_strlit("</script");
    assert(lower.subrange(0, 6) =~= "<style"@);
    assert(lower.subrange(0, 6)[1] == 's' && lower.subrange(0, 6)[2] == 't');
    assert(lower[1] == 's' && lower[2] == 't');
    assert(!starts_with(lower, "<nav"@)) by {
        if starts_with(lower, "<nav"@) {
            assert(lower.subrange(0, 4)[1] == 'n');
        }
    }
    assert(!starts_with(lower, "</nav"@)) by {
        if starts_with(lower, "</nav"@) {
            assert(lower.subrange(0, 5)[1] == '/');
        }
    }
    assert(!starts_with(lower, "<header"@)) by {
        if starts_with(lower, "<header"@) {
            assert(lower.subrange(0, 7)[1] == 'h');
        }
    }
    assert(!starts_with(lower, "</header"@)) by {
        if starts_with(lower, "</header"@) {
            assert(lower.subrange(0, 8)[1] == '/');
        }
    }
    assert(!starts_with(lower, "<footer"@)) by {
        if starts_with(lower, "<footer"@) {
            assert(lower.subrange(0, 7)[1] == 'f');
        }
    }
    assert(!starts_with(lower, "</footer"@)) by {
        if starts_with(lower, "</footer"@) {
            assert(lower.subrange(0, 8)[1] == '/');
        }
    }
    assert(!starts_with(lower, "<aside"@)) by {
        if starts_with(lower, "<aside"@) {
            assert(lower.subrange(0, 6)[1] == 'a');
        }
    }
    assert(!starts_with(lower, "</aside"@)) by {
        if starts_with(lower, "</aside"@) {
            assert(lower.subrange(0, 7)[1] == '/');
        }
    }
    assert(!starts_with(lower, "<script"@)) by {
        if starts_with(lower, "<script"@) {
            assert(lower.subrange(0, 7)[2] == 'c');
        }
    }
    assert(!starts_with(lower, "</script"@)) by {
        if starts_with(lower, "</script"@) {
            assert(lower.subrange(0, 8)[1] == '/');
        }
    }
}

/// A page that opens with `<body` has its content from the start.
proof fn lemma_body_first(h: Seq<char>)
    requires
        starts_with(h, "<body"@),
    ensures
        content_start(h) == 0,
{
    crate::text::lemma_find_from(h, "<body"@, 0);
    crate::text::lemma_find_from(h, "<article"@, 0);
    crate::text::lemma_find_from(h, "<main"@, 0);
}

/// The text inside a `<style>` element never reaches the page text: in a page whose body
/// holds a style tag (any tag whose lowercase starts with `<style`), the CSS after it (text
/// without `<`) can be taken out without changing the page text.
pub proof fn law_style_text_is_skipped(a: Seq<char>, t: Seq<char>, c: Seq<char>, b: Seq<char>)
    requires
        is_tag(t),
        starts_with(unicode_lowercase(t), "<style"@),
        forall|i: int| 0 <= i < c.len() ==> #[trigger] c[i] != '<',
    ensures
        page_text("<body>"@ + a + t + c + b) == page_text("<body>"@ + a + t + b),
{
    reveal_strlit("<body>");
    reveal_strlit("<body");
    let x = "<body>"@ + a;
    let p = x + t;
    if utf8_len(page_scan(x).3) >= MAX_CONTENT_LENGTH {
        lemma_scan_frozen(x, t);
        lemma_scan_frozen(x, t + c);
        assert(x + (t + c) =~= p + c);
    } else {
        lemma_scan_tag(x, t);
        lemma_style_tag_opens(page_scan(x).2, unicode_lowercase(t));
        lemma_scan_skips(p, c);
    }
    assert(page_scan(p + c) == page_scan(p));
    lemma_scan_same_after(p + c, p, b);
    let h1 = "<body>"@ + a + t + c + b;
    let h2 = "<body>"@ + a + t + b;
    assert(h1 =~= p + c + b);
    assert(h2 =~= p + b);
    assert(h1.subrange(0, 5) =~= "<body"@);
    assert(h2.subrange(0, 5) =~= "<body"@);
    lemma_body_first(h1);
    lemma_body_first(h2);
    assert(h1.subrange(0, h1.len() as int) =~= h1);
    assert(h2.subrange(0, h2.len() as int) =~= h2);
}

/// The readable text of a page (see `page_text`).
pub fn strip_html_to_text(html: &str) -> (r: String)
    ensures
        r@ == page_text(html@),
{
    let h = chars_of(html);
    let start = match first_found(
        first_found(found_at(&h, "<article"), found_at(&h, "<main")),
        found_at(&h, "<body"),
    ) {
        Some(i) => i,
        None => 0,
    };
    let body = slice_chars(&h, start, h.len());
    let mut in_tag = false;
    let mut tag: Vec<char> = Vec::new();
    let mut zones = Zones {
        script: false,
        style: false,
        nav: false,
        header: false,
        footer: false,
        aside: false,
    };
    let mut out: Vec<char> = Vec::new();
    let mut out_len: usize = 0;
    let mut i: usize = 0;
    assert(body@.take(0) =~= Seq::<char>::empty());
    while i < body.len()
        invariant
            i <= body@.len(),
            page_scan(body@.take(i as int)) == (in_tag, tag@, zones, out@),
            out_len == utf8_len(out@),
            out_len <= MAX_CONTENT_LENGTH + 4,
        decreases body.len() - i,
    {
        assert(body@.take(i + 1).drop_last() =~= body@.take(i as int));
        assert(body@.take(i + 1).last() == body@[i as int]);
        let c = body[i];
        if out_len >= MAX_CONTENT_LENGTH {
        } else if c == '<' {
            in_tag = true;
            tag = Vec::new();
            tag.push('<');
            assert(tag@ =~= seq!['<']);
        } else if in_tag {
            tag.push(c);
            if c == '>' {
                let lower = to_lowercase(&tag);
                if block_end_exec(&lower) {
                    push_break(&mut out, &mut out_len);
                }
                zones = zones_after_exec(zones, &lower);
                in_tag = false;
            }
        } else if zones.script || zones.style || zones.nav || zones.header || zones.footer
            || zones.aside {
        } else {
            let ghost before = out@;
            out.push(c);
            assert(out@.drop_last() =~= before);
            out_len = out_len + char_utf8_width(c);
        }
        i += 1;
    }
    assert(body@.take(body@.len() as int) =~= body@);
    let decoded = html_decode_chars(&out);
    let kept = keep_long_lines(&lines_chars(&decoded));
    string_from_chars(&join_chars(&kept, &chars_of("\n")))
}


// ─── WeChat articles ───────────────────────────────────────────────────────

/// The trimmed lines that are not empty, joined by line breaks.
pub open spec fn nonempty_lines(ls: Seq<Seq<char>>) -> Seq<Seq<char>>
    decreases ls.len(),
{
    if ls.len() == 0 {
        Seq::empty()
    } else {
        let init = nonempty_lines(ls.drop_last());
        let t = trim(ls.last());
        if t.len() > 0 {
            init.push(t)
        } else {
            init
        }
    }
}

fn keep_nonempty_lines(ls: &Vec<Vec<char>>) -> (r: Vec<Vec<char>>)
    ensures
        views(r@) == nonempty_lines(views(ls@)),
{
    let ghost lv = views(ls@);
    let mut r: Vec<Vec<char>> = Vec::new();
    let mut i: usize = 0;
    assert(lv.take(0) =~= Seq::<Seq<char>>::empty());
    while i < ls.len()
        invariant
            i <= ls@.len(),
            lv == views(ls@),
            views(r@) == nonempty_lines(lv.take(i as int)),
        decreases ls.len() - i,
    {
        assert(lv.take(i + 1).drop_last() =~= lv.take(i as int));
        assert(lv.take(i + 1).last() == ls@[i as int]@);
        let t = trim_chars(&ls[i]);
        if t.len() > 0 {
            let ghost before = views(r@);
            r.push(t);
            assert(views(r@) =~= before.push(r@[r@.len() - 1]@));
        }
        i += 1;
    }
    assert(lv.take(lv.len() as int) =~= lv);
    r
}

fn tidy_lines(out: &Vec<char>) -> (r: String)
    ensures
        r@ == join(nonempty_lines(lines(html_decoded(out@))), "\n"@),
{
    let decoded = html_decode_chars(out);
    let kept = keep_nonempty_lines(&lines_chars(&decoded));
    string_from_chars(&join_chars(&kept, &chars_of("\n")))
}

/// The escapes of the newer WeChat format decoded: `\x0a` as a line break, `\x0d` dropped,
/// `\x26`, `\x27`, `\x22`, `\x3c`, `\x3e` as `&`, `'`, `"`, `<`, `>`.
pub open spec fn js_unescaped(raw: Seq<char>) -> Seq<char> {
    let s1 = crate::text::replace_all(raw, "\\x0a"@, "\n"@);
    let s2 = crate::text::replace_all(s1, "\\x0d"@, ""@);
    let s3 = crate::text::replace_all(s2, "\\x26"@, "&"@);
    let s4 = crate::text::replace_all(s3, "\\x27"@, "'"@);
    let s5 = crate::text::replace_all(s4, "\\x22"@, "\""@);
    let s6 = crate::text::replace_all(s5, "\\x3c"@, "<"@);
    crate::text::replace_all(s6, "\\x3e"@, ">"@)
}

/// One character of the decoded article: tags dropped, line breaks kept once in a row (also
/// inside tags). Nothing changes once the text passes the content limit.
pub open spec fn plain_step(st: (bool, Seq<char>), c: char) -> (bool, Seq<char>) {
    if utf8_len(st.1) > MAX_CONTENT_LENGTH {
        st
    } else if c == '<' {
        (true, st.1)
    } else if c == '>' {
        (false, st.1)
    } else if c == '\n' {
        (st.0, with_break(st.1))
    } else if st.0 {
        st
    } else {
        (st.0, st.1.push(c))
    }
}

pub open spec fn plain_scan(s: Seq<char>) -> (bool, Seq<char>)
    decreases s.len(),
{
    if s.len() == 0 {
        (false, Seq::empty())
    } else {
        plain_step(plain_scan(s.drop_last()), s.last())
    }
}

/// The article in `content_noencode: JsDecode('…')`: unescaped, tags dropped, entities
/// decoded, as non-empty trimmed lines; empty when the page has no such field.
pub open spec fn wechat_noencode_text(html: Seq<char>) -> Seq<char> {
    let marker = "content_noencode: JsDecode('"@;
    match find(html, marker) {
        None => Seq::empty(),
        Some(p) => {
            let rest = html.subrange(p + marker.len(), html.len() as int);
            match find(rest, "')"@) {
                None => Seq::empty(),
                Some(e) => join(
                    nonempty_lines(lines(html_decoded(plain_scan(js_unescaped(rest.take(e))).1))),
                    "\n"@,
                ),
            }
        },
    }
}

pub fn extract_wechat_content_noencode(html: &str) -> (r: String)
    ensures
        r@ == wechat_noencode_text(html@),
{
    proof {
        reveal_strlit("content_noencode: JsDecode('");
    }
    let h = chars_of(html);
    let marker = chars_of("content_noencode: JsDecode('");
    let p = match find_str(&h, "content_noencode: JsDecode('") {
        Some(p) => p,
        None => return String::new(),
    };
    let hl = h.len();
    let ml = marker.len();
    assert(marker@ == "content_noencode: JsDecode('"@);
    assert(p + ml <= hl);
    let rest = slice_chars(&h, p + ml, hl);
    let e = match found_at(&rest, "')") {
        Some(e) => e,
        None => return String::new(),
    };
    let raw = slice_chars(&rest, 0, e);
    let s1 = crate::text::replace_str(&raw, "\\x0a", "\n");
    let s2 = crate::text::replace_str(&s1, "\\x0d", "");
    let s3 = crate::text::replace_str(&s2, "\\x26", "&");
    let s4 = crate::text::replace_str(&s3, "\\x27", "'");
    let s5 = crate::text::replace_str(&s4, "\\x22", "\"");
    let s6 = crate::text::replace_str(&s5, "\\x3c", "<");
    let decoded = crate::text::replace_str(&s6, "\\x3e", ">");
    let mut in_tag = false;
    let mut out: Vec<char> = Vec::new();
    let mut out_len: usize = 0;
    let mut i: usize = 0;
    assert(decoded@.take(0) =~= Seq::<char>::empty());
    while i < decoded.len()
        invariant
            i <= decoded@.len(),
            plain_scan(decoded@.take(i as int)) == (in_tag, out@),
            out_len == utf8_len(out@),
            out_len <= MAX_CONTENT_LENGTH + 4,
        decreases decoded.len() - i,
    {
        assert(decoded@.take(i + 1).drop_last() =~= decoded@.take(i as int));
        assert(decoded@.take(i + 1).last() == decoded@[i as int]);
        let c = decoded[i];
        if out_len > MAX_CONTENT_LENGTH {
        } else if c == '<' {
            in_tag = true;
        } else if c == '>' {
            in_tag = false;
        } else if c == '\n' {
            push_break(&mut out, &mut out_len);
        } else if in_tag {
        } else {
            let ghost before = out@;
            out.push(c);
            assert(out@.drop_last() =~= before);
            out_len = out_len + char_utf8_width(c);
        }
        i += 1;
    }
    assert(decoded@.take(decoded@.len() as int) =~= decoded@);
    tidy_lines(&out)
}

/// Reading the classic article body: inside a tag, the depth of `div`/`section` nesting, the
/// text kept, and whether reading stopped.
pub type ArticleScan = (bool, int, Seq<char>, bool);

/// What follows a `<`: at most ten characters.
pub open spec fn upcoming(s: Seq<char>, i: int) -> Seq<char> {
    s.subrange(i + 1, if i + 11 <= s.len() {
        i + 11
    } else {
        s.len() as int
    })
}

/// Character `i` of the article body. A `<` opening a `div` or `section` goes one level
/// deeper, one closing them one level up, and reading stops when the body's own element
/// closes; `<br`, `</p`, `</div` and `</section` end a line. Reading also stops once the text
/// passes the content limit.
pub open spec fn article_step(s: Seq<char>, i: int, st: ArticleScan) -> ArticleScan {
    if st.3 {
        st
    } else if utf8_len(st.2) > MAX_CONTENT_LENGTH {
        (st.0, st.1, st.2, true)
    } else if s[i] == '<' {
        let up = upcoming(s, i);
        let opens = starts_with(up, "div"@) || starts_with(up, "section"@);
        let closes = !opens && (starts_with(up, "/div"@) || starts_with(up, "/section"@));
        let depth = if opens {
            st.1 + 1
        } else if closes {
            st.1 - 1
        } else {
            st.1
        };
        if closes && depth <= 0 {
            (true, depth, st.2, true)
        } else if starts_with(up, "br"@) || starts_with(up, "/p"@) || starts_with(up, "/div"@)
            || starts_with(up, "/section"@) {
            (true, depth, with_break(st.2), false)
        } else {
            (true, depth, st.2, false)
        }
    } else if s[i] == '>' {
        (false, st.1, st.2, false)
    } else if st.0 {
        st
    } else {
        (st.0, st.1, st.2.push(s[i]), false)
    }
}

pub open spec fn article_scan(s: Seq<char>, n: int) -> ArticleScan
    decreases n,
{
    if n <= 0 {
        (false, 1, Seq::empty(), false)
    } else {
        article_step(s, n - 1, article_scan(s, n - 1))
    }
}

/// The classic article: the text of the element `id="js_content"` after its opening tag,
/// entities decoded, as non-empty trimmed lines; empty when the page has no such element.
pub open spec fn wechat_article_text(html: Seq<char>) -> Seq<char> {
    match find(html, "id=\"js_content\""@) {
        None => Seq::empty(),
        Some(p) => {
            let rest = html.subrange(p, html.len() as int);
            match find(rest, ">"@) {
                None => Seq::empty(),
                Some(g) => {
                    let body = html.subrange(p + g + 1, html.len() as int);
                    join(
                        nonempty_lines(lines(html_decoded(article_scan(body, body.len() as int).2))),
                        "\n"@,
                    )
                },
            }
        },
    }
}

fn upcoming_exec(s: &[char], i: usize) -> (r: Vec<char>)
    requires
        i < s@.len(),
    ensures
        r@ == upcoming(s@, i as int),
{
    let end = if s.len() - i >= 11 {
        i + 11
    } else {
        s.len()
    };
    slice_chars(s, i + 1, end)
}

pub fn extract_wechat_content(html: &str) -> (r: String)
    ensures
        r@ == wechat_article_text(html@),
{
    let h = chars_of(html);
    let p = match found_at(&h, "id=\"js_content\"") {
        Some(p) => p,
        None => return String::new(),
    };
    let rest = slice_chars(&h, p, h.len());
    let g = match found_at(&rest, ">") {
        Some(g) => g,
        None => return String::new(),
    };
    proof {
        reveal_strlit(">");
        crate::text::lemma_find_from(rest@, ">"@, 0);
    }
    let body = slice_chars(&h, p + g + 1, h.len());
    let mut in_tag = false;
    let mut depth: i128 = 1;
    let mut out: Vec<char> = Vec::new();
    let mut out_len: usize = 0;
    let mut stopped = false;
    let mut i: usize = 0;
    while i < body.len()
        invariant
            i <= body@.len(),
            article_scan(body@, i as int) == (in_tag, depth as int, out@, stopped),
            out_len == utf8_len(out@),
            out_len <= MAX_CONTENT_LENGTH + 4,
            -(i as int) <= depth - 1 <= i,
        decreases body.len() - i,
    {
        let c = body[i];
        if stopped {
        } else if out_len > MAX_CONTENT_LENGTH {
            stopped = true;
        } else if c == '<' {
            let up = upcoming_exec(&body, i);
            let opens = starts_with_str(&up, "div") || starts_with_str(&up, "section");
            let closes = !opens && (starts_with_str(&up, "/div") || starts_with_str(
                &up,
                "/section",
            ));
            if opens {
                depth = depth + 1;
            } else if closes {
                depth = depth - 1;
            }
            in_tag = true;
            if closes && depth <= 0 {
                stopped = true;
            } else if starts_with_str(&up, "br") || starts_with_str(&up, "/p") || starts_with_str(
                &up,
                "/div",
            ) || starts_with_str(&up, "/section") {
                push_break(&mut out, &mut out_len);
            }
        } else if c == '>' {
            in_tag = false;
        } else if in_tag {
        } else {
            let ghost before = out@;
            out.push(c);
            assert(out@.drop_last() =~= before);
            out_len = out_len + char_utf8_width(c);
        }
        i += 1;
    }
    tidy_lines(&out)
}

} // verus!
