//! The steps of compiling a capture into wiki pages that read the model's replies: which pages
//! the discovery reply asks to create or update, what a created page holds, what an updated
//! page keeps, and how many of a page's sources are active or stale; and the fallback source
//! page a capture gets when no page was touched, with the tags pages store.

use vstd::prelude::*;
use crate::text::{chars_of, eq_str, join, join_chars, opt_string, or_default, take_chars, trim, views};
use crate::models::CapturedContent;
use crate::metadata::{strip_json_fence, unfenced};
use crate::wiki_engine::{
    body_text, build_manual_source_body, infer_manual_page_title, is_file_import_source,
    is_import_name, manual_page_title, manual_source_body, parse_tag_terms, slug, slugify,
    string_views, tag_terms, truncate_chars,
};
use crate::qa::{json_string_list, opt_string_seq, parse_string_list, present_entries};

verus! {

broadcast use vstd::seq::group_seq_axioms;

/// The title a page to create gets when the discovery reply names none.
pub const UNTITLED_PAGE: &'static str = "Untitled";

/// The page type a page to create gets when the discovery reply names none.
pub const DEFAULT_PAGE_TYPE: &'static str = "concept";

/// The fields of a discovery reply's JSON object: for each entry of `creates`, its `title` and
/// `page_type` when they are text; for each entry of `updates`, its `page_id` when it is text.
/// An array that is missing (or not an array) is `None`.
pub struct DiscoverFields {
    pub creates: Option<Vec<(Option<String>, Option<String>)>>,
    pub updates: Option<Vec<Option<String>>>,
}

pub open spec fn pair_views(v: Seq<(Option<String>, Option<String>)>) -> Seq<
    (Option<Seq<char>>, Option<Seq<char>>),
> {
    Seq::new(v.len(), |i: int| (opt_string(v[i].0), opt_string(v[i].1)))
}

pub open spec fn discover_view(f: DiscoverFields) -> (
    Option<Seq<(Option<Seq<char>>, Option<Seq<char>>)>>,
    Option<Seq<Option<Seq<char>>>>,
) {
    (
        match f.creates {
            Some(c) => Some(pair_views(c@)),
            None => None,
        },
        match f.updates {
            Some(u) => Some(opt_string_seq(u@)),
            None => None,
        },
    )
}

/// What serde_json reads of a text as a discovery reply (see `DiscoverFields`); `None` when the
/// text is not JSON.
pub uninterp spec fn json_discover_fields(text: Seq<char>) -> Option<
    (Option<Seq<(Option<Seq<char>>, Option<Seq<char>>)>>, Option<Seq<Option<Seq<char>>>>),
>;

/// `serde_json::from_str::<Value>(text)` and the create and update entries read from it.
/// Trusted: the result is a function of the text.
#[verifier::external_body]
fn parse_discover_json(text: &str) -> (r: Option<DiscoverFields>)
    ensures
        match r {
            Some(f) => json_discover_fields(text@) == Some(discover_view(f)),
            None => json_discover_fields(text@) is None,
        },
{
    let v: serde_json::Value = serde_json::from_str(text).ok()?;
    let s = |x: Option<&serde_json::Value>| Some(x?.as_str()?.to_string());
    let arr = |k: &str| v.get(k).and_then(|x| x.as_array()).cloned();
    Some(DiscoverFields {
        creates: arr("creates").map(|a| a.iter().map(|x| (s(x.get("title")), s(x.get("page_type")))).collect()),
        updates: arr("updates").map(|a| a.iter().map(|x| s(x.get("page_id"))).collect()),
    })
}

/// The pages a discovery reply asks for: each page to create with its title and type, and the
/// ids of the pages to update.
pub struct DiscoverPlan {
    pub creates: Vec<(String, String)>,
    pub updates: Vec<String>,
}

pub open spec fn plan_view(p: DiscoverPlan) -> (Seq<(Seq<char>, Seq<char>)>, Seq<Seq<char>>) {
    (Seq::new(p.creates@.len(), |i: int| (p.creates@[i].0@, p.creates@[i].1@)), string_views(p.updates@))
}

pub open spec fn or_text(o: Option<Seq<char>>, d: Seq<char>) -> Seq<char> {
    match o {
        Some(v) => v,
        None => d,
    }
}

/// The ids that are present and not empty, in order.
pub open spec fn nonempty_entries(s: Seq<Option<Seq<char>>>) -> Seq<Seq<char>>
    decreases s.len(),
{
    if s.len() == 0 {
        Seq::empty()
    } else {
        let rest = nonempty_entries(s.drop_last());
        match s.last() {
            Some(v) => if v.len() > 0 {
                rest.push(v)
            } else {
                rest
            },
            None => rest,
        }
    }
}

/// The plan for a discovery reply that read as `f`: each create entry with `Untitled` and
/// `concept` for a missing title and type; each update entry with a non-empty page id. A
/// missing array asks for nothing.
pub open spec fn discover_plan(
    f: (Option<Seq<(Option<Seq<char>>, Option<Seq<char>>)>>, Option<Seq<Option<Seq<char>>>>),
) -> (Seq<(Seq<char>, Seq<char>)>, Seq<Seq<char>>) {
    let creates = match f.0 {
        Some(c) => Seq::new(
            c.len(),
            |i: int| (or_text(c[i].0, UNTITLED_PAGE@), or_text(c[i].1, DEFAULT_PAGE_TYPE@)),
        ),
        None => Seq::empty(),
    };
    let updates = match f.1 {
        Some(u) => nonempty_entries(u),
        None => Seq::empty(),
    };
    (creates, updates)
}

fn text_or(o: Option<String>, d: &str) -> (r: String)
    ensures
        r@ == or_text(opt_string(o), d@),
{
    match o {
        Some(v) => v,
        None => d.to_owned(),
    }
}

fn nonempty_ids(entries: Vec<Option<String>>) -> (r: Vec<String>)
    ensures
        string_views(r@) == nonempty_entries(opt_string_seq(entries@)),
{
    let mut r: Vec<String> = Vec::new();
    let n = entries.len();
    let mut i: usize = 0;
    while i < n
        invariant
            n == entries.len(),
            i <= n,
            string_views(r@) == nonempty_entries(opt_string_seq(entries@.take(i as int))),
        decreases n - i,
    {
        proof {
            assert(opt_string_seq(entries@.take(i as int + 1)).drop_last() == opt_string_seq(
                entries@.take(i as int),
            ));
        }
        match &entries[i] {
            Some(s) => {
                if chars_of(s.as_str()).len() > 0 {
                    r.push(s.clone());
                }
            },
            None => {},
        }
        i = i + 1;
        proof {
            assert(string_views(r@) == nonempty_entries(opt_string_seq(entries@.take(i as int))));
        }
    }
    proof {
        assert(entries@.take(n as int) == entries@);
    }
    r
}

/// The plan for a discovery reply whose JSON read as `fields`.
pub fn plan_discovered(fields: DiscoverFields) -> (r: DiscoverPlan)
    ensures
        plan_view(r) == discover_plan(discover_view(fields)),
{
    let mut creates: Vec<(String, String)> = Vec::new();
    let ghost cv = discover_view(fields).0;
    match fields.creates {
        Some(c) => {
            let n = c.len();
            let mut i: usize = 0;
            while i < n
                invariant
                    n == c.len(),
                    i <= n,
                    cv == Some(pair_views(c@)),
                    creates@.len() == i,
                    forall|k: int|
                        0 <= k < i ==> (#[trigger] creates@[k]).0@ == or_text(
                            opt_string(c@[k].0),
                            UNTITLED_PAGE@,
                        ) && creates@[k].1@ == or_text(opt_string(c@[k].1), DEFAULT_PAGE_TYPE@),
                decreases n - i,
            {
                let t = text_or(c[i].0.clone(), UNTITLED_PAGE);
                let p = text_or(c[i].1.clone(), DEFAULT_PAGE_TYPE);
                creates.push((t, p));
                i = i + 1;
            }
        },
        None => {},
    }
    let updates = match fields.updates {
        Some(u) => nonempty_ids(u),
        None => Vec::new(),
    };
    let r = DiscoverPlan { creates, updates };
    proof {
        let want = discover_plan(discover_view(fields));
        assert(plan_view(r).0 =~= want.0);
    }
    r
}

/// Reads the discovery reply `raw`: its JSON, with any Markdown fence removed, through
/// serde_json, then `plan_discovered`. `None` when the reply is not JSON.
pub fn read_discover_reply(raw: &str) -> (r: Option<DiscoverPlan>)
    ensures
        match json_discover_fields(unfenced(raw@)) {
            Some(f) => r is Some && plan_view(r->0) == discover_plan(f),
            None => r is None,
        },
{
    let cleaned = strip_json_fence(raw);
    match parse_discover_json(cleaned.as_str()) {
        Some(f) => Some(plan_discovered(f)),
        None => None,
    }
}

/// The fields of a page reply's JSON object: `title`, `body_markdown`, `summary` and
/// `page_type` when they are text, and `tags` written back as JSON text whatever it holds.
pub struct PageReplyFields {
    pub title: Option<String>,
    pub body_markdown: Option<String>,
    pub summary: Option<String>,
    pub page_type: Option<String>,
    pub tags_json: Option<String>,
}

pub open spec fn page_reply_view(f: PageReplyFields) -> (
    Option<Seq<char>>,
    Option<Seq<char>>,
    Option<Seq<char>>,
    Option<Seq<char>>,
    Option<Seq<char>>,
) {
    (
        opt_string(f.title),
        opt_string(f.body_markdown),
        opt_string(f.summary),
        opt_string(f.page_type),
        opt_string(f.tags_json),
    )
}

/// What serde_json reads of a text as a page reply (see `PageReplyFields`); `None` when the
/// text is not JSON.
pub uninterp spec fn json_page_fields(text: Seq<char>) -> Option<
    (
        Option<Seq<char>>,
        Option<Seq<char>>,
        Option<Seq<char>>,
        Option<Seq<char>>,
        Option<Seq<char>>,
    ),
>;

/// `serde_json::from_str::<Value>(text)` and the page fields read from it. Trusted: the result
/// is a function of the text.
#[verifier::external_body]
fn parse_page_json(text: &str) -> (r: Option<PageReplyFields>)
    ensures
        match r {
            Some(f) => json_page_fields(text@) == Some(page_reply_view(f)),
            None => json_page_fields(text@) is None,
        },
{
    let v: serde_json::Value = serde_json::from_str(text).ok()?;
    let s = |x: Option<&serde_json::Value>| Some(x?.as_str()?.to_string());
    Some(PageReplyFields {
        title: s(v.get("title")),
        body_markdown: s(v.get("body_markdown")),
        summary: s(v.get("summary")),
        page_type: s(v.get("page_type")),
        tags_json: v.get("tags").map(|x| x.to_string()),
    })
}

/// Reads a page reply `raw`: its JSON, with any Markdown fence removed, through serde_json.
/// `None` when the reply is not JSON.
pub fn read_page_reply(raw: &str) -> (r: Option<PageReplyFields>)
    ensures
        match r {
            Some(f) => json_page_fields(unfenced(raw@)) == Some(page_reply_view(f)),
            None => json_page_fields(unfenced(raw@)) is None,
        },
{
    let cleaned = strip_json_fence(raw);
    parse_page_json(cleaned.as_str())
}

/// The text of a page created for the discovery entry `(title, page_type)` from the reply: the
/// reply's title and type over the entry's, its body (empty when missing), its summary and
/// tags, and the slug made from the final title (before it is made unique).
pub struct NewPageText {
    pub title: String,
    pub slug: String,
    pub page_type: String,
    pub body_markdown: String,
    pub summary: Option<String>,
    pub tags: Option<String>,
}

pub open spec fn new_page_view(p: NewPageText) -> (
    Seq<char>,
    Seq<char>,
    Seq<char>,
    Seq<char>,
    Option<Seq<char>>,
    Option<Seq<char>>,
) {
    (p.title@, p.slug@, p.page_type@, p.body_markdown@, opt_string(p.summary), opt_string(p.tags))
}

pub open spec fn new_page_of(
    title: Seq<char>,
    page_type: Seq<char>,
    reply: (
        Option<Seq<char>>,
        Option<Seq<char>>,
        Option<Seq<char>>,
        Option<Seq<char>>,
        Option<Seq<char>>,
    ),
) -> (Seq<char>, Seq<char>, Seq<char>, Seq<char>, Option<Seq<char>>, Option<Seq<char>>) {
    let t = or_text(reply.0, title);
    (t, slug(t), or_text(reply.3, page_type), or_text(reply.1, Seq::empty()), reply.2, reply.4)
}

pub fn new_page_text(title: &str, page_type: &str, reply: PageReplyFields) -> (r: NewPageText)
    ensures
        new_page_view(r) == new_page_of(title@, page_type@, page_reply_view(reply)),
{
    proof {
        reveal_strlit("");
    }
    let t = text_or(reply.title, title);
    let s = slugify(t.as_str());
    NewPageText {
        title: t,
        slug: s,
        page_type: text_or(reply.page_type, page_type),
        body_markdown: text_or(reply.body_markdown, ""),
        summary: reply.summary,
        tags: reply.tags_json,
    }
}

/// What an updated page holds: the reply's body, summary and tags, each over the page's own
/// when the reply has none.
pub struct UpdatedPageText {
    pub body_markdown: String,
    pub summary: Option<String>,
    pub tags: Option<String>,
}

pub open spec fn or_opt(o: Option<Seq<char>>, d: Option<Seq<char>>) -> Option<Seq<char>> {
    match o {
        Some(v) => Some(v),
        None => d,
    }
}

pub fn updated_page_text(
    body_markdown: &str,
    summary: &Option<String>,
    tags: &Option<String>,
    reply: PageReplyFields,
) -> (r: UpdatedPageText)
    ensures
        r.body_markdown@ == or_text(opt_string(reply.body_markdown), body_markdown@),
        opt_string(r.summary) == or_opt(opt_string(reply.summary), opt_string(*summary)),
        opt_string(r.tags) == or_opt(opt_string(reply.tags_json), opt_string(*tags)),
{
    UpdatedPageText {
        body_markdown: text_or(reply.body_markdown, body_markdown),
        summary: match reply.summary {
            Some(s) => Some(s),
            None => summary.clone(),
        },
        tags: match reply.tags_json {
            Some(t) => Some(t),
            None => tags.clone(),
        },
    }
}

/// How many entries of `s` equal `x`.
pub open spec fn count_of(s: Seq<Seq<char>>, x: Seq<char>) -> nat
    decreases s.len(),
{
    if s.len() == 0 {
        0
    } else {
        count_of(s.drop_last(), x) + if s.last() == x {
            1nat
        } else {
            0nat
        }
    }
}

proof fn lemma_count_bounded(s: Seq<Seq<char>>, x: Seq<char>)
    ensures
        count_of(s, x) <= s.len(),
    decreases s.len(),
{
    if s.len() > 0 {
        lemma_count_bounded(s.drop_last(), x);
    }
}

/// How many of a page's sources are `active`, and how many are `stale`.
pub fn count_source_statuses(statuses: &Vec<String>) -> (r: (usize, usize))
    ensures
        r.0 == count_of(string_views(statuses@), "active"@),
        r.1 == count_of(string_views(statuses@), "stale"@),
{
    let mut active: usize = 0;
    let mut stale: usize = 0;
    let n = statuses.len();
    let mut i: usize = 0;
    while i < n
        invariant
            n == statuses.len(),
            i <= n,
            active == count_of(string_views(statuses@).take(i as int), "active"@),
            stale == count_of(string_views(statuses@).take(i as int), "stale"@),
        decreases n - i,
    {
        proof {
            let t = string_views(statuses@).take(i as int + 1);
            assert(t.drop_last() == string_views(statuses@).take(i as int));
            lemma_count_bounded(string_views(statuses@).take(i as int), "active"@);
            lemma_count_bounded(string_views(statuses@).take(i as int), "stale"@);
        }
        let c = chars_of(statuses[i].as_str());
        if eq_str(&c, "active") {
            active = active + 1;
        }
        if eq_str(&c, "stale") {
            stale = stale + 1;
        }
        i = i + 1;
    }
    proof {
        assert(string_views(statuses@).take(n as int) == string_views(statuses@));
    }
    (active, stale)
}

// ─── Page tags ─────────────────────────────────────────────────────────────

/// How serde_json writes one character inside a JSON string: a quote or a backslash behind a
/// backslash; backspace, tab, newline, form feed and carriage return as a backslash and `b`,
/// `t`, `n`, `f` or `r`; the other control characters as a backslash, `u00` and two lowercase
/// hex digits; any other character as itself.
pub open spec fn json_escaped_char(c: char) -> Seq<char> {
    if c == '"' {
        seq!['\\', '"']
    } else if c == '\\' {
        seq!['\\', '\\']
    } else if c == '\u{8}' {
        seq!['\\', 'b']
    } else if c == '\t' {
        seq!['\\', 't']
    } else if c == '\n' {
        seq!['\\', 'n']
    } else if c == '\u{c}' {
        seq!['\\', 'f']
    } else if c == '\r' {
        seq!['\\', 'r']
    } else if (c as u32) < 32 {
        seq![
            '\\',
            'u',
            '0',
            '0',
            crate::wiki_engine::hex_char((c as u32 / 16) as int),
            crate::wiki_engine::hex_char((c as u32 % 16) as int),
        ]
    } else {
        seq![c]
    }
}

/// A text as serde_json writes it inside a JSON string.
pub open spec fn json_escaped(s: Seq<char>) -> Seq<char>
    decreases s.len(),
{
    if s.len() == 0 {
        Seq::empty()
    } else {
        json_escaped(s.drop_last()) + json_escaped_char(s.last())
    }
}

/// What `serde_json::to_string` writes for a list of strings: `[`, each string quoted and
/// escaped, separated by commas, and `]`.
pub open spec fn json_string_list_text(items: Seq<Seq<char>>) -> Seq<char> {
    "["@ + crate::text::join(items.map_values(|s: Seq<char>| "\""@ + json_escaped(s) + "\""@), ","@)
        + "]"@
}

/// `serde_json::to_string(items)`. Trusted: serde_json's compact writer gives exactly
/// `json_string_list_text` of the items (writing a list of strings cannot fail).
#[verifier::external_body]
pub(crate) fn string_list_json(items: &Vec<String>) -> (r: String)
    ensures
        r@ == json_string_list_text(string_views(items@)),
{
    serde_json::to_string(items).unwrap_or_default()
}

/// The tags a page stores for a capture's tags: its distinct tag terms as a JSON list, or none
/// when it has no terms.
pub open spec fn page_tags_for(tags: Option<Seq<char>>) -> Option<Seq<char>> {
    let terms = tag_terms(or_default(tags, Seq::empty()));
    if terms.len() == 0 {
        None
    } else {
        Some(json_string_list_text(terms))
    }
}

pub fn normalize_content_tags_for_page(tags: &Option<String>) -> (r: Option<String>)
    ensures
        opt_string(r) == page_tags_for(opt_string(*tags)),
{
    proof {
        reveal_strlit("");
    }
    let raw: &str = match tags {
        Some(t) => t.as_str(),
        None => "",
    };
    let terms = parse_tag_terms(raw);
    if terms.len() == 0 {
        None
    } else {
        Some(string_list_json(&terms))
    }
}

/// The tag terms of a page's stored tags: those of the entries joined by commas when they are a
/// JSON list of strings, those of the text itself otherwise, none when there are no tags.
pub open spec fn page_tag_terms(raw: Option<Seq<char>>) -> Seq<Seq<char>> {
    match raw {
        None => Seq::empty(),
        Some(r) => match json_string_list(r) {
            Some(items) => tag_terms(join(items, ","@)),
            None => tag_terms(r),
        },
    }
}

pub fn parse_page_tags(raw_tags: &Option<String>) -> (r: Vec<String>)
    ensures
        string_views(r@) == page_tag_terms(opt_string(*raw_tags)),
{
    let raw = match raw_tags {
        Some(r) => r,
        None => return Vec::new(),
    };
    match parse_string_list(raw.as_str()) {
        Some(items) => {
            let mut pieces: Vec<Vec<char>> = Vec::new();
            let mut i: usize = 0;
            while i < items.len()
                invariant
                    i <= items.len(),
                    views(pieces@) == string_views(items@).take(i as int),
                decreases items.len() - i,
            {
                let ghost before = views(pieces@);
                pieces.push(chars_of(items[i].as_str()));
                proof {
                    assert(views(pieces@) == before.push(items@[i as int]@));
                    assert(string_views(items@).take(i as int + 1) == string_views(items@).take(
                        i as int,
                    ).push(items@[i as int]@));
                }
                i = i + 1;
            }
            proof {
                assert(string_views(items@).take(items.len() as int) == string_views(items@));
            }
            let joined = join_chars(&pieces, &chars_of(","));
            let text = crate::text::string_from_chars(&joined);
            parse_tag_terms(text.as_str())
        },
        None => parse_tag_terms(raw.as_str()),
    }
}

// ─── Fallback source page ──────────────────────────────────────────────────

/// The type of the fallback page: `case` for a capture imported from a file, `source`
/// otherwise.
pub open spec fn fallback_page_type(c: CapturedContent) -> Seq<char> {
    if is_import_name(c.source_app@) {
        "case"@
    } else {
        "source"@
    }
}

/// The fallback page's summary: the capture's summary when it is not blank, else the first 120
/// characters of its text.
pub open spec fn fallback_summary(c: CapturedContent) -> Seq<char> {
    match opt_string(c.summary) {
        Some(s) if trim(s).len() > 0 => s,
        _ => take_chars(or_default(body_text(c), Seq::empty()), 120),
    }
}

/// What the fallback page of a capture holds.
pub struct FallbackPageText {
    pub page_type: String,
    pub title: String,
    pub summary: String,
    pub tags: Option<String>,
    pub body_markdown: String,
}

pub fn fallback_page_text(content: &CapturedContent) -> (r: FallbackPageText)
    ensures
        r.page_type@ == fallback_page_type(*content),
        r.title@ == manual_page_title(*content),
        r.summary@ == fallback_summary(*content),
        opt_string(r.tags) == page_tags_for(opt_string(content.tags)),
        r.body_markdown@ == manual_source_body(*content, fallback_page_type(*content)),
{
    proof {
        reveal_strlit("");
    }
    let page_type: &str = if is_file_import_source(content) {
        "case"
    } else {
        "source"
    };
    let summary = match &content.summary {
        Some(s) if crate::text::trim_chars(&chars_of(s.as_str())).len() > 0 => s.clone(),
        _ => {
            let text: &str = match &content.clean_content {
                Some(t) => t.as_str(),
                None => match &content.raw_text {
                    Some(t) => t.as_str(),
                    None => "",
                },
            };
            truncate_chars(text, 120)
        },
    };
    FallbackPageText {
        page_type: page_type.to_owned(),
        title: infer_manual_page_title(content),
        summary,
        tags: normalize_content_tags_for_page(&content.tags),
        body_markdown: build_manual_source_body(content, page_type),
    }
}

/// Whether a page already linked to the capture is refreshed as its fallback page: one of the
/// fallback type, or a `source` page when the fallback is a `case`.
pub fn reuses_as_fallback(target_type: &str, existing_type: &str) -> (r: bool)
    ensures
        r == (existing_type@ == target_type@ || (target_type@ == "case"@ && existing_type@
            == "source"@)),
{
    let e = chars_of(existing_type);
    let t = chars_of(target_type);
    crate::text::eq_chars(&e, &t) || (eq_str(&t, "case") && eq_str(&e, "source"))
}

// ─── Theme choice ──────────────────────────────────────────────────────────

/// A capture is attached to at most this many themes.
pub const MAX_THEMES: usize = 3;

/// What serde_json reads of a text as a theme reply: the entries of its `theme_ids` array, each
/// present when it is text (`None` when there is no such array); `None` when the text is not
/// JSON.
pub uninterp spec fn json_theme_ids(text: Seq<char>) -> Option<Option<Seq<Option<Seq<char>>>>>;

/// `serde_json::from_str::<Value>(text)` and the entries of its `theme_ids` array. Trusted: the
/// result is a function of the text.
#[verifier::external_body]
fn parse_theme_ids(text: &str) -> (r: Option<Option<Vec<Option<String>>>>)
    ensures
        match r {
            Some(ids) => json_theme_ids(text@) == Some(
                match ids {
                    Some(v) => Some(opt_string_seq(v@)),
                    None => None,
                },
            ),
            None => json_theme_ids(text@) is None,
        },
{
    let v: serde_json::Value = serde_json::from_str(text).ok()?;
    Some(v.get("theme_ids").and_then(|x| x.as_array()).map(|a| a.iter().map(|x| x.as_str().map(|t| t.to_string())).collect()))
}

/// The themes chosen from a reply's entries: those that are text and name one of the offered
/// themes, in order, at most three.
pub open spec fn chosen_from(entries: Seq<Option<Seq<char>>>, valid: Seq<Seq<char>>) -> Seq<
    Seq<char>,
>
    decreases entries.len(),
{
    if entries.len() == 0 {
        Seq::empty()
    } else {
        let rest = chosen_from(entries.drop_last(), valid);
        match entries.last() {
            Some(id) => if valid.contains(id) && rest.len() < MAX_THEMES {
                rest.push(id)
            } else {
                rest
            },
            None => rest,
        }
    }
}

pub open spec fn theme_choice(
    ids: Option<Seq<Option<Seq<char>>>>,
    valid: Seq<Seq<char>>,
) -> Seq<Seq<char>> {
    match ids {
        Some(entries) => chosen_from(entries, valid),
        None => Seq::empty(),
    }
}

fn contains_text(list: &Vec<String>, x: &String) -> (r: bool)
    ensures
        r == string_views(list@).contains(x@),
{
    let xc = chars_of(x.as_str());
    let mut i: usize = 0;
    while i < list.len()
        invariant
            i <= list.len(),
            xc@ == x@,
            forall|k: int| 0 <= k < i ==> list@[k]@ != x@,
        decreases list.len() - i,
    {
        if crate::text::eq_chars(&chars_of(list[i].as_str()), &xc) {
            proof {
                assert(string_views(list@)[i as int] == x@);
            }
            return true;
        }
        i = i + 1;
    }
    proof {
        if string_views(list@).contains(x@) {
            let k = choose|k: int| 0 <= k < string_views(list@).len() && string_views(list@)[k] == x@;
            assert(list@[k]@ == x@);
        }
    }
    false
}

/// The themes chosen from the entries of a reply's `theme_ids` array.
pub fn chosen_themes(ids: Option<Vec<Option<String>>>, valid_ids: &Vec<String>) -> (r: Vec<String>)
    ensures
        string_views(r@) == theme_choice(
            match ids {
                Some(v) => Some(opt_string_seq(v@)),
                None => None,
            },
            string_views(valid_ids@),
        ),
{
    let entries = match ids {
        Some(v) => v,
        None => return Vec::new(),
    };
    let ghost ev = opt_string_seq(entries@);
    let ghost vv = string_views(valid_ids@);
    let mut r: Vec<String> = Vec::new();
    let n = entries.len();
    let mut i: usize = 0;
    while i < n
        invariant
            n == entries.len(),
            i <= n,
            ev == opt_string_seq(entries@),
            vv == string_views(valid_ids@),
            string_views(r@) == chosen_from(ev.take(i as int), vv),
        decreases n - i,
    {
        proof {
            assert(ev.take(i as int + 1).drop_last() == ev.take(i as int));
            assert(ev.take(i as int + 1).last() == opt_string(entries@[i as int]));
        }
        match &entries[i] {
            Some(id) => {
                if contains_text(valid_ids, id) && r.len() < MAX_THEMES {
                    r.push(id.clone());
                }
            },
            None => {},
        }
        i = i + 1;
    }
    proof {
        assert(ev.take(n as int) == ev);
    }
    r
}

/// Reads a theme reply `raw`: its JSON, with any Markdown fence removed, through serde_json,
/// then `chosen_themes`. `None` when the reply is not JSON.
pub fn read_theme_choice(raw: &str, valid_ids: &Vec<String>) -> (r: Option<Vec<String>>)
    ensures
        match json_theme_ids(unfenced(raw@)) {
            Some(ids) => r is Some && string_views(r->0@) == theme_choice(
                ids,
                string_views(valid_ids@),
            ),
            None => r is None,
        },
{
    let cleaned = strip_json_fence(raw);
    match parse_theme_ids(cleaned.as_str()) {
        Some(ids) => Some(chosen_themes(ids, valid_ids)),
        None => None,
    }
}

/// A capture is attached to at most three themes, each one of those offered.
pub proof fn law_theme_choice_bounded_and_offered(
    entries: Seq<Option<Seq<char>>>,
    valid: Seq<Seq<char>>,
)
    ensures
        chosen_from(entries, valid).len() <= MAX_THEMES,
        forall|k: int|
            0 <= k < chosen_from(entries, valid).len() ==> valid.contains(
                #[trigger] chosen_from(entries, valid)[k],
            ),
    decreases entries.len(),
{
    if entries.len() > 0 {
        law_theme_choice_bounded_and_offered(entries.drop_last(), valid);
    }
}

// ─── The assessment of a capture ───────────────────────────────────────────

/// What serde_json reads of a text as an assessment reply: its `should_compile` when it is a
/// boolean, its `reason` when it is text, and its `knowledge_score` written back as JSON when
/// it is a number; when the text is not JSON, the parser's error message.
pub uninterp spec fn json_assessment_fields(text: Seq<char>) -> Result<
    (Option<bool>, Option<Seq<char>>, Option<Seq<char>>),
    Seq<char>,
>;

/// `serde_json::from_str::<Value>(text)`, then the three assessment fields; on failure the
/// error's message (`to_string`). Trusted: the result is a function of the text.
#[verifier::external_body]
fn parse_assessment_json(text: &str) -> (r: Result<(Option<bool>, Option<String>, Option<String>), String>)
    ensures
        match r {
            Ok(f) => json_assessment_fields(text@) == Ok::<(Option<bool>, Option<Seq<char>>, Option<Seq<char>>), Seq<char>>((f.0, opt_string(f.1), opt_string(f.2))),
            Err(e) => json_assessment_fields(text@) == Err::<(Option<bool>, Option<Seq<char>>, Option<Seq<char>>), Seq<char>>(e@),
        },
{
    match serde_json::from_str::<serde_json::Value>(text) {
        Ok(v) => Ok((
            v.get("should_compile").and_then(|x| x.as_bool()),
            v.get("reason").and_then(|x| x.as_str()).map(|x| x.to_string()),
            v.get("knowledge_score").filter(|x| x.is_number()).map(|x| x.to_string()),
        )),
        Err(e) => Err(e.to_string()),
    }
}

/// The start of a reply shown in a parse error: its first 200 bytes, or all of it when it is
/// shorter; `None` when byte 200 falls inside a character, where the slice panics.
pub open spec fn parse_error_excerpt(s: Seq<char>) -> Option<Seq<char>> {
    if crate::text::utf8_len(s) <= 200 {
        Some(s)
    } else {
        match crate::wiki_engine::char_count_for_bytes(s, 200) {
            Some(k) => Some(s.take(k)),
            None => None,
        }
    }
}

/// A reply whose reading does not panic: one that parses, or whose parse error can show its
/// start.
pub open spec fn assessment_reply_admitted(raw: Seq<char>) -> bool {
    json_assessment_fields(unfenced(raw)) is Err ==> parse_error_excerpt(unfenced(raw)) is Some
}

/// What an assessment reply (fence removed) says: whether to compile the capture (false
/// unless it says so), why (`unknown` when it does not say), and its knowledge score as
/// written (the score is a float, read around the library; none when the reply has no
/// number there). A reply that is not JSON is an error naming the parser's complaint and the
/// reply's start.
pub open spec fn assessment_of(raw: Seq<char>) -> Result<(bool, Seq<char>, Option<Seq<char>>), Seq<char>> {
    let cleaned = unfenced(raw);
    match json_assessment_fields(cleaned) {
        Ok(f) => Ok(
            (
                match f.0 {
                    Some(b) => b,
                    None => false,
                },
                or_default(f.1, "unknown"@),
                f.2,
            ),
        ),
        Err(e) => Err(
            "JSON parse failed: "@ + e + " — raw: "@ + match parse_error_excerpt(cleaned) {
                Some(x) => x,
                None => Seq::empty(),
            },
        ),
    }
}

fn excerpt_of(s: &Vec<char>) -> (r: Option<Vec<char>>)
    ensures
        match r {
            Some(v) => parse_error_excerpt(s@) == Some(v@),
            None => parse_error_excerpt(s@) is None,
        },
{
    if crate::text::utf8_len_capped(s.as_slice(), 201) <= 200 {
        Some(s.clone())
    } else {
        crate::wiki_engine::prefix_of_bytes(s.as_slice(), 200)
    }
}

/// The assessment an AI reply gives of a capture (see `assessment_of`).
pub fn read_assessment_reply(raw: &str) -> (r: Result<(bool, String, Option<String>), String>)
    requires
        assessment_reply_admitted(raw@),
    ensures
        match r {
            Ok(x) => assessment_of(raw@) == Ok::<(bool, Seq<char>, Option<Seq<char>>), Seq<char>>((x.0, x.1@, opt_string(x.2))),
            Err(e) => assessment_of(raw@) == Err::<(bool, Seq<char>, Option<Seq<char>>), Seq<char>>(e@),
        },
{
    let cleaned = strip_json_fence(raw);
    match parse_assessment_json(cleaned.as_str()) {
        Ok((should, reason, score)) => {
            let why = match reason {
                Some(t) => t,
                None => "unknown".to_owned(),
            };
            Ok((
                match should {
                    Some(b) => b,
                    None => false,
                },
                why,
                score,
            ))
        },
        Err(e) => {
            let excerpt = match excerpt_of(&chars_of(cleaned.as_str())) {
                Some(x) => x,
                None => Vec::new(),
            };
            let a = crate::text::append(chars_of("JSON parse failed: "), e.as_str());
            let b = crate::text::append(a, " — raw: ");
            Err(crate::text::string_from_chars(&crate::text::concat_chars(&b, &excerpt)))
        },
    }
}

/// The assessment an AI reply gives of a capture, when reading it does not panic (see
/// `assessment_reply_admitted`); `None` for a reply that is not JSON and whose 200-byte start
/// would cut a character.
pub fn read_assessment_reply_checked(raw: &str) -> (r: Option<Result<(bool, String, Option<String>), String>>)
    ensures
        r is None <==> !assessment_reply_admitted(raw@),
        match r {
            Some(Ok(x)) => assessment_of(raw@) == Ok::<(bool, Seq<char>, Option<Seq<char>>), Seq<char>>((x.0, x.1@, opt_string(x.2))),
            Some(Err(e)) => assessment_of(raw@) == Err::<(bool, Seq<char>, Option<Seq<char>>), Seq<char>>(e@),
            None => true,
        },
{
    let cleaned = strip_json_fence(raw);
    let parses = match parse_assessment_json(cleaned.as_str()) {
        Ok(_) => true,
        Err(_) => false,
    };
    if parses || excerpt_of(&chars_of(cleaned.as_str())).is_some() {
        Some(read_assessment_reply(raw))
    } else {
        None
    }
}

} // verus!
