//! Bringing a local Markdown wiki into the knowledge base: which pages it no longer has, and
//! which `[[links]]` between its pages become edges. Reading the folder and storing pages
//! happen around the library.

use vstd::prelude::*;
use crate::local_wiki::{normalize_local_wiki_key, wiki_key, wiki_key_chars};
use crate::patterns::{encode_url_safe, group_spans, regex_group_spans, span_views, url_safe_base64};
use crate::text::{
    append, char_utf8_width, chars_of, concat_chars, lemma_split_on_nonempty, slice_chars,
    split_chars, split_on, starts_with, starts_with_str, string_from_chars, trim, trim_chars,
    utf8_len, views,
};
use crate::wiki_engine::{pair_views, string_views, vec_contains_string};

verus! {

broadcast use vstd::seq::group_seq_axioms;

/// Pages brought in from a local wiki carry this prefix before their file path as source.
pub const LOCAL_WIKI_SOURCE_PREFIX: &'static str = "local-wiki:";

/// The folder a sync is asked for: the given path trimmed, or an error when it is blank.
pub open spec fn requested_local_wiki(path: Seq<char>) -> Result<Seq<char>, Seq<char>> {
    if trim(path).len() == 0 {
        Err("Please provide a local knowledge base path"@)
    } else {
        Ok(trim(path))
    }
}

/// The folder a sync is asked for (see `requested_local_wiki`).
pub fn requested_local_wiki_path(path: &str) -> (r: Result<String, String>)
    ensures
        match r {
            Ok(p) => requested_local_wiki(path@) == Ok::<Seq<char>, Seq<char>>(p@),
            Err(e) => requested_local_wiki(path@) == Err::<Seq<char>, Seq<char>>(e@),
        },
{
    let t = trim_chars(&chars_of(path));
    if t.len() == 0 {
        Err("Please provide a local knowledge base path".to_owned())
    } else {
        Ok(string_from_chars(&t))
    }
}

/// The root of a local wiki: the folder's `wiki` subfolder when `wiki_is_dir` says it has
/// one, the folder itself otherwise.
pub fn local_wiki_root(path: &str, wiki_is_dir: bool) -> (r: String)
    ensures
        r@ == if wiki_is_dir {
            crate::workspace::joined_path(path@, "wiki"@)
        } else {
            path@
        },
{
    if wiki_is_dir {
        crate::workspace::join_path(path, "wiki")
    } else {
        string_from_chars(&chars_of(path))
    }
}

/// A stored page, as far as syncing reads it.
pub struct LocalPageRecord {
    pub id: String,
    pub source_message_id: Option<String>,
}

/// A page brought in from the local wiki that the folder no longer holds.
pub open spec fn is_stale_local(p: LocalPageRecord, seen: Seq<Seq<char>>) -> bool {
    match p.source_message_id {
        Some(s) => starts_with(s@, LOCAL_WIKI_SOURCE_PREFIX@) && !seen.contains(s@),
        None => false,
    }
}

/// The ids of such pages, in order.
pub open spec fn stale_ids(pages: Seq<LocalPageRecord>, seen: Seq<Seq<char>>) -> Seq<Seq<char>>
    decreases pages.len(),
{
    if pages.len() == 0 {
        Seq::empty()
    } else {
        let init = stale_ids(pages.drop_last(), seen);
        if is_stale_local(pages.last(), seen) {
            init.push(pages.last().id@)
        } else {
            init
        }
    }
}

/// The pages to remove after a sync: those from the local wiki whose source was not among the
/// files just read (`seen`).
pub fn stale_local_pages(pages: &Vec<LocalPageRecord>, seen: &Vec<String>) -> (r: Vec<String>)
    ensures
        string_views(r@) == stale_ids(pages@, string_views(seen@)),
{
    let ghost sv = string_views(seen@);
    let mut r: Vec<String> = Vec::new();
    let mut i: usize = 0;
    while i < pages.len()
        invariant
            i <= pages@.len(),
            sv == string_views(seen@),
            string_views(r@) == stale_ids(pages@.take(i as int), sv),
        decreases pages.len() - i,
    {
        let p = &pages[i];
        assert(pages@.take(i + 1).drop_last() =~= pages@.take(i as int));
        assert(pages@.take(i + 1).last() == pages@[i as int]);
        let stale = match &p.source_message_id {
            Some(s) => starts_with_str(&chars_of(s.as_str()), LOCAL_WIKI_SOURCE_PREFIX)
                && !vec_contains_string(seen, s),
            None => false,
        };
        if stale {
            let ghost before = r@;
            r.push(p.id.clone());
            assert(string_views(r@) =~= string_views(before).push(p.id@));
        }
        i += 1;
    }
    assert(pages@.take(pages@.len() as int) =~= pages@);
    r
}

/// A page just read from the local wiki: its stored id, the keys a link may name it by (its
/// path in the wiki, its file name and its title, normalized, in that order), and the keys
/// its own links name.
pub struct LocalWikiEntry {
    pub page_id: String,
    pub keys: Vec<String>,
    pub link_targets: Vec<String>,
}

pub open spec fn entry_view(e: LocalWikiEntry) -> (Seq<char>, Seq<Seq<char>>, Seq<Seq<char>>) {
    (e.page_id@, string_views(e.keys@), string_views(e.link_targets@))
}

pub open spec fn entry_views(es: Seq<LocalWikiEntry>) -> Seq<
    (Seq<char>, Seq<Seq<char>>, Seq<Seq<char>>),
> {
    Seq::new(es.len(), |i: int| entry_view(es[i]))
}

/// The page a key names: the last page read that has the key.
pub open spec fn key_owner(es: Seq<(Seq<char>, Seq<Seq<char>>, Seq<Seq<char>>)>, k: Seq<char>) -> Option<
    Seq<char>,
>
    decreases es.len(),
{
    if es.len() == 0 {
        None
    } else if es.last().1.contains(k) {
        Some(es.last().0)
    } else {
        key_owner(es.drop_last(), k)
    }
}

/// The pages one page links to, in the order of its links: each link whose key names another
/// page, once per target.
pub open spec fn linked_pages(
    es: Seq<(Seq<char>, Seq<Seq<char>>, Seq<Seq<char>>)>,
    from: Seq<char>,
    targets: Seq<Seq<char>>,
) -> Seq<Seq<char>>
    decreases targets.len(),
{
    if targets.len() == 0 {
        Seq::empty()
    } else {
        let prev = linked_pages(es, from, targets.drop_last());
        match key_owner(es, targets.last()) {
            Some(p) => if p != from && !prev.contains(p) {
                prev.push(p)
            } else {
                prev
            },
            None => prev,
        }
    }
}

/// The edges of the first `upto` pages, page by page.
pub open spec fn link_edges(es: Seq<(Seq<char>, Seq<Seq<char>>, Seq<Seq<char>>)>, upto: int) -> Seq<
    (Seq<char>, Seq<char>),
>
    decreases upto,
{
    if upto <= 0 || upto > es.len() {
        Seq::empty()
    } else {
        let e = es[upto - 1];
        link_edges(es, upto - 1) + linked_pages(es, e.0, e.2).map_values(
            |p: Seq<char>| (e.0, p),
        )
    }
}

fn key_owner_exec(entries: &Vec<LocalWikiEntry>, key: &String) -> (r: Option<String>)
    ensures
        crate::text::opt_string(r) == key_owner(entry_views(entries@), key@),
{
    let ghost es = entry_views(entries@);
    let mut j: usize = entries.len();
    assert(es.take(es.len() as int) =~= es);
    while j > 0
        invariant
            j <= entries@.len(),
            es == entry_views(entries@),
            key_owner(es, key@) == key_owner(es.take(j as int), key@),
        decreases j,
    {
        let e = &entries[j - 1];
        let ghost pre = es.take(j as int);
        assert(pre.drop_last() =~= es.take(j - 1));
        assert(pre.last() == entry_view(entries@[j - 1]));
        if vec_contains_string(&e.keys, key) {
            return Some(e.page_id.clone());
        }
        j -= 1;
    }
    assert(es.take(0) =~= Seq::<(Seq<char>, Seq<Seq<char>>, Seq<Seq<char>>)>::empty());
    None
}


/// The `[[link]]` edges to save after a sync, page by page and link by link: a link whose key
/// names another page becomes an edge to it, once per linking page.
pub fn plan_local_wiki_edges(entries: &Vec<LocalWikiEntry>) -> (r: Vec<(String, String)>)
    ensures
        pair_views(r@) == link_edges(entry_views(entries@), entries@.len() as int),
{
    let ghost es = entry_views(entries@);
    let mut r: Vec<(String, String)> = Vec::new();
    let mut i: usize = 0;
    while i < entries.len()
        invariant
            i <= entries@.len(),
            es == entry_views(entries@),
            pair_views(r@) == link_edges(es, i as int),
        decreases entries.len() - i,
    {
        let e = &entries[i];
        let ghost from = e.page_id@;
        let ghost ts = string_views(e.link_targets@);
        assert(es[i as int] == entry_view(entries@[i as int]));
        let ghost base = pair_views(r@);
        let mut linked: Vec<String> = Vec::new();
        let mut j: usize = 0;
        assert(ts.take(0) =~= Seq::<Seq<char>>::empty());
        assert(base + Seq::<Seq<char>>::empty().map_values(|p: Seq<char>| (from, p)) =~= base);
        while j < e.link_targets.len()
            invariant
                j <= e.link_targets@.len(),
                es == entry_views(entries@),
                i < entries@.len(),
                e == entries@[i as int],
                from == e.page_id@,
                ts == string_views(e.link_targets@),
                string_views(linked@) == linked_pages(es, from, ts.take(j as int)),
                pair_views(r@) == base + string_views(linked@).map_values(
                    |p: Seq<char>| (from, p),
                ),
            decreases e.link_targets.len() - j,
        {
            assert(ts.take(j + 1).drop_last() =~= ts.take(j as int));
            assert(ts.take(j + 1).last() == e.link_targets@[j as int]@);
            match key_owner_exec(entries, &e.link_targets[j]) {
                Some(p) => {
                    if !(p == e.page_id) && !vec_contains_string(&linked, &p) {
                        let ghost lv = string_views(linked@);
                        let ghost rv = pair_views(r@);
                        linked.push(p.clone());
                        r.push((e.page_id.clone(), p));
                        assert(string_views(linked@) =~= lv.push(p@));
                        assert(lv.push(p@).map_values(|q: Seq<char>| (from, q)) =~= lv.map_values(
                            |q: Seq<char>| (from, q),
                        ).push((from, p@)));
                        assert(pair_views(r@) =~= rv.push((from, p@)));
                    }
                },
                None => {},
            }
            j += 1;
        }
        assert(ts.take(ts.len() as int) =~= ts);
        assert(link_edges(es, i + 1) == link_edges(es, i as int) + linked_pages(
            es,
            es[i as int].0,
            es[i as int].2,
        ).map_values(|p: Seq<char>| (es[i as int].0, p)));
        i += 1;
    }
    r
}


/// A page never links to itself, and links to each page at most once.
pub proof fn law_linked_pages_distinct_and_not_self(
    es: Seq<(Seq<char>, Seq<Seq<char>>, Seq<Seq<char>>)>,
    from: Seq<char>,
    targets: Seq<Seq<char>>,
)
    ensures
        linked_pages(es, from, targets).no_duplicates(),
        forall|k: int|
            0 <= k < linked_pages(es, from, targets).len() ==> #[trigger] linked_pages(
                es,
                from,
                targets,
            )[k] != from,
    decreases targets.len(),
{
    if targets.len() > 0 {
        law_linked_pages_distinct_and_not_self(es, from, targets.drop_last());
        let prev = linked_pages(es, from, targets.drop_last());
        match key_owner(es, targets.last()) {
            Some(p) => {
                if p != from && !prev.contains(p) {
                    let cur = prev.push(p);
                    assert forall|a: int, b: int|
                        0 <= a < cur.len() && 0 <= b < cur.len() && a != b implies cur[a]
                        != cur[b] by {
                        if a == prev.len() as int {
                            assert(cur[b] == prev[b]);
                        } else if b == prev.len() as int {
                            assert(cur[a] == prev[a]);
                        } else {
                            assert(cur[a] == prev[a] && cur[b] == prev[b]);
                        }
                    }
                    assert forall|k: int| 0 <= k < cur.len() implies #[trigger] cur[k] != from by {
                        if k < prev.len() {
                            assert(cur[k] == prev[k]);
                        }
                    }
                }
            },
            None => {},
        }
    }
}

/// No edge of a sync goes from a page to itself.
pub proof fn law_no_local_self_links(
    es: Seq<(Seq<char>, Seq<Seq<char>>, Seq<Seq<char>>)>,
    upto: int,
)
    ensures
        forall|k: int|
            0 <= k < link_edges(es, upto).len() ==> #[trigger] link_edges(es, upto)[k].0
                != link_edges(es, upto)[k].1,
    decreases upto,
{
    if upto > 0 && upto <= es.len() {
        law_no_local_self_links(es, upto - 1);
        let e = es[upto - 1];
        law_linked_pages_distinct_and_not_self(es, e.0, e.2);
        let prev = link_edges(es, upto - 1);
        let add = linked_pages(es, e.0, e.2).map_values(|p: Seq<char>| (e.0, p));
        assert forall|k: int| 0 <= k < (prev + add).len() implies #[trigger] (prev + add)[k].0 != (
        prev + add)[k].1 by {
            if k >= prev.len() {
                assert((prev + add)[k] == add[k - prev.len()]);
                assert(linked_pages(es, e.0, e.2)[k - prev.len()] != e.0);
            } else {
                assert((prev + add)[k] == prev[k]);
            }
        }
    }
}


// ─── Links in a page's Markdown ────────────────────────────────────────────

/// A `[[target]]` link in local-wiki Markdown; the group is the target.
pub const WIKI_LINK_PATTERN: &'static str = "\\[\\[([^\\]]+)\\]\\]";

/// The distinct keys the link targets name, in order, without those into the raw notes.
pub open spec fn collect_links(targets: Seq<Seq<char>>) -> Seq<Seq<char>>
    decreases targets.len(),
{
    if targets.len() == 0 {
        Seq::empty()
    } else {
        let acc = collect_links(targets.drop_last());
        match wiki_key(targets.last()) {
            Some(k) => if starts_with(k, "raw/"@) || starts_with(k, "raw"@) || acc.contains(k) {
                acc
            } else {
                acc.push(k)
            },
            None => acc,
        }
    }
}

/// A page's links name each page once, and never a raw note.
pub proof fn law_local_links_distinct(targets: Seq<Seq<char>>)
    ensures
        collect_links(targets).no_duplicates(),
        forall|i: int|
            0 <= i < collect_links(targets).len() ==> !starts_with(
                #[trigger] collect_links(targets)[i],
                "raw"@,
            ),
    decreases targets.len(),
{
    if targets.len() > 0 {
        law_local_links_distinct(targets.drop_last());
        let acc = collect_links(targets.drop_last());
        match wiki_key(targets.last()) {
            Some(k) => {
                if !(starts_with(k, "raw/"@) || starts_with(k, "raw"@) || acc.contains(k)) {
                    let r = acc.push(k);
                    assert forall|i: int, j: int| 0 <= i < r.len() && 0 <= j < r.len() && i != j implies r[i] != r[j] by {
                        if i < acc.len() && j < acc.len() {
                        } else if i < acc.len() {
                            assert(r[j] == k);
                            assert(acc[i] == r[i]);
                        } else {
                            assert(r[i] == k);
                            assert(acc[j] == r[j]);
                        }
                    }
                    assert forall|i: int| 0 <= i < r.len() implies !starts_with(#[trigger] r[i], "raw"@) by {
                        if i < acc.len() {
                            assert(r[i] == acc[i]);
                        }
                    }
                }
            },
            None => {},
        }
    }
}

pub open spec fn span_groups(spans: Seq<(int, int, Seq<char>)>) -> Seq<Seq<char>> {
    Seq::new(spans.len(), |i: int| spans[i].2)
}

/// The pages a local-wiki page links to, as keys (see `collect_links`).
pub fn extract_local_wiki_links(markdown: &str) -> (r: Vec<String>)
    ensures
        string_views(r@) == collect_links(
            span_groups(regex_group_spans(WIKI_LINK_PATTERN@, markdown@)),
        ),
{
    let spans = group_spans(WIKI_LINK_PATTERN, markdown);
    let ghost g = span_groups(span_views(spans@));
    let mut links: Vec<String> = Vec::new();
    let mut i: usize = 0;
    assert(g.take(0) =~= Seq::<Seq<char>>::empty());
    while i < spans.len()
        invariant
            i <= spans@.len(),
            g == span_groups(span_views(spans@)),
            string_views(links@) == collect_links(g.take(i as int)),
        decreases spans.len() - i,
    {
        assert(g.take(i + 1).drop_last() =~= g.take(i as int));
        assert(g.take(i + 1).last() == spans@[i as int].2@);
        match normalize_local_wiki_key(spans[i].2.as_str()) {
            Some(k) => {
                let kc = chars_of(k.as_str());
                if !starts_with_str(&kc, "raw/") && !starts_with_str(&kc, "raw")
                    && !vec_contains_string(&links, &k) {
                    let ghost before = string_views(links@);
                    links.push(k);
                    assert(string_views(links@) =~= before.push(kc@));
                }
            },
            None => {},
        }
        i += 1;
    }
    assert(g.take(g.len() as int) =~= g);
    links
}

/// The text a link shows: the alias after `|`, else the last part of the path, trimmed.
pub open spec fn link_display(raw: Seq<char>) -> Seq<char> {
    let bar = split_on(raw, seq!['|']);
    let piece = if bar.len() >= 2 {
        bar[1]
    } else {
        split_on(raw, seq!['/']).last()
    };
    trim(piece)
}

/// What a link becomes in the stored page: a Markdown link to the page its key names, the key
/// in URL-safe base64; just its text when it names nothing or a raw note.
pub open spec fn rendered_link(raw: Seq<char>) -> Seq<char> {
    let d = link_display(raw);
    match wiki_key(raw) {
        Some(k) => if starts_with(k, "raw/"@) {
            d
        } else {
            "["@ + d + "](openwiki://page/"@ + url_safe_base64(k) + ")"@
        },
        None => d,
    }
}

fn link_display_chars(raw: &[char]) -> (r: Vec<char>)
    ensures
        r@ == link_display(raw@),
{
    let bar_sep = vec!['|'];
    let slash_sep = vec!['/'];
    proof {
        assert(bar_sep@ =~= seq!['|']);
        assert(slash_sep@ =~= seq!['/']);
    }
    let bar = split_chars(raw, &bar_sep);
    if bar.len() >= 2 {
        assert(views(bar@)[1] == bar@[1]@);
        trim_chars(&bar[1])
    } else {
        let parts = split_chars(raw, &slash_sep);
        proof {
            lemma_split_on_nonempty(raw@, seq!['/']);
            assert(views(parts@).last() == parts@[parts@.len() - 1]@);
        }
        trim_chars(&parts[parts.len() - 1])
    }
}

fn rendered_link_chars(raw: &[char]) -> (r: Vec<char>)
    ensures
        r@ == rendered_link(raw@),
{
    let d = link_display_chars(raw);
    match wiki_key_chars(raw) {
        Some(k) => {
            if starts_with_str(&k, "raw/") {
                d
            } else {
                let encoded = encode_url_safe(string_from_chars(&k).as_str());
                let a = concat_chars(&chars_of("["), &d);
                let a = append(a, "](openwiki://page/");
                let a = append(a, encoded.as_str());
                append(a, ")")
            }
        },
        None => d,
    }
}

/// The character position of byte `b`, searching from position `n`: the position whose
/// prefix takes exactly `b` bytes in UTF-8, if there is one.
pub open spec fn char_at_byte(s: Seq<char>, b: int, n: int) -> Option<int>
    decreases s.len() - n,
{
    if n < 0 || n > s.len() {
        None
    } else if utf8_len(s.take(n)) == b {
        Some(n)
    } else if n == s.len() || utf8_len(s.take(n)) > b {
        None
    } else {
        char_at_byte(s, b, n + 1)
    }
}

pub(crate) fn char_position(s: &[char], b: usize) -> (r: Option<usize>)
    ensures
        r matches Some(n) ==> char_at_byte(s@, b as int, 0) == Some(n as int) && n <= s@.len(),
        r is None ==> char_at_byte(s@, b as int, 0) is None,
{
    let mut n: usize = 0;
    let mut acc: usize = 0;
    assert(s@.take(0) =~= Seq::<char>::empty());
    while n < s.len() && acc < b
        invariant
            n <= s@.len(),
            acc == utf8_len(s@.take(n as int)),
            acc <= b,
            char_at_byte(s@, b as int, 0) == char_at_byte(s@, b as int, n as int),
        decreases s.len() - n,
    {
        let w = char_utf8_width(s[n]);
        assert(s@.take(n + 1).drop_last() =~= s@.take(n as int));
        assert(s@.take(n + 1).last() == s@[n as int]);
        if b - acc < w {
            assert(utf8_len(s@.take(n + 1)) > b);
            assert(char_at_byte(s@, b as int, n + 1) is None) by {
                if n + 1 < s@.len() {
                    assert(char_at_byte(s@, b as int, n + 1) == None::<int>);
                }
            }
            return None;
        }
        acc = acc + w;
        n = n + 1;
    }
    if acc == b {
        Some(n)
    } else {
        None
    }
}

/// Page Markdown with each `[[link]]` replaced as `rendered_link` says, the text between
/// links kept, from match `i` on and text position `pos` on.
pub open spec fn render_from(
    s: Seq<char>,
    spans: Seq<(int, int, Seq<char>)>,
    i: int,
    pos: int,
) -> Seq<char>
    decreases spans.len() - i,
{
    if i < 0 || i >= spans.len() {
        s.subrange(pos, s.len() as int)
    } else {
        match (char_at_byte(s, spans[i].0, 0), char_at_byte(s, spans[i].1, 0)) {
            (Some(a), Some(b)) => if pos <= a && a <= b {
                s.subrange(pos, a) + rendered_link(spans[i].2) + render_from(s, spans, i + 1, b)
            } else {
                s.subrange(pos, s.len() as int)
            },
            _ => s.subrange(pos, s.len() as int),
        }
    }
}

pub(crate) proof fn lemma_char_at_byte_bound(s: Seq<char>, b: int, n: int)
    ensures
        char_at_byte(s, b, n) matches Some(k) ==> 0 <= k <= s.len(),
    decreases s.len() - n,
{
    if 0 <= n && n < s.len() && utf8_len(s.take(n)) != b && utf8_len(s.take(n)) <= b {
        lemma_char_at_byte_bound(s, b, n + 1);
    }
}

/// The Markdown stored for a local-wiki page: its `[[links]]` become links into the
/// knowledge base (see `render_from`).
pub fn render_local_wiki_markdown(markdown: &str) -> (r: String)
    ensures
        r@ == render_from(markdown@, regex_group_spans(WIKI_LINK_PATTERN@, markdown@), 0, 0),
{
    let s = chars_of(markdown);
    let spans = group_spans(WIKI_LINK_PATTERN, markdown);
    let ghost sv = span_views(spans@);
    let ghost whole = render_from(s@, sv, 0, 0);
    let mut out: Vec<char> = Vec::new();
    let mut pos: usize = 0;
    let mut i: usize = 0;
    let mut done = false;
    assert(out@ + whole =~= whole);
    while !done
        invariant
            sv == span_views(spans@),
            whole == render_from(s@, sv, 0, 0),
            pos <= s@.len(),
            i <= spans@.len(),
            done ==> out@ == whole,
            !done ==> out@ + render_from(s@, sv, i as int, pos as int) == whole,
        decreases spans@.len() - i + (if done {
            0int
        } else {
            1int
        }),
    {
        let tail = slice_chars(&s, pos, s.len());
        if i >= spans.len() {
            out = concat_chars(&out, &tail);
            done = true;
        } else {
            let a = char_position(&s, spans[i].0);
            let b = char_position(&s, spans[i].1);
            proof {
                lemma_char_at_byte_bound(s@, sv[i as int].0, 0);
                lemma_char_at_byte_bound(s@, sv[i as int].1, 0);
            }
            match (a, b) {
                (Some(a), Some(b)) => {
                    if pos <= a && a <= b {
                        let ghost prev = out@;
                        let piece = slice_chars(&s, pos, a);
                        let link = rendered_link_chars(&chars_of(spans[i].2.as_str()));
                        out = concat_chars(&out, &piece);
                        out = concat_chars(&out, &link);
                        assert(prev + render_from(s@, sv, i as int, pos as int) == prev + (piece@
                            + link@ + render_from(s@, sv, i + 1, b as int)));
                        assert(out@ + render_from(s@, sv, i + 1, b as int) =~= prev + (piece@
                            + link@ + render_from(s@, sv, i + 1, b as int)));
                        pos = b;
                        i = i + 1;
                    } else {
                        out = concat_chars(&out, &tail);
                        done = true;
                    }
                },
                _ => {
                    out = concat_chars(&out, &tail);
                    done = true;
                },
            }
        }
    }
    string_from_chars(&out)
}


// ─── A page read from the folder ───────────────────────────────────────────

/// The source a page read from file `path` is stored with.
pub fn local_source_id(path: &str) -> (r: String)
    ensures
        r@ == LOCAL_WIKI_SOURCE_PREFIX@ + path@,
{
    string_from_chars(&append(chars_of(LOCAL_WIKI_SOURCE_PREFIX), path))
}

/// Dashboards are tagged as maps and indexes; other pages get no tags.
pub open spec fn local_page_tags(page_type: Seq<char>) -> Seq<Seq<char>> {
    if page_type == "dashboard"@ {
        seq!["地图"@, "索引"@]
    } else {
        Seq::empty()
    }
}

pub fn local_page_tag_list(page_type: &str) -> (r: Vec<String>)
    ensures
        string_views(r@) == local_page_tags(page_type@),
{
    let mut r: Vec<String> = Vec::new();
    if crate::text::eq_str(&chars_of(page_type), "dashboard") {
        r.push("地图".to_owned());
        r.push("索引".to_owned());
    }
    assert(string_views(r@) =~= local_page_tags(page_type@));
    r
}

pub open spec fn opt_key(k: Option<Seq<char>>) -> Seq<Seq<char>> {
    match k {
        Some(x) => seq![x],
        None => Seq::empty(),
    }
}

/// The keys a page can be linked by: its path in the wiki without extension, its file name
/// without extension and its title, each normalized, those that normalize to something.
pub open spec fn page_keys(relative_key: Seq<char>, stem: Option<Seq<char>>, title: Seq<char>) -> Seq<
    Seq<char>,
> {
    let stem_key = match stem {
        Some(s) => wiki_key(s),
        None => None,
    };
    opt_key(wiki_key(relative_key)) + opt_key(stem_key) + opt_key(wiki_key(title))
}

fn push_key(keys: Vec<String>, k: Option<String>) -> (r: Vec<String>)
    ensures
        string_views(r@) == string_views(keys@) + opt_key(crate::text::opt_string(k)),
{
    let mut keys = keys;
    let ghost before = string_views(keys@);
    match k {
        Some(x) => {
            keys.push(x);
        },
        None => {},
    }
    assert(string_views(keys@) =~= before + opt_key(crate::text::opt_string(k)));
    keys
}

pub fn local_page_keys(relative_key: &str, stem: &Option<String>, title: &str) -> (r: Vec<String>)
    ensures
        string_views(r@) == page_keys(relative_key@, crate::text::opt_string(*stem), title@),
{
    let keys = push_key(Vec::new(), normalize_local_wiki_key(relative_key));
    let stem_key = match stem {
        Some(s) => normalize_local_wiki_key(s.as_str()),
        None => None,
    };
    let keys = push_key(keys, stem_key);
    let r = push_key(keys, normalize_local_wiki_key(title));
    assert(Seq::<Seq<char>>::empty() + opt_key(wiki_key(relative_key@)) =~= opt_key(
        wiki_key(relative_key@),
    ));
    r
}

// ─── Building a page from a file ───────────────────────────────────────────

/// A page read from a file of the local wiki.
pub struct LocalWikiDoc {
    pub page_type: String,
    pub title: String,
    /// What the page's slug is made from: the file name.
    pub slug_seed: String,
    pub body_markdown: String,
    pub summary: Option<String>,
    pub tags: Vec<String>,
    pub source_message_id: String,
    pub link_targets: Vec<String>,
}

/// `(type, title, slug seed, body, summary, tags, source id, links)` of a page read from a file.
pub type DocView = (
    Seq<char>,
    Seq<char>,
    Seq<char>,
    Seq<char>,
    Option<Seq<char>>,
    Seq<Seq<char>>,
    Seq<char>,
    Seq<Seq<char>>,
);

pub open spec fn doc_view(d: LocalWikiDoc) -> DocView {
    (
        d.page_type@,
        d.title@,
        d.slug_seed@,
        d.body_markdown@,
        crate::text::opt_string(d.summary),
        string_views(d.tags@),
        d.source_message_id@,
        string_views(d.link_targets@),
    )
}

pub open spec fn doc_result_view(r: Result<Option<LocalWikiDoc>, String>) -> Result<
    Option<DocView>,
    Seq<char>,
> {
    match r {
        Ok(Some(d)) => Ok(Some(doc_view(d))),
        Ok(None) => Ok(None),
        Err(e) => Err(e@),
    }
}

/// The page a file yields, from the name of its folder, its file name without extension, its
/// path as text and its Markdown: the type its folder names (none for other folders), the first
/// `# ` heading as title (else the file name, else `Untitled`), the file name as slug seed, the
/// rendered body, the summary, the tags of its type, the file's source id and its links. A file
/// whose folder has no name is refused.
pub open spec fn local_doc_of(
    folder: Option<Seq<char>>,
    stem: Option<Seq<char>>,
    path: Seq<char>,
    md: Seq<char>,
) -> Result<Option<DocView>, Seq<char>> {
    match folder {
        None => Err("Cannot determine page type for "@ + path),
        Some(f) => match crate::local_wiki::folder_page_type(f) {
            None => Ok(None),
            Some(t) => {
                let name = match stem {
                    Some(s) => s,
                    None => "Untitled"@,
                };
                Ok(
                    Some(
                        (
                            t,
                            crate::local_wiki::local_wiki_title(md, name),
                            name,
                            render_from(md, regex_group_spans(WIKI_LINK_PATTERN@, md), 0, 0),
                            crate::local_wiki::local_wiki_summary(md),
                            local_page_tags(t),
                            LOCAL_WIKI_SOURCE_PREFIX@ + path,
                            collect_links(span_groups(regex_group_spans(WIKI_LINK_PATTERN@, md))),
                        ),
                    ),
                )
            },
        },
    }
}

pub fn build_local_wiki_doc(
    folder_name: &Option<String>,
    file_stem: &Option<String>,
    path_text: &str,
    raw_markdown: &str,
) -> (r: Result<Option<LocalWikiDoc>, String>)
    ensures
        doc_result_view(r) == local_doc_of(
            crate::text::opt_string(*folder_name),
            crate::text::opt_string(*file_stem),
            path_text@,
            raw_markdown@,
        ),
{
    let folder = match folder_name {
        Some(f) => f,
        None => {
            return Err(string_from_chars(&append(chars_of("Cannot determine page type for "), path_text)));
        },
    };
    let page_type = match crate::local_wiki::local_wiki_type_from_folder(folder.as_str()) {
        Some(t) => t,
        None => return Ok(None),
    };
    let name: String = match file_stem {
        Some(s) => s.clone(),
        None => "Untitled".to_owned(),
    };
    let doc = LocalWikiDoc {
        title: crate::local_wiki::extract_local_wiki_title(raw_markdown, name.as_str()),
        body_markdown: render_local_wiki_markdown(raw_markdown),
        summary: crate::local_wiki::extract_local_wiki_summary(raw_markdown),
        tags: local_page_tag_list(page_type.as_str()),
        source_message_id: local_source_id(path_text),
        link_targets: extract_local_wiki_links(raw_markdown),
        page_type,
        slug_seed: name,
    };
    Ok(Some(doc))
}

/// The slug tried at `attempt` for a local page (counting from 0): the slug of its seed, or
/// `type-id` when that slug is empty; then the seed's slug followed by `-2`, `-3` and so on.
pub open spec fn local_slug_candidate_of(
    seed: Seq<char>,
    page_type: Seq<char>,
    page_id: Seq<char>,
    attempt: nat,
) -> Seq<char> {
    let base = crate::local_wiki::local_slug(seed);
    if attempt == 0 {
        if base.len() == 0 {
            page_type + "-"@ + page_id
        } else {
            base
        }
    } else {
        base + "-"@ + crate::text::decimal(attempt + 1)
    }
}

pub fn local_slug_candidate(seed: &str, page_type: &str, page_id: &str, attempt: u64) -> (r: String)
    requires
        attempt < u64::MAX,
    ensures
        r@ == local_slug_candidate_of(seed@, page_type@, page_id@, attempt as nat),
{
    let base = crate::local_wiki::slugify_local_wiki_title(seed);
    if attempt == 0 {
        if chars_of(base.as_str()).len() == 0 {
            string_from_chars(&append(append(chars_of(page_type), "-"), page_id))
        } else {
            base
        }
    } else {
        let head = append(chars_of(base.as_str()), "-");
        string_from_chars(&concat_chars(&head, &crate::text::u64_decimal(attempt + 1)))
    }
}

/// The tags stored for a local page: its tags as a JSON list, or none when it has none.
pub fn local_tags_json(tags: &Vec<String>) -> (r: Option<String>)
    ensures
        crate::text::opt_string(r) == if tags@.len() == 0 {
            None
        } else {
            Some(crate::compile_steps::json_string_list_text(string_views(tags@)))
        },
{
    if tags.len() == 0 {
        None
    } else {
        Some(crate::compile_steps::string_list_json(tags))
    }
}

} // verus!
