//! Reading a local Markdown wiki (folders of cases, concepts, themes and dashboards): page
//! keys, slugs, titles and summaries, how a `[[link]]` is looked up, and the texts handed to
//! the question-answering model.

use vstd::prelude::*;
use crate::text::{
    append, chars_of, concat_chars, join, lines, lines_chars, opt_string, replace_all, slice_chars,
    split_on, starts_with, string_from_chars, take_chars, take_prefix, trim, trim_chars, views,
};
use crate::order::lex_lt;
use crate::wiki_engine::string_views;

verus! {

broadcast use vstd::seq::group_seq_axioms;

/// What `str::to_lowercase` gives for a text.
pub uninterp spec fn unicode_lowercase(s: Seq<char>) -> Seq<char>;

/// `s.to_lowercase()`. Trusted: std's Unicode lowercase mapping of the whole text, a
/// function of the text alone.
#[verifier::external_body]
pub(crate) fn to_lowercase(s: &[char]) -> (r: Vec<char>)
    ensures
        r@ == unicode_lowercase(s@),
{
    let st: String = s.iter().collect();
    st.to_lowercase().chars().collect()
}

/// The page type a folder of the local wiki holds.
pub open spec fn folder_page_type(folder: Seq<char>) -> Option<Seq<char>> {
    if folder == "cases"@ {
        Some("case"@)
    } else if folder == "concepts"@ {
        Some("concept"@)
    } else if folder == "themes"@ {
        Some("theme"@)
    } else if folder == "dashboards"@ {
        Some("dashboard"@)
    } else {
        None
    }
}

/// The folders of a local wiki that hold pages, in the order they are read; each holds a type
/// of page.
pub fn local_wiki_folders() -> (r: Vec<String>)
    ensures
        string_views(r@) == seq!["cases"@, "concepts"@, "themes"@, "dashboards"@],
        forall|i: int| 0 <= i < r@.len() ==> folder_page_type(#[trigger] r@[i]@) is Some,
{
    let mut r: Vec<String> = Vec::new();
    r.push("cases".to_owned());
    r.push("concepts".to_owned());
    r.push("themes".to_owned());
    r.push("dashboards".to_owned());
    proof {
        assert(string_views(r@) =~= seq!["cases"@, "concepts"@, "themes"@, "dashboards"@]);
    }
    r
}

pub fn local_wiki_type_from_folder(folder_name: &str) -> (r: Option<String>)
    ensures
        opt_string(r) == folder_page_type(folder_name@),
{
    let f = chars_of(folder_name);
    if crate::text::eq_str(&f, "cases") {
        Some(string_from_chars(&chars_of("case")))
    } else if crate::text::eq_str(&f, "concepts") {
        Some(string_from_chars(&chars_of("concept")))
    } else if crate::text::eq_str(&f, "themes") {
        Some(string_from_chars(&chars_of("theme")))
    } else if crate::text::eq_str(&f, "dashboards") {
        Some(string_from_chars(&chars_of("dashboard")))
    } else {
        None
    }
}

/// `s.trim_matches('/')`.
pub open spec fn trim_slashes(s: Seq<char>) -> Seq<char> {
    crate::text::trim_end_char(crate::text::trim_start_char(s, '/'), '/')
}

/// The key a wiki link target is known by: the part before any `|` alias and `#` anchor,
/// trimmed of whitespace and slashes, backslashes as `/`, without a `.md` ending, lowercased;
/// `None` when nothing is left.
pub open spec fn wiki_key(raw: Seq<char>) -> Option<Seq<char>> {
    let before_alias = split_on(raw, seq!['|'])[0];
    let before_anchor = split_on(before_alias, seq!['#'])[0];
    let candidate = trim_slashes(trim(before_anchor));
    if candidate.len() == 0 {
        None
    } else {
        let slashed = replace_all(candidate, "\\"@, "/"@);
        let stem = trim(
            match crate::text::strip_suffix(slashed, ".md"@) {
                Some(s) => s,
                None => slashed,
            },
        );
        if stem.len() == 0 {
            None
        } else {
            Some(unicode_lowercase(stem))
        }
    }
}

fn first_piece(s: &[char], sep: char) -> (r: Vec<char>)
    ensures
        r@ == split_on(s@, seq![sep])[0],
{
    let seps = vec![sep];
    proof {
        assert(seps@ =~= seq![sep]);
    }
    let pieces = crate::text::split_chars(s, &seps);
    proof {
        crate::text::lemma_split_on_nonempty(s@, seq![sep]);
        assert(views(pieces@)[0] == pieces@[0]@);
    }
    slice_chars(&pieces[0], 0, pieces[0].len())
}

pub fn wiki_key_chars(raw: &[char]) -> (r: Option<Vec<char>>)
    ensures
        crate::text::opt_chars(r) == wiki_key(raw@),
{
    let a = first_piece(raw, '|');
    let b = first_piece(&a, '#');
    let t = trim_chars(&b);
    let c1 = crate::text::trim_start_matches_char(&t, '/');
    let candidate = crate::text::trim_end_matches_char(&c1, '/');
    if candidate.len() == 0 {
        return None;
    }
    let slashed = crate::text::replace_str(&candidate, "\\", "/");
    let stem0 = match crate::text::strip_suffix_chars(&slashed, &chars_of(".md")) {
        Some(s) => s,
        None => slashed,
    };
    let stem = trim_chars(&stem0);
    if stem.len() == 0 {
        None
    } else {
        Some(to_lowercase(&stem))
    }
}

/// Normalises a wiki link target or file path into the key pages are looked up by.
pub fn normalize_local_wiki_key(raw: &str) -> (r: Option<String>)
    ensures
        opt_string(r) == wiki_key(raw@),
{
    match wiki_key_chars(&chars_of(raw)) {
        Some(v) => Some(string_from_chars(&v)),
        None => None,
    }
}

/// What a local-wiki slug keeps of one character: letters, digits, `-` and `_` lowercased,
/// a space as `-`, CJK unified ideographs as they are, anything else as `-`.
pub open spec fn local_slug_char(c: char) -> char {
    if crate::reader::unicode_alphanumeric(c) || c == '-' || c == '_' {
        crate::wiki_engine::lowercase_first(c)
    } else if c == ' ' {
        '-'
    } else if 0x4E00 <= (c as u32) <= 0x9FFF {
        c
    } else {
        '-'
    }
}

/// The non-empty pieces, in order.
pub open spec fn nonempty_pieces(p: Seq<Seq<char>>) -> Seq<Seq<char>> {
    p.filter(|x: Seq<char>| x.len() > 0)
}

/// Slug of a local-wiki title: characters mapped by `local_slug_char`, then the non-empty
/// runs between dashes joined by single dashes.
pub open spec fn local_slug(title: Seq<char>) -> Seq<char> {
    let mapped = title.map_values(|c: char| local_slug_char(c));
    join(nonempty_pieces(split_on(crate::wiki_engine::trim_dashes(mapped), seq!['-'])), "-"@)
}

fn local_slug_char_exec(c: char) -> (r: char)
    ensures
        r == local_slug_char(c),
{
    if crate::reader::is_alphanumeric_pub(c) || c == '-' || c == '_' {
        crate::wiki_engine::to_lowercase_first(c)
    } else if c == ' ' {
        '-'
    } else if 0x4E00 <= (c as u32) && (c as u32) <= 0x9FFF {
        c
    } else {
        '-'
    }
}

/// Keeps the non-empty texts of `v`, in order.
fn keep_nonempty(v: &Vec<Vec<char>>) -> (r: Vec<Vec<char>>)
    ensures
        views(r@) == nonempty_pieces(views(v@)),
{
    let ghost vs = views(v@);
    let mut out: Vec<Vec<char>> = Vec::new();
    let mut i: usize = 0;
    while i < v.len()
        invariant
            i <= v@.len(),
            vs == views(v@),
            views(out@) == nonempty_pieces(vs.take(i as int)),
        decreases v.len() - i,
    {
        proof {
            let t = vs.take(i + 1);
            assert(t.drop_last() =~= vs.take(i as int));
            assert(t.last() == v@[i as int]@);
            reveal(Seq::filter);
        }
        if v[i].len() > 0 {
            let c = slice_chars(&v[i], 0, v[i].len());
            proof {
                assert(c@ =~= v@[i as int]@);
            }
            out.push(c);
        }
        proof {
            reveal(Seq::filter);
            assert(views(out@) =~= nonempty_pieces(vs.take(i + 1)));
        }
        i += 1;
    }
    proof {
        assert(vs.take(vs.len() as int) =~= vs);
    }
    out
}

pub fn local_slug_chars(title: &[char]) -> (r: Vec<char>)
    ensures
        r@ == local_slug(title@),
{
    let mut mapped: Vec<char> = Vec::new();
    let mut i: usize = 0;
    while i < title.len()
        invariant
            i <= title@.len(),
            mapped@ == title@.take(i as int).map_values(|c: char| local_slug_char(c)),
        decreases title.len() - i,
    {
        mapped.push(local_slug_char_exec(title[i]));
        i += 1;
        proof {
            assert(mapped@ =~= title@.take(i as int).map_values(|c: char| local_slug_char(c)));
        }
    }
    proof {
        assert(title@.take(title@.len() as int) =~= title@);
    }
    let a = crate::text::trim_start_matches_char(&mapped, '-');
    let b = crate::text::trim_end_matches_char(&a, '-');
    let dash = vec!['-'];
    proof {
        assert(dash@ =~= seq!['-']);
    }
    let pieces = crate::text::split_chars(&b, &dash);
    let kept = keep_nonempty(&pieces);
    crate::text::join_chars(&kept, &chars_of("-"))
}

/// Slugifies a local-wiki title.
pub fn slugify_local_wiki_title(title: &str) -> (r: String)
    ensures
        r@ == local_slug(title@),
{
    string_from_chars(&local_slug_chars(&chars_of(title)))
}

/// `input.chars().take(max_chars).collect()`.
pub fn truncate_local_text(input: &str, max_chars: usize) -> (r: String)
    ensures
        r@ == take_chars(input@, max_chars as int),
{
    string_from_chars(&take_prefix(&chars_of(input), max_chars))
}

/// The heading text of line `l` when it is a non-empty `# ` heading.
pub open spec fn h1_text(l: Seq<char>) -> Option<Seq<char>> {
    match crate::text::strip_prefix(trim(l), "# "@) {
        Some(t) => if trim(t).len() > 0 {
            Some(trim(t))
        } else {
            None
        },
        None => None,
    }
}

pub open spec fn first_h1(ls: Seq<Seq<char>>, i: int) -> Option<Seq<char>>
    decreases ls.len() - i,
{
    if i >= ls.len() {
        None
    } else {
        match h1_text(ls[i]) {
            Some(t) => Some(t),
            None => first_h1(ls, i + 1),
        }
    }
}

/// Title of a local-wiki page: its first non-empty `# ` heading, else `fallback`.
pub open spec fn local_wiki_title(md: Seq<char>, fallback: Seq<char>) -> Seq<char> {
    match first_h1(lines(md), 0) {
        Some(t) => t,
        None => fallback,
    }
}

pub fn extract_local_wiki_title(markdown: &str, fallback: &str) -> (r: String)
    ensures
        r@ == local_wiki_title(markdown@, fallback@),
{
    let md = chars_of(markdown);
    let ls = lines_chars(&md);
    let mut i: usize = 0;
    while i < ls.len()
        invariant
            i <= ls@.len(),
            md@ == markdown@,
            views(ls@) == lines(md@),
            first_h1(lines(md@), 0) == first_h1(lines(md@), i as int),
        decreases ls.len() - i,
    {
        proof {
            assert(views(ls@)[i as int] == ls@[i as int]@);
        }
        let t = trim_chars(&ls[i]);
        match crate::text::strip_prefix_chars(&t, &chars_of("# ")) {
            Some(rest) => {
                let title = trim_chars(&rest);
                if title.len() > 0 {
                    return string_from_chars(&title);
                }
            },
            None => {},
        }
        i += 1;
    }
    string_from_chars(&chars_of(fallback))
}

} // verus!

verus! {

// ─── Summaries ─────────────────────────────────────────────────────────────

/// The quoted text of line `l` when it is a non-empty `>` quote.
pub open spec fn quote_text(l: Seq<char>) -> Option<Seq<char>> {
    match crate::text::strip_prefix(trim(l), ">"@) {
        Some(t) => if trim(t).len() > 0 {
            Some(trim(t))
        } else {
            None
        },
        None => None,
    }
}

pub open spec fn first_quote(ls: Seq<Seq<char>>, i: int) -> Option<Seq<char>>
    decreases ls.len() - i,
{
    if i >= ls.len() {
        None
    } else {
        match quote_text(ls[i]) {
            Some(t) => Some(t),
            None => first_quote(ls, i + 1),
        }
    }
}

/// A trimmed line that is Markdown structure rather than prose: a heading, a code fence, a
/// list item or a table row.
pub open spec fn is_structure_line(t: Seq<char>) -> bool {
    starts_with(t, "#"@) || starts_with(t, "```"@) || starts_with(t, "- "@) || starts_with(
        t,
        "* "@,
    ) || starts_with(t, "|"@)
}

/// The first paragraph of prose from line `i` on, given the lines collected so far: blank
/// and structure lines are passed over before it starts and end it once it has.
pub open spec fn paragraph_from(ls: Seq<Seq<char>>, i: int, acc: Seq<Seq<char>>) -> Seq<Seq<char>>
    decreases ls.len() - i,
{
    if i >= ls.len() {
        acc
    } else {
        let t = trim(ls[i]);
        if t.len() == 0 || is_structure_line(t) {
            if acc.len() > 0 {
                acc
            } else {
                paragraph_from(ls, i + 1, acc)
            }
        } else {
            paragraph_from(ls, i + 1, acc.push(t))
        }
    }
}

/// Summary of a local-wiki page: its first non-empty `>` quote, else its first prose
/// paragraph with lines joined by spaces; at most 180 characters.
pub open spec fn local_wiki_summary(md: Seq<char>) -> Option<Seq<char>> {
    match first_quote(lines(md), 0) {
        Some(q) => Some(take_chars(q, 180)),
        None => {
            let p = paragraph_from(lines(md), 0, Seq::empty());
            if p.len() == 0 {
                None
            } else {
                Some(take_chars(join(p, " "@), 180))
            }
        },
    }
}

fn is_structure_line_exec(t: &[char]) -> (b: bool)
    ensures
        b == is_structure_line(t@),
{
    crate::text::starts_with_str(t, "#") || crate::text::starts_with_str(t, "```")
        || crate::text::starts_with_str(t, "- ") || crate::text::starts_with_str(t, "* ")
        || crate::text::starts_with_str(t, "|")
}

pub fn extract_local_wiki_summary(markdown: &str) -> (r: Option<String>)
    ensures
        opt_string(r) == local_wiki_summary(markdown@),
{
    let md = chars_of(markdown);
    let ls = lines_chars(&md);
    let mut i: usize = 0;
    while i < ls.len()
        invariant
            i <= ls@.len(),
            md@ == markdown@,
            views(ls@) == lines(md@),
            first_quote(lines(md@), 0) == first_quote(lines(md@), i as int),
        decreases ls.len() - i,
    {
        proof {
            assert(views(ls@)[i as int] == ls@[i as int]@);
        }
        let t = trim_chars(&ls[i]);
        match crate::text::strip_prefix_chars(&t, &chars_of(">")) {
            Some(rest) => {
                let q = trim_chars(&rest);
                if q.len() > 0 {
                    return Some(string_from_chars(&take_prefix(&q, 180)));
                }
            },
            None => {},
        }
        i += 1;
    }
    let mut para: Vec<Vec<char>> = Vec::new();
    let mut k: usize = 0;
    proof {
        assert(views(para@) =~= Seq::<Seq<char>>::empty());
    }
    let mut stop = false;
    while k < ls.len() && !stop
        invariant
            k <= ls@.len(),
            md@ == markdown@,
            views(ls@) == lines(md@),
            first_quote(lines(md@), 0) is None,
            stop ==> paragraph_from(lines(md@), 0, Seq::empty()) == views(para@),
            !stop ==> paragraph_from(lines(md@), 0, Seq::empty()) == paragraph_from(
                lines(md@),
                k as int,
                views(para@),
            ),
        decreases ls.len() - k,
    {
        proof {
            assert(views(ls@)[k as int] == ls@[k as int]@);
        }
        let t = trim_chars(&ls[k]);
        if t.len() == 0 || is_structure_line_exec(&t) {
            if para.len() > 0 {
                stop = true;
            }
        } else {
            let ghost before = views(para@);
            para.push(t);
            proof {
                assert(views(para@) =~= before.push(t@));
            }
        }
        k += 1;
    }
    proof {
        if !stop {
            assert(paragraph_from(lines(md@), k as int, views(para@)) == views(para@));
        }
    }
    if para.len() == 0 {
        None
    } else {
        let joined = crate::text::join_chars(&para, &chars_of(" "));
        Some(string_from_chars(&take_prefix(&joined, 180)))
    }
}

// ─── Answers from a model ──────────────────────────────────────────────────

/// The JSON string starting at `i` of `s`, unescaped (`\n`, `\t`, `\"`, `\\`; other escapes
/// kept as written), up to its closing quote or the end of the text.
pub open spec fn unescape_from(s: Seq<char>, i: int, acc: Seq<char>) -> Seq<char>
    decreases s.len() - i,
{
    if i >= s.len() || i < 0 {
        acc
    } else if s[i] == '\\' && i + 1 < s.len() {
        let n = s[i + 1];
        let next = if n == 'n' {
            acc.push('\n')
        } else if n == 't' {
            acc.push('\t')
        } else if n == '"' {
            acc.push('"')
        } else if n == '\\' {
            acc.push('\\')
        } else {
            acc.push('\\').push(n)
        };
        unescape_from(s, i + 2, next)
    } else if s[i] == '"' {
        acc
    } else {
        unescape_from(s, i + 1, acc.push(s[i]))
    }
}

/// The `"answer"` string of a model reply whose JSON is broken, when one can be read and is
/// not empty; otherwise the whole reply.
pub open spec fn malformed_answer(raw: Seq<char>) -> Seq<char> {
    let key = "\"answer\""@;
    let found = match crate::text::find(raw, key) {
        None => None,
        Some(start) => {
            let after_colon = crate::text::trim_start(raw.skip(start + key.len()));
            match crate::text::strip_prefix(after_colon, ":"@) {
                None => None,
                Some(rest0) => {
                    let rest = crate::text::trim_start(rest0);
                    if starts_with(rest, "\""@) {
                        let v = unescape_from(rest, 1, Seq::empty());
                        if v.len() > 0 {
                            Some(v)
                        } else {
                            None
                        }
                    } else {
                        None
                    }
                },
            }
        },
    };
    match found {
        Some(v) => v,
        None => raw,
    }
}

fn unescape_json_string(s: &[char]) -> (r: Vec<char>)
    ensures
        r@ == unescape_from(s@, 1, Seq::empty()),
{
    let mut out: Vec<char> = Vec::new();
    let mut i: usize = 1;
    let mut done = false;
    while i < s.len() && !done
        invariant
            1 <= i,
            done ==> unescape_from(s@, 1, Seq::empty()) == out@,
            !done ==> unescape_from(s@, 1, Seq::empty()) == unescape_from(s@, i as int, out@),
        decreases s.len() - i + (if done {
            0int
        } else {
            1int
        }),
    {
        if s[i] == '\\' && i + 1 < s.len() {
            let n = s[i + 1];
            if n == 'n' {
                out.push('\n');
            } else if n == 't' {
                out.push('\t');
            } else if n == '"' {
                out.push('"');
            } else if n == '\\' {
                out.push('\\');
            } else {
                out.push('\\');
                out.push(n);
            }
            i += 2;
        } else if s[i] == '"' {
            done = true;
        } else {
            out.push(s[i]);
            i += 1;
        }
    }
    out
}

/// Recovers the `"answer"` value from a model reply whose JSON is broken; falls back to the
/// whole reply.
pub fn extract_answer_from_malformed_json(raw: &str) -> (r: String)
    ensures
        r@ == malformed_answer(raw@),
{
    let rc = chars_of(raw);
    let rl = rc.len();
    let key = chars_of("\"answer\"");
    match crate::text::find_chars(&rc, &key) {
        Some(start) => {
            let after_key = slice_chars(&rc, start + key.len(), rl);
            let after_colon = crate::text::trim_start_chars(&after_key);
            match crate::text::strip_prefix_chars(&after_colon, &chars_of(":")) {
                Some(rest0) => {
                    let rest = crate::text::trim_start_chars(&rest0);
                    if crate::text::starts_with_str(&rest, "\"") {
                        let v = unescape_json_string(&rest);
                        if v.len() > 0 {
                            return string_from_chars(&v);
                        }
                    }
                },
                None => {},
            }
        },
        None => {},
    }
    string_from_chars(&rc)
}

// ─── Conversation context ──────────────────────────────────────────────────

/// A turn of a wiki chat.
pub struct ChatTurn {
    /// `user` or `assistant`.
    pub role: String,
    pub content: String,
}

pub open spec fn role_label(role: Seq<char>) -> Seq<char> {
    if role == "user"@ {
        "User"@
    } else {
        "Assistant"@
    }
}

/// The context lines for turns `i..` under a byte budget: each turn is cut to the remaining
/// budget in characters and then charged its byte length; after the budget runs out no
/// further turn is added.
pub open spec fn context_lines(turns: Seq<(Seq<char>, Seq<char>)>, i: int, budget: int, acc: Seq<
    Seq<char>,
>) -> Seq<Seq<char>>
    decreases turns.len() - i,
{
    if i >= turns.len() || i < 0 {
        acc
    } else {
        let content = take_chars(
            turns[i].1,
            if budget > 0 {
                budget
            } else {
                0
            },
        );
        let nb = budget - crate::text::utf8_len(content);
        let line = role_label(turns[i].0) + ": "@ + content;
        if nb <= 0 {
            acc.push(line)
        } else {
            context_lines(turns, i + 1, nb, acc.push(line))
        }
    }
}

/// The bytes of the contents of turns `i..`.
pub open spec fn content_bytes(turns: Seq<(Seq<char>, Seq<char>)>, i: int) -> int
    decreases turns.len() - i,
{
    if i < 0 || i >= turns.len() {
        0
    } else {
        crate::text::utf8_len(turns[i].1) + content_bytes(turns, i + 1)
    }
}

/// A message as one line of the context: `User: …` or `Assistant: …`.
pub open spec fn message_line(turn: (Seq<char>, Seq<char>)) -> Seq<char> {
    role_label(turn.0) + ": "@ + turn.1
}

proof fn lemma_content_bytes_nonneg(turns: Seq<(Seq<char>, Seq<char>)>, i: int)
    ensures
        content_bytes(turns, i) >= 0,
    decreases turns.len() - i,
{
    if 0 <= i < turns.len() {
        lemma_content_bytes_nonneg(turns, i + 1);
    }
}

/// Turns that fit the budget are all taken, whole, one line each.
proof fn lemma_fitting_lines(
    turns: Seq<(Seq<char>, Seq<char>)>,
    i: int,
    budget: int,
    acc: Seq<Seq<char>>,
)
    requires
        0 <= i <= turns.len(),
        content_bytes(turns, i) < budget,
    ensures
        context_lines(turns, i, budget, acc) == acc + turns.subrange(i, turns.len() as int).map_values(
            |t: (Seq<char>, Seq<char>)| message_line(t),
        ),
    decreases turns.len() - i,
{
    if i < turns.len() {
        let c = turns[i].1;
        crate::reader::lemma_utf8_len_at_least_len(c);
        lemma_content_bytes_nonneg(turns, i + 1);
        assert(take_chars(c, budget) == c);
        let nb = budget - crate::text::utf8_len(c);
        assert(nb > 0);
        lemma_fitting_lines(turns, i + 1, nb, acc.push(message_line(turns[i])));
        assert(acc.push(message_line(turns[i])) + turns.subrange(i + 1, turns.len() as int).map_values(
            |t: (Seq<char>, Seq<char>)| message_line(t),
        ) =~= acc + turns.subrange(i, turns.len() as int).map_values(
            |t: (Seq<char>, Seq<char>)| message_line(t),
        ));
    } else {
        assert(turns.subrange(i, turns.len() as int).map_values(
            |t: (Seq<char>, Seq<char>)| message_line(t),
        ) =~= Seq::<Seq<char>>::empty());
        assert(acc + Seq::<Seq<char>>::empty() =~= acc);
    }
}

/// The joined lines end with the last line.
proof fn lemma_join_ends_with_last(ls: Seq<Seq<char>>, sep: Seq<char>)
    requires
        ls.len() > 0,
    ensures
        crate::text::ends_with(join(ls, sep), ls.last()),
{
    let j = join(ls, sep);
    if ls.len() == 1 {
        assert(j == ls[0]);
        assert(j.subrange(0, j.len() as int) =~= j);
    } else {
        let pre = join(ls.drop_last(), sep) + sep;
        assert(j == pre + ls.last());
        assert(j.subrange(pre.len() as int, j.len() as int) =~= ls.last());
    }
}

/// The context is taken from the latest messages. When the last `k` messages (the last
/// `2 * max_turns`, or all of them when there are fewer) fit the 2000-byte budget, the
/// context is exactly those messages, oldest first, one `User:`/`Assistant:` line each; so,
/// when there is any, it ends with the conversation's final message.
pub proof fn law_context_keeps_the_latest_messages(
    turns: Seq<(Seq<char>, Seq<char>)>,
    max_turns: int,
    k: int,
)
    requires
        max_turns >= 0,
        k == if turns.len() < 2 * max_turns {
            turns.len() as int
        } else {
            2 * max_turns
        },
        content_bytes(turns.subrange(turns.len() - k, turns.len() as int), 0) < 2000,
    ensures
        conversation_context(turns, max_turns) == join(
            Seq::new(k as nat, |j: int| message_line(turns[turns.len() - k + j])),
            "\n"@,
        ),
        turns.len() > 0 && max_turns > 0 ==> crate::text::ends_with(
            conversation_context(turns, max_turns),
            message_line(turns.last()),
        ),
{
    let n = turns.len() as int;
    let recent = turns.skip(n - k);
    assert(recent =~= turns.subrange(n - k, n));
    lemma_fitting_lines(recent, 0, 2000, Seq::empty());
    let lines_of = Seq::new(k as nat, |j: int| message_line(turns[n - k + j]));
    assert(Seq::<Seq<char>>::empty() + recent.subrange(0, recent.len() as int).map_values(
        |t: (Seq<char>, Seq<char>)| message_line(t),
    ) =~= lines_of);
    if n > 0 && max_turns > 0 {
        assert(k > 0);
        lemma_join_ends_with_last(lines_of, "\n"@);
        assert(lines_of.last() == message_line(turns.last()));
    }
}

pub open spec fn turn_views(v: Seq<ChatTurn>) -> Seq<(Seq<char>, Seq<char>)> {
    Seq::new(v.len(), |i: int| (v[i].role@, v[i].content@))
}

/// The last `2 * max_turns` messages (all of them when there are fewer), oldest first, as
/// `User: …` / `Assistant: …` lines within a 2000-byte budget.
pub open spec fn conversation_context(turns: Seq<(Seq<char>, Seq<char>)>, max_turns: int) -> Seq<
    char,
> {
    let k = if turns.len() < 2 * max_turns {
        turns.len() as int
    } else {
        2 * max_turns
    };
    join(context_lines(turns.skip(turns.len() - k), 0, 2000, Seq::empty()), "\n"@)
}

pub fn build_conversation_context(messages: &Vec<ChatTurn>, max_turns: usize) -> (r: String)
    requires
        max_turns <= usize::MAX / 2,
    ensures
        r@ == conversation_context(turn_views(messages@), max_turns as int),
{
    let n = messages.len();
    let want = max_turns * 2;
    let k = if n < want {
        n
    } else {
        want
    };
    let ghost tv = turn_views(messages@);
    let ghost recent = tv.skip(n - k);
    let mut parts: Vec<Vec<char>> = Vec::new();
    let mut budget: i64 = 2000;
    let mut i: usize = n - k;
    proof {
        assert(views(parts@) =~= Seq::<Seq<char>>::empty());
    }
    let mut done = false;
    while i < n && !done
        invariant
            k <= n,
            n - k <= i <= n,
            k == (if n < 2 * max_turns {
                n as int
            } else {
                2 * max_turns
            }),
            n == messages@.len(),
            tv == turn_views(messages@),
            tv.len() == n,
            recent == tv.skip(n - k),
            !done ==> 0 < budget <= 2000,
            done ==> context_lines(recent, 0, 2000, Seq::empty()) == views(parts@),
            !done ==> context_lines(recent, 0, 2000, Seq::empty()) == context_lines(
                recent,
                i - (n - k),
                budget as int,
                views(parts@),
            ),
        decreases n - i + (if done {
            0int
        } else {
            1int
        }),
    {
        let m = &messages[i];
        let content_full = chars_of(m.content.as_str());
        let content = take_prefix(&content_full, budget as usize);
        let used = crate::text::utf8_len_capped(&content, 10000);
        proof {
            assert(recent.len() == k);
            assert(0 <= i - (n - k) < recent.len());
            assert(recent[i - (n - k)] == tv[i as int]);
            assert(tv[i as int] == (m.role@, m.content@));
            lemma_take_chars_utf8_bound(content_full@, budget as int);
        }
        let label = if crate::text::eq_str(&chars_of(m.role.as_str()), "user") {
            chars_of("User")
        } else {
            chars_of("Assistant")
        };
        let line = concat_chars(&append(label, ": "), &content);
        let ghost before = views(parts@);
        parts.push(line);
        proof {
            assert(views(parts@) =~= before.push(line@));
        }
        budget = budget - used as i64;
        if budget <= 0 {
            done = true;
        } else {
            i += 1;
        }
    }
    proof {
        if !done {
            assert(i - (n - k) >= recent.len());
        }
    }
    string_from_chars(&crate::text::join_chars(&parts, &chars_of("\n")))
}

/// Cutting to `b` characters leaves at most `4 * b` bytes.
proof fn lemma_take_chars_utf8_bound(s: Seq<char>, b: int)
    requires
        b >= 0,
    ensures
        crate::text::utf8_len(take_chars(s, b)) <= 4 * b,
{
    lemma_utf8_len_le_4x(take_chars(s, b));
}

proof fn lemma_utf8_len_le_4x(s: Seq<char>)
    ensures
        crate::text::utf8_len(s) <= 4 * s.len(),
    decreases s.len(),
{
    if s.len() > 0 {
        lemma_utf8_len_le_4x(s.drop_last());
    }
}


// ─── Looking up a `[[link]]` ───────────────────────────────────────────────

/// Where a text goes in a list of distinct texts in order: before the first that is not
/// earlier.
pub open spec fn text_position(list: Seq<Seq<char>>, x: Seq<char>, k: int) -> int
    decreases list.len() - k,
{
    if k < 0 || k >= list.len() {
        list.len() as int
    } else if lex_lt(list[k], x) {
        text_position(list, x, k + 1)
    } else {
        k
    }
}

/// A text added to a list of distinct texts in order, unless it is there.
pub open spec fn set_insert(list: Seq<Seq<char>>, x: Seq<char>) -> Seq<Seq<char>> {
    let k = text_position(list, x, 0);
    if 0 <= k < list.len() && list[k] == x {
        list
    } else {
        list.insert(k, x)
    }
}

/// The distinct texts in order, as a `BTreeSet` holds them.
pub open spec fn ordered_set(xs: Seq<Seq<char>>) -> Seq<Seq<char>>
    decreases xs.len(),
{
    if xs.len() == 0 {
        Seq::empty()
    } else {
        set_insert(ordered_set(xs.drop_last()), xs.last())
    }
}

/// The texts that are not empty.
pub open spec fn nonempty_texts(xs: Seq<Seq<char>>) -> Seq<Seq<char>>
    decreases xs.len(),
{
    if xs.len() == 0 {
        Seq::empty()
    } else {
        let init = nonempty_texts(xs.drop_last());
        if xs.last().len() > 0 {
            init.push(xs.last())
        } else {
            init
        }
    }
}

/// The texts that are not blank.
pub open spec fn nonblank_texts(xs: Seq<Seq<char>>) -> Seq<Seq<char>>
    decreases xs.len(),
{
    if xs.len() == 0 {
        Seq::empty()
    } else {
        let init = nonblank_texts(xs.drop_last());
        if trim(xs.last()).len() > 0 {
            init.push(xs.last())
        } else {
            init
        }
    }
}

/// How a link target is looked up: the distinct non-empty slugs of its key, of the key's last
/// path segment and of the key with `/` as spaces, in order; then pages titled as the last
/// segment, the spaced key and the key, skipping blank ones. `None` when the target has no key.
pub open spec fn link_lookup(raw: Seq<char>) -> Option<(Seq<Seq<char>>, Seq<Seq<char>>)> {
    match wiki_key(raw) {
        Some(k) => {
            let last_segment = trim(split_on(k, seq!['/']).last());
            let spaced = replace_all(k, "/"@, " "@);
            let slugs = ordered_set(
                nonempty_texts(seq![local_slug(k), local_slug(last_segment), local_slug(spaced)]),
            );
            let titles = nonblank_texts(seq![last_segment, spaced, k]);
            Some((slugs, titles))
        },
        None => None,
    }
}

pub(crate) fn insert_text(list: &mut Vec<String>, x: String)
    ensures
        string_views(final(list)@) == set_insert(string_views(old(list)@), x@),
{
    let ghost lv = string_views(list@);
    let xc = chars_of(x.as_str());
    let mut k: usize = 0;
    while k < list.len() && crate::order::lex_less(&chars_of(list[k].as_str()), &xc)
        invariant
            k <= list@.len(),
            lv == string_views(list@),
            xc@ == x@,
            text_position(lv, x@, 0) == text_position(lv, x@, k as int),
        decreases list.len() - k,
    {
        assert(lv[k as int] == list@[k as int]@);
        k += 1;
    }
    if k < list.len() {
        assert(lv[k as int] == list@[k as int]@);
    }
    assert(text_position(lv, x@, k as int) == k);
    if k < list.len() && list[k] == x {
        return ;
    }
    let ghost before = list@;
    list.insert(k, x);
    assert(string_views(list@) =~= lv.insert(k as int, x@));
}

fn add_nonempty(list: &mut Vec<String>, x: Vec<char>)
    ensures
        string_views(final(list)@) == if x@.len() > 0 {
            string_views(old(list)@).push(x@)
        } else {
            string_views(old(list)@)
        },
{
    if x.len() > 0 {
        let ghost before = string_views(list@);
        list.push(string_from_chars(&x));
        assert(string_views(list@) =~= before.push(x@));
    }
}

fn add_nonblank(list: &mut Vec<String>, x: &Vec<char>)
    ensures
        string_views(final(list)@) == if trim(x@).len() > 0 {
            string_views(old(list)@).push(x@)
        } else {
            string_views(old(list)@)
        },
{
    if trim_chars(x).len() > 0 {
        let ghost before = string_views(list@);
        list.push(string_from_chars(x));
        assert(string_views(list@) =~= before.push(x@));
    }
}

/// The slugs and titles a link target is looked up by (see `link_lookup`).
pub fn wiki_link_lookup(raw_target: &str) -> (r: Option<(Vec<String>, Vec<String>)>)
    ensures
        match r {
            Some((slugs, titles)) => link_lookup(raw_target@) == Some(
                (string_views(slugs@), string_views(titles@)),
            ),
            None => link_lookup(raw_target@) is None,
        },
{
    let k = match wiki_key_chars(&chars_of(raw_target)) {
        Some(k) => k,
        None => return None,
    };
    let slash = vec!['/'];
    assert(slash@ =~= seq!['/']);
    let parts = crate::text::split_chars(&k, &slash);
    proof {
        crate::text::lemma_split_on_nonempty(k@, seq!['/']);
        assert(views(parts@).last() == parts@[parts@.len() - 1]@);
    }
    let last_segment = trim_chars(&parts[parts.len() - 1]);
    let spaced = crate::text::replace_str(&k, "/", " ");
    let ghost cands = seq![local_slug(k@), local_slug(last_segment@), local_slug(spaced@)];
    let mut candidates: Vec<String> = Vec::new();
    assert(string_views(candidates@) =~= nonempty_texts(cands.take(0)));
    add_nonempty(&mut candidates, local_slug_chars(&k));
    assert(cands.take(1).drop_last() =~= cands.take(0));
    assert(string_views(candidates@) =~= nonempty_texts(cands.take(1)));
    add_nonempty(&mut candidates, local_slug_chars(&last_segment));
    assert(cands.take(2).drop_last() =~= cands.take(1));
    assert(string_views(candidates@) =~= nonempty_texts(cands.take(2)));
    add_nonempty(&mut candidates, local_slug_chars(&spaced));
    assert(cands.take(3).drop_last() =~= cands.take(2));
    assert(string_views(candidates@) =~= nonempty_texts(cands.take(3)));
    assert(cands.take(3) =~= cands);
    let mut slugs: Vec<String> = Vec::new();
    let mut i: usize = 0;
    let ghost cv = string_views(candidates@);
    assert(cv.take(0) =~= Seq::<Seq<char>>::empty());
    while i < candidates.len()
        invariant
            i <= candidates@.len(),
            cv == string_views(candidates@),
            string_views(slugs@) == ordered_set(cv.take(i as int)),
        decreases candidates.len() - i,
    {
        assert(cv.take(i + 1).drop_last() =~= cv.take(i as int));
        assert(cv.take(i + 1).last() == candidates@[i as int]@);
        insert_text(&mut slugs, candidates[i].clone());
        i += 1;
    }
    assert(cv.take(cv.len() as int) =~= cv);
    let ghost tc = seq![last_segment@, spaced@, k@];
    let mut titles: Vec<String> = Vec::new();
    assert(string_views(titles@) =~= nonblank_texts(tc.take(0)));
    add_nonblank(&mut titles, &last_segment);
    assert(tc.take(1).drop_last() =~= tc.take(0));
    assert(string_views(titles@) =~= nonblank_texts(tc.take(1)));
    add_nonblank(&mut titles, &spaced);
    assert(tc.take(2).drop_last() =~= tc.take(1));
    assert(string_views(titles@) =~= nonblank_texts(tc.take(2)));
    add_nonblank(&mut titles, &k);
    assert(tc.take(3).drop_last() =~= tc.take(2));
    assert(string_views(titles@) =~= nonblank_texts(tc.take(3)));
    assert(tc.take(3) =~= tc);
    Some((slugs, titles))
}


pub open spec fn texts_ordered(list: Seq<Seq<char>>) -> bool {
    forall|i: int, j: int| 0 <= i < j < list.len() ==> lex_lt(#[trigger] list[i], #[trigger] list[j])
}

proof fn lemma_text_position(list: Seq<Seq<char>>, x: Seq<char>, k: int)
    requires
        0 <= k <= list.len(),
    ensures
        k <= text_position(list, x, k) <= list.len(),
        forall|m: int| k <= m < text_position(list, x, k) ==> lex_lt(#[trigger] list[m], x),
        text_position(list, x, k) < list.len() ==> !lex_lt(list[text_position(list, x, k)], x),
    decreases list.len() - k,
{
    if k < list.len() && lex_lt(list[k], x) {
        lemma_text_position(list, x, k + 1);
    }
}

/// The slugs a link is looked up by come in order, each once, as a `BTreeSet` yields them.
pub proof fn law_ordered_set_is_ordered(xs: Seq<Seq<char>>)
    ensures
        texts_ordered(ordered_set(xs)),
    decreases xs.len(),
{
    if xs.len() > 0 {
        law_ordered_set_is_ordered(xs.drop_last());
        let list = ordered_set(xs.drop_last());
        let x = xs.last();
        lemma_text_position(list, x, 0);
        let k = text_position(list, x, 0);
        let r = set_insert(list, x);
        if !(0 <= k < list.len() && list[k] == x) {
            if k < list.len() {
                crate::order::lemma_lex_total(list[k], x);
            }
            assert forall|i: int, j: int| 0 <= i < j < r.len() implies lex_lt(#[trigger] r[i], #[trigger] r[j]) by {
                if j < k {
                    assert(r[i] == list[i] && r[j] == list[j]);
                } else if j == k {
                    assert(r[i] == list[i]);
                } else if i == k {
                    assert(r[j] == list[j - 1]);
                    if j - 1 > k {
                        crate::order::lemma_lex_transitive(x, list[k], list[j - 1]);
                    }
                } else if i < k {
                    assert(r[i] == list[i] && r[j] == list[j - 1]);
                } else {
                    assert(r[i] == list[i - 1] && r[j] == list[j - 1]);
                }
            }
        }
    }
}

} // verus!
