//! Questions asked of the wiki: the title a new chat session gets, the query the pages are
//! searched with, and how the model's answer is read, with a fallback for replies whose JSON
//! is broken.

use vstd::prelude::*;
use crate::text::{
    append, chars_of, concat_chars, eq_str, opt_string, string_from_chars, take_chars, take_prefix,
};
use crate::local_wiki::{extract_answer_from_malformed_json, malformed_answer};
use crate::metadata::{strip_json_fence, unfenced};
use crate::wiki_engine::{char_count_for_bytes, has_eight_byte_prefix, prefix_of_bytes, string_views};

verus! {

broadcast use vstd::seq::group_seq_axioms;

/// A new session is titled with at most this many characters of its first question.
pub const SESSION_TITLE_CHARS: usize = 30;

/// The title of a session opened by `question`.
pub fn chat_session_title(question: &str) -> (r: String)
    ensures
        r@ == take_chars(question@, SESSION_TITLE_CHARS as int),
{
    string_from_chars(&take_prefix(&chars_of(question), SESSION_TITLE_CHARS))
}

/// Whether the question is rewritten into a standalone search query first: only when the
/// session already holds earlier messages.
pub fn needs_query_rewrite(message_count: usize) -> (r: bool)
    ensures
        r == (message_count > 1),
{
    message_count > 1
}

/// The query the wiki is searched with: the rewritten question in a session with earlier
/// messages when the rewrite succeeded, the question itself otherwise.
pub fn search_query(question: &str, message_count: usize, rewritten: Option<String>) -> (r: String)
    ensures
        r@ == (if message_count > 1 && rewritten is Some {
            rewritten->0@
        } else {
            question@
        }),
{
    match rewritten {
        Some(q) if message_count > 1 => q,
        _ => question.to_owned(),
    }
}

/// The fields of an answer reply's JSON object: `answer` when it is text, the entries of the
/// `page_ids_used` array (each present when it is text), and `source_mode` when it is text.
pub struct AnswerFields {
    pub answer: Option<String>,
    pub page_ids: Option<Vec<Option<String>>>,
    pub source_mode: Option<String>,
}

pub open spec fn opt_string_seq(v: Seq<Option<String>>) -> Seq<Option<Seq<char>>> {
    Seq::new(v.len(), |i: int| opt_string(v[i]))
}

pub open spec fn answer_fields_view(f: AnswerFields) -> (
    Option<Seq<char>>,
    Option<Seq<Option<Seq<char>>>>,
    Option<Seq<char>>,
) {
    (
        opt_string(f.answer),
        match f.page_ids {
            Some(p) => Some(opt_string_seq(p@)),
            None => None,
        },
        opt_string(f.source_mode),
    )
}

/// What serde_json reads of a text as an answer object (see `AnswerFields`); `None` when the
/// text is not JSON.
pub uninterp spec fn json_answer_fields(text: Seq<char>) -> Option<
    (Option<Seq<char>>, Option<Seq<Option<Seq<char>>>>, Option<Seq<char>>),
>;

/// `serde_json::from_str::<Value>(text)` and the answer fields read from it. Trusted: the
/// result is a function of the text.
#[verifier::external_body]
fn parse_answer_json(text: &str) -> (r: Option<AnswerFields>)
    ensures
        match r {
            Some(f) => json_answer_fields(text@) == Some(answer_fields_view(f)),
            None => json_answer_fields(text@) is None,
        },
{
    let v: serde_json::Value = serde_json::from_str(text).ok()?;
    let s = |x: Option<&serde_json::Value>| Some(x?.as_str()?.to_string());
    Some(AnswerFields {
        answer: s(v.get("answer")),
        page_ids: v.get("page_ids_used").and_then(|x| x.as_array()).map(|a| a.iter().map(|x| s(Some(x))).collect()),
        source_mode: s(v.get("source_mode")),
    })
}

/// What serde_json reads of a text as a retrieval reply: the entries of its `page_ids` array,
/// each present when it is text (`None` when there is no such array); `None` when the text is
/// not JSON.
pub uninterp spec fn json_page_ids(text: Seq<char>) -> Option<Option<Seq<Option<Seq<char>>>>>;

/// `serde_json::from_str::<Value>(text)` and the entries of its `page_ids` array. Trusted: the
/// result is a function of the text.
#[verifier::external_body]
fn parse_page_ids(text: &str) -> (r: Option<Option<Vec<Option<String>>>>)
    ensures
        match r {
            Some(ids) => json_page_ids(text@) == Some(
                match ids {
                    Some(v) => Some(opt_string_seq(v@)),
                    None => None,
                },
            ),
            None => json_page_ids(text@) is None,
        },
{
    let v: serde_json::Value = serde_json::from_str(text).ok()?;
    Some(v.get("page_ids").and_then(|x| x.as_array()).map(|a| a.iter().map(|x| x.as_str().map(|t| t.to_string())).collect()))
}

/// The pages a retrieval reply names: the entries of its `page_ids` that are text, in order
/// (none when there is no such array); `None` when the reply (fence removed) is not JSON.
pub open spec fn retrieved_ids_of(parsed: Option<Option<Seq<Option<Seq<char>>>>>) -> Option<
    Seq<Seq<char>>,
> {
    match parsed {
        None => None,
        Some(None) => Some(Seq::empty()),
        Some(Some(entries)) => Some(present_entries(entries)),
    }
}

pub fn retrieved_page_ids(parsed: Option<Option<Vec<Option<String>>>>) -> (r: Option<Vec<String>>)
    ensures
        match r {
            Some(v) => retrieved_ids_of(
                match parsed {
                    Some(Some(e)) => Some(Some(opt_string_seq(e@))),
                    Some(None) => Some(None),
                    None => None,
                },
            ) == Some(string_views(v@)),
            None => parsed is None,
        },
{
    match parsed {
        None => None,
        Some(None) => Some(Vec::new()),
        Some(Some(entries)) => Some(present_ids(entries)),
    }
}

/// Reads a retrieval reply: its JSON, with any Markdown fence removed, through serde_json.
pub fn read_retrieved_page_ids(raw: &str) -> (r: Option<Vec<String>>)
    ensures
        match r {
            Some(v) => retrieved_ids_of(json_page_ids(unfenced(raw@))) == Some(string_views(v@)),
            None => json_page_ids(unfenced(raw@)) is None,
        },
{
    let cleaned = strip_json_fence(raw);
    retrieved_page_ids(parse_page_ids(cleaned.as_str()))
}

/// The answer as saved and shown: its text, the ids of the pages it used, and whether it came
/// from the knowledge base or from the model alone.
pub struct AnswerReply {
    pub answer: String,
    pub page_ids: Vec<String>,
    pub source_mode: String,
}

pub open spec fn reply_view(r: AnswerReply) -> (Seq<char>, Seq<Seq<char>>, Seq<char>) {
    (r.answer@, string_views(r.page_ids@), r.source_mode@)
}

/// The entries that are present, in order.
pub open spec fn present_entries(s: Seq<Option<Seq<char>>>) -> Seq<Seq<char>>
    decreases s.len(),
{
    if s.len() == 0 {
        Seq::empty()
    } else {
        let rest = present_entries(s.drop_last());
        match s.last() {
            Some(v) => rest.push(v),
            None => rest,
        }
    }
}

/// The answer read from a reply `raw` whose JSON (fence removed) read as `parsed`. A missing
/// answer field leaves the whole reply as the answer; a missing source mode is `ai_only` when no
/// page was used and `knowledge_base` otherwise. A reply that is not JSON keeps the answer text
/// recovered from it, no pages, and `ai_only`.
pub open spec fn answer_of(
    raw: Seq<char>,
    parsed: Option<(Option<Seq<char>>, Option<Seq<Option<Seq<char>>>>, Option<Seq<char>>)>,
) -> (Seq<char>, Seq<Seq<char>>, Seq<char>) {
    match parsed {
        Some((a, p, m)) => {
            let pids = match p {
                Some(entries) => present_entries(entries),
                None => Seq::empty(),
            };
            (
                match a {
                    Some(x) => x,
                    None => raw,
                },
                pids,
                match m {
                    Some(x) => x,
                    None => if pids.len() == 0 {
                        "ai_only"@
                    } else {
                        "knowledge_base"@
                    },
                },
            )
        },
        None => (malformed_answer(raw), Seq::empty(), "ai_only"@),
    }
}

fn present_ids(entries: Vec<Option<String>>) -> (r: Vec<String>)
    ensures
        string_views(r@) == present_entries(opt_string_seq(entries@)),
{
    let mut r: Vec<String> = Vec::new();
    let n = entries.len();
    let mut i: usize = 0;
    while i < n
        invariant
            n == entries.len(),
            i <= n,
            string_views(r@) == present_entries(opt_string_seq(entries@.take(i as int))),
        decreases n - i,
    {
        proof {
            assert(opt_string_seq(entries@.take(i as int + 1)).drop_last() == opt_string_seq(
                entries@.take(i as int),
            ));
        }
        match &entries[i] {
            Some(s) => {
                r.push(s.clone());
            },
            None => {},
        }
        i = i + 1;
        proof {
            assert(string_views(r@) == present_entries(opt_string_seq(entries@.take(i as int))));
        }
    }
    proof {
        assert(entries@.take(n as int) == entries@);
    }
    r
}

/// Reads the answer from a reply and what its JSON read as.
pub fn read_answer_fields(raw: &str, parsed: Option<AnswerFields>) -> (r: AnswerReply)
    ensures
        reply_view(r) == answer_of(
            raw@,
            match parsed {
                Some(f) => Some(answer_fields_view(f)),
                None => None,
            },
        ),
{
    match parsed {
        Some(f) => {
            let page_ids = match f.page_ids {
                Some(entries) => present_ids(entries),
                None => Vec::new(),
            };
            let answer = match f.answer {
                Some(a) => a,
                None => raw.to_owned(),
            };
            let source_mode = match f.source_mode {
                Some(m) => m,
                None => if page_ids.len() == 0 {
                    "ai_only".to_owned()
                } else {
                    "knowledge_base".to_owned()
                },
            };
            proof {
                assert(string_views(page_ids@).len() == page_ids@.len());
            }
            AnswerReply { answer, page_ids, source_mode }
        },
        None => AnswerReply {
            answer: extract_answer_from_malformed_json(raw),
            page_ids: Vec::new(),
            source_mode: "ai_only".to_owned(),
        },
    }
}

/// Reads the model's answer reply: its JSON, with any Markdown fence removed, through
/// serde_json, then `read_answer_fields`.
pub fn read_answer_reply(raw: &str) -> (r: AnswerReply)
    ensures
        reply_view(r) == answer_of(raw@, json_answer_fields(unfenced(raw@))),
{
    let cleaned = strip_json_fence(raw);
    let parsed = parse_answer_json(cleaned.as_str());
    read_answer_fields(raw, parsed)
}

// ─── Saving an answer as a page ────────────────────────────────────────────

/// A stored chat message, as saving an answer reads it.
pub struct StoredMessage {
    pub id: String,
    /// `user` or `assistant`.
    pub role: String,
    pub content: String,
    pub source_mode: Option<String>,
    pub turn_index: i64,
}

pub open spec fn is_answer(m: StoredMessage, message_id: Seq<char>) -> bool {
    m.id@ == message_id && m.role@ == "assistant"@
}

/// The first message in `ms[from..]` that is the assistant message `message_id`.
pub open spec fn first_answer(ms: Seq<StoredMessage>, message_id: Seq<char>, from: int) -> Option<
    int,
>
    decreases ms.len() - from,
{
    if from < 0 || from >= ms.len() {
        None
    } else if is_answer(ms[from], message_id) {
        Some(from)
    } else {
        first_answer(ms, message_id, from + 1)
    }
}

pub open spec fn ai_only_message() -> Seq<char> {
    "AI-only answers cannot be saved as wiki pages (no knowledge base sources)"@
}

/// Which message is saved: the assistant message with that id, refused when it is missing or
/// was answered by the model alone (a missing source mode counts as `ai_only`).
pub open spec fn save_check(ms: Seq<StoredMessage>, message_id: Seq<char>) -> Result<
    int,
    Seq<char>,
> {
    match first_answer(ms, message_id, 0) {
        None => Err("Message not found"@),
        Some(k) => if opt_string(ms[k].source_mode) == Some("ai_only"@) || ms[k].source_mode
            is None {
            Err(ai_only_message())
        } else {
            Ok(k)
        },
    }
}

/// The position of the answer to save, or why it cannot be saved.
pub fn answer_to_save(messages: &Vec<StoredMessage>, message_id: &str) -> (r: Result<usize, String>)
    ensures
        match r {
            Ok(k) => save_check(messages@, message_id@) == Ok::<int, Seq<char>>(k as int),
            Err(e) => save_check(messages@, message_id@) == Err::<int, Seq<char>>(e@),
        },
{
    let mid = chars_of(message_id);
    let n = messages.len();
    let mut i: usize = 0;
    while i < n
        invariant
            n == messages.len(),
            i <= n,
            mid@ == message_id@,
            first_answer(messages@, message_id@, 0) == first_answer(
                messages@,
                message_id@,
                i as int,
            ),
        decreases n - i,
    {
        let m = &messages[i];
        if crate::text::eq_chars(&chars_of(m.id.as_str()), &mid) && eq_str(
            &chars_of(m.role.as_str()),
            "assistant",
        ) {
            let ai_only = match &m.source_mode {
                Some(sm) => eq_str(&chars_of(sm.as_str()), "ai_only"),
                None => true,
            };
            if ai_only {
                return Err(
                    "AI-only answers cannot be saved as wiki pages (no knowledge base sources)".to_owned(),
                );
            }
            return Ok(i);
        }
        i = i + 1;
    }
    Err("Message not found".to_owned())
}

/// The last message before `n` that is a user turn earlier than `turn`.
pub open spec fn last_question(ms: Seq<StoredMessage>, turn: int, n: int) -> Option<int>
    decreases n,
{
    if n <= 0 || n > ms.len() {
        None
    } else if ms[n - 1].turn_index < turn && ms[n - 1].role@ == "user"@ {
        Some(n - 1)
    } else {
        last_question(ms, turn, n - 1)
    }
}

/// The question an answer at turn `turn` replied to: the content of the last user message of
/// an earlier turn, or `Q&A` when there is none.
pub open spec fn question_for(ms: Seq<StoredMessage>, turn: int) -> Seq<char> {
    match last_question(ms, turn, ms.len() as int) {
        Some(k) => ms[k].content@,
        None => "Q&A"@,
    }
}

pub fn preceding_question(messages: &Vec<StoredMessage>, turn_index: i64) -> (r: String)
    ensures
        r@ == question_for(messages@, turn_index as int),
{
    let mut i: usize = messages.len();
    while i > 0
        invariant
            i <= messages.len(),
            last_question(messages@, turn_index as int, messages@.len() as int) == last_question(
                messages@,
                turn_index as int,
                i as int,
            ),
        decreases i,
    {
        let m = &messages[i - 1];
        if m.turn_index < turn_index && eq_str(&chars_of(m.role.as_str()), "user") {
            return m.content.clone();
        }
        i = i - 1;
    }
    "Q&A".to_owned()
}

/// The page an answer is saved as: titled with the first 40 characters of the question,
/// slugged `qa-` and the first eight bytes of the page id, holding the question and the
/// answer, and summarised with the first 30 characters of the question.
pub struct QaPageText {
    pub title: String,
    pub slug: String,
    pub body_markdown: String,
    pub summary: String,
}

pub open spec fn qa_page_view(p: QaPageText) -> (Seq<char>, Seq<char>, Seq<char>, Seq<char>) {
    (p.title@, p.slug@, p.body_markdown@, p.summary@)
}

pub open spec fn qa_page_of(question: Seq<char>, answer: Seq<char>, page_id: Seq<char>) -> (
    Seq<char>,
    Seq<char>,
    Seq<char>,
    Seq<char>,
) {
    let k = match char_count_for_bytes(page_id, 8) {
        Some(k) => k,
        None => 0,
    };
    (
        take_chars(question, 40),
        "qa-"@ + page_id.take(k),
        "## Question\n\n"@ + question + "\n\n## Answer\n\n"@ + answer,
        "Q&A: "@ + take_chars(question, 30),
    )
}

pub fn qa_page_text(question: &str, answer: &str, page_id: &str) -> (r: QaPageText)
    requires
        has_eight_byte_prefix(page_id@),
    ensures
        qa_page_view(r) == qa_page_of(question@, answer@, page_id@),
{
    let q = chars_of(question);
    let id_prefix = match prefix_of_bytes(&chars_of(page_id), 8) {
        Some(p) => p,
        None => Vec::new(),
    };
    let body = append(
        concat_chars(&append(chars_of("## Question\n\n"), question), &chars_of("\n\n## Answer\n\n")),
        answer,
    );
    QaPageText {
        title: string_from_chars(&take_prefix(&q, 40)),
        slug: string_from_chars(&concat_chars(&chars_of("qa-"), &id_prefix)),
        body_markdown: string_from_chars(&body),
        summary: string_from_chars(&concat_chars(&chars_of("Q&A: "), &take_prefix(&q, 30))),
    }
}

/// What serde_json reads of a text as a list of strings; `None` when it is not one.
pub uninterp spec fn json_string_list(text: Seq<char>) -> Option<Seq<Seq<char>>>;

/// `serde_json::from_str::<Vec<String>>(text)`. Trusted: the result is a function of the text.
#[verifier::external_body]
pub(crate) fn parse_string_list(text: &str) -> (r: Option<Vec<String>>)
    ensures
        match r {
            Some(v) => json_string_list(text@) == Some(string_views(v@)),
            None => json_string_list(text@) is None,
        },
{
    serde_json::from_str::<Vec<String>>(text).ok()
}

/// What serde_json reads of a text as a JSON value: its `id` field when that is text; `None`
/// when the text is not JSON.
pub uninterp spec fn json_id_field(text: Seq<char>) -> Option<Option<Seq<char>>>;

/// `serde_json::from_str::<Value>(text)` and its `id` field. Trusted: the result is a function
/// of the text.
#[verifier::external_body]
fn parse_id_field(text: &str) -> (r: Option<Option<String>>)
    ensures
        match r {
            Some(i) => json_id_field(text@) == Some(opt_string(i)),
            None => json_id_field(text@) is None,
        },
{
    let v: serde_json::Value = serde_json::from_str(text).ok()?;
    Some(v.get("id").and_then(|x| x.as_str()).map(|x| x.to_string()))
}

/// A referenced page: the `id` of an entry that is a JSON object with one, the entry itself
/// otherwise.
pub open spec fn referenced_id(item: Seq<char>, parsed: Option<Option<Seq<char>>>) -> Seq<char> {
    match parsed {
        Some(Some(id)) => id,
        _ => item,
    }
}

pub fn referenced_id_of(item: String, parsed: Option<Option<String>>) -> (r: String)
    ensures
        r@ == referenced_id(
            item@,
            match parsed {
                Some(i) => Some(opt_string(i)),
                None => None,
            },
        ),
{
    match parsed {
        Some(Some(id)) => id,
        _ => item,
    }
}

/// The referenced pages that are not empty, in order.
pub open spec fn referenced_ids(items: Seq<Seq<char>>) -> Seq<Seq<char>>
    decreases items.len(),
{
    if items.len() == 0 {
        Seq::empty()
    } else {
        let rest = referenced_ids(items.drop_last());
        let id = referenced_id(items.last(), json_id_field(items.last()));
        if id.len() > 0 {
            rest.push(id)
        } else {
            rest
        }
    }
}

/// The pages an answer used, from its stored `pages_used` JSON: a list of page ids or of
/// `{id, title}` objects written as text. Anything else uses no page.
pub fn referenced_page_ids(pages_used: &str) -> (r: Vec<String>)
    ensures
        string_views(r@) == match json_string_list(pages_used@) {
            Some(items) => referenced_ids(items),
            None => Seq::empty(),
        },
{
    let items = match parse_string_list(pages_used) {
        Some(v) => v,
        None => return Vec::new(),
    };
    let ghost iv = string_views(items@);
    let mut r: Vec<String> = Vec::new();
    let n = items.len();
    let mut i: usize = 0;
    while i < n
        invariant
            n == items.len(),
            i <= n,
            iv == string_views(items@),
            string_views(r@) == referenced_ids(iv.take(i as int)),
        decreases n - i,
    {
        proof {
            assert(iv.take(i as int + 1).drop_last() == iv.take(i as int));
            assert(iv.take(i as int + 1).last() == items@[i as int]@);
        }
        let parsed = parse_id_field(items[i].as_str());
        let id = referenced_id_of(items[i].clone(), parsed);
        if chars_of(id.as_str()).len() > 0 {
            r.push(id);
        }
        i = i + 1;
    }
    proof {
        assert(iv.take(n as int) == iv);
    }
    r
}

} // verus!
