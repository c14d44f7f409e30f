//! Reading the metadata a model returns for a capture: summary, digest, tags and candidate
//! concepts, from JSON that may sit in a Markdown code fence. When the reply holds none of
//! them, the whole reply is the summary. Also when a capture gets generated metadata, the text
//! excerpt sent for it, and what is saved from the reply.

use vstd::prelude::*;
use crate::text::{
    chars_of, join, join_chars, opt_string, or_default, slice_chars, starts_with, starts_with_str,
    string_from_chars, strip_suffix, strip_suffix_chars, take_chars, take_prefix, trim, trim_chars,
    utf8_len, utf8_len_capped, views,
};
use crate::models::CapturedContent;
use crate::wiki_engine::{
    body_text, candidate_name, candidate_temporality, normalize_candidate_name,
    normalize_candidate_temporality, parse_tag_terms, string_views, tag_terms,
};

verus! {

broadcast use vstd::seq::group_seq_axioms;

/// At most this many candidate concepts are taken from one reply.
pub const MAX_CANDIDATE_CONCEPTS: usize = 3;

/// The reply without surrounding blanks and, when it is fenced, without the fence (with or
/// without the `json` tag).
pub open spec fn unfenced(raw: Seq<char>) -> Seq<char> {
    let t = trim(raw);
    if starts_with(t, "```"@) {
        let inner = if starts_with(t, "```json"@) {
            t.subrange(7, t.len() as int)
        } else {
            t.subrange(3, t.len() as int)
        };
        trim(
            match strip_suffix(inner, "```"@) {
                Some(s) => s,
                None => inner,
            },
        )
    } else {
        t
    }
}

pub fn strip_json_fence(raw: &str) -> (r: String)
    ensures
        r@ == unfenced(raw@),
{
    proof {
        reveal_strlit("```");
        reveal_strlit("```json");
    }
    let t = trim_chars(&chars_of(raw));
    if starts_with_str(&t, "```") {
        let inner = if starts_with_str(&t, "```json") {
            slice_chars(&t, 7, t.len())
        } else {
            slice_chars(&t, 3, t.len())
        };
        let body = match strip_suffix_chars(&inner, &chars_of("```")) {
            Some(s) => s,
            None => inner,
        };
        string_from_chars(&trim_chars(&body))
    } else {
        string_from_chars(&t)
    }
}

/// The fields of one candidate concept in the reply, each absent when missing or not text;
/// its importance as written in the reply, absent when it is not a number.
pub struct CandidateFields {
    pub name: Option<String>,
    pub temporality: Option<String>,
    pub rationale: Option<String>,
    pub importance: Option<String>,
}

/// The fields of the reply's JSON object: `summary`, `digest` and the `tags` array (each entry
/// absent when not text).
pub struct ParsedMetadata {
    pub summary: Option<String>,
    pub digest: Option<String>,
    pub tags: Option<Vec<Option<String>>>,
}

pub open spec fn fields_view(f: CandidateFields) -> (Option<Seq<char>>, Option<Seq<char>>, Option<Seq<char>>, Option<Seq<char>>) {
    (opt_string(f.name), opt_string(f.temporality), opt_string(f.rationale), opt_string(f.importance))
}

pub open spec fn opt_fields_views(v: Seq<Option<CandidateFields>>) -> Seq<
    Option<(Option<Seq<char>>, Option<Seq<char>>, Option<Seq<char>>, Option<Seq<char>>)>,
> {
    Seq::new(
        v.len(),
        |i: int|
            match v[i] {
                Some(f) => Some(fields_view(f)),
                None => None,
            },
    )
}

pub open spec fn opt_string_views(v: Seq<Option<String>>) -> Seq<Option<Seq<char>>> {
    Seq::new(v.len(), |i: int| opt_string(v[i]))
}

pub open spec fn parsed_view(p: ParsedMetadata) -> (
    Option<Seq<char>>,
    Option<Seq<char>>,
    Option<Seq<Option<Seq<char>>>>,
) {
    (
        opt_string(p.summary),
        opt_string(p.digest),
        match p.tags {
            Some(t) => Some(opt_string_views(t@)),
            None => None,
        },
    )
}

/// What serde_json reads of a text as a metadata object (see `ParsedMetadata`); `None` when
/// the text is not JSON.
pub uninterp spec fn json_metadata_fields(text: Seq<char>) -> Option<
    (Option<Seq<char>>, Option<Seq<char>>, Option<Seq<Option<Seq<char>>>>),
>;

/// `serde_json::from_str::<Value>(text)` and the summary, digest and tags read from it.
/// Trusted: the result is a function of the text.
#[verifier::external_body]
fn parse_metadata_json(text: &str) -> (r: Option<ParsedMetadata>)
    ensures
        match r {
            Some(p) => json_metadata_fields(text@) == Some(parsed_view(p)),
            None => json_metadata_fields(text@) is None,
        },
{
    let v: serde_json::Value = serde_json::from_str(text).ok()?;
    let s = |x: Option<&serde_json::Value>| Some(x?.as_str()?.to_string());
    Some(ParsedMetadata {
        summary: s(v.get("summary")),
        digest: s(v.get("digest")),
        tags: v.get("tags").and_then(|x| x.as_array()).map(|a| a.iter().map(|x| s(Some(x))).collect()),
    })
}

/// What serde_json reads of a text's `candidate_concepts` array: for each entry that is an
/// object, its `name`, `temporality` and `rationale` when they are text, and its `importance`
/// written back as JSON when it is a number; `None` when the text is not JSON or has no such
/// array.
pub uninterp spec fn json_candidate_fields(text: Seq<char>) -> Option<
    Seq<Option<(Option<Seq<char>>, Option<Seq<char>>, Option<Seq<char>>, Option<Seq<char>>)>>,
>;

/// `serde_json::from_str::<Value>(text)` and the candidate concepts read from it. Trusted:
/// the result is a function of the text.
#[verifier::external_body]
fn parse_candidate_json(text: &str) -> (r: Option<Vec<Option<CandidateFields>>>)
    ensures
        match r {
            Some(c) => json_candidate_fields(text@) == Some(opt_fields_views(c@)),
            None => json_candidate_fields(text@) is None,
        },
{
    let v: serde_json::Value = serde_json::from_str(text).ok()?;
    let s = |x: Option<&serde_json::Value>| Some(x?.as_str()?.to_string());
    let items = v.get("candidate_concepts")?.as_array()?;
    Some(items.iter().map(|x| x.as_object().map(|o| CandidateFields {
        name: s(o.get("name")),
        temporality: s(o.get("temporality")),
        rationale: s(o.get("rationale")),
        importance: o.get("importance").filter(|x| x.is_number()).map(|x| x.to_string()),
    })).collect())
}

/// A candidate concept taken from the reply, with its position among the reply's candidates.
pub struct AcceptedCandidate {
    pub index: usize,
    pub name: String,
    pub normalized_name: String,
    pub temporality: String,
    pub rationale: Option<String>,
    /// The importance as written in the reply (a number; read, and clamped to 0..1, around the
    /// library, as it is a float); absent when the reply gives none, which counts as 0.
    pub importance: Option<String>,
}

pub open spec fn accepted_view(c: AcceptedCandidate) -> (
    int,
    Seq<char>,
    Seq<char>,
    Seq<char>,
    Option<Seq<char>>,
    Option<Seq<char>>,
) {
    (
        c.index as int,
        c.name@,
        c.normalized_name@,
        c.temporality@,
        opt_string(c.rationale),
        opt_string(c.importance),
    )
}

pub open spec fn accepted_views(v: Seq<AcceptedCandidate>) -> Seq<
    (int, Seq<char>, Seq<char>, Seq<char>, Option<Seq<char>>, Option<Seq<char>>),
> {
    Seq::new(v.len(), |i: int| accepted_view(v[i]))
}

pub open spec fn has_normalized(
    acc: Seq<(int, Seq<char>, Seq<char>, Seq<char>, Option<Seq<char>>, Option<Seq<char>>)>,
    n: Seq<char>,
) -> bool {
    exists|k: int| 0 <= k < acc.len() && #[trigger] acc[k].2 == n
}

/// One candidate considered: taken when it is an object whose trimmed name normalizes and
/// whose temporality is known, and no candidate taken so far has the same normalized name;
/// its rationale trimmed (absent when blank) and its importance as written are kept.
pub open spec fn consider_candidate(
    acc: Seq<(int, Seq<char>, Seq<char>, Seq<char>, Option<Seq<char>>, Option<Seq<char>>)>,
    i: int,
    f: Option<(Option<Seq<char>>, Option<Seq<char>>, Option<Seq<char>>, Option<Seq<char>>)>,
) -> Seq<(int, Seq<char>, Seq<char>, Seq<char>, Option<Seq<char>>, Option<Seq<char>>)> {
    match f {
        None => acc,
        Some(fields) => {
            let name = trim(or_default(fields.0, Seq::empty()));
            match candidate_name(name) {
                None => acc,
                Some(norm) => match fields.1 {
                    None => acc,
                    Some(t) => match candidate_temporality(t) {
                        None => acc,
                        Some(temp) => {
                            let rationale = match fields.2 {
                                Some(x) => if trim(x).len() > 0 {
                                    Some(trim(x))
                                } else {
                                    None
                                },
                                None => None,
                            };
                            if has_normalized(acc, norm) {
                                acc
                            } else {
                                acc.push((i, name, norm, temp, rationale, fields.3))
                            }
                        },
                    },
                },
            }
        },
    }
}

/// The candidates taken from the reply's list, in order, stopping at the maximum.
pub open spec fn accepted_candidates(
    items: Seq<Option<(Option<Seq<char>>, Option<Seq<char>>, Option<Seq<char>>, Option<Seq<char>>)>>,
) -> Seq<(int, Seq<char>, Seq<char>, Seq<char>, Option<Seq<char>>, Option<Seq<char>>)>
    decreases items.len(),
{
    if items.len() == 0 {
        Seq::empty()
    } else {
        let acc = accepted_candidates(items.drop_last());
        if acc.len() >= MAX_CANDIDATE_CONCEPTS {
            acc
        } else {
            consider_candidate(acc, items.len() - 1, items.last())
        }
    }
}

/// The tags that are text and not blank, trimmed.
pub open spec fn clean_tags(tags: Seq<Option<Seq<char>>>) -> Seq<Seq<char>>
    decreases tags.len(),
{
    if tags.len() == 0 {
        Seq::empty()
    } else {
        let init = clean_tags(tags.drop_last());
        match tags.last() {
            Some(t) => if trim(t).len() > 0 {
                init.push(trim(t))
            } else {
                init
            },
            None => init,
        }
    }
}

/// The metadata of a capture, as read from a model's reply.
pub struct ExtractedMetadata {
    pub summary: String,
    pub tags: Vec<String>,
    pub digest: String,
    pub candidate_concepts: Vec<AcceptedCandidate>,
}

/// The metadata a reply gives: its JSON fields when the summary, the tags or the candidates
/// hold something; otherwise the trimmed reply as summary and nothing else.
pub open spec fn metadata_matches(m: ExtractedMetadata, raw: Seq<char>) -> bool {
    let fallback = m.summary@ == trim(raw) && m.tags@.len() == 0 && m.digest@.len() == 0
        && m.candidate_concepts@.len() == 0;
    match json_metadata_fields(unfenced(raw)) {
        Some(p) => {
            let summary = trim(or_default(p.0, Seq::empty()));
            let tags = match p.2 {
                Some(t) => clean_tags(t),
                None => Seq::empty(),
            };
            let cands = match json_candidate_fields(unfenced(raw)) {
                Some(c) => accepted_candidates(c),
                None => Seq::empty(),
            };
            if summary.len() > 0 || tags.len() > 0 || cands.len() > 0 {
                &&& m.summary@ == summary
                &&& m.digest@ == trim(or_default(p.1, Seq::empty()))
                &&& string_views(m.tags@) == tags
                &&& accepted_views(m.candidate_concepts@) == cands
            } else {
                fallback
            }
        },
        None => fallback,
    }
}

fn trimmed_text(o: &Option<String>) -> (r: String)
    ensures
        r@ == trim(or_default(opt_string(*o), Seq::empty())),
{
    match o {
        Some(s) => string_from_chars(&trim_chars(&chars_of(s.as_str()))),
        None => {
            let r = String::new();
            assert(r@ =~= trim(Seq::<char>::empty()));
            r
        },
    }
}

fn clean_tag_list(tags: &Vec<Option<String>>) -> (r: Vec<String>)
    ensures
        string_views(r@) == clean_tags(opt_string_views(tags@)),
{
    let ghost tv = opt_string_views(tags@);
    let mut r: Vec<String> = Vec::new();
    let mut i: usize = 0;
    assert(tv.take(0) =~= Seq::<Option<Seq<char>>>::empty());
    while i < tags.len()
        invariant
            i <= tags@.len(),
            tv == opt_string_views(tags@),
            string_views(r@) == clean_tags(tv.take(i as int)),
        decreases tags.len() - i,
    {
        assert(tv.take(i + 1).drop_last() =~= tv.take(i as int));
        assert(tv.take(i + 1).last() == opt_string(tags@[i as int]));
        match &tags[i] {
            Some(t) => {
                let tt = trim_chars(&chars_of(t.as_str()));
                if tt.len() > 0 {
                    let ghost before = string_views(r@);
                    r.push(string_from_chars(&tt));
                    assert(string_views(r@) =~= before.push(tt@));
                }
            },
            None => {},
        }
        i += 1;
    }
    assert(tv.take(tv.len() as int) =~= tv);
    r
}

fn has_normalized_exec(acc: &Vec<AcceptedCandidate>, n: &String) -> (b: bool)
    ensures
        b == has_normalized(accepted_views(acc@), n@),
{
    let mut k: usize = 0;
    while k < acc.len()
        invariant
            k <= acc@.len(),
            forall|j: int| 0 <= j < k ==> #[trigger] acc@[j].normalized_name@ != n@,
        decreases acc.len() - k,
    {
        if acc[k].normalized_name == *n {
            assert(accepted_views(acc@)[k as int].2 == n@);
            return true;
        }
        k += 1;
    }
    assert forall|j: int| 0 <= j < accepted_views(acc@).len() implies #[trigger] accepted_views(
        acc@,
    )[j].2 != n@ by {
        assert(accepted_views(acc@)[j].2 == acc@[j].normalized_name@);
    }
    false
}

fn consider_exec(acc: &mut Vec<AcceptedCandidate>, i: usize, f: &Option<CandidateFields>)
    ensures
        accepted_views(final(acc)@) == consider_candidate(
            accepted_views(old(acc)@),
            i as int,
            match *f {
                Some(x) => Some(fields_view(x)),
                None => None,
            },
        ),
{
    let fields = match f {
        Some(x) => x,
        None => return ,
    };
    let name = trimmed_text(&fields.name);
    let norm = match normalize_candidate_name(name.as_str()) {
        Some(n) => n,
        None => return ,
    };
    let t = match &fields.temporality {
        Some(t) => t,
        None => return ,
    };
    let temp = match normalize_candidate_temporality(t.as_str()) {
        Some(x) => x,
        None => return ,
    };
    let rationale = match &fields.rationale {
        Some(x) => {
            let tx = trim_chars(&chars_of(x.as_str()));
            if tx.len() > 0 {
                Some(string_from_chars(&tx))
            } else {
                None
            }
        },
        None => None,
    };
    if has_normalized_exec(acc, &norm) {
        return ;
    }
    let ghost before = accepted_views(acc@);
    let c = AcceptedCandidate {
        index: i,
        name,
        normalized_name: norm,
        temporality: temp,
        rationale,
        importance: fields.importance.clone(),
    };
    let ghost cv = accepted_view(c);
    acc.push(c);
    assert(accepted_views(acc@) =~= before.push(cv));
}

fn accept_candidates(items: &Vec<Option<CandidateFields>>) -> (r: Vec<AcceptedCandidate>)
    ensures
        accepted_views(r@) == accepted_candidates(opt_fields_views(items@)),
{
    let ghost iv = opt_fields_views(items@);
    let mut acc: Vec<AcceptedCandidate> = Vec::new();
    let mut i: usize = 0;
    assert(iv.take(0) =~= Seq::<Option<(Option<Seq<char>>, Option<Seq<char>>, Option<Seq<char>>, Option<Seq<char>>)>>::empty());
    assert(accepted_views(acc@) =~= Seq::<(int, Seq<char>, Seq<char>, Seq<char>, Option<Seq<char>>, Option<Seq<char>>)>::empty());
    let mut done = false;
    while i < items.len() && !done
        invariant
            i <= items@.len(),
            iv == opt_fields_views(items@),
            !done ==> accepted_views(acc@) == accepted_candidates(iv.take(i as int)),
            done ==> accepted_views(acc@) == accepted_candidates(iv),
        decreases items.len() - i + (if done {
            0int
        } else {
            1int
        }),
    {
        assert(iv.take(i + 1).drop_last() =~= iv.take(i as int));
        assert(iv.take(i + 1).len() - 1 == i);
        if acc.len() >= MAX_CANDIDATE_CONCEPTS {
            proof {
                lemma_accepted_saturated(iv, i as int);
            }
            done = true;
        } else {
            consider_exec(&mut acc, i, &items[i]);
            i += 1;
        }
    }
    if !done {
        assert(iv.take(iv.len() as int) =~= iv);
    }
    acc
}

proof fn lemma_accepted_saturated(
    items: Seq<Option<(Option<Seq<char>>, Option<Seq<char>>, Option<Seq<char>>, Option<Seq<char>>)>>,
    i: int,
)
    requires
        0 <= i <= items.len(),
        accepted_candidates(items.take(i)).len() >= MAX_CANDIDATE_CONCEPTS,
    ensures
        accepted_candidates(items) == accepted_candidates(items.take(i)),
    decreases items.len() - i,
{
    if i < items.len() {
        assert(items.take(i + 1).drop_last() =~= items.take(i));
        lemma_accepted_saturated(items, i + 1);
    } else {
        assert(items.take(i) =~= items);
    }
}

/// The metadata in a model's reply (see `metadata_matches`).
pub fn extract_structured_metadata(raw: &str) -> (r: ExtractedMetadata)
    ensures
        metadata_matches(r, raw@),
{
    let cleaned = strip_json_fence(raw);
    match parse_metadata_json(cleaned.as_str()) {
        Some(p) => {
            let summary = trimmed_text(&p.summary);
            let tags = match &p.tags {
                Some(t) => clean_tag_list(t),
                None => Vec::new(),
            };
            let cands = match parse_candidate_json(cleaned.as_str()) {
                Some(c) => accept_candidates(&c),
                None => Vec::new(),
            };
            let ghost pv = parsed_view(p);
            assert(json_metadata_fields(unfenced(raw@)) == Some(pv));
            assert(summary@ == trim(or_default(pv.0, Seq::empty())));
            assert(string_views(tags@) == match pv.2 {
                Some(t) => clean_tags(t),
                None => Seq::<Seq<char>>::empty(),
            });
            assert(accepted_views(cands@) == match json_candidate_fields(unfenced(raw@)) {
                Some(c) => accepted_candidates(c),
                None => Seq::<(int, Seq<char>, Seq<char>, Seq<char>, Option<Seq<char>>, Option<Seq<char>>)>::empty(),
            });
            if chars_of(summary.as_str()).len() > 0 || tags.len() > 0 || cands.len() > 0 {
                return ExtractedMetadata {
                    summary,
                    tags,
                    digest: trimmed_text(&p.digest),
                    candidate_concepts: cands,
                };
            }
        },
        None => {},
    }
    ExtractedMetadata {
        summary: string_from_chars(&trim_chars(&chars_of(raw))),
        tags: Vec::new(),
        digest: String::new(),
        candidate_concepts: Vec::new(),
    }
}

// ─── Filling in a capture's metadata ───────────────────────────────────────

/// Whether a capture still needs generated metadata: its summary is blank, it has no tag
/// terms, or no candidate concepts are stored for it.
pub open spec fn metadata_missing(c: CapturedContent, has_candidates: bool) -> bool {
    trim(or_default(opt_string(c.summary), Seq::empty())).len() == 0 || tag_terms(
        or_default(opt_string(c.tags), Seq::empty()),
    ).len() == 0 || !has_candidates
}

pub fn metadata_needed(content: &CapturedContent, has_candidates: bool) -> (r: bool)
    ensures
        r == metadata_missing(*content, has_candidates),
{
    proof {
        reveal_strlit("");
    }
    let summary: &str = match &content.summary {
        Some(s) => s.as_str(),
        None => "",
    };
    let tags: &str = match &content.tags {
        Some(t) => t.as_str(),
        None => "",
    };
    trim_chars(&chars_of(summary)).len() == 0 || parse_tag_terms(tags).len() == 0 || !has_candidates
}

/// Texts shorter than this many bytes (after trimming) get no generated metadata.
pub const METADATA_MIN_BYTES: usize = 50;

/// At most this many characters of the text are sent to the model.
pub const METADATA_EXCERPT_CHARS: usize = 5000;

/// The excerpt of a capture's text sent to the model: the first 5000 characters of its trimmed
/// text, or none when that text is shorter than 50 bytes.
pub open spec fn metadata_excerpt_of(c: CapturedContent) -> Option<Seq<char>> {
    let t = trim(or_default(body_text(c), Seq::empty()));
    if utf8_len(t) < METADATA_MIN_BYTES {
        None
    } else {
        Some(take_chars(t, METADATA_EXCERPT_CHARS as int))
    }
}

pub fn metadata_excerpt(content: &CapturedContent) -> (r: Option<String>)
    ensures
        opt_string(r) == metadata_excerpt_of(*content),
{
    proof {
        reveal_strlit("");
    }
    let text: &str = match &content.clean_content {
        Some(t) => t.as_str(),
        None => match &content.raw_text {
            Some(t) => t.as_str(),
            None => "",
        },
    };
    let t = trim_chars(&chars_of(text));
    if utf8_len_capped(&t, METADATA_MIN_BYTES) < METADATA_MIN_BYTES {
        None
    } else {
        Some(string_from_chars(&take_prefix(&t, METADATA_EXCERPT_CHARS)))
    }
}

/// The summary, tags and digest saved for a capture.
pub struct MetadataUpdate {
    pub summary: String,
    pub tags: String,
    pub digest: String,
}

/// What is saved from generated metadata: nothing when it holds no summary, tags or candidates;
/// otherwise each of summary, tags (joined by commas) and digest from the metadata when it has
/// one, else the capture's own (empty when missing).
pub open spec fn metadata_update_of(c: CapturedContent, m: ExtractedMetadata) -> Option<
    (Seq<char>, Seq<char>, Seq<char>),
> {
    if trim(m.summary@).len() == 0 && m.tags@.len() == 0 && m.candidate_concepts@.len() == 0 {
        None
    } else {
        Some(
            (
                if trim(m.summary@).len() == 0 {
                    or_default(opt_string(c.summary), Seq::empty())
                } else {
                    m.summary@
                },
                if m.tags@.len() == 0 {
                    or_default(opt_string(c.tags), Seq::empty())
                } else {
                    join(string_views(m.tags@), ","@)
                },
                if trim(m.digest@).len() == 0 {
                    or_default(opt_string(c.digest), Seq::empty())
                } else {
                    m.digest@
                },
            ),
        )
    }
}

fn text_or_empty_string(o: &Option<String>) -> (r: String)
    ensures
        r@ == or_default(opt_string(*o), Seq::empty()),
{
    match o {
        Some(s) => s.clone(),
        None => String::new(),
    }
}

pub fn metadata_update(content: &CapturedContent, metadata: &ExtractedMetadata) -> (r: Option<
    MetadataUpdate,
>)
    ensures
        match r {
            Some(u) => metadata_update_of(*content, *metadata) == Some(
                (u.summary@, u.tags@, u.digest@),
            ),
            None => metadata_update_of(*content, *metadata) is None,
        },
{
    let summary_blank = trim_chars(&chars_of(metadata.summary.as_str())).len() == 0;
    if summary_blank && metadata.tags.len() == 0 && metadata.candidate_concepts.len() == 0 {
        return None;
    }
    let summary = if summary_blank {
        text_or_empty_string(&content.summary)
    } else {
        metadata.summary.clone()
    };
    let tags = if metadata.tags.len() == 0 {
        text_or_empty_string(&content.tags)
    } else {
        let mut pieces: Vec<Vec<char>> = Vec::new();
        let mut i: usize = 0;
        while i < metadata.tags.len()
            invariant
                i <= metadata.tags.len(),
                views(pieces@) == string_views(metadata.tags@).take(i as int),
            decreases metadata.tags.len() - i,
        {
            let ghost before = views(pieces@);
            pieces.push(chars_of(metadata.tags[i].as_str()));
            proof {
                assert(views(pieces@) == before.push(metadata.tags@[i as int]@));
                assert(string_views(metadata.tags@).take(i as int + 1) == string_views(
                    metadata.tags@,
                ).take(i as int).push(metadata.tags@[i as int]@));
            }
            i = i + 1;
        }
        proof {
            assert(string_views(metadata.tags@).take(metadata.tags.len() as int) == string_views(
                metadata.tags@,
            ));
        }
        string_from_chars(&join_chars(&pieces, &chars_of(",")))
    };
    let digest = if trim_chars(&chars_of(metadata.digest.as_str())).len() == 0 {
        text_or_empty_string(&content.digest)
    } else {
        metadata.digest.clone()
    };
    Some(MetadataUpdate { summary, tags, digest })
}

} // verus!
