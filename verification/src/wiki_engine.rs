//! Deterministic parts of the wiki compiler: content fingerprints, slugs, tag lists, concept
//! candidate normalisation, fallback source pages and the texts shown for promoted concepts.

use vstd::prelude::*;
use vstd::std_specs::hash::DefaultHasherAdditionalSpecFns;
use std::collections::hash_map::DefaultHasher;
use std::hash::Hasher;
use crate::models::CapturedContent;
use crate::text::{
    append, chars_of, concat_chars, lines, lines_chars, opt_string, slice_chars, split_on,
    starts_with, string_from_chars, take_chars, take_prefix, trim, trim_chars, views,
};

verus! {

broadcast use vstd::seq::group_seq_axioms;

/// Version tag mixed into the fingerprint of imported files, so a change of the concept
/// policy recompiles them.
pub const IMPORTED_CONCEPT_POLICY_VERSION: &'static str = "candidate-concepts-v3";

/// The default concept-promotion thresholds, as they enter the fingerprint
/// (`{importance:.2}:{sources}:{days}`).
pub const DEFAULT_CONCEPT_POLICY: &'static str = "0.65:2:2";

pub const DEFAULT_MIN_PROMOTED_CONCEPT_SOURCES: i64 = 2;
pub const DEFAULT_MIN_PROMOTED_CONCEPT_DAYS: i64 = 2;

// ─── Lowercasing and letters ───────────────────────────────────────────────

/// The first character of `char::to_lowercase(c)`.
pub uninterp spec fn lowercase_first(c: char) -> char;

/// `c.to_lowercase().next().unwrap_or(c)`. Trusted: std gives the Unicode lowercase mapping,
/// which for ASCII maps `A`..`Z` to `a`..`z` and keeps every other ASCII character.
#[verifier::external_body]
pub(crate) fn to_lowercase_first(c: char) -> (r: char)
    ensures
        r == lowercase_first(c),
        (c as u32) < 0x80 ==> r == crate::text::ascii_lower(c),
{
    c.to_lowercase().next().unwrap_or(c)
}

/// What a slug keeps of one character: letters, digits, `-` and `_` lowercased, a space as
/// `-`, characters above U+2E80 (CJK and beyond) as they are, anything else as `-`.
pub open spec fn slug_char(c: char) -> char {
    if crate::reader::unicode_alphanumeric(c) || c == '-' || c == '_' {
        lowercase_first(c)
    } else if c == ' ' {
        '-'
    } else if (c as u32) > 0x2E80 {
        c
    } else {
        '-'
    }
}

/// Runs of `-` collapsed to one.
pub open spec fn collapse_dashes(s: Seq<char>) -> Seq<char>
    decreases s.len(),
{
    if s.len() == 0 {
        s
    } else {
        let p = collapse_dashes(s.drop_last());
        if s.last() == '-' && s.len() >= 2 && s[s.len() - 2] == '-' {
            p
        } else {
            p.push(s.last())
        }
    }
}

/// `s.trim_matches('-')`.
pub open spec fn trim_dashes(s: Seq<char>) -> Seq<char> {
    crate::text::trim_end_char(crate::text::trim_start_char(s, '-'), '-')
}

/// A URL-safe slug of a title: characters mapped by `slug_char`, dashes collapsed, and no
/// dash at either end.
pub open spec fn slug(title: Seq<char>) -> Seq<char> {
    trim_dashes(collapse_dashes(title.map_values(|c: char| slug_char(c))))
}

/// An ASCII letter or digit.
pub open spec fn ascii_alnum(c: char) -> bool {
    ('0' <= c && c <= '9') || ('a' <= c && c <= 'z') || ('A' <= c && c <= 'Z')
}

/// What a slug keeps of an ASCII character: letters and digits lowercased, `-` and `_`
/// themselves, anything else (a space among them) as `-`.
pub open spec fn ascii_slug_char(c: char) -> char {
    if ascii_alnum(c) || c == '-' || c == '_' {
        crate::text::ascii_lower(c)
    } else {
        '-'
    }
}

/// A title of words made of ASCII letters and digits, separated by single spaces.
pub open spec fn ascii_words(t: Seq<char>) -> bool {
    &&& t.len() > 0
    &&& t[0] != ' '
    &&& t.last() != ' '
    &&& forall|i: int| 0 <= i < t.len() ==> ascii_alnum(#[trigger] t[i]) || t[i] == ' '
    &&& forall|i: int| 0 <= i < t.len() - 1 ==> !(#[trigger] t[i] == ' ' && t[i + 1] == ' ')
}

/// The slug of such a title: every letter and digit kept in order, lowercased, and each
/// space as `-`.
pub open spec fn ascii_words_slug(t: Seq<char>) -> Seq<char> {
    t.map_values(
        |c: char|
            if c == ' ' {
                '-'
            } else {
                crate::text::ascii_lower(c)
            },
    )
}

proof fn lemma_collapse_without_double_dashes(s: Seq<char>)
    requires
        forall|i: int| 0 <= i < s.len() - 1 ==> !(#[trigger] s[i] == '-' && s[i + 1] == '-'),
    ensures
        collapse_dashes(s) == s,
    decreases s.len(),
{
    if s.len() > 0 {
        let p = s.drop_last();
        assert forall|i: int| 0 <= i < p.len() - 1 implies !(#[trigger] p[i] == '-' && p[i + 1]
            == '-') by {
            assert(p[i] == s[i] && p[i + 1] == s[i + 1]);
        }
        lemma_collapse_without_double_dashes(p);
        if s.len() >= 2 {
            assert(!(s[s.len() - 2] == '-' && s[s.len() - 1] == '-'));
        }
        assert(p.push(s.last()) =~= s);
    }
}

/// The slug of a title of ASCII words keeps every letter and digit, lowercased, in order,
/// with a `-` for each space.
proof fn lemma_ascii_words_slug(t: Seq<char>, mapped: Seq<char>)
    requires
        ascii_words(t),
        mapped == ascii_words_slug(t),
    ensures
        trim_dashes(collapse_dashes(mapped)) == mapped,
{
    assert forall|i: int| 0 <= i < mapped.len() - 1 implies !(#[trigger] mapped[i] == '-'
        && mapped[i + 1] == '-') by {
        assert(ascii_alnum(t[i]) || t[i] == ' ');
        assert(ascii_alnum(t[i + 1]) || t[i + 1] == ' ');
        assert(!(t[i] == ' ' && t[i + 1] == ' '));
    }
    lemma_collapse_without_double_dashes(mapped);
    assert(ascii_alnum(t[0]) || t[0] == ' ');
    assert(ascii_alnum(t[t.len() - 1]) || t[t.len() - 1] == ' ');
    assert(mapped[0] != '-');
    assert(mapped.last() != '-');
    assert(crate::text::leading_count(mapped, '-') == 0);
    assert(mapped.skip(0) =~= mapped);
    assert(crate::text::trailing_count(mapped, '-') == 0);
    assert(mapped.take(mapped.len() as int) =~= mapped);
}

/// Slugs keep the words of a title: for a title of ASCII letters and digits in words
/// separated by single spaces, the slug is the title lowercased with each space as `-`
/// (given std's answers on ASCII characters, which `is_alphanumeric` and `to_lowercase_first`
/// state: letters and digits are alphanumeric, and lowercasing maps `A`..`Z` to `a`..`z`).
pub proof fn law_slug_keeps_ascii_words(t: Seq<char>)
    requires
        ascii_words(t),
        forall|c: char|
            (c as u32) < 0x80 ==> (#[trigger] crate::reader::unicode_alphanumeric(c) <==> ascii_alnum(
                c,
            )),
        forall|c: char| (c as u32) < 0x80 ==> #[trigger] lowercase_first(c) == crate::text::ascii_lower(c),
    ensures
        slug(t) == ascii_words_slug(t),
{
    let mapped = t.map_values(|c: char| slug_char(c));
    assert forall|j: int| 0 <= j < t.len() implies #[trigger] mapped[j] == ascii_words_slug(t)[j] by {
        assert(ascii_alnum(t[j]) || t[j] == ' ');
        assert((t[j] as u32) < 0x80);
        assert(crate::reader::unicode_alphanumeric(t[j]) == ascii_alnum(t[j]));
        assert(lowercase_first(t[j]) == crate::text::ascii_lower(t[j]));
    }
    assert(mapped =~= ascii_words_slug(t));
    lemma_ascii_words_slug(t, mapped);
}

pub(crate) fn slug_char_exec(c: char) -> (r: char)
    ensures
        r == slug_char(c),
        (c as u32) < 0x80 ==> r == ascii_slug_char(c),
{
    if crate::reader::is_alphanumeric_pub(c) || c == '-' || c == '_' {
        to_lowercase_first(c)
    } else if c == ' ' {
        '-'
    } else if (c as u32) > 0x2E80 {
        c
    } else {
        '-'
    }
}

/// Generates a URL-safe slug from a title. A title of ASCII words keeps every letter and
/// digit, lowercased, in order, with a `-` for each space.
pub fn slugify(title: &str) -> (r: String)
    ensures
        r@ == slug(title@),
        ascii_words(title@) ==> r@ == ascii_words_slug(title@),
{
    let t = chars_of(title);
    let mut mapped: Vec<char> = Vec::new();
    let mut i: usize = 0;
    while i < t.len()
        invariant
            i <= t@.len(),
            mapped@ == t@.take(i as int).map_values(|c: char| slug_char(c)),
            forall|j: int|
                0 <= j < i && (t@[j] as u32) < 0x80 ==> #[trigger] mapped@[j] == ascii_slug_char(t@[j]),
        decreases t.len() - i,
    {
        let ghost before = mapped@;
        mapped.push(slug_char_exec(t[i]));
        i += 1;
        proof {
            assert(mapped@ =~= t@.take(i as int).map_values(|c: char| slug_char(c)));
            assert forall|j: int|
                0 <= j < i && (t@[j] as u32) < 0x80 implies #[trigger] mapped@[j] == ascii_slug_char(
                t@[j],
            ) by {
                if j < i - 1 {
                    assert(mapped@[j] == before[j]);
                }
            }
        }
    }
    proof {
        assert(t@.take(t@.len() as int) =~= t@);
        if ascii_words(t@) {
            assert forall|j: int| 0 <= j < t@.len() implies #[trigger] mapped@[j]
                == ascii_words_slug(t@)[j] by {
                assert(ascii_alnum(t@[j]) || t@[j] == ' ');
                assert((t@[j] as u32) < 0x80);
            }
            assert(mapped@ =~= ascii_words_slug(t@));
            lemma_ascii_words_slug(t@, mapped@);
        }
    }
    let mut collapsed: Vec<char> = Vec::new();
    let mut j: usize = 0;
    while j < mapped.len()
        invariant
            j <= mapped@.len(),
            collapsed@ == collapse_dashes(mapped@.take(j as int)),
        decreases mapped.len() - j,
    {
        proof {
            let s = mapped@.take(j + 1);
            assert(s.drop_last() =~= mapped@.take(j as int));
            if j >= 1 {
                assert(s[s.len() - 2] == mapped@[j - 1]);
            }
        }
        let c = mapped[j];
        if !(c == '-' && j >= 1 && mapped[j - 1] == '-') {
            collapsed.push(c);
        }
        j += 1;
    }
    proof {
        assert(mapped@.take(mapped@.len() as int) =~= mapped@);
    }
    let a = crate::text::trim_start_matches_char(&collapsed, '-');
    let b = crate::text::trim_end_matches_char(&a, '-');
    string_from_chars(&b)
}

/// `text.chars().take(max_chars).collect()`.
pub fn truncate_chars(text: &str, max_chars: usize) -> (r: String)
    ensures
        r@ == take_chars(text@, max_chars as int),
{
    let t = chars_of(text);
    string_from_chars(&take_prefix(&t, max_chars))
}

// ─── Tags ──────────────────────────────────────────────────────────────────

/// The texts of a vector of strings.
pub open spec fn string_views(v: Seq<String>) -> Seq<Seq<char>> {
    Seq::new(v.len(), |i: int| v[i]@)
}

/// The pieces, trimmed, without the blank ones.
pub open spec fn trimmed_nonblank(pieces: Seq<Seq<char>>) -> Seq<Seq<char>>
    decreases pieces.len(),
{
    if pieces.len() == 0 {
        Seq::empty()
    } else {
        let init = trimmed_nonblank(pieces.drop_last());
        let t = trim(pieces.last());
        if t.len() == 0 {
            init
        } else {
            init.push(t)
        }
    }
}

/// Each term once, at its first position.
pub open spec fn dedup(s: Seq<Seq<char>>) -> Seq<Seq<char>>
    decreases s.len(),
{
    if s.len() == 0 {
        s
    } else {
        let d = dedup(s.drop_last());
        if d.contains(s.last()) {
            d
        } else {
            d.push(s.last())
        }
    }
}

/// The characters tag lists are separated by.
pub open spec fn tag_separators() -> Seq<char> {
    seq![',', '\n', ';', '|']
}

/// The distinct non-blank terms of a tag list separated by `,`, newline, `;` or `|`,
/// trimmed, in order of first appearance.
pub open spec fn tag_terms(raw: Seq<char>) -> Seq<Seq<char>> {
    dedup(trimmed_nonblank(split_on(raw, tag_separators())))
}

pub(crate) fn vec_contains_string(v: &Vec<String>, s: &String) -> (b: bool)
    ensures
        b == string_views(v@).contains(s@),
{
    let mut i: usize = 0;
    while i < v.len()
        invariant
            i <= v@.len(),
            forall|j: int| 0 <= j < i ==> v@[j]@ != s@,
        decreases v.len() - i,
    {
        if v[i] == *s {
            assert(string_views(v@)[i as int] == s@);
            return true;
        }
        i += 1;
    }
    proof {
        assert forall|j: int| 0 <= j < string_views(v@).len() implies string_views(v@)[j] != s@ by {
            assert(string_views(v@)[j] == v@[j]@);
        }
    }
    false
}

fn tag_separator_chars() -> (r: Vec<char>)
    ensures
        r@ == tag_separators(),
{
    let r = vec![',', '\n', ';', '|'];
    proof {
        assert(r@ =~= tag_separators());
    }
    r
}

/// Splits a tag list into its distinct, trimmed, non-blank terms, in order.
pub fn parse_tag_terms(raw_tags: &str) -> (r: Vec<String>)
    ensures
        string_views(r@) == tag_terms(raw_tags@),
{
    let raw = chars_of(raw_tags);
    let seps = tag_separator_chars();
    let pieces = crate::text::split_chars(&raw, &seps);
    let ghost sp = split_on(raw@, tag_separators());
    let mut trimmed: Vec<String> = Vec::new();
    let mut i: usize = 0;
    while i < pieces.len()
        invariant
            i <= pieces@.len(),
            views(pieces@) == sp,
            string_views(trimmed@) == trimmed_nonblank(sp.take(i as int)),
        decreases pieces.len() - i,
    {
        proof {
            let t = sp.take(i + 1);
            assert(t.drop_last() =~= sp.take(i as int));
            assert(t.last() == pieces@[i as int]@);
        }
        let t = trim_chars(&pieces[i]);
        if t.len() > 0 {
            trimmed.push(string_from_chars(&t));
            proof {
                assert(string_views(trimmed@) =~= trimmed_nonblank(sp.take(i + 1)));
            }
        }
        i += 1;
    }
    proof {
        assert(sp.take(sp.len() as int) =~= sp);
    }
    let mut tags: Vec<String> = Vec::new();
    let mut k: usize = 0;
    while k < trimmed.len()
        invariant
            k <= trimmed@.len(),
            string_views(tags@) == dedup(string_views(trimmed@).take(k as int)),
        decreases trimmed.len() - k,
    {
        proof {
            let t = string_views(trimmed@).take(k + 1);
            assert(t.drop_last() =~= string_views(trimmed@).take(k as int));
            assert(t.last() == trimmed@[k as int]@);
        }
        if !vec_contains_string(&tags, &trimmed[k]) {
            tags.push(trimmed[k].clone());
            proof {
                assert(string_views(tags@) =~= dedup(string_views(trimmed@).take(k + 1)));
            }
        }
        k += 1;
    }
    proof {
        assert(string_views(trimmed@).take(trimmed@.len() as int) =~= string_views(trimmed@));
    }
    tags
}

/// `existing`, then each term of `incoming` that is not already there, in order.
pub open spec fn merged_tags(existing: Seq<Seq<char>>, incoming: Seq<Seq<char>>) -> Seq<Seq<char>>
    decreases incoming.len(),
{
    if incoming.len() == 0 {
        existing
    } else {
        let m = merged_tags(existing, incoming.drop_last());
        if m.contains(incoming.last()) {
            m
        } else {
            m.push(incoming.last())
        }
    }
}

/// Appends to `existing` the incoming tags it does not hold yet.
pub fn merge_unique_tags(existing: &Vec<String>, incoming: &Vec<String>) -> (r: Vec<String>)
    ensures
        string_views(r@) == merged_tags(string_views(existing@), string_views(incoming@)),
{
    let mut merged: Vec<String> = existing.clone();
    proof {
        assert(string_views(merged@) =~= string_views(existing@));
        assert(string_views(incoming@).take(0) =~= Seq::<Seq<char>>::empty());
    }
    let mut i: usize = 0;
    while i < incoming.len()
        invariant
            i <= incoming@.len(),
            string_views(merged@) == merged_tags(
                string_views(existing@),
                string_views(incoming@).take(i as int),
            ),
        decreases incoming.len() - i,
    {
        proof {
            let t = string_views(incoming@).take(i + 1);
            assert(t.drop_last() =~= string_views(incoming@).take(i as int));
            assert(t.last() == incoming@[i as int]@);
        }
        if !vec_contains_string(&merged, &incoming[i]) {
            merged.push(incoming[i].clone());
            proof {
                assert(string_views(merged@) =~= merged_tags(
                    string_views(existing@),
                    string_views(incoming@).take(i + 1),
                ));
            }
        }
        i += 1;
    }
    proof {
        assert(string_views(incoming@).take(incoming@.len() as int) =~= string_views(incoming@));
    }
    merged
}

// ─── Laws on tags ──────────────────────────────────────────────────────────

proof fn lemma_contains_push(s: Seq<Seq<char>>, a: Seq<char>, x: Seq<char>)
    ensures
        s.push(a).contains(x) <==> s.contains(x) || x == a,
{
    if s.contains(x) {
        let k = choose|k: int| 0 <= k < s.len() && s[k] == x;
        assert(s.push(a)[k] == x);
    }
    if x == a {
        assert(s.push(a)[s.len() as int] == x);
    }
    if s.push(a).contains(x) {
        let k = choose|k: int| 0 <= k < s.push(a).len() && s.push(a)[k] == x;
        if k < s.len() {
            assert(s[k] == x);
        }
    }
}

proof fn lemma_contains_drop_last(s: Seq<Seq<char>>, x: Seq<char>)
    requires
        s.len() > 0,
    ensures
        s.contains(x) <==> s.drop_last().contains(x) || x == s.last(),
{
    assert(s =~= s.drop_last().push(s.last()));
    lemma_contains_push(s.drop_last(), s.last(), x);
}

proof fn lemma_dedup_props(s: Seq<Seq<char>>)
    ensures
        dedup(s).no_duplicates(),
        forall|x: Seq<char>| #[trigger] dedup(s).contains(x) <==> s.contains(x),
    decreases s.len(),
{
    if s.len() > 0 {
        lemma_dedup_props(s.drop_last());
        let d = dedup(s.drop_last());
        assert forall|x: Seq<char>| #[trigger] dedup(s).contains(x) <==> s.contains(x) by {
            lemma_contains_drop_last(s, x);
            lemma_contains_push(d, s.last(), x);
            if x == s.last() && d.contains(s.last()) {
            }
        }
        if !d.contains(s.last()) {
            let r = d.push(s.last());
            assert forall|i: int, j: int| 0 <= i < r.len() && 0 <= j < r.len() && i != j implies r[i]
                != r[j] by {
                if i < d.len() && j < d.len() {
                } else if i < d.len() {
                    assert(d.contains(r[i]));
                } else if j < d.len() {
                    assert(d.contains(r[j]));
                }
            }
        }
    }
}

proof fn lemma_trimmed_nonblank_props(p: Seq<Seq<char>>)
    ensures
        forall|i: int|
            0 <= i < trimmed_nonblank(p).len() ==> (#[trigger] trimmed_nonblank(p)[i]).len() > 0
                && trim(trimmed_nonblank(p)[i]) == trimmed_nonblank(p)[i],
    decreases p.len(),
{
    if p.len() > 0 {
        lemma_trimmed_nonblank_props(p.drop_last());
        crate::fragments::lemma_trim_idempotent(p.last());
        let init = trimmed_nonblank(p.drop_last());
        let r = trimmed_nonblank(p);
        assert forall|i: int| 0 <= i < r.len() implies (#[trigger] r[i]).len() > 0 && trim(r[i])
            == r[i] by {
            if i < init.len() {
                assert(r[i] == init[i]);
            }
        }
    }
}

proof fn lemma_trimmed_nonblank_at(p: Seq<Seq<char>>, k: int)
    requires
        0 <= k < trimmed_nonblank(p).len(),
    ensures
        trimmed_nonblank(p)[k].len() > 0,
        trim(trimmed_nonblank(p)[k]) == trimmed_nonblank(p)[k],
{
    lemma_trimmed_nonblank_props(p);
    assert(trimmed_nonblank(p)[k] == trimmed_nonblank(p)[k]);
}

/// Law: the terms of a tag list are distinct, non-empty, and already trimmed.
pub proof fn law_tag_terms_distinct_and_trimmed(raw: Seq<char>)
    ensures
        tag_terms(raw).no_duplicates(),
        forall|i: int|
            0 <= i < tag_terms(raw).len() ==> #[trigger] tag_terms(raw)[i].len() > 0 && trim(
                tag_terms(raw)[i],
            ) == tag_terms(raw)[i],
{
    let t = trimmed_nonblank(split_on(raw, tag_separators()));
    lemma_dedup_props(t);
    lemma_trimmed_nonblank_props(t);
    assert forall|i: int| 0 <= i < tag_terms(raw).len() implies #[trigger] tag_terms(raw)[i].len()
        > 0 && trim(tag_terms(raw)[i]) == tag_terms(raw)[i] by {
        let x = tag_terms(raw)[i];
        assert(dedup(t)[i] == x);
        assert(dedup(t).contains(x));
        assert(t.contains(x));
        let k = choose|k: int| 0 <= k < t.len() && t[k] == x;
        lemma_trimmed_nonblank_at(split_on(raw, tag_separators()), k);
    }
}

proof fn lemma_merge_of_present(existing: Seq<Seq<char>>, incoming: Seq<Seq<char>>)
    requires
        forall|x: Seq<char>| #[trigger] incoming.contains(x) ==> existing.contains(x),
    ensures
        merged_tags(existing, incoming) == existing,
    decreases incoming.len(),
{
    if incoming.len() > 0 {
        let init = incoming.drop_last();
        assert forall|x: Seq<char>| #[trigger] init.contains(x) implies existing.contains(x) by {
            let k = choose|k: int| 0 <= k < init.len() && init[k] == x;
            assert(incoming[k] == x);
            assert(incoming.contains(x));
        }
        lemma_merge_of_present(existing, init);
        assert(incoming[incoming.len() - 1] == incoming.last());
        assert(incoming.contains(incoming.last()));
    }
}

/// Merging the same tags a second time changes nothing.
pub proof fn law_merge_is_idempotent(existing: Seq<Seq<char>>, incoming: Seq<Seq<char>>)
    ensures
        merged_tags(merged_tags(existing, incoming), incoming) == merged_tags(existing, incoming),
{
    law_merge_keeps_existing_and_adds_incoming(existing, incoming);
    lemma_merge_of_present(merged_tags(existing, incoming), incoming);
}

/// Law: merging keeps the existing tags first and in order, adds every incoming tag, and
/// adds nothing else.
pub proof fn law_merge_keeps_existing_and_adds_incoming(
    existing: Seq<Seq<char>>,
    incoming: Seq<Seq<char>>,
)
    ensures
        merged_tags(existing, incoming).len() >= existing.len(),
        merged_tags(existing, incoming).take(existing.len() as int) == existing,
        forall|x: Seq<char>| #[trigger] incoming.contains(x) ==> merged_tags(existing, incoming).contains(x),
        forall|x: Seq<char>| #[trigger] merged_tags(existing, incoming).contains(x) ==> existing.contains(x)
            || incoming.contains(x),
    decreases incoming.len(),
{
    if incoming.len() == 0 {
        assert(existing.take(existing.len() as int) =~= existing);
    } else {
        let init = incoming.drop_last();
        law_merge_keeps_existing_and_adds_incoming(existing, init);
        let m = merged_tags(existing, init);
        let r = merged_tags(existing, incoming);
        if !m.contains(incoming.last()) {
            assert(r.take(existing.len() as int) =~= m.take(existing.len() as int));
        }
        assert forall|x: Seq<char>| #[trigger] incoming.contains(x) implies r.contains(x) by {
            let k = choose|k: int| 0 <= k < incoming.len() && incoming[k] == x;
            if k < incoming.len() - 1 {
                assert(init[k] == x);
                assert(init.contains(x));
                let j = choose|j: int| 0 <= j < m.len() && m[j] == x;
                if !m.contains(incoming.last()) {
                    assert(r[j] == x);
                }
            } else if m.contains(incoming.last()) {
            } else {
                assert(r[r.len() - 1] == x);
            }
        }
        assert forall|x: Seq<char>| #[trigger] r.contains(x) implies existing.contains(x)
            || incoming.contains(x) by {
            let j = choose|j: int| 0 <= j < r.len() && r[j] == x;
            if j < m.len() {
                assert(m[j] == x);
                assert(m.contains(x));
                if init.contains(x) {
                    let k = choose|k: int| 0 <= k < init.len() && init[k] == x;
                    assert(incoming[k] == x);
                }
            } else {
                assert(incoming[incoming.len() - 1] == x);
            }
        }
    }
}

} // verus!

verus! {

// ─── Concept candidates ────────────────────────────────────────────────────

/// The temporality a model's answer names, as `recurring` or `transient`; other answers are
/// dropped. Case and surrounding whitespace do not matter.
pub open spec fn candidate_temporality(raw: Seq<char>) -> Option<Seq<char>> {
    let t = crate::text::ascii_lower_seq(trim(raw));
    if t == "recurring"@ || t == "recurrent"@ || t == "persistent"@ || t == "long_term"@ || t
        == "long-term"@ {
        Some("recurring"@)
    } else if t == "transient"@ || t == "temporary"@ || t == "ephemeral"@ || t == "one_off"@ || t
        == "one-off"@ || t == "single_use"@ || t == "single-use"@ {
        Some("transient"@)
    } else {
        None
    }
}

pub fn normalize_candidate_temporality(raw: &str) -> (r: Option<String>)
    ensures
        opt_string(r) == candidate_temporality(raw@),
{
    let t = crate::text::to_ascii_lower(&trim_chars(&chars_of(raw)));
    let eq = |lit: &str| -> (b: bool)
        ensures
            b == (t@ == lit@),
        { crate::text::eq_str(&t, lit) };
    if eq("recurring") || eq("recurrent") || eq("persistent") || eq("long_term") || eq(
        "long-term",
    ) {
        Some(string_from_chars(&chars_of("recurring")))
    } else if eq("transient") || eq("temporary") || eq("ephemeral") || eq("one_off") || eq(
        "one-off",
    ) || eq("single_use") || eq("single-use") {
        Some(string_from_chars(&chars_of("transient")))
    } else {
        None
    }
}

/// The slug a candidate concept is known by; `None` when nothing is left of its name.
pub open spec fn candidate_name(raw: Seq<char>) -> Option<Seq<char>> {
    let t = trim(raw);
    if t.len() == 0 || slug(t).len() == 0 {
        None
    } else {
        Some(slug(t))
    }
}

pub fn normalize_candidate_name(raw: &str) -> (r: Option<String>)
    ensures
        opt_string(r) == candidate_name(raw@),
{
    let t = trim_chars(&chars_of(raw));
    if t.len() == 0 {
        return None;
    }
    let ts = string_from_chars(&t);
    let s = slugify(ts.as_str());
    if s.as_str().is_empty() {
        None
    } else {
        Some(s)
    }
}

// ─── Paths of imported files ───────────────────────────────────────────────

/// What `Path::extension` gives for a path, as text.
pub uninterp spec fn path_extension_of(path: Seq<char>) -> Option<Seq<char>>;

/// What `Path::file_stem` gives for a path, as text.
pub uninterp spec fn path_file_stem_of(path: Seq<char>) -> Option<Seq<char>>;

/// `Path::new(path).extension()` as text. Trusted: std's extension of the path's last
/// component, a function of the path text alone.
#[verifier::external_body]
pub(crate) fn path_extension(path: &str) -> (r: Option<String>)
    ensures
        opt_string(r) == path_extension_of(path@),
{
    std::path::Path::new(path).extension().and_then(|e| e.to_str()).map(|e| e.to_string())
}

/// `Path::new(path).file_stem()` as text. Trusted: std's file name without its extension, a
/// function of the path text alone.
#[verifier::external_body]
fn path_file_stem(path: &str) -> (r: Option<String>)
    ensures
        opt_string(r) == path_file_stem_of(path@),
{
    std::path::Path::new(path).file_stem().and_then(|e| e.to_str()).map(|e| e.to_string())
}

/// A source named like a Markdown or text file (`.md`, `.markdown`, `.txt`, any case) was
/// imported from disk.
pub open spec fn is_import_name(source_app: Seq<char>) -> bool {
    match path_extension_of(source_app) {
        Some(e) => {
            let l = crate::text::ascii_lower_seq(e);
            l == "md"@ || l == "markdown"@ || l == "txt"@
        },
        None => false,
    }
}

pub fn is_import_source_name(source_app: &str) -> (b: bool)
    ensures
        b == is_import_name(source_app@),
{
    match path_extension(source_app) {
        Some(e) => {
            let l = crate::text::to_ascii_lower(&chars_of(e.as_str()));
            crate::text::eq_str(&l, "md") || crate::text::eq_str(&l, "markdown")
                || crate::text::eq_str(&l, "txt")
        },
        None => false,
    }
}

/// Whether the content was imported from a Markdown or text file.
pub fn is_file_import_source(content: &CapturedContent) -> (b: bool)
    ensures
        b == is_import_name(content.source_app@),
{
    is_import_source_name(content.source_app.as_str())
}

/// The text the wiki reads from a content: the cleaned text when there is one, else the raw
/// text.
pub open spec fn body_text(c: CapturedContent) -> Option<Seq<char>> {
    match c.clean_content {
        Some(t) => Some(t@),
        None => opt_string(c.raw_text),
    }
}

fn body_text_of(c: &CapturedContent) -> (r: Option<Vec<char>>)
    ensures
        crate::text::opt_chars(r) == body_text(*c),
{
    match &c.clean_content {
        Some(t) => Some(chars_of(t.as_str())),
        None => match &c.raw_text {
            Some(t) => Some(chars_of(t.as_str())),
            None => None,
        },
    }
}

/// The first line of `ls` from `i` on that is not blank.
pub open spec fn first_nonblank_line(ls: Seq<Seq<char>>, i: int) -> Option<int>
    decreases ls.len() - i,
{
    if i >= ls.len() {
        None
    } else if trim(ls[i]).len() > 0 {
        Some(i)
    } else {
        first_nonblank_line(ls, i + 1)
    }
}

/// Title of a fallback page: the first non-blank line of the text (its heading marks removed,
/// or as it is when nothing else is left), else the source's file name without extension
/// (or the source itself), else `Imported Source`; at most 60 characters.
pub open spec fn manual_page_title(c: CapturedContent) -> Seq<char> {
    let from_text = match body_text(c) {
        Some(text) => match first_nonblank_line(lines(text), 0) {
            Some(i) => {
                let t = trim(lines(text)[i]);
                let heading = trim(crate::text::trim_start_char(t, '#'));
                Some(
                    if heading.len() > 0 {
                        take_chars(heading, 60)
                    } else {
                        take_chars(t, 60)
                    },
                )
            },
            None => None,
        },
        None => None,
    };
    match from_text {
        Some(t) => t,
        None => if trim(c.source_app@).len() > 0 {
            take_chars(
                match path_file_stem_of(c.source_app@) {
                    Some(s) => s,
                    None => c.source_app@,
                },
                60,
            )
        } else {
            "Imported Source"@
        },
    }
}

pub fn infer_manual_page_title(content: &CapturedContent) -> (r: String)
    ensures
        r@ == manual_page_title(*content),
{
    match body_text_of(content) {
        Some(text) => {
            let ls = lines_chars(&text);
            let mut i: usize = 0;
            while i < ls.len()
                invariant
                    i <= ls@.len(),
                    views(ls@) == lines(text@),
                    body_text(*content) == Some(text@),
                    first_nonblank_line(lines(text@), 0) == first_nonblank_line(
                        lines(text@),
                        i as int,
                    ),
                decreases ls.len() - i,
            {
                proof {
                    assert(views(ls@)[i as int] == ls@[i as int]@);
                }
                let t = trim_chars(&ls[i]);
                if t.len() > 0 {
                    let heading = trim_chars(&crate::text::trim_start_matches_char(&t, '#'));
                    if heading.len() > 0 {
                        return string_from_chars(&take_prefix(&heading, 60));
                    }
                    return string_from_chars(&take_prefix(&t, 60));
                }
                i += 1;
            }
        },
        None => {},
    }
    if trim_chars(&chars_of(content.source_app.as_str())).len() > 0 {
        let name = match path_file_stem(content.source_app.as_str()) {
            Some(s) => chars_of(s.as_str()),
            None => chars_of(content.source_app.as_str()),
        };
        return string_from_chars(&take_prefix(&name, 60));
    }
    string_from_chars(&chars_of("Imported Source"))
}

// ─── Fallback source pages ─────────────────────────────────────────────────

/// Body of a fallback page: a context section (`Case Context` for case pages, `Source`
/// otherwise) with capture time, source app and link, then the text itself.
pub open spec fn manual_source_body(c: CapturedContent, page_type: Seq<char>) -> Seq<char> {
    let is_case = page_type == "case"@;
    let text = match body_text(c) {
        Some(t) => t,
        None => Seq::empty(),
    };
    let head = if is_case {
        "## Case Context\n\n"@
    } else {
        "## Source\n\n"@
    };
    let url_line = match c.source_url {
        Some(u) => if u@.len() == 0 {
            Seq::empty()
        } else {
            match crate::text::strip_prefix(u@, "local-raw:"@) {
                Some(p) => "- Original file: "@ + p + "\n"@,
                None => "- Original URL: "@ + u@ + "\n"@,
            }
        },
        None => Seq::empty(),
    };
    let notes = if is_case {
        "## Case Notes\n\n"@
    } else {
        "## Original Content\n\n"@
    };
    head + "- Captured at: "@ + c.captured_at@ + "\n"@ + "- Source app: "@ + c.source_app@
        + "\n"@ + url_line + "\n"@ + notes + text + "\n"@
}

pub fn build_manual_source_body(content: &CapturedContent, page_type: &str) -> (r: String)
    ensures
        r@ == manual_source_body(*content, page_type@),
{
    let is_case = crate::text::eq_str(&chars_of(page_type), "case");
    let text: Vec<char> = match body_text_of(content) {
        Some(t) => t,
        None => Vec::new(),
    };
    let head = if is_case {
        chars_of("## Case Context\n\n")
    } else {
        chars_of("## Source\n\n")
    };
    let url_line: Vec<char> = match &content.source_url {
        Some(u) => {
            let uc = chars_of(u.as_str());
            if uc.len() == 0 {
                Vec::new()
            } else {
                match crate::text::strip_prefix_chars(&uc, &chars_of("local-raw:")) {
                    Some(p) => append(concat_chars(&chars_of("- Original file: "), &p), "\n"),
                    None => append(append(chars_of("- Original URL: "), u.as_str()), "\n"),
                }
            }
        },
        None => Vec::new(),
    };
    let notes = if is_case {
        chars_of("## Case Notes\n\n")
    } else {
        chars_of("## Original Content\n\n")
    };
    let a = append(append(append(head, "- Captured at: "), content.captured_at.as_str()), "\n");
    let b = append(append(append(a, "- Source app: "), content.source_app.as_str()), "\n");
    let c = append(concat_chars(&b, &url_line), "\n");
    let d = append(concat_chars(&concat_chars(&c, &notes), &text), "\n");
    string_from_chars(&d)
}

/// Number of leading characters of `s` that take exactly `n` bytes in UTF-8, if the byte
/// `n` falls on a character boundary.
pub open spec fn char_count_for_bytes(s: Seq<char>, n: nat) -> Option<int>
    decreases s.len(),
{
    if n == 0 {
        Some(0)
    } else if s.len() == 0 || crate::text::utf8_width(s[0]) > n {
        None
    } else {
        match char_count_for_bytes(s.drop_first(), (n - crate::text::utf8_width(s[0])) as nat) {
            Some(k) => Some(k + 1),
            None => None,
        }
    }
}

/// `page_id[..8]` is a valid slice: the first eight bytes are whole characters.
pub open spec fn has_eight_byte_prefix(page_id: Seq<char>) -> bool {
    char_count_for_bytes(page_id, 8) is Some
}

/// The slug a new page gets: the slug itself, or when it is taken, the slug followed by `-`
/// and the first eight bytes of the page id.
pub open spec fn unique_slug(slug: Seq<char>, page_id: Seq<char>, taken: bool) -> Seq<char> {
    if taken {
        match char_count_for_bytes(page_id, 8) {
            Some(k) => slug + "-"@ + page_id.take(k),
            None => slug,
        }
    } else {
        slug
    }
}

/// The characters that make up the first `n` bytes of `s`, when that is a character
/// boundary.
pub(crate) fn prefix_of_bytes(s: &[char], n: usize) -> (r: Option<Vec<char>>)
    ensures
        match r {
            Some(v) => char_count_for_bytes(s@, n as nat) matches Some(k) && v@ == s@.take(k),
            None => char_count_for_bytes(s@, n as nat) is None,
        },
{
    let mut used: usize = 0;
    let mut i: usize = 0;
    proof {
        assert(s@.skip(0) =~= s@);
    }
    while used < n
        invariant
            used <= n,
            i <= s@.len(),
            char_count_for_bytes(s@, n as nat) == (match char_count_for_bytes(
                s@.skip(i as int),
                (n - used) as nat,
            ) {
                Some(k) => Some(k + i),
                None => None,
            }),
        decreases n - used,
    {
        if i >= s.len() {
            return None;
        }
        let w = crate::text::char_utf8_width(s[i]);
        proof {
            assert(s@.skip(i as int)[0] == s@[i as int]);
            assert(s@.skip(i as int).drop_first() =~= s@.skip(i + 1));
        }
        if w > n - used {
            return None;
        }
        used = used + w;
        i = i + 1;
    }
    Some(slice_chars(s, 0, i))
}

/// The slug a page gets, given whether the plain slug is already taken. Taken slugs get the
/// first eight bytes of the page id appended, which must be whole characters.
pub fn ensure_unique_slug(slug: String, page_id: &str, taken: bool) -> (r: String)
    requires
        taken ==> has_eight_byte_prefix(page_id@),
    ensures
        r@ == unique_slug(slug@, page_id@, taken),
{
    if !taken {
        return slug;
    }
    let id = chars_of(page_id);
    match prefix_of_bytes(&id, 8) {
        Some(p) => {
            let a = append(chars_of(slug.as_str()), "-");
            string_from_chars(&concat_chars(&a, &p))
        },
        None => slug,
    }
}

// ─── Promoted concepts ─────────────────────────────────────────────────────

/// Summary of a promoted concept: its rationale with the support counts, or a sentence built
/// from the name when there is no rationale.
pub open spec fn promoted_concept_summary(
    name: Seq<char>,
    rationale: Option<Seq<char>>,
    source_count: int,
    day_count: int,
) -> Seq<char> {
    match rationale {
        Some(r) if trim(r).len() > 0 => trim(r) + "（已在 "@ + crate::text::signed_decimal(source_count)
            + " 条来源、"@ + crate::text::signed_decimal(day_count) + " 天中反复出现）"@,
        _ => "“"@ + name + "”已在 "@ + crate::text::signed_decimal(source_count) + " 条来源、"@
            + crate::text::signed_decimal(day_count) + " 天中反复出现，适合作为长期概念保留。"@,
    }
}

pub fn build_promoted_concept_summary(
    name: &str,
    rationale: Option<&str>,
    source_count: i64,
    day_count: i64,
) -> (r: String)
    ensures
        r@ == promoted_concept_summary(
            name@,
            match rationale {
                Some(s) => Some(s@),
                None => None,
            },
            source_count as int,
            day_count as int,
        ),
{
    let sc = crate::text::i64_decimal(source_count);
    let dc = crate::text::i64_decimal(day_count);
    let rt: Option<Vec<char>> = match rationale {
        Some(r) => {
            let t = trim_chars(&chars_of(r));
            if t.len() > 0 {
                Some(t)
            } else {
                None
            }
        },
        None => None,
    };
    let out = match rt {
        Some(t) => {
            let a = concat_chars(&append(t, "（已在 "), &sc);
            append(concat_chars(&append(a, " 条来源、"), &dc), " 天中反复出现）")
        },
        None => {
            let a = append(append(chars_of("“"), name), "”已在 ");
            let b = concat_chars(&append(concat_chars(&a, &sc), " 条来源、"), &dc);
            append(b, " 天中反复出现，适合作为长期概念保留。")
        },
    };
    string_from_chars(&out)
}

} // verus!

verus! {

// ─── Content fingerprint ───────────────────────────────────────────────────

/// The writes `str::hash` makes: the UTF-8 bytes, then the terminator byte `0xff`.
pub open spec fn str_writes(s: Seq<char>) -> Seq<Seq<u8>> {
    seq![vstd::utf8::encode_utf8(s), seq![0xffu8]]
}

pub open spec fn text_or_empty(o: Option<String>) -> Seq<char> {
    match o {
        Some(s) => s@,
        None => Seq::empty(),
    }
}

/// Everything a content's fingerprint hashes, in order: for imported files the concept
/// policy version and thresholds, then the text (cleaned if available), summary, tags,
/// digest, note and source link, each missing one as empty text.
pub open spec fn content_hash_writes(c: CapturedContent, policy: Seq<char>) -> Seq<Seq<u8>> {
    let head = if is_import_name(c.source_app@) {
        str_writes(IMPORTED_CONCEPT_POLICY_VERSION@) + str_writes(policy)
    } else {
        Seq::empty()
    };
    head + str_writes(
        match body_text(c) {
            Some(t) => t,
            None => Seq::empty(),
        },
    ) + str_writes(text_or_empty(c.summary)) + str_writes(text_or_empty(c.tags)) + str_writes(
        text_or_empty(c.digest),
    ) + str_writes(text_or_empty(c.user_note)) + str_writes(text_or_empty(c.source_url))
}

/// Lowercase hexadecimal digit for `d < 16`.
pub open spec fn hex_char(d: int) -> char {
    if d < 10 {
        ((d + 48) as u32) as char
    } else {
        ((d + 87) as u32) as char
    }
}

/// The last `k` hexadecimal digits of `n`, zero-padded: `format!("{:0k$x}")` when `n` fits.
pub open spec fn hex_digits(n: nat, k: nat) -> Seq<char>
    decreases k,
{
    if k == 0 {
        Seq::empty()
    } else {
        hex_digits(n / 16, (k - 1) as nat).push(hex_char((n % 16) as int))
    }
}

/// The fingerprint of a content under the given concept policy: `{:016x}` of the
/// `DefaultHasher` result over `content_hash_writes`.
pub open spec fn content_fingerprint(c: CapturedContent, policy: Seq<char>) -> Seq<char> {
    hex_digits(DefaultHasher::spec_finish(content_hash_writes(c, policy)) as nat, 16)
}

fn hex_digit(d: u64) -> (c: char)
    requires
        d < 16,
    ensures
        c == hex_char(d as int),
{
    if d < 10 {
        ((d + 48) as u8) as char
    } else {
        ((d + 87) as u8) as char
    }
}

fn hex16(n: u64) -> (r: Vec<char>)
    ensures
        r@ == hex_digits(n as nat, 16),
{
    let mut digits: Vec<char> = Vec::new();
    let mut k: usize = 0;
    let mut m: u64 = n;
    while k < 16
        invariant
            k <= 16,
            hex_digits(n as nat, 16) == hex_digits(m as nat, (16 - k) as nat) + digits@,
        decreases 16 - k,
    {
        proof {
            assert(hex_digits(m as nat, (16 - k) as nat) == hex_digits(
                (m / 16) as nat,
                (16 - k - 1) as nat,
            ).push(hex_char((m % 16) as int)));
        }
        let d = hex_digit(m % 16);
        let mut nd = Vec::new();
        nd.push(d);
        let nd2 = concat_chars(&nd, &digits);
        proof {
            assert(nd@ =~= seq![d]);
            assert(hex_digits((m / 16) as nat, (16 - k - 1) as nat) + nd2@ =~= hex_digits(
                (m / 16) as nat,
                (16 - k - 1) as nat,
            ).push(d) + digits@);
        }
        digits = nd2;
        m = m / 16;
        k += 1;
    }
    proof {
        assert(hex_digits(m as nat, 0) + digits@ =~= digits@);
    }
    digits
}

fn hash_str(h: &mut DefaultHasher, s: &str)
    ensures
        final(h)@ == old(h)@ + str_writes(s@),
{
    h.write(s.as_bytes());
    let ff: Vec<u8> = vec![0xffu8];
    h.write(ff.as_slice());
    proof {
        assert(ff@ =~= seq![0xffu8]);
        assert(final(h)@ =~= old(h)@ + str_writes(s@));
    }
}

fn hash_opt(h: &mut DefaultHasher, o: &Option<String>)
    ensures
        final(h)@ == old(h)@ + str_writes(text_or_empty(*o)),
{
    match o {
        Some(s) => hash_str(h, s.as_str()),
        None => {
            hash_str(h, "");
            proof {
                reveal_strlit("");
                assert(""@ =~= Seq::<char>::empty());
            }
        },
    }
}

/// Fingerprint of a content's current state under the given concept policy
/// (`{importance:.2}:{sources}:{days}`), for change detection.
pub fn compute_content_hash_with_policy(content: &CapturedContent, policy: &str) -> (r: String)
    ensures
        r@ == content_fingerprint(*content, policy@),
{
    let mut h = DefaultHasher::new();
    if is_file_import_source(content) {
        hash_str(&mut h, IMPORTED_CONCEPT_POLICY_VERSION);
        hash_str(&mut h, policy);
    }
    let ghost head = h@;
    match &content.clean_content {
        Some(t) => hash_str(&mut h, t.as_str()),
        None => hash_opt(&mut h, &content.raw_text),
    }
    hash_opt(&mut h, &content.summary);
    hash_opt(&mut h, &content.tags);
    hash_opt(&mut h, &content.digest);
    hash_opt(&mut h, &content.user_note);
    hash_opt(&mut h, &content.source_url);
    proof {
        assert(h@ =~= content_hash_writes(*content, policy@));
    }
    let n = h.finish();
    string_from_chars(&hex16(n))
}

/// Fingerprint of a content's current state under the default concept policy.
pub fn compute_content_hash(content: &CapturedContent) -> (r: String)
    ensures
        r@ == content_fingerprint(*content, DEFAULT_CONCEPT_POLICY@),
{
    compute_content_hash_with_policy(content, DEFAULT_CONCEPT_POLICY)
}

} // verus!

verus! {

// ─── Concept promotion thresholds ──────────────────────────────────────────

/// How much support a concept page needs to stay.
pub struct ConceptThresholds {
    pub min_sources: i64,
    pub min_days: i64,
}

/// A count setting: the stored value when it reads as an `i64` (raised to at least 1),
/// otherwise `default`.
pub open spec fn count_setting(raw: Option<Seq<char>>, default: int) -> int {
    match raw {
        Some(s) => match crate::text::parse_i64(s) {
            Some(v) => if v < 1 {
                1
            } else {
                v
            },
            None => default,
        },
        None => default,
    }
}

pub fn read_count_setting(raw: Option<&str>, default: i64) -> (r: i64)
    ensures
        r == count_setting(
            match raw {
                Some(s) => Some(s@),
                None => None,
            },
            default as int,
        ),
{
    match raw {
        Some(s) => match crate::text::parse_i64_chars(&chars_of(s)) {
            Some(v) => if v < 1 {
                1
            } else {
                v
            },
            None => default,
        },
        None => default,
    }
}

/// The thresholds from the stored `wiki_concept_min_sources` and `wiki_concept_min_days`
/// settings (2 each by default).
pub fn load_concept_thresholds(min_sources: Option<&str>, min_days: Option<&str>) -> (r:
    ConceptThresholds)
    ensures
        r.min_sources == count_setting(
            match min_sources {
                Some(s) => Some(s@),
                None => None,
            },
            DEFAULT_MIN_PROMOTED_CONCEPT_SOURCES as int,
        ),
        r.min_days == count_setting(
            match min_days {
                Some(s) => Some(s@),
                None => None,
            },
            DEFAULT_MIN_PROMOTED_CONCEPT_DAYS as int,
        ),
{
    ConceptThresholds {
        min_sources: read_count_setting(min_sources, DEFAULT_MIN_PROMOTED_CONCEPT_SOURCES),
        min_days: read_count_setting(min_days, DEFAULT_MIN_PROMOTED_CONCEPT_DAYS),
    }
}

/// The default minimum importance of a promoted concept as the fingerprint writes it, with two
/// decimals.
pub const DEFAULT_IMPORTANCE_TEXT: &'static str = "0.65";

/// The concept policy as it enters a fingerprint: the minimum importance written with two
/// decimals (the importance is a float, written around the library), then the two counts.
pub open spec fn concept_policy(importance: Seq<char>, min_sources: int, min_days: int) -> Seq<
    char,
> {
    importance + ":"@ + crate::text::signed_decimal(min_sources) + ":"@
        + crate::text::signed_decimal(min_days)
}

/// The concept policy text for the fingerprint (see `concept_policy`).
pub fn concept_policy_text(importance: &str, t: &ConceptThresholds) -> (r: String)
    ensures
        r@ == concept_policy(importance@, t.min_sources as int, t.min_days as int),
{
    let a = append(chars_of(importance), ":");
    let b = concat_chars(&a, &crate::text::i64_decimal(t.min_sources));
    let c = append(b, ":");
    let d = concat_chars(&c, &crate::text::i64_decimal(t.min_days));
    string_from_chars(&d)
}

/// The fingerprint under the stored concept settings is the default fingerprint for content
/// that is not an imported file, and for any content when none of the three settings is
/// stored (the importance then written as its default). `min_sources` and `min_days` are the
/// stored count settings; `importance` is the minimum importance as written.
pub proof fn law_stored_policy_keeps_default_fingerprint(
    c: CapturedContent,
    importance: Seq<char>,
    min_sources: Option<Seq<char>>,
    min_days: Option<Seq<char>>,
)
    requires
        !is_import_name(c.source_app@) || (importance == DEFAULT_IMPORTANCE_TEXT@
            && min_sources is None && min_days is None),
    ensures
        content_fingerprint(
            c,
            concept_policy(
                importance,
                count_setting(min_sources, DEFAULT_MIN_PROMOTED_CONCEPT_SOURCES as int),
                count_setting(min_days, DEFAULT_MIN_PROMOTED_CONCEPT_DAYS as int),
            ),
        ) == content_fingerprint(c, DEFAULT_CONCEPT_POLICY@),
{
    let p = concept_policy(
        importance,
        count_setting(min_sources, DEFAULT_MIN_PROMOTED_CONCEPT_SOURCES as int),
        count_setting(min_days, DEFAULT_MIN_PROMOTED_CONCEPT_DAYS as int),
    );
    if is_import_name(c.source_app@) {
        reveal_strlit("0.65");
        reveal_strlit(":");
        reveal_strlit("0.65:2:2");
        assert(crate::text::decimal(2) =~= seq!['2']);
        assert(p =~= DEFAULT_CONCEPT_POLICY@);
    } else {
        assert(content_hash_writes(c, p) =~= content_hash_writes(c, DEFAULT_CONCEPT_POLICY@));
    }
}

/// A concept page with this many active sources over this many days keeps its place.
pub open spec fn well_supported(sources: int, days: int, t: ConceptThresholds) -> bool {
    sources >= t.min_sources && days >= t.min_days
}

/// A candidate concept is looked at for promotion when it recurs and its importance reaches
/// the minimum (`important_enough`: both are floats, compared around the library).
pub open spec fn promotion_considered(temporality: Seq<char>, important_enough: bool) -> bool {
    temporality == "recurring"@ && important_enough
}

pub fn is_promotion_candidate(temporality: &str, important_enough: bool) -> (r: bool)
    ensures
        r == promotion_considered(temporality@, important_enough),
{
    important_enough && crate::text::eq_str(&chars_of(temporality), "recurring")
}

/// A candidate concept becomes a concept page when it is looked at for promotion and the
/// captures supporting it reach both thresholds: this many sources over this many days.
pub open spec fn promoted(
    temporality: Seq<char>,
    important_enough: bool,
    sources: int,
    days: int,
    t: ConceptThresholds,
) -> bool {
    promotion_considered(temporality, important_enough) && well_supported(sources, days, t)
}

pub fn should_promote_candidate(
    temporality: &str,
    important_enough: bool,
    source_count: i64,
    day_count: i64,
    thresholds: &ConceptThresholds,
) -> (r: bool)
    ensures
        r == promoted(
            temporality@,
            important_enough,
            source_count as int,
            day_count as int,
            *thresholds,
        ),
{
    is_promotion_candidate(temporality, important_enough) && source_count
        >= thresholds.min_sources && day_count >= thresholds.min_days
}

/// An imported file needs its structure rebuilt when its summary, tags or concept candidates
/// are missing, or when one of its concept pages has fallen below the thresholds. Content
/// captured any other way never does. `concept_support` holds `(active sources, active
/// days)` for each concept page built from the content.
pub open spec fn needs_structured_backfill(
    c: CapturedContent,
    has_candidates: bool,
    t: ConceptThresholds,
    concept_support: Seq<(i64, i64)>,
) -> bool {
    if !is_import_name(c.source_app@) {
        false
    } else if trim(text_or_empty(c.summary)).len() == 0 || tag_terms(text_or_empty(c.tags)).len()
        == 0 || !has_candidates {
        true
    } else {
        exists|i: int|
            0 <= i < concept_support.len() && !well_supported(
                (#[trigger] concept_support[i]).0 as int,
                concept_support[i].1 as int,
                t,
            )
    }
}

pub fn content_needs_structured_backfill(
    content: &CapturedContent,
    has_candidates: bool,
    thresholds: &ConceptThresholds,
    concept_support: &Vec<(i64, i64)>,
) -> (r: bool)
    ensures
        r == needs_structured_backfill(*content, has_candidates, *thresholds, concept_support@),
{
    if !is_file_import_source(content) {
        return false;
    }
    let summary: Vec<char> = match &content.summary {
        Some(s) => chars_of(s.as_str()),
        None => Vec::new(),
    };
    let tags_raw: String = match &content.tags {
        Some(s) => s.clone(),
        None => string_from_chars(&Vec::new()),
    };
    proof {
        assert(summary@ == text_or_empty(content.summary));
        assert(tags_raw@ == text_or_empty(content.tags));
    }
    if trim_chars(&summary).len() == 0 || parse_tag_terms(tags_raw.as_str()).len() == 0
        || !has_candidates {
        return true;
    }
    let mut i: usize = 0;
    while i < concept_support.len()
        invariant
            i <= concept_support@.len(),
            is_import_name(content.source_app@),
            !(trim(text_or_empty(content.summary)).len() == 0 || tag_terms(
                text_or_empty(content.tags),
            ).len() == 0 || !has_candidates),
            forall|j: int|
                0 <= j < i ==> well_supported(
                    (#[trigger] concept_support@[j]).0 as int,
                    concept_support@[j].1 as int,
                    *thresholds,
                ),
        decreases concept_support.len() - i,
    {
        let (sources, days) = concept_support[i];
        if sources < thresholds.min_sources || days < thresholds.min_days {
            proof {
                assert(!well_supported(
                    concept_support@[i as int].0 as int,
                    concept_support@[i as int].1 as int,
                    *thresholds,
                ));
            }
            return true;
        }
        i += 1;
    }
    false
}

/// A concept page goes when it was not synced from a local wiki (`local-wiki:` origin) and
/// its support is below the thresholds.
pub open spec fn should_demote(
    source_message_id: Option<Seq<char>>,
    sources: int,
    days: int,
    t: ConceptThresholds,
) -> bool {
    let from_local = match source_message_id {
        Some(s) => starts_with(s, "local-wiki:"@),
        None => false,
    };
    !from_local && !well_supported(sources, days, t)
}

pub fn should_demote_concept(
    source_message_id: &Option<String>,
    active_sources: i64,
    active_days: i64,
    thresholds: &ConceptThresholds,
) -> (r: bool)
    ensures
        r == should_demote(
            opt_string(*source_message_id),
            active_sources as int,
            active_days as int,
            *thresholds,
        ),
{
    let from_local = match source_message_id {
        Some(s) => crate::text::starts_with_str(&chars_of(s.as_str()), "local-wiki:"),
        None => false,
    };
    !from_local && !(active_sources >= thresholds.min_sources && active_days
        >= thresholds.min_days)
}

/// Status a page takes after one of its contents was deleted.
pub enum PageAfterDeletion {
    /// Some sources remain: recompile it.
    NeedsRecompile,
    /// No source remains: keep it as a draft (tombstone) at confidence 0.3.
    Draft,
}

pub fn page_after_content_deleted(active_sources: i64) -> (r: PageAfterDeletion)
    ensures
        (r is NeedsRecompile) == (active_sources > 0),
{
    if active_sources > 0 {
        PageAfterDeletion::NeedsRecompile
    } else {
        PageAfterDeletion::Draft
    }
}

/// An active source compiled from an older version of the content goes stale.
pub fn source_goes_stale(compile_hash: &str, source_status: &str, new_hash: &str) -> (r: bool)
    ensures
        r == (compile_hash@ != new_hash@ && source_status@ == "active"@),
{
    let differs = !crate::text::eq_chars(&chars_of(compile_hash), &chars_of(new_hash));
    differs && crate::text::eq_str(&chars_of(source_status), "active")
}

// ─── Page links of a content ───────────────────────────────────────────────

/// A page a content feeds, as the repository reports it.
pub struct PageLink {
    pub source_status: String,
    /// `(id, page type)` of the page, `None` when it no longer exists.
    pub page: Option<(String, String)>,
}

/// Ids of the structured (non-`source`) pages a content actively feeds, each once, in order.
pub open spec fn structured_ids(links: Seq<PageLink>) -> Seq<Seq<char>>
    decreases links.len(),
{
    if links.len() == 0 {
        Seq::empty()
    } else {
        let init = structured_ids(links.drop_last());
        let l = links.last();
        match l.page {
            Some((id, ty)) => if l.source_status@ == "active"@ && ty@ != "source"@ && !init.contains(
                id@,
            ) {
                init.push(id@)
            } else {
                init
            },
            None => init,
        }
    }
}

pub fn get_structured_page_ids_for_content(links: &Vec<PageLink>) -> (r: Vec<String>)
    ensures
        string_views(r@) == structured_ids(links@),
{
    let mut ids: Vec<String> = Vec::new();
    let mut i: usize = 0;
    while i < links.len()
        invariant
            i <= links@.len(),
            string_views(ids@) == structured_ids(links@.take(i as int)),
        decreases links.len() - i,
    {
        proof {
            let t = links@.take(i + 1);
            assert(t.drop_last() =~= links@.take(i as int));
        }
        let l = &links[i];
        match &l.page {
            Some((id, ty)) => {
                if crate::text::eq_str(&chars_of(l.source_status.as_str()), "active")
                    && !crate::text::eq_str(&chars_of(ty.as_str()), "source")
                    && !vec_contains_string(&ids, id) {
                    ids.push(id.clone());
                    proof {
                        assert(string_views(ids@) =~= structured_ids(links@.take(i + 1)));
                    }
                }
            },
            None => {},
        }
        i += 1;
    }
    proof {
        assert(links@.take(links@.len() as int) =~= links@);
    }
    ids
}

/// The `derived_from` edges a fallback source page gets: from every structured page to
/// every source page, structured pages outermost.
pub open spec fn derivation_edges(sources: Seq<Seq<char>>, structured: Seq<Seq<char>>) -> Seq<
    (Seq<char>, Seq<char>),
>
    decreases structured.len(),
{
    if structured.len() == 0 {
        Seq::empty()
    } else {
        derivation_edges(sources, structured.drop_last()) + sources.map_values(
            |s: Seq<char>| (structured.last(), s),
        )
    }
}

pub open spec fn pair_views(v: Seq<(String, String)>) -> Seq<(Seq<char>, Seq<char>)> {
    Seq::new(v.len(), |i: int| (v[i].0@, v[i].1@))
}

/// The edges to save after clearing the source pages' old `derived_from` edges.
pub fn sync_source_derivation_edges(source_page_ids: &Vec<String>, structured_page_ids: &Vec<
    String,
>) -> (r: Vec<(String, String)>)
    ensures
        pair_views(r@) == derivation_edges(
            string_views(source_page_ids@),
            string_views(structured_page_ids@),
        ),
{
    let ghost src = string_views(source_page_ids@);
    let ghost st = string_views(structured_page_ids@);
    let mut edges: Vec<(String, String)> = Vec::new();
    let mut i: usize = 0;
    while i < structured_page_ids.len()
        invariant
            i <= structured_page_ids@.len(),
            src == string_views(source_page_ids@),
            st == string_views(structured_page_ids@),
            pair_views(edges@) == derivation_edges(src, st.take(i as int)),
        decreases structured_page_ids.len() - i,
    {
        let ghost before = edges@;
        let mut j: usize = 0;
        while j < source_page_ids.len()
            invariant
                i < structured_page_ids@.len(),
                j <= source_page_ids@.len(),
                src == string_views(source_page_ids@),
                st == string_views(structured_page_ids@),
                pair_views(edges@) == derivation_edges(src, st.take(i as int)) + src.take(
                    j as int,
                ).map_values(|s: Seq<char>| (st[i as int], s)),
            decreases source_page_ids.len() - j,
        {
            let ghost prev = edges@;
            edges.push((structured_page_ids[i].clone(), source_page_ids[j].clone()));
            proof {
                assert(st[i as int] == structured_page_ids@[i as int]@);
                assert(pair_views(edges@) =~= pair_views(prev).push(
                    (st[i as int], source_page_ids@[j as int]@),
                ));
                assert(src.take(j + 1) =~= src.take(j as int).push(source_page_ids@[j as int]@));
                assert(pair_views(edges@) =~= derivation_edges(src, st.take(i as int)) + src.take(
                    j + 1,
                ).map_values(|s: Seq<char>| (st[i as int], s)));
            }
            j += 1;
        }
        proof {
            let t = st.take(i + 1);
            assert(t.drop_last() =~= st.take(i as int));
            assert(src.take(src.len() as int) =~= src);
        }
        i += 1;
    }
    proof {
        assert(st.take(st.len() as int) =~= st);
    }
    edges
}

/// The `belongs_to_theme` edges a structured page gets: `None` for `source`, `qa`, `theme`
/// and `dashboard` pages, which keep theirs; otherwise, after clearing the old ones, an edge
/// to each chosen theme other than the page itself.
pub open spec fn theme_edges(page_id: Seq<char>, page_type: Seq<char>, themes: Seq<Seq<char>>) -> Option<
    Seq<Seq<char>>,
> {
    if page_type == "source"@ || page_type == "qa"@ || page_type == "theme"@ || page_type
        == "dashboard"@ {
        None
    } else {
        Some(themes.filter(|t: Seq<char>| t != page_id))
    }
}

pub fn theme_edges_for_page(page_id: &String, page_type: &str, theme_ids: &Vec<String>) -> (r:
    Option<Vec<String>>)
    ensures
        match r {
            Some(v) => theme_edges(page_id@, page_type@, string_views(theme_ids@)) == Some(
                string_views(v@),
            ),
            None => theme_edges(page_id@, page_type@, string_views(theme_ids@)) is None,
        },
{
    let ty = chars_of(page_type);
    if crate::text::eq_str(&ty, "source") || crate::text::eq_str(&ty, "qa")
        || crate::text::eq_str(&ty, "theme") || crate::text::eq_str(&ty, "dashboard") {
        return None;
    }
    let ghost th = string_views(theme_ids@);
    let mut out: Vec<String> = Vec::new();
    let mut i: usize = 0;
    while i < theme_ids.len()
        invariant
            i <= theme_ids@.len(),
            th == string_views(theme_ids@),
            string_views(out@) == th.take(i as int).filter(|t: Seq<char>| t != page_id@),
        decreases theme_ids.len() - i,
    {
        proof {
            let t = th.take(i + 1);
            assert(t.drop_last() =~= th.take(i as int));
            reveal(Seq::filter);
        }
        if !(theme_ids[i] == *page_id) {
            out.push(theme_ids[i].clone());
        }
        proof {
            assert(string_views(out@) =~= th.take(i + 1).filter(|t: Seq<char>| t != page_id@));
        }
        i += 1;
    }
    proof {
        assert(th.take(th.len() as int) =~= th);
    }
    Some(out)
}

/// System prompt for matching content to existing themes, in Chinese for `zh` locales and in
/// English otherwise.
pub open spec fn theme_match_system_prompt(locale: Seq<char>) -> Seq<char> {
    if starts_with(locale, "zh"@) {
        THEME_PROMPT_ZH@
    } else {
        THEME_PROMPT_EN@
    }
}

pub const THEME_PROMPT_ZH: &'static str = "你是个人知识库的信息架构师。请把新内容挂到最合适的既有主题上。\n只从给定主题里选择，不要发明新主题。\n选择标准：主题必须是长期稳定的上位领域，而不是一次性事件；优先选择能长期容纳这条内容的主题。\n如果没有合适主题，返回空数组。\n只返回 JSON：{\"theme_ids\": [\"...\"]}。最多选择 3 个 theme_ids。";

pub const THEME_PROMPT_EN: &'static str = "You are an information architect for a personal knowledge base.\nAttach the new content to the most suitable existing themes.\nOnly choose from the provided themes. Do not invent new themes.\nPrefer durable parent domains that can continue to absorb similar notes over time.\nIf nothing fits, return an empty array.\nReturn JSON only: {\"theme_ids\": [\"...\"]}. Pick at most 3 theme_ids.";

pub fn build_theme_match_system_prompt(locale: &str) -> (r: String)
    ensures
        r@ == theme_match_system_prompt(locale@),
{
    if crate::text::starts_with_str(&chars_of(locale), "zh") {
        string_from_chars(&chars_of(THEME_PROMPT_ZH))
    } else {
        string_from_chars(&chars_of(THEME_PROMPT_EN))
    }
}

} // verus!
