//! The search terms a capture is matched against wiki pages with: its tags, the longer
//! phrases of its summary and note, and the start of its text; distinct, at most ten.

use vstd::prelude::*;
use crate::text::{
    chars_of, is_whitespace, is_ws, join, join_chars, split_chars, split_on, string_from_chars,
    take_chars, take_prefix, trim, trim_chars, views,
};
use crate::wiki_engine::{string_views, tag_separators, trimmed_nonblank, vec_contains_string};

verus! {

broadcast use vstd::seq::group_seq_axioms;

/// At most this many terms are searched.
pub const MAX_QUERY_TERMS: usize = 10;

/// Where a summary or note is cut into phrases.
pub open spec fn phrase_separators() -> Seq<char> {
    seq!['\n', '。', '.', '；', ';']
}

/// The trimmed phrases of at least three characters, each cut to 40.
pub open spec fn long_phrases(pieces: Seq<Seq<char>>) -> Seq<Seq<char>>
    decreases pieces.len(),
{
    if pieces.len() == 0 {
        Seq::empty()
    } else {
        let init = long_phrases(pieces.drop_last());
        let t = trim(pieces.last());
        if t.len() >= 3 {
            init.push(take_chars(t, 40))
        } else {
            init
        }
    }
}

/// The text cut at every whitespace character.
pub open spec fn ws_split(s: Seq<char>) -> Seq<Seq<char>>
    decreases s.len(),
{
    if s.len() == 0 {
        seq![Seq::<char>::empty()]
    } else {
        let init = ws_split(s.drop_last());
        if is_ws(s.last()) {
            init.push(Seq::<char>::empty())
        } else {
            init.update(init.len() - 1, init.last().push(s.last()))
        }
    }
}

/// The pieces that are not empty.
pub open spec fn nonempty_of(ps: Seq<Seq<char>>) -> Seq<Seq<char>>
    decreases ps.len(),
{
    if ps.len() == 0 {
        Seq::empty()
    } else if ps.last().len() > 0 {
        nonempty_of(ps.drop_last()).push(ps.last())
    } else {
        nonempty_of(ps.drop_last())
    }
}

/// The words of a text (`split_whitespace`).
pub open spec fn words(s: Seq<char>) -> Seq<Seq<char>> {
    nonempty_of(ws_split(s))
}

/// The first twelve words joined by spaces when that has six characters or more; otherwise
/// the first 24 characters of a text of eight or more; otherwise nothing.
pub open spec fn text_term(text: Seq<char>) -> Seq<Seq<char>> {
    let ws = words(text);
    let compact = join(if ws.len() <= 12 {
        ws
    } else {
        ws.take(12)
    }, " "@);
    if compact.len() >= 6 {
        seq![take_chars(compact, 60)]
    } else if text.len() >= 8 {
        seq![take_chars(text, 24)]
    } else {
        Seq::empty()
    }
}

/// Terms in order, each once, stopping at the maximum.
pub open spec fn capped_distinct(terms: Seq<Seq<char>>) -> Seq<Seq<char>>
    decreases terms.len(),
{
    if terms.len() == 0 {
        Seq::empty()
    } else {
        let acc = capped_distinct(terms.drop_last());
        if acc.len() >= MAX_QUERY_TERMS || acc.contains(terms.last()) {
            acc
        } else {
            acc.push(terms.last())
        }
    }
}

/// The search terms of a capture: its tags, the long phrases of its summary and of its note,
/// and a term from its text (see `text_term`); distinct and at most ten.
pub open spec fn query_terms(text: Seq<char>, summary: Seq<char>, tags: Seq<char>, note: Seq<char>) -> Seq<
    Seq<char>,
> {
    capped_distinct(
        trimmed_nonblank(split_on(tags, tag_separators())) + long_phrases(
            split_on(summary, phrase_separators()),
        ) + long_phrases(split_on(note, phrase_separators())) + text_term(text),
    )
}

fn phrase_separator_chars() -> (r: Vec<char>)
    ensures
        r@ == phrase_separators(),
{
    let r = vec!['\n', '。', '.', '；', ';'];
    assert(r@ =~= phrase_separators());
    r
}

fn push_long_phrases(terms: &mut Vec<String>, text: &str)
    ensures
        string_views(final(terms)@) == string_views(old(terms)@) + long_phrases(
            split_on(text@, phrase_separators()),
        ),
{
    let seps = phrase_separator_chars();
    let pieces = split_chars(&chars_of(text), &seps);
    let ghost pv = views(pieces@);
    let ghost base = string_views(terms@);
    let mut i: usize = 0;
    assert(pv.take(0) =~= Seq::<Seq<char>>::empty());
    assert(base + Seq::<Seq<char>>::empty() =~= base);
    while i < pieces.len()
        invariant
            i <= pieces@.len(),
            pv == views(pieces@),
            string_views(terms@) == base + long_phrases(pv.take(i as int)),
        decreases pieces.len() - i,
    {
        assert(pv.take(i + 1).drop_last() =~= pv.take(i as int));
        assert(pv.take(i + 1).last() == pieces@[i as int]@);
        let t = trim_chars(&pieces[i]);
        if t.len() >= 3 {
            let ghost before = string_views(terms@);
            terms.push(string_from_chars(&take_prefix(&t, 40)));
            assert(string_views(terms@) =~= before.push(take_chars(t@, 40)));
        }
        i += 1;
    }
    assert(pv.take(pv.len() as int) =~= pv);
}

fn split_on_whitespace(s: &[char]) -> (r: Vec<Vec<char>>)
    ensures
        views(r@) == ws_split(s@),
{
    let mut pieces: Vec<Vec<char>> = Vec::new();
    pieces.push(Vec::new());
    let mut i: usize = 0;
    assert(s@.take(0) =~= Seq::<char>::empty());
    assert(views(pieces@) =~= ws_split(s@.take(0)));
    while i < s.len()
        invariant
            i <= s@.len(),
            pieces@.len() >= 1,
            views(pieces@) == ws_split(s@.take(i as int)),
        decreases s.len() - i,
    {
        assert(s@.take(i + 1).drop_last() =~= s@.take(i as int));
        assert(s@.take(i + 1).last() == s@[i as int]);
        let c = s[i];
        if is_whitespace(c) {
            let ghost before = views(pieces@);
            pieces.push(Vec::new());
            assert(views(pieces@) =~= before.push(Seq::<char>::empty()));
        } else {
            let ghost before = views(pieces@);
            let last = pieces.len() - 1;
            let mut cur = crate::text::slice_chars(&pieces[last], 0, pieces[last].len());
            assert(cur@ =~= before[last as int]);
            cur.push(c);
            pieces.set(last, cur);
            assert(views(pieces@) =~= before.update(last as int, before[last as int].push(c)));
        }
        i += 1;
    }
    assert(s@.take(s@.len() as int) =~= s@);
    pieces
}

proof fn lemma_nonempty_prefix(pv: Seq<Seq<char>>, i: int, j: int)
    requires
        0 <= i <= j <= pv.len(),
    ensures
        nonempty_of(pv.take(j)).len() >= nonempty_of(pv.take(i)).len(),
        nonempty_of(pv.take(j)).take(nonempty_of(pv.take(i)).len() as int) == nonempty_of(
            pv.take(i),
        ),
    decreases j - i,
{
    if j == i {
        assert(nonempty_of(pv.take(j)).take(nonempty_of(pv.take(i)).len() as int) =~= nonempty_of(
            pv.take(i),
        ));
    } else {
        lemma_nonempty_prefix(pv, i, j - 1);
        assert(pv.take(j).drop_last() =~= pv.take(j - 1));
        let a = nonempty_of(pv.take(j - 1));
        let k = nonempty_of(pv.take(i)).len() as int;
        if pv.take(j).last().len() > 0 {
            assert(a.push(pv.take(j).last()).take(k) =~= a.take(k));
        }
    }
}

fn first_words(text: &[char], n: usize) -> (r: Vec<Vec<char>>)
    ensures
        views(r@) == (if words(text@).len() <= n {
            words(text@)
        } else {
            words(text@).take(n as int)
        }),
{
    let pieces = split_on_whitespace(text);
    let ghost pv = views(pieces@);
    let mut r: Vec<Vec<char>> = Vec::new();
    let mut i: usize = 0;
    assert(pv.take(0) =~= Seq::<Seq<char>>::empty());
    while i < pieces.len() && r.len() < n
        invariant
            i <= pieces@.len(),
            pv == views(pieces@),
            r@.len() <= n,
            views(r@) == nonempty_of(pv.take(i as int)),
        decreases pieces.len() - i,
    {
        assert(pv.take(i + 1).drop_last() =~= pv.take(i as int));
        assert(pv.take(i + 1).last() == pieces@[i as int]@);
        if pieces[i].len() > 0 {
            let ghost before = views(r@);
            let w = crate::text::slice_chars(&pieces[i], 0, pieces[i].len());
            assert(w@ =~= pieces@[i as int]@);
            r.push(w);
            assert(views(r@) =~= before.push(pieces@[i as int]@));
        }
        i += 1;
    }
    proof {
        assert(pv.take(pv.len() as int) =~= pv);
        lemma_nonempty_prefix(pv, i as int, pv.len() as int);
        if i < pv.len() {
            assert(r@.len() == n);
        } else {
            assert(nonempty_of(pv) == nonempty_of(pv.take(i as int)));
        }
    }
    r
}

fn text_term_exec(terms: &mut Vec<String>, text: &str)
    ensures
        string_views(final(terms)@) == string_views(old(terms)@) + text_term(text@),
{
    let tc = chars_of(text);
    let ws = first_words(&tc, 12);
    let compact = join_chars(&ws, &chars_of(" "));
    let ghost before = string_views(terms@);
    if compact.len() >= 6 {
        terms.push(string_from_chars(&take_prefix(&compact, 60)));
        assert(string_views(terms@) =~= before + text_term(text@));
    } else if tc.len() >= 8 {
        terms.push(string_from_chars(&take_prefix(&tc, 24)));
        assert(string_views(terms@) =~= before + text_term(text@));
    } else {
        assert(string_views(terms@) =~= before + text_term(text@));
    }
}

/// The search terms of a capture (see `query_terms`).
pub fn build_wiki_query_terms(
    content_text: &str,
    content_summary: &str,
    content_tags: &str,
    user_note: &str,
) -> (r: Vec<String>)
    ensures
        string_views(r@) == query_terms(content_text@, content_summary@, content_tags@, user_note@),
{
    let seps = vec![',', '\n', ';', '|'];
    assert(seps@ =~= tag_separators());
    let pieces = split_chars(&chars_of(content_tags), &seps);
    let ghost pv = views(pieces@);
    let mut terms: Vec<String> = Vec::new();
    let mut i: usize = 0;
    assert(pv.take(0) =~= Seq::<Seq<char>>::empty());
    while i < pieces.len()
        invariant
            i <= pieces@.len(),
            pv == views(pieces@),
            string_views(terms@) == trimmed_nonblank(pv.take(i as int)),
        decreases pieces.len() - i,
    {
        assert(pv.take(i + 1).drop_last() =~= pv.take(i as int));
        assert(pv.take(i + 1).last() == pieces@[i as int]@);
        let t = trim_chars(&pieces[i]);
        if t.len() > 0 {
            let ghost before = string_views(terms@);
            terms.push(string_from_chars(&t));
            assert(string_views(terms@) =~= before.push(t@));
        }
        i += 1;
    }
    assert(pv.take(pv.len() as int) =~= pv);
    push_long_phrases(&mut terms, content_summary);
    push_long_phrases(&mut terms, user_note);
    text_term_exec(&mut terms, content_text);
    let ghost tv = string_views(terms@);
    let mut out: Vec<String> = Vec::new();
    let mut k: usize = 0;
    let mut done = false;
    assert(tv.take(0) =~= Seq::<Seq<char>>::empty());
    while k < terms.len() && !done
        invariant
            k <= terms@.len(),
            tv == string_views(terms@),
            !done ==> string_views(out@) == capped_distinct(tv.take(k as int)),
            done ==> string_views(out@) == capped_distinct(tv),
        decreases terms.len() - k + (if done {
            0int
        } else {
            1int
        }),
    {
        assert(tv.take(k + 1).drop_last() =~= tv.take(k as int));
        assert(tv.take(k + 1).last() == terms@[k as int]@);
        if out.len() >= MAX_QUERY_TERMS {
            proof {
                lemma_capped_saturated(tv, k as int);
            }
            done = true;
        } else {
            if !vec_contains_string(&out, &terms[k]) {
                let ghost before = string_views(out@);
                out.push(terms[k].clone());
                assert(string_views(out@) =~= before.push(tv[k as int]));
            }
            k += 1;
        }
    }
    if !done {
        assert(tv.take(tv.len() as int) =~= tv);
    }
    out
}

proof fn lemma_capped_saturated(ts: Seq<Seq<char>>, i: int)
    requires
        0 <= i <= ts.len(),
        capped_distinct(ts.take(i)).len() >= MAX_QUERY_TERMS,
    ensures
        capped_distinct(ts) == capped_distinct(ts.take(i)),
    decreases ts.len() - i,
{
    if i < ts.len() {
        assert(ts.take(i + 1).drop_last() =~= ts.take(i));
        lemma_capped_saturated(ts, i + 1);
    } else {
        assert(ts.take(i) =~= ts);
    }
}

} // verus!
