//! Choosing the existing wiki pages shown to the model when a capture is compiled: every
//! search hit of every query term counts for its page; the pages with the most hits come
//! first, ties by title, and at most twelve are shown.

use vstd::prelude::*;
use crate::text::{chars_of, opt_string, or_default};
use crate::order::{lex_less, lex_lt};

verus! {

broadcast use vstd::seq::group_seq_axioms;

/// At most this many page summaries are shown.
pub const PAGE_SUMMARY_LIMIT: usize = 12;

/// A page found by searching the wiki for one query term.
pub struct PageMatch {
    pub id: String,
    pub title: String,
    pub summary: Option<String>,
}

/// A page with the number of search hits that found it.
pub struct RankedPage {
    pub id: String,
    pub title: String,
    pub summary: String,
    pub hits: usize,
}

/// `(id, title, summary)` of a hit, a missing summary as empty text.
pub type HitView = (Seq<char>, Seq<char>, Seq<char>);

/// `(id, hits, title, summary)` of a page.
pub type EntryView = (Seq<char>, nat, Seq<char>, Seq<char>);

pub open spec fn hit_view(m: PageMatch) -> HitView {
    (m.id@, m.title@, or_default(opt_string(m.summary), Seq::empty()))
}

pub open spec fn entry_view(r: RankedPage) -> EntryView {
    (r.id@, r.hits as nat, r.title@, r.summary@)
}

pub open spec fn entry_views(v: Seq<RankedPage>) -> Seq<EntryView> {
    Seq::new(v.len(), |i: int| entry_view(v[i]))
}

/// All hits, term after term, each term's hits in the order the search returned them.
pub open spec fn all_hits(terms: Seq<Seq<PageMatch>>) -> Seq<HitView>
    decreases terms.len(),
{
    if terms.len() == 0 {
        Seq::empty()
    } else {
        all_hits(terms.drop_last()) + terms.last().map_values(|m: PageMatch| hit_view(m))
    }
}

pub open spec fn term_views(terms: Seq<Vec<PageMatch>>) -> Seq<Seq<PageMatch>> {
    Seq::new(terms.len(), |i: int| terms[i]@)
}

/// The position of page `id` in `list`, from `k` on.
pub open spec fn entry_position(list: Seq<EntryView>, id: Seq<char>, k: int) -> Option<int>
    decreases list.len() - k,
{
    if k < 0 || k >= list.len() {
        None
    } else if list[k].0 == id {
        Some(k)
    } else {
        entry_position(list, id, k + 1)
    }
}

/// One more hit counted: a page seen before gains a hit (and the hit's summary when it had
/// none yet); a new page is added at the end with one hit.
pub open spec fn count_hit(list: Seq<EntryView>, h: HitView) -> Seq<EntryView> {
    match entry_position(list, h.0, 0) {
        Some(k) => list.update(
            k,
            (
                list[k].0,
                list[k].1 + 1,
                list[k].2,
                if list[k].3.len() == 0 {
                    h.2
                } else {
                    list[k].3
                },
            ),
        ),
        None => list.push((h.0, 1nat, h.1, h.2)),
    }
}

/// The pages hit, in the order first seen, with their hit counts.
pub open spec fn tally(hits: Seq<HitView>) -> Seq<EntryView>
    decreases hits.len(),
{
    if hits.len() == 0 {
        Seq::empty()
    } else {
        count_hit(tally(hits.drop_last()), hits.last())
    }
}

/// Whether page `a` is shown before page `b`: more hits, or as many and a smaller title.
pub open spec fn ranks_before(a: EntryView, b: EntryView) -> bool {
    a.1 > b.1 || (a.1 == b.1 && lex_lt(a.2, b.2))
}

/// Where `e` goes among `list` from `k` on: before the first entry it ranks before.
pub open spec fn rank_position(list: Seq<EntryView>, e: EntryView, k: int) -> int
    decreases list.len() - k,
{
    if k < 0 || k >= list.len() {
        list.len() as int
    } else if ranks_before(e, list[k]) {
        k
    } else {
        rank_position(list, e, k + 1)
    }
}

/// The entries in ranked order; entries that rank alike keep the order they came in.
pub open spec fn ranked(entries: Seq<EntryView>) -> Seq<EntryView>
    decreases entries.len(),
{
    if entries.len() == 0 {
        Seq::empty()
    } else {
        let r = ranked(entries.drop_last());
        r.insert(rank_position(r, entries.last(), 0), entries.last())
    }
}

pub open spec fn at_most<A>(s: Seq<A>, n: int) -> Seq<A> {
    if s.len() <= n {
        s
    } else {
        s.take(n)
    }
}

/// The pages shown: the first twelve of the ranked tally of all hits.
pub open spec fn top_pages(terms: Seq<Seq<PageMatch>>) -> Seq<EntryView> {
    at_most(ranked(tally(all_hits(terms))), PAGE_SUMMARY_LIMIT as int)
}

proof fn lemma_tally_len(hits: Seq<HitView>)
    ensures
        tally(hits).len() <= hits.len(),
        forall|k: int| 0 <= k < tally(hits).len() ==> #[trigger] tally(hits)[k].1 <= hits.len(),
    decreases hits.len(),
{
    if hits.len() > 0 {
        lemma_tally_len(hits.drop_last());
        let l = tally(hits.drop_last());
        match entry_position(l, hits.last().0, 0) {
            Some(k) => {
                lemma_entry_position(l, hits.last().0, 0);
            },
            None => {},
        }
    }
}

proof fn lemma_entry_position(list: Seq<EntryView>, id: Seq<char>, k: int)
    requires
        0 <= k,
    ensures
        match entry_position(list, id, k) {
            Some(p) => k <= p < list.len() && list[p].0 == id,
            None => forall|j: int| k <= j < list.len() ==> #[trigger] list[j].0 != id,
        },
    decreases list.len() - k,
{
    if k < list.len() && list[k].0 != id {
        lemma_entry_position(list, id, k + 1);
    }
}

fn find_entry(list: &Vec<RankedPage>, id: &Vec<char>) -> (r: Option<usize>)
    ensures
        match r {
            Some(k) => entry_position(entry_views(list@), id@, 0) == Some(k as int),
            None => entry_position(entry_views(list@), id@, 0) is None,
        },
{
    let ghost lv = entry_views(list@);
    let mut k: usize = 0;
    while k < list.len()
        invariant
            k <= list.len(),
            lv == entry_views(list@),
            entry_position(lv, id@, 0) == entry_position(lv, id@, k as int),
        decreases list.len() - k,
    {
        if crate::text::eq_chars(&chars_of(list[k].id.as_str()), id) {
            return Some(k);
        }
        k = k + 1;
    }
    None
}

proof fn lemma_all_hits_grow(t: Seq<Seq<PageMatch>>, a: int, b: int)
    requires
        0 <= a <= b <= t.len(),
    ensures
        all_hits(t.take(a)).len() <= all_hits(t.take(b)).len(),
    decreases b - a,
{
    if a < b {
        lemma_all_hits_grow(t, a, b - 1);
        assert(t.take(b).drop_last() == t.take(b - 1));
    }
}

fn tally_hits(terms: &Vec<Vec<PageMatch>>) -> (r: Vec<RankedPage>)
    requires
        all_hits(term_views(terms@)).len() <= usize::MAX,
    ensures
        entry_views(r@) == tally(all_hits(term_views(terms@))),
{
    let mut list: Vec<RankedPage> = Vec::new();
    let ghost mut seen: Seq<HitView> = Seq::empty();
    let n = terms.len();
    let mut i: usize = 0;
    while i < n
        invariant
            n == terms.len(),
            i <= n,
            seen == all_hits(term_views(terms@).take(i as int)),
            entry_views(list@) == tally(seen),
            all_hits(term_views(terms@)).len() <= usize::MAX,
        decreases n - i,
    {
        let m = terms[i].len();
        proof {
            let tv = term_views(terms@);
            assert(tv.take(i as int + 1).drop_last() == tv.take(i as int));
            assert(tv.take(i as int + 1).last() == terms@[i as int]@);
            lemma_all_hits_grow(tv, i as int + 1, n as int);
            assert(tv.take(n as int) == tv);
        }
        let mut j: usize = 0;
        let ghost start = seen;
        let ghost tm = terms@[i as int]@.map_values(|x: PageMatch| hit_view(x));
        while j < m
            invariant
                n == terms.len(),
                i < n,
                m == terms@[i as int].len(),
                tm == terms@[i as int]@.map_values(|x: PageMatch| hit_view(x)),
                j <= m,
                seen == start + tm.take(j as int),
                entry_views(list@) == tally(seen),
                start.len() + m <= all_hits(term_views(terms@)).len(),
                all_hits(term_views(terms@)).len() <= usize::MAX,
            decreases m - j,
        {
            let hit = &terms[i][j];
            let idc = chars_of(hit.id.as_str());
            let summary: String = match &hit.summary {
                Some(s) => s.clone(),
                None => String::new(),
            };
            proof {
                lemma_tally_len(seen);
                assert(tm[j as int] == hit_view(*hit));
                assert((seen + seq![tm[j as int]]).drop_last() == seen);
            }
            let ghost before = entry_views(list@);
            match find_entry(&list, &idc) {
                Some(k) => {
                    proof {
                        lemma_entry_position(before, hit.id@, 0);
                        assert(list@[k as int].hits as nat == before[k as int].1);
                        assert(before[k as int].1 <= seen.len());
                    }
                    let old_summary_empty = chars_of(list[k].summary.as_str()).len() == 0;
                    let new_summary = if old_summary_empty {
                        summary
                    } else {
                        list[k].summary.clone()
                    };
                    let updated = RankedPage {
                        id: list[k].id.clone(),
                        title: list[k].title.clone(),
                        summary: new_summary,
                        hits: list[k].hits + 1,
                    };
                    list.set(k, updated);
                    proof {
                        assert(entry_views(list@) == before.update(
                            k as int,
                            (
                                before[k as int].0,
                                before[k as int].1 + 1,
                                before[k as int].2,
                                if before[k as int].3.len() == 0 {
                                    hit_view(*hit).2
                                } else {
                                    before[k as int].3
                                },
                            ),
                        ));
                    }
                },
                None => {
                    list.push(
                        RankedPage {
                            id: hit.id.clone(),
                            title: hit.title.clone(),
                            summary,
                            hits: 1,
                        },
                    );
                    proof {
                        assert(entry_views(list@) == before.push(
                            (hit_view(*hit).0, 1nat, hit_view(*hit).1, hit_view(*hit).2),
                        ));
                    }
                },
            }
            proof {
                assert(start + tm.take(j as int + 1) == seen + seq![tm[j as int]]);
                seen = seen + seq![tm[j as int]];
            }
            j = j + 1;
        }
        proof {
            assert(tm.take(m as int) == tm);
            let tv = term_views(terms@).take(i as int + 1);
            assert(tv.drop_last() == term_views(terms@).take(i as int));
            assert(tv.last() == terms@[i as int]@);
        }
        i = i + 1;
    }
    proof {
        assert(term_views(terms@).take(n as int) == term_views(terms@));
    }
    list
}

fn ranks_before_exec(a: &RankedPage, b: &RankedPage) -> (r: bool)
    ensures
        r == ranks_before(entry_view(*a), entry_view(*b)),
{
    a.hits > b.hits || (a.hits == b.hits && lex_less(
        &chars_of(a.title.as_str()),
        &chars_of(b.title.as_str()),
    ))
}

fn copy_page(p: &RankedPage) -> (r: RankedPage)
    ensures
        entry_view(r) == entry_view(*p),
{
    RankedPage {
        id: p.id.clone(),
        title: p.title.clone(),
        summary: p.summary.clone(),
        hits: p.hits,
    }
}

fn rank_entries(entries: &Vec<RankedPage>) -> (r: Vec<RankedPage>)
    ensures
        entry_views(r@) == ranked(entry_views(entries@)),
{
    let ghost ev = entry_views(entries@);
    let mut out: Vec<RankedPage> = Vec::new();
    let n = entries.len();
    let mut i: usize = 0;
    while i < n
        invariant
            n == entries.len(),
            ev == entry_views(entries@),
            i <= n,
            entry_views(out@) == ranked(ev.take(i as int)),
        decreases n - i,
    {
        let e = copy_page(&entries[i]);
        proof {
            assert(entry_view(e) == ev[i as int]);
            assert(ev.take(i as int + 1).drop_last() == ev.take(i as int));
            assert(ev.take(i as int + 1).last() == ev[i as int]);
        }
        let ghost ov = entry_views(out@);
        let mut k: usize = 0;
        while k < out.len() && !ranks_before_exec(&e, &out[k])
            invariant
                k <= out.len(),
                ov == entry_views(out@),
                rank_position(ov, entry_view(e), 0) == rank_position(ov, entry_view(e), k as int),
            decreases out.len() - k,
        {
            k = k + 1;
        }
        out.insert(k, e);
        proof {
            assert(entry_views(out@) == ov.insert(k as int, ev[i as int]));
        }
        i = i + 1;
    }
    proof {
        assert(ev.take(n as int) == ev);
    }
    out
}

/// The pages shown to the model, from the search hits of each query term.
pub fn top_page_summaries(terms: &Vec<Vec<PageMatch>>) -> (r: Vec<RankedPage>)
    requires
        all_hits(term_views(terms@)).len() <= usize::MAX,
    ensures
        entry_views(r@) == top_pages(term_views(terms@)),
{
    let tallied = tally_hits(terms);
    let mut r = rank_entries(&tallied);
    let ghost full = entry_views(r@);
    if r.len() > PAGE_SUMMARY_LIMIT {
        r.truncate(PAGE_SUMMARY_LIMIT);
        proof {
            assert(entry_views(r@) == full.take(PAGE_SUMMARY_LIMIT as int));
        }
    }
    r
}

// ─── Laws ──────────────────────────────────────────────────────────────────

pub open spec fn ranked_in_order(list: Seq<EntryView>) -> bool {
    forall|i: int, j: int|
        0 <= i < j < list.len() ==> !ranks_before(#[trigger] list[j], #[trigger] list[i])
}

proof fn lemma_ranks_before_transitive(a: EntryView, b: EntryView, c: EntryView)
    requires
        ranks_before(a, b),
        ranks_before(b, c),
    ensures
        ranks_before(a, c),
{
    if a.1 == b.1 && b.1 == c.1 {
        crate::order::lemma_lex_transitive(a.2, b.2, c.2);
    }
}

proof fn lemma_ranks_before_asymmetric(a: EntryView, b: EntryView)
    ensures
        !(ranks_before(a, b) && ranks_before(b, a)),
{
    crate::order::lemma_lex_asymmetric(a.2, b.2);
}

proof fn lemma_rank_position(list: Seq<EntryView>, e: EntryView, k: int)
    requires
        0 <= k <= list.len(),
    ensures
        k <= rank_position(list, e, k) <= list.len(),
        forall|m: int| k <= m < rank_position(list, e, k) ==> !ranks_before(e, #[trigger] list[m]),
        rank_position(list, e, k) < list.len() ==> ranks_before(e, list[rank_position(list, e, k)]),
    decreases list.len() - k,
{
    if k < list.len() && !ranks_before(e, list[k]) {
        lemma_rank_position(list, e, k + 1);
    }
}

/// The pages come in ranked order: no page is shown after one it ranks before.
pub proof fn law_ranked_pages_in_order(entries: Seq<EntryView>)
    ensures
        ranked_in_order(ranked(entries)),
    decreases entries.len(),
{
    if entries.len() > 0 {
        law_ranked_pages_in_order(entries.drop_last());
        let l = ranked(entries.drop_last());
        let e = entries.last();
        lemma_rank_position(l, e, 0);
        let p = rank_position(l, e, 0);
        let r = l.insert(p, e);
        assert forall|i: int, j: int| 0 <= i < j < r.len() implies !ranks_before(
            #[trigger] r[j],
            #[trigger] r[i],
        ) by {
            if j < p {
                assert(r[i] == l[i] && r[j] == l[j]);
            } else if j == p {
                assert(r[i] == l[i] && r[j] == e);
                if ranks_before(e, l[i]) {
                    assert(!ranks_before(e, l[i]));
                }
            } else if i == p {
                assert(r[j] == l[j - 1] && r[i] == e);
                if ranks_before(l[j - 1], e) {
                    lemma_ranks_before_asymmetric(e, l[p]);
                    if j - 1 == p {
                    } else {
                        lemma_ranks_before_transitive(l[j - 1], e, l[p]);
                    }
                }
            } else if i < p {
                assert(r[i] == l[i] && r[j] == l[j - 1]);
            } else {
                assert(r[i] == l[i - 1] && r[j] == l[j - 1]);
            }
        }
    }
}

/// How many hits name page `id`.
pub open spec fn hits_naming(hits: Seq<HitView>, id: Seq<char>) -> nat
    decreases hits.len(),
{
    if hits.len() == 0 {
        0
    } else {
        hits_naming(hits.drop_last(), id) + if hits.last().0 == id {
            1nat
        } else {
            0nat
        }
    }
}

/// Page `id` has an entry in `list`.
pub open spec fn listed(list: Seq<EntryView>, id: Seq<char>) -> bool {
    exists|k: int| 0 <= k < list.len() && (#[trigger] list[k]).0 == id
}

/// Each page is counted once, with the number of hits that named it, and every page hit is
/// counted.
pub proof fn law_hits_counted_per_page(hits: Seq<HitView>)
    ensures
        forall|i: int, j: int|
            0 <= i < j < tally(hits).len() ==> (#[trigger] tally(hits)[i]).0 != (
            #[trigger] tally(hits)[j]).0,
        forall|k: int|
            0 <= k < tally(hits).len() ==> (#[trigger] tally(hits)[k]).1 == hits_naming(
                hits,
                tally(hits)[k].0,
            ),
        forall|m: int| 0 <= m < hits.len() ==> listed(tally(hits), (#[trigger] hits[m]).0),
    decreases hits.len(),
{
    if hits.len() > 0 {
        let prev = hits.drop_last();
        let h = hits.last();
        law_hits_counted_per_page(prev);
        let l = tally(prev);
        let r = tally(hits);
        assert(r == count_hit(l, h));
        lemma_entry_position(l, h.0, 0);
        match entry_position(l, h.0, 0) {
            Some(p) => {
                assert forall|i: int, j: int| 0 <= i < j < r.len() implies (#[trigger] r[i]).0 != (
                #[trigger] r[j]).0 by {
                    assert(r[i].0 == l[i].0 && r[j].0 == l[j].0);
                }
                assert forall|k: int| 0 <= k < r.len() implies (#[trigger] r[k]).1 == hits_naming(
                    hits,
                    r[k].0,
                ) by {
                    assert(r[k].0 == l[k].0);
                    if k != p {
                        assert(l[k].0 != l[p].0);
                    }
                }
                assert forall|m: int| 0 <= m < hits.len() implies listed(r, (#[trigger] hits[m]).0) by {
                    if m < prev.len() {
                        assert(hits[m] == prev[m]);
                        assert(listed(l, prev[m].0));
                        let k = choose|k: int| 0 <= k < l.len() && (#[trigger] l[k]).0 == prev[m].0;
                        assert(r[k].0 == l[k].0);
                    } else {
                        assert(r[p].0 == h.0);
                    }
                }
            },
            None => {
                assert forall|i: int, j: int| 0 <= i < j < r.len() implies (#[trigger] r[i]).0 != (
                #[trigger] r[j]).0 by {
                    if j == l.len() {
                        assert(r[i] == l[i]);
                        assert(r[j].0 == h.0);
                    } else {
                        assert(r[i] == l[i] && r[j] == l[j]);
                    }
                }
                lemma_unlisted_not_hit(prev, h.0, l);
                assert forall|k: int| 0 <= k < r.len() implies (#[trigger] r[k]).1 == hits_naming(
                    hits,
                    r[k].0,
                ) by {
                    if k < l.len() {
                        assert(r[k] == l[k]);
                        assert(l[k].0 != h.0);
                    }
                }
                assert forall|m: int| 0 <= m < hits.len() implies listed(r, (#[trigger] hits[m]).0) by {
                    if m < prev.len() {
                        assert(hits[m] == prev[m]);
                        assert(listed(l, prev[m].0));
                        let k = choose|k: int| 0 <= k < l.len() && (#[trigger] l[k]).0 == prev[m].0;
                        assert(r[k] == l[k]);
                    } else {
                        assert(r[l.len() as int].0 == h.0);
                    }
                }
            },
        }
    }
}

proof fn lemma_unlisted_not_hit(hits: Seq<HitView>, id: Seq<char>, l: Seq<EntryView>)
    requires
        forall|m: int| 0 <= m < hits.len() ==> listed(l, (#[trigger] hits[m]).0),
        !listed(l, id),
    ensures
        hits_naming(hits, id) == 0,
    decreases hits.len(),
{
    if hits.len() > 0 {
        let prev = hits.drop_last();
        assert forall|m: int| 0 <= m < prev.len() implies listed(l, (#[trigger] prev[m]).0) by {
            assert(prev[m] == hits[m]);
        }
        lemma_unlisted_not_hit(prev, id, l);
        assert(listed(l, hits[hits.len() - 1].0));
    }
}

/// The pages shown are at most twelve, in ranked order.
pub proof fn law_top_pages_bounded_and_ordered(terms: Seq<Seq<PageMatch>>)
    ensures
        top_pages(terms).len() <= PAGE_SUMMARY_LIMIT,
        ranked_in_order(top_pages(terms)),
{
    let r = ranked(tally(all_hits(terms)));
    law_ranked_pages_in_order(tally(all_hits(terms)));
    let t = top_pages(terms);
    assert forall|i: int, j: int| 0 <= i < j < t.len() implies !ranks_before(
        #[trigger] t[j],
        #[trigger] t[i],
    ) by {
        assert(t[i] == r[i] && t[j] == r[j]);
    }
}

} // verus!
