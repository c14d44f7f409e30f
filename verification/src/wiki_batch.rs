//! Compiling many captures at once and drawing the wiki graph: which captures the automatic
//! pass still has to compile, the pages a batch touched (each once, in order), and which pages
//! and how many edges the graph shows.

use vstd::prelude::*;
use crate::text::{chars_of, eq_str, opt_string, string_from_chars};
use crate::wiki_engine::string_views;
use crate::local_wiki::{insert_text, ordered_set, set_insert, texts_ordered};

verus! {

broadcast use vstd::seq::group_seq_axioms;

/// Whether the automatic pass compiles a capture. One whose current hash was already assessed
/// or compiled is up to date, unless it was imported from a file and still lacks its structured
/// pages (`backfill`; `None` when that could not be looked up, which counts as lacking them).
pub open spec fn auto_compile_pending(
    imported: bool,
    assessed: Option<Seq<char>>,
    compiled: Option<Seq<char>>,
    current: Seq<char>,
    backfill: Option<bool>,
) -> bool {
    let processed = assessed == Some(current) || compiled == Some(current);
    if !processed {
        true
    } else if imported {
        match backfill {
            Some(b) => b,
            None => true,
        }
    } else {
        false
    }
}

fn same_text(o: &Option<String>, current: &str) -> (b: bool)
    ensures
        b == (opt_string(*o) == Some(current@)),
{
    match o {
        Some(s) => crate::text::eq_chars(&chars_of(s.as_str()), &chars_of(current)),
        None => false,
    }
}

pub fn needs_auto_compile(
    imported: bool,
    assessed_hash: &Option<String>,
    compile_hash: &Option<String>,
    current_hash: &str,
    backfill: Option<bool>,
) -> (r: bool)
    ensures
        r == auto_compile_pending(
            imported,
            opt_string(*assessed_hash),
            opt_string(*compile_hash),
            current_hash@,
            backfill,
        ),
{
    let processed = same_text(assessed_hash, current_hash) || same_text(compile_hash, current_hash);
    if !processed {
        true
    } else if imported {
        match backfill {
            Some(b) => b,
            None => true,
        }
    } else {
        false
    }
}

/// All the ids of a batch's compiles, one compile after another.
pub open spec fn flat_ids(lists: Seq<Seq<Seq<char>>>) -> Seq<Seq<char>>
    decreases lists.len(),
{
    if lists.len() == 0 {
        Seq::empty()
    } else {
        flat_ids(lists.drop_last()) + lists.last()
    }
}

pub open spec fn list_views(lists: Seq<Vec<String>>) -> Seq<Seq<Seq<char>>> {
    Seq::new(lists.len(), |i: int| string_views(lists[i]@))
}

proof fn lemma_ordered_set_append(xs: Seq<Seq<char>>, ys: Seq<Seq<char>>, k: int)
    requires
        0 <= k < ys.len(),
    ensures
        ordered_set(xs + ys.take(k + 1)) == set_insert(ordered_set(xs + ys.take(k)), ys[k]),
{
    assert((xs + ys.take(k + 1)).drop_last() == xs + ys.take(k));
    assert((xs + ys.take(k + 1)).last() == ys[k]);
}

/// The pages a batch of compiles touched: every id they returned, each once, in order.
pub fn touched_page_set(lists: &Vec<Vec<String>>) -> (r: Vec<String>)
    ensures
        string_views(r@) == ordered_set(flat_ids(list_views(lists@))),
{
    let mut acc: Vec<String> = Vec::new();
    let n = lists.len();
    let mut i: usize = 0;
    while i < n
        invariant
            n == lists.len(),
            i <= n,
            string_views(acc@) == ordered_set(flat_ids(list_views(lists@).take(i as int))),
        decreases n - i,
    {
        let ghost before = flat_ids(list_views(lists@).take(i as int));
        let ghost ys = string_views(lists@[i as int]@);
        let m = lists[i].len();
        let mut j: usize = 0;
        proof {
            assert(ys.take(0) == Seq::<Seq<char>>::empty());
            assert(before + ys.take(0) == before);
        }
        while j < m
            invariant
                n == lists.len(),
                i < n,
                m == lists@[i as int].len(),
                ys == string_views(lists@[i as int]@),
                j <= m,
                string_views(acc@) == ordered_set(before + ys.take(j as int)),
            decreases m - j,
        {
            proof {
                lemma_ordered_set_append(before, ys, j as int);
                assert(ys[j as int] == lists@[i as int]@[j as int]@);
            }
            insert_text(&mut acc, lists[i][j].clone());
            j = j + 1;
        }
        proof {
            assert(ys.take(m as int) == ys);
            let lv = list_views(lists@).take(i as int + 1);
            assert(lv.drop_last() == list_views(lists@).take(i as int));
            assert(lv.last() == ys);
        }
        i = i + 1;
    }
    proof {
        assert(list_views(lists@).take(n as int) == list_views(lists@));
    }
    acc
}

/// The pages a batch touched come in order, each once.
pub proof fn law_touched_pages_ordered(lists: Seq<Seq<Seq<char>>>)
    ensures
        texts_ordered(ordered_set(flat_ids(lists))),
{
    crate::local_wiki::law_ordered_set_is_ordered(flat_ids(lists));
}

/// The graph shows at most this many pages.
pub const GRAPH_PAGE_LIMIT: usize = 800;

/// Source and question pages are left out of the graph.
pub open spec fn graph_kept(page_type: Seq<char>) -> bool {
    page_type != "source"@ && page_type != "qa"@
}

/// The positions among the first `n` pages whose type the graph keeps.
pub open spec fn kept_positions(types: Seq<Seq<char>>, n: int) -> Seq<int>
    decreases n,
{
    if n <= 0 {
        Seq::empty()
    } else {
        let p = kept_positions(types, n - 1);
        if graph_kept(types[n - 1]) {
            p.push(n - 1)
        } else {
            p
        }
    }
}

pub open spec fn at_most(s: Seq<int>, limit: int) -> Seq<int> {
    if s.len() <= limit {
        s
    } else {
        s.take(limit)
    }
}

/// The positions of the pages the graph shows: the first 800 whose type it keeps.
pub open spec fn graph_positions(types: Seq<Seq<char>>) -> Seq<int> {
    at_most(kept_positions(types, types.len() as int), GRAPH_PAGE_LIMIT as int)
}

pub fn graph_page_positions(page_types: &Vec<String>) -> (r: Vec<usize>)
    ensures
        r@.map_values(|p: usize| p as int) == graph_positions(string_views(page_types@)),
{
    let ghost tv = string_views(page_types@);
    let mut r: Vec<usize> = Vec::new();
    let n = page_types.len();
    let mut i: usize = 0;
    while i < n
        invariant
            n == page_types.len(),
            tv == string_views(page_types@),
            i <= n,
            r@.map_values(|p: usize| p as int) == at_most(
                kept_positions(tv, i as int),
                GRAPH_PAGE_LIMIT as int,
            ),
            r@.len() <= GRAPH_PAGE_LIMIT,
        decreases n - i,
    {
        let c = chars_of(page_types[i].as_str());
        let kept = !eq_str(&c, "source") && !eq_str(&c, "qa");
        proof {
            assert(tv[i as int] == page_types@[i as int]@);
        }
        let ghost kp = kept_positions(tv, i as int);
        proof {
            assert(r@.map_values(|p: usize| p as int).len() == r@.len());
        }
        if kept {
            if r.len() < GRAPH_PAGE_LIMIT {
                r.push(i);
                proof {
                    assert(kp.len() < GRAPH_PAGE_LIMIT);
                    assert(r@.map_values(|p: usize| p as int) == kp.push(i as int));
                }
            } else {
                proof {
                    assert(kp.push(i as int).take(GRAPH_PAGE_LIMIT as int) == kp.take(
                        GRAPH_PAGE_LIMIT as int,
                    ));
                }
            }
        }
        i = i + 1;
    }
    r
}

/// How many of the edges touch the page `id`, as source or as target.
pub open spec fn edges_touching(id: Seq<char>, edges: Seq<(Seq<char>, Seq<char>)>) -> nat
    decreases edges.len(),
{
    if edges.len() == 0 {
        0
    } else {
        edges_touching(id, edges.drop_last()) + if edges.last().0 == id || edges.last().1 == id {
            1nat
        } else {
            0nat
        }
    }
}

pub open spec fn edge_views(edges: Seq<(String, String)>) -> Seq<(Seq<char>, Seq<char>)> {
    Seq::new(edges.len(), |i: int| (edges[i].0@, edges[i].1@))
}

proof fn lemma_edges_touching_bounded(id: Seq<char>, edges: Seq<(Seq<char>, Seq<char>)>)
    ensures
        edges_touching(id, edges) <= edges.len(),
    decreases edges.len(),
{
    if edges.len() > 0 {
        lemma_edges_touching_bounded(id, edges.drop_last());
    }
}

/// The number of edges shown next to a page in the graph.
pub fn page_edge_count(id: &str, edges: &Vec<(String, String)>) -> (r: usize)
    ensures
        r == edges_touching(id@, edge_views(edges@)),
{
    let ic = chars_of(id);
    let mut count: usize = 0;
    let n = edges.len();
    let mut i: usize = 0;
    while i < n
        invariant
            n == edges.len(),
            i <= n,
            ic@ == id@,
            count == edges_touching(id@, edge_views(edges@).take(i as int)),
        decreases n - i,
    {
        proof {
            let t = edge_views(edges@).take(i as int + 1);
            assert(t.drop_last() == edge_views(edges@).take(i as int));
            lemma_edges_touching_bounded(id@, edge_views(edges@).take(i as int));
        }
        let touches = crate::text::eq_chars(&chars_of(edges[i].0.as_str()), &ic)
            || crate::text::eq_chars(&chars_of(edges[i].1.as_str()), &ic);
        if touches {
            count = count + 1;
        }
        i = i + 1;
    }
    proof {
        assert(edge_views(edges@).take(n as int) == edge_views(edges@));
    }
    count
}

// ─── Lint findings ─────────────────────────────────────────────────────────

/// A lint finding about one page: its kind, severity, title, description and the affected
/// page ids as a JSON list.
pub struct LintFinding {
    pub kind: String,
    pub severity: String,
    pub title: String,
    pub description: String,
    pub page_ids: String,
}

pub open spec fn finding_view(f: LintFinding) -> (Seq<char>, Seq<char>, Seq<char>, Seq<char>, Seq<char>) {
    (f.kind@, f.severity@, f.title@, f.description@, f.page_ids@)
}

/// What the lint reports about a page waiting for recompilation (`stale`) or left without
/// sources (`draft`); other statuses are not reported.
pub open spec fn lint_of(status: Seq<char>, title: Seq<char>, id: Seq<char>) -> Option<
    (Seq<char>, Seq<char>, Seq<char>, Seq<char>, Seq<char>),
> {
    let quoted = "\""@ + title + "\""@;
    let ids = "[\""@ + id + "\"]"@;
    if status == "needs_recompile"@ {
        Some(
            (
                "stale"@,
                "warning"@,
                quoted + " has stale sources"@,
                "Some sources have been updated or deleted, recompilation recommended"@,
                ids,
            ),
        )
    } else if status == "draft"@ {
        Some(
            (
                "orphan"@,
                "critical"@,
                quoted + " is invalid"@,
                "All sources have been deleted, please decide to keep or remove"@,
                ids,
            ),
        )
    } else {
        None
    }
}

pub fn lint_finding(status: &str, title: &str, id: &str) -> (r: Option<LintFinding>)
    ensures
        match r {
            Some(f) => lint_of(status@, title@, id@) == Some(finding_view(f)),
            None => lint_of(status@, title@, id@) is None,
        },
{
    let st = chars_of(status);
    let stale = eq_str(&st, "needs_recompile");
    if !stale && !eq_str(&st, "draft") {
        return None;
    }
    let quoted = crate::text::append(crate::text::append(chars_of("\""), title), "\"");
    let ids = crate::text::append(crate::text::append(chars_of("[\""), id), "\"]");
    if stale {
        Some(
            LintFinding {
                kind: "stale".to_owned(),
                severity: "warning".to_owned(),
                title: string_from_chars(&crate::text::append(quoted, " has stale sources")),
                description: "Some sources have been updated or deleted, recompilation recommended".to_owned(),
                page_ids: string_from_chars(&ids),
            },
        )
    } else {
        Some(
            LintFinding {
                kind: "orphan".to_owned(),
                severity: "critical".to_owned(),
                title: string_from_chars(&crate::text::append(quoted, " is invalid")),
                description: "All sources have been deleted, please decide to keep or remove".to_owned(),
                page_ids: string_from_chars(&ids),
            },
        )
    }
}

} // verus!
