//! The attention radar's deterministic side: its settings, which captured items it reads when
//! there are too many, and how they are cut into batches for the model.

use vstd::prelude::*;
use crate::models::AttentionInsight;
use crate::local_sync::{char_at_byte, char_position};
use crate::order::{lex_less, lex_lt};
use crate::text::{
    append, chars_of, concat_chars, eq_str, opt_string, or_default, slice_chars,
    string_from_chars, text_or, views,
};

verus! {

broadcast use vstd::seq::group_seq_axioms;

/// Items the model reads per batch.
pub const RADAR_BATCH_SIZE: usize = 100;

/// When sampling, this many of the newest items are always read.
pub const RADAR_AUTO_RECENT_ITEMS: usize = 80;

/// A captured item as the radar reads it, newest first in every list.
pub struct ContentForAnalysis {
    pub id: String,
    pub captured_at: String,
    pub source_app: String,
    pub content_type: String,
    pub source_url: Option<String>,
    pub summary: Option<String>,
    pub tags: Option<String>,
    pub user_note: Option<String>,
    pub raw_text: Option<String>,
}

fn clone_opt(o: &Option<String>) -> (r: Option<String>)
    ensures
        r == *o,
{
    match o {
        Some(s) => Some(s.clone()),
        None => None,
    }
}

impl ContentForAnalysis {
    /// A copy of the item.
    pub fn duplicate(&self) -> (r: Self)
        ensures
            r == *self,
    {
        ContentForAnalysis {
            id: self.id.clone(),
            captured_at: self.captured_at.clone(),
            source_app: self.source_app.clone(),
            content_type: self.content_type.clone(),
            source_url: clone_opt(&self.source_url),
            summary: clone_opt(&self.summary),
            tags: clone_opt(&self.tags),
            user_note: clone_opt(&self.user_note),
            raw_text: clone_opt(&self.raw_text),
        }
    }
}

// ─── Settings ──────────────────────────────────────────────────────────────

pub open spec fn opt_str_view(o: Option<&str>) -> Option<Seq<char>> {
    match o {
        Some(s) => Some(s@),
        None => None,
    }
}

/// Days the radar looks back: the stored value when it reads as a non-negative `i64`, else
/// 100 (0 means no limit).
pub open spec fn analysis_days(raw: Option<Seq<char>>) -> int {
    match raw {
        Some(s) => match crate::text::parse_i64(s) {
            Some(v) => if v >= 0 {
                v
            } else {
                100
            },
            None => 100,
        },
        None => 100,
    }
}

pub fn read_radar_analysis_days(raw: Option<&str>) -> (r: i64)
    ensures
        r == analysis_days(opt_str_view(raw)),
{
    match raw {
        Some(s) => match crate::text::parse_i64_chars(&chars_of(s)) {
            Some(v) => if v >= 0 {
                v
            } else {
                100
            },
            None => 100,
        },
        None => 100,
    }
}

/// How many items the radar fetches: the stored value when it reads as a `usize`, else 500
/// (0 means the radar picks a sample itself).
pub open spec fn analysis_limit(raw: Option<Seq<char>>) -> int {
    match raw {
        Some(s) => match crate::text::parse_unsigned_below(s, usize::MAX as int) {
            Some(v) => v,
            None => 500,
        },
        None => 500,
    }
}

pub fn read_radar_analysis_limit(raw: Option<&str>) -> (r: usize)
    ensures
        r == analysis_limit(opt_str_view(raw)),
{
    match raw {
        Some(s) => match crate::text::parse_unsigned_chars(&chars_of(s), usize::MAX as u64) {
            Some(v) => v as usize,
            None => 500,
        },
        None => 500,
    }
}

/// Days between analyses: the stored value when it reads as an `i64`, else 3.
pub open spec fn interval_days(raw: Option<Seq<char>>) -> int {
    match raw {
        Some(s) => match crate::text::parse_i64(s) {
            Some(v) => v,
            None => 3,
        },
        None => 3,
    }
}

pub fn read_radar_interval_days(raw: Option<&str>) -> (r: i64)
    ensures
        r == interval_days(opt_str_view(raw)),
{
    match raw {
        Some(s) => match crate::text::parse_i64_chars(&chars_of(s)) {
            Some(v) => v,
            None => 3,
        },
        None => 3,
    }
}

// ─── Sampling ──────────────────────────────────────────────────────────────

/// How many items the radar reads when it samples by itself from `total` available.
pub open spec fn item_budget(total: int) -> int {
    if total <= 120 {
        total
    } else if total <= 500 {
        120
    } else if total <= 2000 {
        160
    } else if total <= 5000 {
        200
    } else {
        240
    }
}

pub fn auto_radar_item_budget(total_items: usize) -> (r: usize)
    ensures
        r == item_budget(total_items as int),
{
    if total_items <= 120 {
        total_items
    } else if total_items <= 500 {
        120
    } else if total_items <= 2000 {
        160
    } else if total_items <= 5000 {
        200
    } else {
        240
    }
}

/// Some item of the selection (given as positions in `items`) has id `id`.
pub open spec fn id_taken(items: Seq<ContentForAnalysis>, sel: Seq<int>, id: Seq<char>) -> bool {
    exists|k: int| 0 <= k < sel.len() && (#[trigger] items[sel[k]]).id@ == id
}

/// The selection with item `j` added, unless an item with its id is already there.
pub open spec fn add_new(items: Seq<ContentForAnalysis>, sel: Seq<int>, j: int) -> Seq<int> {
    if id_taken(items, sel, items[j].id@) {
        sel
    } else {
        sel.push(j)
    }
}

/// Phase one: items `0..n` in order, one per id.
pub open spec fn take_recent(items: Seq<ContentForAnalysis>, n: int) -> Seq<int>
    decreases n,
{
    if n <= 0 {
        Seq::empty()
    } else {
        add_new(items, take_recent(items, n - 1), n - 1)
    }
}

/// Phase two: `rem` positions spread evenly over the older items `start..`, one per id.
pub open spec fn spread(items: Seq<ContentForAnalysis>, sel: Seq<int>, start: int, rem: int, idx: int) -> Seq<int>
    decreases rem - idx,
{
    if idx >= rem || rem <= 0 {
        sel
    } else {
        let tl = items.len() - start;
        spread(items, add_new(items, sel, start + idx * tl / rem), start, rem, idx + 1)
    }
}

/// Phase three: the older items from `j` on, in order, one per id, until the budget is met.
pub open spec fn fill(items: Seq<ContentForAnalysis>, sel: Seq<int>, j: int, budget: int) -> Seq<int>
    decreases items.len() - j,
{
    if j >= items.len() || sel.len() >= budget {
        sel
    } else {
        fill(items, add_new(items, sel, j), j + 1, budget)
    }
}

/// Positions of the items the radar reads. With a configured limit, the first `limit`
/// items. Otherwise all of them when they fit the budget; if not, the newest (up to 80 of
/// the budget), then an even spread over the older ones, then the oldest ones in order until
/// the budget is met, never two items with the same id.
pub open spec fn radar_selection(items: Seq<ContentForAnalysis>, limit: int) -> Seq<int> {
    let n = items.len() as int;
    if limit > 0 {
        Seq::new(if limit < n { limit as nat } else { n as nat }, |i: int| i)
    } else {
        let budget = item_budget(n);
        if n <= budget {
            Seq::new(n as nat, |i: int| i)
        } else {
            let recent = if budget < RADAR_AUTO_RECENT_ITEMS as int {
                budget
            } else {
                RADAR_AUTO_RECENT_ITEMS as int
            };
            let first = take_recent(items, recent);
            let rem = budget - first.len();
            let second = if rem > 0 && n - recent > 0 {
                spread(items, first, recent, rem, 0)
            } else {
                first
            };
            if rem > 0 && n - recent > 0 && second.len() < budget {
                fill(items, second, recent, budget)
            } else {
                second
            }
        }
    }
}

/// Whether an item with `id` is among the selected ones.
fn id_taken_exec(items: &Vec<ContentForAnalysis>, sel: &Vec<usize>, id: &String) -> (b: bool)
    requires
        forall|k: int| 0 <= k < sel@.len() ==> #[trigger] sel@[k] < items@.len(),
    ensures
        b == id_taken(items@, sel@.map_values(|x: usize| x as int), id@),
{
    let ghost s = sel@.map_values(|x: usize| x as int);
    let mut k: usize = 0;
    while k < sel.len()
        invariant
            k <= sel@.len(),
            s == sel@.map_values(|x: usize| x as int),
            forall|q: int| 0 <= q < sel@.len() ==> #[trigger] sel@[q] < items@.len(),
            forall|q: int| 0 <= q < k ==> (#[trigger] items@[s[q]]).id@ != id@,
        decreases sel.len() - k,
    {
        if items[sel[k]] .id == *id {
            proof {
                assert(s[k as int] == sel@[k as int] as int);
                assert(items@[s[k as int]].id@ == id@);
            }
            return true;
        }
        k += 1;
    }
    false
}

fn add_new_exec(items: &Vec<ContentForAnalysis>, sel: &mut Vec<usize>, j: usize)
    requires
        j < items@.len(),
        forall|k: int| 0 <= k < old(sel)@.len() ==> #[trigger] old(sel)@[k] < items@.len(),
    ensures
        final(sel)@.map_values(|x: usize| x as int) == add_new(
            items@,
            old(sel)@.map_values(|x: usize| x as int),
            j as int,
        ),
        forall|k: int| 0 <= k < final(sel)@.len() ==> #[trigger] final(sel)@[k] < items@.len(),
        final(sel)@.len() <= old(sel)@.len() + 1,
{
    if !id_taken_exec(items, sel, &items[j].id) {
        let ghost before = sel@;
        sel.push(j);
        proof {
            assert(sel@.map_values(|x: usize| x as int) =~= before.map_values(|x: usize| x as int).push(
                j as int,
            ));
        }
    }
}

pub open spec fn positions(sel: Seq<usize>) -> Seq<int> {
    sel.map_values(|x: usize| x as int)
}

/// The positions the radar reads, as `radar_selection` describes.
pub fn select_radar_positions(items: &Vec<ContentForAnalysis>, configured_limit: usize) -> (r: Vec<
    usize,
>)
    ensures
        positions(r@) == radar_selection(items@, configured_limit as int),
        forall|k: int| 0 <= k < r@.len() ==> #[trigger] r@[k] < items@.len(),
{
    let n = items.len();
    let mut sel: Vec<usize> = Vec::new();
    if configured_limit > 0 || n <= auto_radar_item_budget(n) {
        let m = if configured_limit > 0 && configured_limit < n {
            configured_limit
        } else {
            n
        };
        let mut i: usize = 0;
        while i < m
            invariant
                i <= m <= n,
                n == items@.len(),
                sel@.len() == i,
                forall|k: int| 0 <= k < i ==> #[trigger] sel@[k] == k,
            decreases m - i,
        {
            sel.push(i);
            i += 1;
        }
        proof {
            assert(positions(sel@) =~= radar_selection(items@, configured_limit as int));
        }
        return sel;
    }
    let budget = auto_radar_item_budget(n);
    let recent = if budget < RADAR_AUTO_RECENT_ITEMS {
        budget
    } else {
        RADAR_AUTO_RECENT_ITEMS
    };
    let mut i: usize = 0;
    while i < recent
        invariant
            i <= recent <= budget < n,
            n == items@.len(),
            positions(sel@) == take_recent(items@, i as int),
            sel@.len() <= i,
            forall|k: int| 0 <= k < sel@.len() ==> #[trigger] sel@[k] < items@.len(),
        decreases recent - i,
    {
        add_new_exec(items, &mut sel, i);
        i += 1;
    }
    let ghost first = positions(sel@);
    let rem = budget - sel.len();
    let tl = n - recent;
    if rem > 0 && tl > 0 {
        let mut idx: usize = 0;
        while idx < rem
            invariant
                idx <= rem,
                recent + tl == n,
                n == items@.len(),
                tl > 0,
                rem <= budget,
                budget <= 240,
                spread(items@, first, recent as int, rem as int, 0) == spread(
                    items@,
                    positions(sel@),
                    recent as int,
                    rem as int,
                    idx as int,
                ),
                forall|k: int| 0 <= k < sel@.len() ==> #[trigger] sel@[k] < items@.len(),
            decreases rem - idx,
        {
            proof {
                assert(idx * tl < rem * tl) by (nonlinear_arith)
                    requires
                        idx < rem,
                        tl > 0,
                ;
                assert((idx * tl) / (rem as int) < tl) by (nonlinear_arith)
                    requires
                        idx * tl < rem * tl,
                        rem > 0,
                ;
            }
            proof {
                assert((idx as int) * (tl as int) <= 240 * 0x1_0000_0000_0000_0000) by (
                nonlinear_arith)
                    requires
                        idx <= 240,
                        tl <= 0x1_0000_0000_0000_0000,
                        tl >= 0,
                        idx >= 0,
                ;
            }
            let pos = (idx as u128 * tl as u128 / rem as u128) as usize;
            add_new_exec(items, &mut sel, recent + pos);
            idx += 1;
        }
        let ghost second = positions(sel@);
        if sel.len() < budget {
            let mut j: usize = recent;
            while j < n && sel.len() < budget
                invariant
                    recent <= j <= n,
                    n == items@.len(),
                    fill(items@, second, recent as int, budget as int) == fill(
                        items@,
                        positions(sel@),
                        j as int,
                        budget as int,
                    ),
                    forall|k: int| 0 <= k < sel@.len() ==> #[trigger] sel@[k] < items@.len(),
                decreases n - j,
            {
                add_new_exec(items, &mut sel, j);
                j += 1;
            }
        }
    }
    sel
}

/// The items the radar reads, as `radar_selection` describes.
pub fn select_radar_items(items: &Vec<ContentForAnalysis>, configured_limit: usize) -> (r: Vec<
    ContentForAnalysis,
>)
    ensures
        r@ == radar_selection(items@, configured_limit as int).map_values(|k: int| items@[k]),
{
    let sel = select_radar_positions(items, configured_limit);
    let mut out: Vec<ContentForAnalysis> = Vec::new();
    let mut i: usize = 0;
    while i < sel.len()
        invariant
            i <= sel@.len(),
            forall|k: int| 0 <= k < sel@.len() ==> #[trigger] sel@[k] < items@.len(),
            out@ == positions(sel@).take(i as int).map_values(|k: int| items@[k]),
        decreases sel.len() - i,
    {
        out.push(items[sel[i]].duplicate());
        i += 1;
        proof {
            assert(out@ =~= positions(sel@).take(i as int).map_values(|k: int| items@[k]));
        }
    }
    proof {
        assert(positions(sel@).take(sel@.len() as int) =~= positions(sel@));
    }
    out
}

// ─── Batches ───────────────────────────────────────────────────────────────

/// The items cut into consecutive batches of `RADAR_BATCH_SIZE`, the last one possibly
/// shorter.
pub open spec fn batches(items: Seq<ContentForAnalysis>) -> Seq<Seq<ContentForAnalysis>>
    decreases items.len(),
{
    if items.len() == 0 {
        Seq::empty()
    } else if items.len() <= RADAR_BATCH_SIZE {
        seq![items]
    } else {
        seq![items.take(RADAR_BATCH_SIZE as int)] + batches(items.skip(RADAR_BATCH_SIZE as int))
    }
}

pub open spec fn batch_views(v: Seq<Vec<ContentForAnalysis>>) -> Seq<Seq<ContentForAnalysis>> {
    Seq::new(v.len(), |i: int| v[i]@)
}

pub fn build_attention_batches(items: &Vec<ContentForAnalysis>) -> (r: Vec<Vec<ContentForAnalysis>>)
    ensures
        batch_views(r@) == batches(items@),
{
    let n = items.len();
    let mut out: Vec<Vec<ContentForAnalysis>> = Vec::new();
    let mut start: usize = 0;
    proof {
        assert(items@.skip(0) =~= items@);
    }
    while start < n
        invariant
            start <= n,
            n == items@.len(),
            batches(items@) == batch_views(out@) + batches(items@.skip(start as int)),
        decreases n - start,
    {
        let end = if n - start > RADAR_BATCH_SIZE {
            start + RADAR_BATCH_SIZE
        } else {
            n
        };
        let mut chunk: Vec<ContentForAnalysis> = Vec::new();
        let mut k = start;
        while k < end
            invariant
                start <= k <= end <= n,
                n == items@.len(),
                chunk@ == items@.subrange(start as int, k as int),
            decreases end - k,
        {
            chunk.push(items[k].duplicate());
            k += 1;
            proof {
                assert(chunk@ =~= items@.subrange(start as int, k as int));
            }
        }
        let ghost rest = items@.skip(start as int);
        proof {
            if end < n {
                assert(rest.take(RADAR_BATCH_SIZE as int) =~= chunk@);
                assert(rest.skip(RADAR_BATCH_SIZE as int) =~= items@.skip(end as int));
            } else {
                assert(rest =~= chunk@);
                assert(items@.skip(end as int) =~= Seq::<ContentForAnalysis>::empty());
            }
        }
        let ghost before = batch_views(out@);
        out.push(chunk);
        proof {
            assert(batch_views(out@) =~= before.push(chunk@));
            assert(before.push(chunk@) + batches(items@.skip(end as int)) =~= before + (seq![
                chunk@,
            ] + batches(items@.skip(end as int))));
        }
        start = end;
    }
    proof {
        assert(items@.skip(n as int) =~= Seq::<ContentForAnalysis>::empty());
        assert(batch_views(out@) + Seq::<Seq<ContentForAnalysis>>::empty() =~= batch_views(out@));
    }
    out
}

} // verus!

verus! {

/// No two selected items share an id.
pub open spec fn distinct_ids(items: Seq<ContentForAnalysis>, sel: Seq<int>) -> bool {
    forall|a: int, b: int|
        0 <= a < b < sel.len() ==> (#[trigger] items[sel[a]]).id@ != (#[trigger] items[sel[b]]).id@
}

proof fn lemma_add_new(items: Seq<ContentForAnalysis>, sel: Seq<int>, j: int)
    requires
        distinct_ids(items, sel),
    ensures
        distinct_ids(items, add_new(items, sel, j)),
        add_new(items, sel, j).len() <= sel.len() + 1,
        add_new(items, sel, j).len() >= sel.len(),
{
    if !id_taken(items, sel, items[j].id@) {
        let r = sel.push(j);
        assert forall|a: int, b: int| 0 <= a < b < r.len() implies (#[trigger] items[r[a]]).id@
            != (#[trigger] items[r[b]]).id@ by {
            if b == sel.len() {
                assert(r[a] == sel[a]);
                assert(items[sel[a]].id@ != items[j].id@);
            } else {
                assert(r[a] == sel[a] && r[b] == sel[b]);
            }
        }
    }
}

proof fn lemma_take_recent(items: Seq<ContentForAnalysis>, n: int)
    ensures
        distinct_ids(items, take_recent(items, n)),
        take_recent(items, n).len() <= if n < 0 {
            0
        } else {
            n
        },
    decreases n,
{
    if n > 0 {
        lemma_take_recent(items, n - 1);
        lemma_add_new(items, take_recent(items, n - 1), n - 1);
    }
}

proof fn lemma_spread(items: Seq<ContentForAnalysis>, sel: Seq<int>, start: int, rem: int, idx: int)
    requires
        distinct_ids(items, sel),
        0 <= idx,
    ensures
        distinct_ids(items, spread(items, sel, start, rem, idx)),
        spread(items, sel, start, rem, idx).len() <= sel.len() + if rem > idx {
            rem - idx
        } else {
            0
        },
    decreases rem - idx,
{
    if idx < rem && rem > 0 {
        let tl = items.len() - start;
        let j = start + idx * tl / rem;
        lemma_add_new(items, sel, j);
        lemma_spread(items, add_new(items, sel, j), start, rem, idx + 1);
    }
}

proof fn lemma_fill(items: Seq<ContentForAnalysis>, sel: Seq<int>, j: int, budget: int)
    requires
        distinct_ids(items, sel),
    ensures
        distinct_ids(items, fill(items, sel, j, budget)),
        fill(items, sel, j, budget).len() <= if sel.len() > budget {
            sel.len() as int
        } else {
            budget
        },
    decreases items.len() - j,
{
    if j < items.len() && sel.len() < budget {
        lemma_add_new(items, sel, j);
        lemma_fill(items, add_new(items, sel, j), j + 1, budget);
    }
}

/// Law: with a configured limit the radar reads exactly the first `limit` items (all of them
/// when there are fewer).
pub proof fn law_radar_limit_takes_newest(items: Seq<ContentForAnalysis>, limit: int)
    requires
        limit > 0,
    ensures
        radar_selection(items, limit).len() == if limit < items.len() {
            limit
        } else {
            items.len() as int
        },
        forall|i: int|
            0 <= i < radar_selection(items, limit).len() ==> #[trigger] radar_selection(items, limit)[i]
                == i,
{
}

/// Law: left to sample by itself, the radar never reads more than its budget, and when it
/// has to sample it never reads two items with the same id.
pub proof fn law_radar_sample_within_budget(items: Seq<ContentForAnalysis>)
    ensures
        radar_selection(items, 0).len() <= item_budget(items.len() as int),
        items.len() > item_budget(items.len() as int) ==> distinct_ids(items, radar_selection(items, 0)),
{
    let n = items.len() as int;
    let budget = item_budget(n);
    if n > budget {
        let recent = if budget < RADAR_AUTO_RECENT_ITEMS as int {
            budget
        } else {
            RADAR_AUTO_RECENT_ITEMS as int
        };
        lemma_take_recent(items, recent);
        let first = take_recent(items, recent);
        let rem = budget - first.len();
        if rem > 0 && n - recent > 0 {
            lemma_spread(items, first, recent, rem, 0);
            let second = spread(items, first, recent, rem, 0);
            if second.len() < budget {
                lemma_fill(items, second, recent, budget);
            }
        }
    }
}


// ─── Radar status ──────────────────────────────────────────────────────────

/// What the radar panel shows: its state, the latest run, and whether there is new content.
pub struct RadarStatus {
    pub status: String,
    pub insight: Option<AttentionInsight>,
    pub has_new_content: bool,
}

/// Progress of a run, as the panel shows it.
pub struct RadarProgressPayload {
    pub stage: String,
    pub current: usize,
    pub total: usize,
    pub selected_items: Option<usize>,
    pub total_items: Option<usize>,
}

/// The AI provider setting, `anthropic` when unset.
pub fn ai_provider(setting: &Option<String>) -> (r: String)
    ensures
        r@ == or_default(opt_string(*setting), "anthropic"@),
{
    string_from_chars(&text_or(setting, "anthropic"))
}

/// The setting that holds a provider's API key.
pub fn api_key_setting_name(provider: &str) -> (r: String)
    ensures
        r@ == "ai_api_key_"@ + provider@,
{
    string_from_chars(&append(chars_of("ai_api_key_"), provider))
}

/// The API key in use: the provider's own, else the one from before keys were per provider,
/// else none (empty).
pub fn resolve_api_key(per_provider: &Option<String>, legacy: &Option<String>) -> (r: String)
    ensures
        r@ == match opt_string(*per_provider) {
            Some(k) => k,
            None => or_default(opt_string(*legacy), Seq::empty()),
        },
{
    match per_provider {
        Some(k) => k.clone(),
        None => match legacy {
            Some(k) => k.clone(),
            None => String::new(),
        },
    }
}

/// OpenAI and Google can be used through a login instead of a key.
pub open spec fn login_capable(provider: Seq<char>) -> bool {
    provider == "openai"@ || provider == "google"@
}

fn is_login_capable(provider: &str) -> (b: bool)
    ensures
        b == login_capable(provider@),
{
    let p = chars_of(provider);
    eq_str(&p, "openai") || eq_str(&p, "google")
}

/// A run marked `analyzing` for longer than this many minutes is taken as stuck.
pub const STUCK_AFTER_MINUTES: i64 = 5;

/// The panel's state: the status text, whether new content is flagged, whether the latest run
/// is shown, and whether a stuck run is to be marked as failed. Without a key (and no login
/// provider) or with fewer than five recent items there is nothing to show; then it follows the
/// latest run: none yet, stuck or running, failed, or done and stale once new content came in
/// and the interval passed.
pub open spec fn radar_outcome(
    provider: Seq<char>,
    api_key: Seq<char>,
    recent_items: int,
    insight_status: Option<Seq<char>>,
    minutes_since: int,
    days_since: int,
    has_new: bool,
    interval: int,
) -> (Seq<char>, bool, bool, bool) {
    if api_key.len() == 0 && !login_capable(provider) {
        ("no_api_key"@, false, false, false)
    } else if recent_items < 5 {
        ("not_enough_content"@, false, false, false)
    } else {
        match insight_status {
            None => ("empty"@, true, false, false),
            Some(st) => if st == "analyzing"@ {
                if minutes_since > STUCK_AFTER_MINUTES {
                    ("error"@, true, true, true)
                } else {
                    ("analyzing"@, false, true, false)
                }
            } else if st == "error"@ {
                ("error"@, true, true, false)
            } else if has_new && days_since >= interval {
                ("stale"@, has_new, true, false)
            } else {
                ("fresh"@, has_new, true, false)
            },
        }
    }
}

pub open spec fn insight_status_of(i: Option<AttentionInsight>) -> Option<Seq<char>> {
    match i {
        Some(x) => Some(x.status@),
        None => None,
    }
}

/// The panel's state (see `radar_outcome`) from what was looked up: the run's age in minutes
/// and days, whether content arrived since it, and the interval between runs in days. The flag
/// returned with it asks for the stuck run to be marked as failed.
pub fn decide_radar_status(
    provider: &str,
    api_key: &str,
    recent_items: usize,
    insight: Option<AttentionInsight>,
    minutes_since: i64,
    days_since: i64,
    has_new: bool,
    interval_days: i64,
) -> (r: (RadarStatus, bool))
    ensures
        (r.0.status@, r.0.has_new_content, r.0.insight is Some, r.1) == radar_outcome(
            provider@,
            api_key@,
            recent_items as int,
            insight_status_of(insight),
            minutes_since as int,
            days_since as int,
            has_new,
            interval_days as int,
        ),
        r.0.insight is Some ==> r.0.insight == insight,
{
    let key = chars_of(api_key);
    if key.len() == 0 && !is_login_capable(provider) {
        return (
            RadarStatus { status: "no_api_key".to_owned(), insight: None, has_new_content: false },
            false,
        );
    }
    if recent_items < 5 {
        return (
            RadarStatus {
                status: "not_enough_content".to_owned(),
                insight: None,
                has_new_content: false,
            },
            false,
        );
    }
    match insight {
        None => (
            RadarStatus { status: "empty".to_owned(), insight: None, has_new_content: true },
            false,
        ),
        Some(i) => {
            let st = chars_of(i.status.as_str());
            if eq_str(&st, "analyzing") {
                if minutes_since > STUCK_AFTER_MINUTES {
                    (
                        RadarStatus {
                            status: "error".to_owned(),
                            insight: Some(i),
                            has_new_content: true,
                        },
                        true,
                    )
                } else {
                    (
                        RadarStatus {
                            status: "analyzing".to_owned(),
                            insight: Some(i),
                            has_new_content: false,
                        },
                        false,
                    )
                }
            } else if eq_str(&st, "error") {
                (
                    RadarStatus { status: "error".to_owned(), insight: Some(i), has_new_content: true },
                    false,
                )
            } else if has_new && days_since >= interval_days {
                (
                    RadarStatus {
                        status: "stale".to_owned(),
                        insight: Some(i),
                        has_new_content: has_new,
                    },
                    false,
                )
            } else {
                (
                    RadarStatus {
                        status: "fresh".to_owned(),
                        insight: Some(i),
                        has_new_content: has_new,
                    },
                    false,
                )
            }
        },
    }
}

/// `x / d` rounded toward zero, as Rust's integer division.
pub open spec fn toward_zero(x: int, d: int) -> int {
    if x >= 0 {
        x / d
    } else {
        -((-x) / d)
    }
}

/// Whole seconds from instant `a` to instant `b` (each as seconds since the epoch and
/// nanoseconds), rounded toward zero, as chrono's `num_seconds` counts a time difference.
pub open spec fn whole_seconds_between(a: (int, int), b: (int, int)) -> int {
    toward_zero((b.0 - a.0) * 1_000_000_000 + (b.1 - a.1), 1_000_000_000)
}

/// Whole minutes and whole days from the time `text` names to the instant `now`; a text
/// chrono does not parse counts as now, so both are zero.
pub open spec fn elapsed_since(text: Seq<char>, now: (int, int)) -> (int, int) {
    match rfc3339_instant(text) {
        Some(then) => {
            let secs = whole_seconds_between(then, now);
            (toward_zero(secs, 60), toward_zero(secs, 86400))
        },
        None => (0, 0),
    }
}

/// `minutes_days` is `elapsed_since` the text at some instant (with nanoseconds below a
/// second).
pub open spec fn elapsed_at_some_instant(text: Seq<char>, minutes_days: (i64, i64)) -> bool {
    exists|now: (int, int)|
        0 <= now.1 < 1_000_000_000 && (minutes_days.0 as int, minutes_days.1 as int)
            == elapsed_since(text, now)
}

/// Whole minutes and whole days from an RFC 3339 time to now, by chrono (`Utc::now()` less
/// the parsed time, then `num_minutes` and `num_days`); a time that does not parse counts as
/// now. Trusted: the result is `elapsed_since` the text at some instant, the clock's reading,
/// which is not stated. (A leap second in the text counts one second more, which the choice of
/// that instant takes up.)
#[verifier::external_body]
fn time_since(rfc3339: &str) -> (r: (i64, i64))
    ensures
        elapsed_at_some_instant(rfc3339@, r),
        rfc3339_instant(rfc3339@) is None ==> r == (0i64, 0i64),
{
    let now = chrono::Utc::now();
    let then = match chrono::DateTime::parse_from_rfc3339(rfc3339) {
        Ok(t) => t.with_timezone(&chrono::Utc),
        Err(_) => now,
    };
    let elapsed = now - then;
    (elapsed.num_minutes(), elapsed.num_days())
}

/// The age of the latest run at the instant `now`: measured from its analysis time; none
/// without a run.
pub open spec fn insight_age(insight: Option<AttentionInsight>, now: (int, int)) -> (int, int) {
    match insight {
        Some(i) => elapsed_since(i.analyzed_at@, now),
        None => (0, 0),
    }
}

/// The radar panel's state now (see `decide_radar_status`); the latest run's age is measured
/// from its analysis time to the clock's reading, and the interval read from its setting.
pub fn get_attention_insights(
    provider: &str,
    api_key: &str,
    recent_items: usize,
    insight: Option<AttentionInsight>,
    has_new: bool,
    interval_setting: Option<&str>,
) -> (r: (RadarStatus, bool))
    ensures
        exists|now: (int, int)|
            0 <= now.1 < 1_000_000_000 && (r.0.status@, r.0.has_new_content, r.0.insight is Some, r.1)
                == radar_outcome(
                provider@,
                api_key@,
                recent_items as int,
                insight_status_of(insight),
                insight_age(insight, now).0,
                insight_age(insight, now).1,
                has_new,
                interval_days(opt_str_view(interval_setting)),
            ),
        r.0.insight is Some ==> r.0.insight == insight,
{
    let ghost mut now: (int, int) = (0, 0);
    let (minutes, days) = match &insight {
        Some(i) => {
            let age = time_since(i.analyzed_at.as_str());
            proof {
                now = choose|n: (int, int)|
                    0 <= n.1 < 1_000_000_000 && (age.0 as int, age.1 as int) == elapsed_since(
                        i.analyzed_at@,
                        n,
                    );
            }
            age
        },
        None => (0, 0),
    };
    assert((minutes as int, days as int) == insight_age(insight, now));
    let interval = read_radar_interval_days(interval_setting);
    decide_radar_status(provider, api_key, recent_items, insight, minutes, days, has_new, interval)
}

/// What starting a run does: nothing while one is running; refused without a key unless the
/// provider allows a login; otherwise it goes ahead.
pub enum RunCheck {
    AlreadyRunning,
    Refused { message: String },
    Proceed,
}

pub fn check_attention_run(current: &Option<AttentionInsight>, provider: &str, api_key: &str) -> (r:
    RunCheck)
    ensures
        insight_status_of(*current) == Some("analyzing"@) ==> r is AlreadyRunning,
        insight_status_of(*current) != Some("analyzing"@) ==> (r is AlreadyRunning == false),
        insight_status_of(*current) != Some("analyzing"@) ==> (r matches RunCheck::Refused {
            message,
        } <==> (api_key@.len() == 0 && provider@ != "openai"@ && provider@ != "google"@)),
        r matches RunCheck::Refused { message } ==> message@
            == "Please configure an AI API Key in settings first"@,
{
    match current {
        Some(i) => {
            if eq_str(&chars_of(i.status.as_str()), "analyzing") {
                return RunCheck::AlreadyRunning;
            }
        },
        None => {},
    }
    let p = chars_of(provider);
    if chars_of(api_key).len() == 0 && !eq_str(&p, "openai") && !eq_str(&p, "google") {
        RunCheck::Refused { message: "Please configure an AI API Key in settings first".to_owned() }
    } else {
        RunCheck::Proceed
    }
}

/// How many batches a run of `n` items takes.
pub fn batch_count(n: usize) -> (r: usize)
    ensures
        r as int == (n as int + RADAR_BATCH_SIZE - 1) / (RADAR_BATCH_SIZE as int),
{
    n / RADAR_BATCH_SIZE + if n % RADAR_BATCH_SIZE == 0 {
        0
    } else {
        1
    }
}

/// A progress report for stage `stage`, step `current` of `total`, over `selected` of
/// `available` items.
pub fn radar_progress(stage: &str, current: usize, total: usize, selected: usize, available: usize) -> (r:
    RadarProgressPayload)
    ensures
        r.stage@ == stage@,
        r.current == current,
        r.total == total,
        r.selected_items == Some(selected),
        r.total_items == Some(available),
{
    RadarProgressPayload {
        stage: stage.to_owned(),
        current,
        total,
        selected_items: Some(selected),
        total_items: Some(available),
    }
}


// ─── Dates in the report ───────────────────────────────────────────────────

/// The day of a capture time: its first ten bytes (`YYYY-MM-DD`), when they end on a
/// character boundary.
pub open spec fn day_prefix(s: Seq<char>) -> Option<Seq<char>> {
    match char_at_byte(s, 10, 0) {
        Some(n) => Some(s.take(n)),
        None => None,
    }
}

/// The days of the items that have one, in order.
pub open spec fn days_of(items: Seq<ContentForAnalysis>) -> Seq<Seq<char>>
    decreases items.len(),
{
    if items.len() == 0 {
        Seq::empty()
    } else {
        let init = days_of(items.drop_last());
        match day_prefix(items.last().captured_at@) {
            Some(d) => init.push(d),
            None => init,
        }
    }
}

pub open spec fn lex_min(ds: Seq<Seq<char>>) -> Seq<char>
    decreases ds.len(),
{
    if ds.len() == 0 {
        Seq::empty()
    } else if ds.len() == 1 {
        ds[0]
    } else {
        let m = lex_min(ds.drop_last());
        if lex_lt(ds.last(), m) {
            ds.last()
        } else {
            m
        }
    }
}

pub open spec fn lex_max(ds: Seq<Seq<char>>) -> Seq<char>
    decreases ds.len(),
{
    if ds.len() == 0 {
        Seq::empty()
    } else if ds.len() == 1 {
        ds[0]
    } else {
        let m = lex_max(ds.drop_last());
        if lex_lt(ds.last(), m) {
            m
        } else {
            ds.last()
        }
    }
}

/// A day without its year: what follows its fifth byte.
pub open spec fn month_day(d: Seq<char>) -> Seq<char> {
    match char_at_byte(d, 5, 0) {
        Some(k) => d.subrange(k, d.len() as int),
        None => d,
    }
}

/// The fifth byte of the first and last day ends a character whenever the range is written
/// with two days (the range is cut there).
pub open spec fn range_splittable(items: Seq<ContentForAnalysis>) -> bool {
    let ds = days_of(items);
    let lo = lex_min(ds);
    let hi = lex_max(ds);
    (lo.len() > 0 && hi.len() > 0 && lo != hi) ==> (char_at_byte(lo, 5, 0) is Some && char_at_byte(
        hi,
        5,
        0,
    ) is Some)
}

/// The days a set of items spans: one day as it is, several as `MM-DD~MM-DD`, none as empty.
pub open spec fn short_date_range(items: Seq<ContentForAnalysis>) -> Seq<char> {
    let ds = days_of(items);
    let lo = lex_min(ds);
    let hi = lex_max(ds);
    if lo.len() == 0 || hi.len() == 0 {
        Seq::empty()
    } else if lo == hi {
        lo
    } else {
        month_day(lo) + "~"@ + month_day(hi)
    }
}

/// A day (see `day_prefix`) of a capture time.
fn day_of(captured_at: &String) -> (r: Option<Vec<char>>)
    ensures
        crate::text::opt_chars(r) == day_prefix(captured_at@),
{
    let s = chars_of(captured_at.as_str());
    match char_position(&s, 10) {
        Some(n) => Some(slice_chars(&s, 0, n)),
        None => None,
    }
}

fn days_exec(items: &Vec<ContentForAnalysis>) -> (r: Vec<Vec<char>>)
    ensures
        views(r@) == days_of(items@),
{
    let mut r: Vec<Vec<char>> = Vec::new();
    let mut i: usize = 0;
    while i < items.len()
        invariant
            i <= items@.len(),
            views(r@) == days_of(items@.take(i as int)),
        decreases items.len() - i,
    {
        assert(items@.take(i + 1).drop_last() =~= items@.take(i as int));
        assert(items@.take(i + 1).last() == items@[i as int]);
        match day_of(&items[i].captured_at) {
            Some(d) => {
                let ghost before = views(r@);
                r.push(d);
                assert(views(r@) =~= before.push(r@[r@.len() - 1]@));
            },
            None => {},
        }
        i += 1;
    }
    assert(items@.take(items@.len() as int) =~= items@);
    r
}

fn month_day_exec(d: &[char]) -> (r: Vec<char>)
    ensures
        r@ == month_day(d@),
{
    match char_position(d, 5) {
        Some(k) => slice_chars(d, k, d.len()),
        None => slice_chars(d, 0, d.len()),
    }
}

fn lo_hi(ds: &Vec<Vec<char>>) -> (r: (usize, usize))
    requires
        ds@.len() > 0,
    ensures
        r.0 < ds@.len(),
        r.1 < ds@.len(),
        ds@[r.0 as int]@ == lex_min(views(ds@)),
        ds@[r.1 as int]@ == lex_max(views(ds@)),
{
    let ghost dv = views(ds@);
    let mut lo: usize = 0;
    let mut hi: usize = 0;
    let mut i: usize = 1;
    assert(dv.take(1) =~= seq![dv[0]]);
    while i < ds.len()
        invariant
            1 <= i <= ds@.len(),
            dv == views(ds@),
            lo < ds@.len(),
            hi < ds@.len(),
            dv[lo as int] == lex_min(dv.take(i as int)),
            dv[hi as int] == lex_max(dv.take(i as int)),
        decreases ds.len() - i,
    {
        assert(dv.take(i + 1).drop_last() =~= dv.take(i as int));
        assert(dv.take(i + 1).last() == ds@[i as int]@);
        if lex_less(&ds[i], &ds[lo]) {
            lo = i;
        }
        if !lex_less(&ds[i], &ds[hi]) {
            hi = i;
        }
        i += 1;
    }
    assert(dv.take(dv.len() as int) =~= dv);
    (lo, hi)
}

/// Whether the items' date range can be written (see `range_splittable`).
pub fn date_range_is_splittable(items: &Vec<ContentForAnalysis>) -> (b: bool)
    ensures
        b == range_splittable(items@),
{
    let ds = days_exec(items);
    if ds.len() == 0 {
        return true;
    }
    let (lo, hi) = lo_hi(&ds);
    if ds[lo].len() == 0 || ds[hi].len() == 0 || crate::text::eq_chars(&ds[lo], &ds[hi]) {
        return true;
    }
    char_position(&ds[lo], 5).is_some() && char_position(&ds[hi], 5).is_some()
}

/// The days the items span (see `short_date_range`).
pub fn format_short_date_range(items: &Vec<ContentForAnalysis>) -> (r: String)
    requires
        range_splittable(items@),
    ensures
        r@ == short_date_range(items@),
{
    let ds = days_exec(items);
    if ds.len() == 0 {
        return String::new();
    }
    let (lo, hi) = lo_hi(&ds);
    if ds[lo].len() == 0 || ds[hi].len() == 0 {
        return String::new();
    }
    if crate::text::eq_chars(&ds[lo], &ds[hi]) {
        return string_from_chars(&ds[lo]);
    }
    let a = month_day_exec(&ds[lo]);
    let a = append(a, "~");
    string_from_chars(&concat_chars(&a, &month_day_exec(&ds[hi])))
}


/// One day of the activity heat map.
pub struct HeatmapDay {
    pub date: String,
    pub count: u32,
    pub is_peak: bool,
}

/// Where a day goes in a list of days in order: before the first day that is not earlier.
pub open spec fn insert_position(list: Seq<(Seq<char>, nat)>, d: Seq<char>, k: int) -> int
    decreases list.len() - k,
{
    if k < 0 || k >= list.len() {
        list.len() as int
    } else if lex_lt(list[k].0, d) {
        insert_position(list, d, k + 1)
    } else {
        k
    }
}

/// A day counted into a list of days in order with their counts.
pub open spec fn count_day(list: Seq<(Seq<char>, nat)>, d: Seq<char>) -> Seq<(Seq<char>, nat)> {
    let k = insert_position(list, d, 0);
    if 0 <= k < list.len() && list[k].0 == d {
        list.update(k, (d, list[k].1 + 1))
    } else {
        list.insert(k, (d, 1))
    }
}

/// The days in order, each with how many items fall on it.
pub open spec fn day_counts(ds: Seq<Seq<char>>) -> Seq<(Seq<char>, nat)>
    decreases ds.len(),
{
    if ds.len() == 0 {
        Seq::empty()
    } else {
        count_day(day_counts(ds.drop_last()), ds.last())
    }
}

pub open spec fn peak_count(list: Seq<(Seq<char>, nat)>) -> nat
    decreases list.len(),
{
    if list.len() == 0 {
        0
    } else {
        let m = peak_count(list.drop_last());
        if list.last().1 > m {
            list.last().1
        } else {
            m
        }
    }
}

/// The heat map: each day with items, in order, as `MM-DD`, its count, and whether it has the
/// most items.
pub open spec fn heatmap(items: Seq<ContentForAnalysis>) -> Seq<(Seq<char>, nat, bool)> {
    let counts = day_counts(days_of(items));
    let peak = peak_count(counts);
    Seq::new(
        counts.len(),
        |i: int| (month_day(counts[i].0), counts[i].1, peak > 0 && counts[i].1 == peak),
    )
}

/// Every day's fifth byte ends a character (the map shows each day from there).
pub open spec fn days_splittable(items: Seq<ContentForAnalysis>) -> bool {
    forall|i: int|
        0 <= i < days_of(items).len() ==> char_at_byte(#[trigger] days_of(items)[i], 5, 0) is Some
}

pub open spec fn heat_views(v: Seq<HeatmapDay>) -> Seq<(Seq<char>, nat, bool)> {
    Seq::new(v.len(), |i: int| (v[i].date@, v[i].count as nat, v[i].is_peak))
}

pub open spec fn count_views(v: Seq<(Vec<char>, u32)>) -> Seq<(Seq<char>, nat)> {
    Seq::new(v.len(), |i: int| (v[i].0@, v[i].1 as nat))
}

proof fn lemma_count_day_bounds(list: Seq<(Seq<char>, nat)>, d: Seq<char>, n: nat)
    requires
        forall|i: int| 0 <= i < list.len() ==> #[trigger] list[i].1 <= n,
    ensures
        forall|i: int| 0 <= i < count_day(list, d).len() ==> #[trigger] count_day(list, d)[i].1 <= n + 1,
        count_day(list, d).len() <= list.len() + 1,
{
    lemma_insert_position_bound(list, d, 0);
    let k = insert_position(list, d, 0);
    if 0 <= k < list.len() && list[k].0 == d {
    } else {
        assert forall|i: int| 0 <= i < count_day(list, d).len() implies #[trigger] count_day(list, d)[i].1 <= n + 1 by {
            if i < k {
                assert(count_day(list, d)[i] == list[i]);
            } else if i > k {
                assert(count_day(list, d)[i] == list[i - 1]);
            }
        }
    }
}

proof fn lemma_insert_position_bound(list: Seq<(Seq<char>, nat)>, d: Seq<char>, k: int)
    requires
        0 <= k,
    ensures
        k <= list.len() ==> k <= insert_position(list, d, k) <= list.len(),
        k > list.len() ==> insert_position(list, d, k) == list.len(),
    decreases list.len() - k,
{
    if k < list.len() && lex_lt(list[k].0, d) {
        lemma_insert_position_bound(list, d, k + 1);
    }
}

proof fn lemma_day_counts_bounds(ds: Seq<Seq<char>>)
    ensures
        day_counts(ds).len() <= ds.len(),
        forall|i: int| 0 <= i < day_counts(ds).len() ==> #[trigger] day_counts(ds)[i].1 <= ds.len(),
    decreases ds.len(),
{
    if ds.len() > 0 {
        lemma_day_counts_bounds(ds.drop_last());
        let prev = day_counts(ds.drop_last());
        assert forall|i: int| 0 <= i < prev.len() implies #[trigger] prev[i].1 <= (ds.len() - 1) as nat by {}
        lemma_count_day_bounds(prev, ds.last(), (ds.len() - 1) as nat);
    }
}

/// The heat map of the items (see `heatmap`).
pub fn build_exact_heatmap(items: &Vec<ContentForAnalysis>) -> (r: Vec<HeatmapDay>)
    requires
        days_splittable(items@),
        items@.len() <= u32::MAX,
    ensures
        heat_views(r@) == heatmap(items@),
{
    let ds = days_exec(items);
    let ghost dv = views(ds@);
    proof {
        lemma_day_counts_bounds(dv);
        lemma_days_len(items@);
    }
    let mut counts: Vec<(Vec<char>, u32)> = Vec::new();
    let mut i: usize = 0;
    assert(dv.take(0) =~= Seq::<Seq<char>>::empty());
    while i < ds.len()
        invariant
            i <= ds@.len(),
            dv == views(ds@),
            ds@.len() <= u32::MAX,
            count_views(counts@) == day_counts(dv.take(i as int)),
        decreases ds.len() - i,
    {
        assert(dv.take(i + 1).drop_last() =~= dv.take(i as int));
        assert(dv.take(i + 1).last() == ds@[i as int]@);
        let ghost cv = count_views(counts@);
        let ghost d = ds@[i as int]@;
        proof {
            lemma_day_counts_bounds(dv.take(i as int));
        }
        let mut k: usize = 0;
        while k < counts.len() && lex_less(&counts[k].0, &ds[i])
            invariant
                k <= counts@.len(),
                i < ds@.len(),
                dv == views(ds@),
                cv == count_views(counts@),
                d == ds@[i as int]@,
                insert_position(cv, d, 0) == insert_position(cv, d, k as int),
            decreases counts.len() - k,
        {
            k += 1;
        }
        assert(insert_position(cv, d, k as int) == k);
        if k < counts.len() && crate::text::eq_chars(&counts[k].0, &ds[i]) {
            let c = counts[k].1;
            assert(cv[k as int].1 <= i);
            let key = slice_chars(&ds[i], 0, ds[i].len());
            assert(key@ == d);
            assert(c as nat == cv[k as int].1);
            let ghost before = counts@;
            counts.set(k, (key, c + 1));
            assert(counts@ == before.update(k as int, (key, (c + 1) as u32)));
            assert(count_views(counts@) =~= cv.update(k as int, (d, cv[k as int].1 + 1)));
        } else {
            let key = slice_chars(&ds[i], 0, ds[i].len());
            assert(key@ == d);
            let ghost before = counts@;
            counts.insert(k, (key, 1));
            assert(counts@ == before.insert(k as int, (key, 1u32)));
            assert(count_views(counts@) =~= cv.insert(k as int, (d, 1)));
        }
        i += 1;
    }
    assert(dv.take(dv.len() as int) =~= dv);
    let ghost cv = count_views(counts@);
    let mut peak: u32 = 0;
    let mut j: usize = 0;
    assert(cv.take(0) =~= Seq::<(Seq<char>, nat)>::empty());
    while j < counts.len()
        invariant
            j <= counts@.len(),
            cv == count_views(counts@),
            peak as nat == peak_count(cv.take(j as int)),
        decreases counts.len() - j,
    {
        assert(cv.take(j + 1).drop_last() =~= cv.take(j as int));
        assert(cv.take(j + 1).last() == cv[j as int]);
        if counts[j].1 > peak {
            peak = counts[j].1;
        }
        j += 1;
    }
    assert(cv.take(cv.len() as int) =~= cv);
    let mut r: Vec<HeatmapDay> = Vec::new();
    let mut j: usize = 0;
    while j < counts.len()
        invariant
            j <= counts@.len(),
            cv == count_views(counts@),
            peak as nat == peak_count(cv),
            cv == day_counts(dv),
            dv == days_of(items@),
            heat_views(r@) =~= heatmap(items@).take(j as int),
            heatmap(items@).len() == cv.len(),
        decreases counts.len() - j,
    {
        let date = month_day_exec(&counts[j].0);
        let count = counts[j].1;
        let ghost before = heat_views(r@);
        r.push(HeatmapDay { date: string_from_chars(&date), count, is_peak: peak > 0 && count == peak });
        assert(heat_views(r@) =~= before.push(heatmap(items@)[j as int]));
        assert(heatmap(items@).take(j + 1) =~= heatmap(items@).take(j as int).push(heatmap(items@)[j as int]));
        j += 1;
    }
    assert(heatmap(items@).take(cv.len() as int) =~= heatmap(items@));
    r
}

proof fn lemma_days_len(items: Seq<ContentForAnalysis>)
    ensures
        days_of(items).len() <= items.len(),
    decreases items.len(),
{
    if items.len() > 0 {
        lemma_days_len(items.drop_last());
    }
}


/// Whether every day can be shown without its year (see `days_splittable`).
pub fn days_are_splittable(items: &Vec<ContentForAnalysis>) -> (b: bool)
    ensures
        b == days_splittable(items@),
{
    let ds = days_exec(items);
    let ghost dv = views(ds@);
    let mut i: usize = 0;
    while i < ds.len()
        invariant
            i <= ds@.len(),
            dv == views(ds@),
            dv == days_of(items@),
            forall|j: int| 0 <= j < i ==> char_at_byte(#[trigger] dv[j], 5, 0) is Some,
        decreases ds.len() - i,
    {
        assert(dv[i as int] == ds@[i as int]@);
        if char_position(&ds[i], 5).is_none() {
            return false;
        }
        i += 1;
    }
    true
}

pub open spec fn strictly_ordered(list: Seq<(Seq<char>, nat)>) -> bool {
    forall|i: int, j: int| 0 <= i < j < list.len() ==> lex_lt(#[trigger] list[i].0, #[trigger] list[j].0)
}

proof fn lemma_insert_position(list: Seq<(Seq<char>, nat)>, d: Seq<char>, k: int)
    requires
        0 <= k <= list.len(),
    ensures
        k <= insert_position(list, d, k) <= list.len(),
        forall|m: int| k <= m < insert_position(list, d, k) ==> lex_lt(#[trigger] list[m].0, d),
        insert_position(list, d, k) < list.len() ==> !lex_lt(list[insert_position(list, d, k)].0, d),
    decreases list.len() - k,
{
    if k < list.len() && lex_lt(list[k].0, d) {
        lemma_insert_position(list, d, k + 1);
    }
}

proof fn lemma_count_day_ordered(list: Seq<(Seq<char>, nat)>, d: Seq<char>)
    requires
        strictly_ordered(list),
    ensures
        strictly_ordered(count_day(list, d)),
{
    lemma_insert_position(list, d, 0);
    let k = insert_position(list, d, 0);
    let r = count_day(list, d);
    if 0 <= k < list.len() && list[k].0 == d {
        assert forall|i: int, j: int| 0 <= i < j < r.len() implies lex_lt(#[trigger] r[i].0, #[trigger] r[j].0) by {
            assert(r[i].0 == list[i].0 && r[j].0 == list[j].0);
        }
    } else {
        if k < list.len() {
            crate::order::lemma_lex_total(list[k].0, d);
        }
        assert forall|i: int, j: int| 0 <= i < j < r.len() implies lex_lt(#[trigger] r[i].0, #[trigger] r[j].0) by {
            if j < k {
                assert(r[i] == list[i] && r[j] == list[j]);
            } else if j == k {
                assert(r[i] == list[i]);
                assert(r[j].0 == d);
            } else if i == k {
                assert(r[j] == list[j - 1]);
                if j - 1 > k {
                    crate::order::lemma_lex_transitive(d, list[k].0, list[j - 1].0);
                }
            } else if i < k {
                assert(r[i] == list[i] && r[j] == list[j - 1]);
            } else {
                assert(r[i] == list[i - 1] && r[j] == list[j - 1]);
            }
        }
    }
}

/// The heat map's days are in order, each day once.
pub proof fn law_heatmap_days_in_order(ds: Seq<Seq<char>>)
    ensures
        strictly_ordered(day_counts(ds)),
    decreases ds.len(),
{
    if ds.len() > 0 {
        law_heatmap_days_in_order(ds.drop_last());
        lemma_count_day_ordered(day_counts(ds.drop_last()), ds.last());
    }
}

// ─── Batch cache keys ──────────────────────────────────────────────────────

/// Version tag of the batch cache; a new tag makes every cached batch report stale.
pub const RADAR_BATCH_CACHE_SCHEMA: &'static str = "radar-batch-v1";

pub open spec fn bar(a: Seq<char>, b: Seq<char>) -> Seq<char> {
    a + "|"@ + b
}

/// The text an item's signature is the hash of: its id, capture time, source app, content
/// type, source URL, summary, tags, note and raw text, separated by `|` (a missing field as
/// empty text).
pub open spec fn item_payload(item: ContentForAnalysis) -> Seq<char> {
    let e = Seq::<char>::empty();
    bar(
        bar(
            bar(
                bar(
                    bar(
                        bar(
                            bar(bar(item.id@, item.captured_at@), item.source_app@),
                            item.content_type@,
                        ),
                        or_default(opt_string(item.source_url), e),
                    ),
                    or_default(opt_string(item.summary), e),
                ),
                or_default(opt_string(item.tags), e),
            ),
            or_default(opt_string(item.user_note), e),
        ),
        or_default(opt_string(item.raw_text), e),
    )
}

fn bar_exec(a: Vec<char>, b: &Vec<char>) -> (r: Vec<char>)
    ensures
        r@ == bar(a@, b@),
{
    let a1 = append(a, "|");
    concat_chars(&a1, b)
}

/// The text whose hash is an item's signature in the batch cache key.
pub fn analysis_item_payload(item: &ContentForAnalysis) -> (r: String)
    ensures
        r@ == item_payload(*item),
{
    let mut acc = chars_of(item.id.as_str());
    acc = bar_exec(acc, &chars_of(item.captured_at.as_str()));
    acc = bar_exec(acc, &chars_of(item.source_app.as_str()));
    acc = bar_exec(acc, &chars_of(item.content_type.as_str()));
    acc = bar_exec(acc, &crate::text::text_or_empty(&item.source_url));
    acc = bar_exec(acc, &crate::text::text_or_empty(&item.summary));
    acc = bar_exec(acc, &crate::text::text_or_empty(&item.tags));
    acc = bar_exec(acc, &crate::text::text_or_empty(&item.user_note));
    acc = bar_exec(acc, &crate::text::text_or_empty(&item.raw_text));
    string_from_chars(&acc)
}

/// Each signature followed by `|`.
pub open spec fn signature_run(sigs: Seq<Seq<char>>) -> Seq<char>
    decreases sigs.len(),
{
    if sigs.len() == 0 {
        Seq::empty()
    } else {
        signature_run(sigs.drop_last()) + sigs.last() + "|"@
    }
}

/// The text whose hash keys a batch's cached report: the cache version, provider, model,
/// locale and number of items, each followed by `|`, then each item's signature followed by
/// `|`.
pub open spec fn batch_payload(
    sigs: Seq<Seq<char>>,
    provider: Seq<char>,
    model: Seq<char>,
    locale: Seq<char>,
) -> Seq<char> {
    bar(
        bar(bar(bar(RADAR_BATCH_CACHE_SCHEMA@, provider), model), locale),
        crate::text::decimal(sigs.len()),
    ) + "|"@ + signature_run(sigs)
}

/// The text whose hash keys the cached report of a batch, from its items' signatures.
pub fn batch_key_payload(signatures: &Vec<String>, provider: &str, model: &str, locale: &str) -> (r:
    String)
    requires
        signatures.len() <= u64::MAX,
    ensures
        r@ == batch_payload(crate::wiki_engine::string_views(signatures@), provider@, model@, locale@),
{
    let mut acc = chars_of(RADAR_BATCH_CACHE_SCHEMA);
    acc = bar_exec(acc, &chars_of(provider));
    acc = bar_exec(acc, &chars_of(model));
    acc = bar_exec(acc, &chars_of(locale));
    let n = signatures.len();
    acc = bar_exec(acc, &crate::text::u64_decimal(n as u64));
    acc = append(acc, "|");
    let ghost head = acc@;
    let mut i: usize = 0;
    while i < n
        invariant
            n == signatures.len(),
            i <= n,
            acc@ == head + signature_run(crate::wiki_engine::string_views(signatures@).take(i as int)),
        decreases n - i,
    {
        proof {
            let t = crate::wiki_engine::string_views(signatures@).take(i as int + 1);
            assert(t.drop_last() == crate::wiki_engine::string_views(signatures@).take(i as int));
            assert(t.last() == signatures@[i as int]@);
        }
        acc = concat_chars(&acc, &chars_of(signatures[i].as_str()));
        acc = append(acc, "|");
        i = i + 1;
    }
    proof {
        assert(crate::wiki_engine::string_views(signatures@).take(n as int) == crate::wiki_engine::string_views(signatures@));
        assert(crate::wiki_engine::string_views(signatures@).len() == n);
    }
    string_from_chars(&acc)
}

// ─── Calling the model ─────────────────────────────────────────────────────

/// What to do next when calling the analysis model.
pub enum ModelCallStep {
    /// Try the OpenAI (Codex) login first.
    TryOpenAiLogin,
    /// Try the Google (Gemini) login first.
    TryGoogleLogin,
    /// Give up with this message.
    Fail { message: String },
    /// Call the provider's API with the key.
    CallWithKey,
}

pub open spec fn no_key_message() -> Seq<char> {
    "Please configure an API Key or log in via OAuth first"@
}

/// The first step for `provider`: OpenAI and Google try their login; other providers need a
/// key.
pub open spec fn first_step_is(provider: Seq<char>, key_empty: bool, r: ModelCallStep) -> bool {
    if provider == "openai"@ {
        r is TryOpenAiLogin
    } else if provider == "google"@ {
        r is TryGoogleLogin
    } else if key_empty {
        r matches ModelCallStep::Fail { message } && message@ == no_key_message()
    } else {
        r is CallWithKey
    }
}

pub fn first_model_call_step(provider: &str, api_key: &str) -> (r: ModelCallStep)
    ensures
        first_step_is(provider@, api_key@.len() == 0, r),
{
    let p = chars_of(provider);
    if eq_str(&p, "openai") {
        ModelCallStep::TryOpenAiLogin
    } else if eq_str(&p, "google") {
        ModelCallStep::TryGoogleLogin
    } else if chars_of(api_key).len() == 0 {
        ModelCallStep::Fail {
            message: "Please configure an API Key or log in via OAuth first".to_owned(),
        }
    } else {
        ModelCallStep::CallWithKey
    }
}

/// The step after a provider's login turned out to be unavailable: the key is used when there
/// is one; otherwise the login has lapsed.
pub open spec fn after_login_is(provider: Seq<char>, key_empty: bool, r: ModelCallStep) -> bool {
    if !key_empty {
        r is CallWithKey
    } else if provider == "openai"@ {
        r matches ModelCallStep::Fail { message } && message@
            == "OpenAI 登录已失效，请重新登录或填写 API Key"@
    } else if provider == "google"@ {
        r matches ModelCallStep::Fail { message } && message@
            == "Google 登录已失效，请重新登录或填写 API Key"@
    } else {
        r matches ModelCallStep::Fail { message } && message@ == no_key_message()
    }
}

pub fn model_step_without_login(provider: &str, api_key: &str) -> (r: ModelCallStep)
    ensures
        after_login_is(provider@, api_key@.len() == 0, r),
{
    if chars_of(api_key).len() > 0 {
        return ModelCallStep::CallWithKey;
    }
    let p = chars_of(provider);
    let message = if eq_str(&p, "openai") {
        "OpenAI 登录已失效，请重新登录或填写 API Key"
    } else if eq_str(&p, "google") {
        "Google 登录已失效，请重新登录或填写 API Key"
    } else {
        "Please configure an API Key or log in via OAuth first"
    };
    ModelCallStep::Fail { message: message.to_owned() }
}

/// The error returned when a provider's login call failed with `err`.
pub fn login_failure_message(provider: &str, err: &str) -> (r: String)
    ensures
        r@ == (if provider@ == "google"@ {
            "Google OAuth 分析失败："@
        } else {
            "OpenAI OAuth 分析失败："@
        }) + err@,
{
    let head = if eq_str(&chars_of(provider), "google") {
        "Google OAuth 分析失败："
    } else {
        "OpenAI OAuth 分析失败："
    };
    string_from_chars(&append(chars_of(head), err))
}

/// The first step of a wiki model call: OpenAI and Google try their login; other providers go
/// on as `wiki_model_step_without_login` says.
pub open spec fn wiki_first_step_is(provider: Seq<char>, key_empty: bool, r: ModelCallStep) -> bool {
    if provider == "openai"@ {
        r is TryOpenAiLogin
    } else if provider == "google"@ {
        r is TryGoogleLogin
    } else {
        wiki_after_login_is(key_empty, r)
    }
}

/// Without a login the wiki calls the provider's API with the key, and fails without one.
pub open spec fn wiki_after_login_is(key_empty: bool, r: ModelCallStep) -> bool {
    if key_empty {
        r matches ModelCallStep::Fail { message } && message@ == "AI API Key not configured"@
    } else {
        r is CallWithKey
    }
}

pub fn wiki_model_step_without_login(api_key: &str) -> (r: ModelCallStep)
    ensures
        wiki_after_login_is(api_key@.len() == 0, r),
{
    if chars_of(api_key).len() == 0 {
        ModelCallStep::Fail { message: "AI API Key not configured".to_owned() }
    } else {
        ModelCallStep::CallWithKey
    }
}

pub fn first_wiki_model_step(provider: &str, api_key: &str) -> (r: ModelCallStep)
    ensures
        wiki_first_step_is(provider@, api_key@.len() == 0, r),
{
    let p = chars_of(provider);
    if eq_str(&p, "openai") {
        ModelCallStep::TryOpenAiLogin
    } else if eq_str(&p, "google") {
        ModelCallStep::TryGoogleLogin
    } else {
        wiki_model_step_without_login(api_key)
    }
}

// ─── Analysis window ───────────────────────────────────────────────────────

/// What chrono reads of an RFC 3339 time: the instant as whole seconds since the Unix epoch
/// and nanoseconds; `None` when it does not parse.
pub uninterp spec fn rfc3339_instant(text: Seq<char>) -> Option<(int, int)>;

/// `chrono::DateTime::parse_from_rfc3339(text)` as an instant. Trusted: the result is a
/// function of the text.
#[verifier::external_body]
fn parse_rfc3339_instant(text: &str) -> (r: Option<(i64, u32)>)
    ensures
        match r {
            Some((secs, nanos)) => rfc3339_instant(text@) == Some((secs as int, nanos as int)),
            None => rfc3339_instant(text@) is None,
        },
{
    let t = chrono::DateTime::parse_from_rfc3339(text).ok()?;
    Some((t.timestamp(), t.timestamp_subsec_nanos()))
}

/// What chrono writes for an instant in UTC with `to_rfc3339`; `None` when chrono cannot
/// represent it.
pub uninterp spec fn utc_rfc3339(secs: int, nanos: int) -> Option<Seq<char>>;

/// `chrono::DateTime::from_timestamp(secs, nanos)` written with `to_rfc3339`. Trusted: the
/// result is a function of the instant.
#[verifier::external_body]
fn format_utc_rfc3339(secs: i64, nanos: u32) -> (r: Option<String>)
    ensures
        opt_string(r) == utc_rfc3339(secs as int, nanos as int),
{
    chrono::DateTime::from_timestamp(secs, nanos).map(|t| t.to_rfc3339())
}

/// Whether instant `a` is earlier than `b`.
pub open spec fn instant_before(a: (int, int), b: (int, int)) -> bool {
    a.0 < b.0 || (a.0 == b.0 && a.1 < b.1)
}

/// The earliest of the instants that are there.
pub open spec fn earliest(instants: Seq<Option<(int, int)>>) -> Option<(int, int)>
    decreases instants.len(),
{
    if instants.len() == 0 {
        None
    } else {
        let rest = earliest(instants.drop_last());
        match instants.last() {
            None => rest,
            Some(x) => match rest {
                None => Some(x),
                Some(y) => if instant_before(x, y) {
                    Some(x)
                } else {
                    Some(y)
                },
            },
        }
    }
}

pub open spec fn instant_views(v: Seq<Option<(i64, u32)>>) -> Seq<Option<(int, int)>> {
    Seq::new(
        v.len(),
        |i: int|
            match v[i] {
                Some((s, n)) => Some((s as int, n as int)),
                None => None,
            },
    )
}

/// The earliest of the instants that are there.
pub fn earliest_of(instants: &Vec<Option<(i64, u32)>>) -> (r: Option<(i64, u32)>)
    ensures
        match r {
            Some((s, n)) => earliest(instant_views(instants@)) == Some((s as int, n as int)),
            None => earliest(instant_views(instants@)) is None,
        },
{
    let ghost iv = instant_views(instants@);
    let mut best: Option<(i64, u32)> = None;
    let mut i: usize = 0;
    while i < instants.len()
        invariant
            i <= instants.len(),
            iv == instant_views(instants@),
            match best {
                Some((s, n)) => earliest(iv.take(i as int)) == Some((s as int, n as int)),
                None => earliest(iv.take(i as int)) is None,
            },
        decreases instants.len() - i,
    {
        proof {
            assert(iv.take(i as int + 1).drop_last() == iv.take(i as int));
            assert(iv.take(i as int + 1).last() == iv[i as int]);
        }
        match instants[i] {
            None => {},
            Some((s, n)) => {
                best = match best {
                    None => Some((s, n)),
                    Some((bs, bn)) => if s < bs || (s == bs && n < bn) {
                        Some((s, n))
                    } else {
                        Some((bs, bn))
                    },
                };
            },
        }
        i = i + 1;
    }
    proof {
        assert(iv.take(instants.len() as int) == iv);
    }
    best
}

/// The earliest capture time among the items, as chrono reads and writes it in UTC: the start
/// of a run that looks back over all days.
pub open spec fn earliest_capture(items: Seq<ContentForAnalysis>) -> Option<Seq<char>> {
    match earliest(Seq::new(items.len(), |i: int| rfc3339_instant(items[i].captured_at@))) {
        Some((s, n)) => utc_rfc3339(s, n),
        None => None,
    }
}

pub fn earliest_capture_time(items: &Vec<ContentForAnalysis>) -> (r: Option<String>)
    ensures
        opt_string(r) == earliest_capture(items@),
{
    let ghost want = Seq::new(items@.len(), |i: int| rfc3339_instant(items@[i].captured_at@));
    let mut instants: Vec<Option<(i64, u32)>> = Vec::new();
    let mut i: usize = 0;
    while i < items.len()
        invariant
            i <= items.len(),
            want == Seq::new(items@.len(), |i: int| rfc3339_instant(items@[i].captured_at@)),
            instant_views(instants@) == want.take(i as int),
        decreases items.len() - i,
    {
        let x = parse_rfc3339_instant(items[i].captured_at.as_str());
        let ghost before = instants@;
        instants.push(x);
        proof {
            assert(instant_views(instants@) == instant_views(before).push(instant_views(instants@)[i as int]));
            assert(want.take(i as int + 1) == want.take(i as int).push(want[i as int]));
        }
        i = i + 1;
    }
    proof {
        assert(want.take(items.len() as int) == want);
    }
    match earliest_of(&instants) {
        Some((s, n)) => format_utc_rfc3339(s, n),
        None => None,
    }
}

} // verus!
