//! What the capture watchers report, how a repeated capture is recognised, and where an
//! admitted capture goes next. The watchers, windows and storage live around the library;
//! each decision they act on is made here.

use vstd::prelude::*;
use crate::models::{CaptureEvent, CapturedContent};
use crate::text::{
    append, chars_of, concat_chars, decimal, eq_ignore_ascii_case, eq_ignore_ascii_case_chars,
    eq_str, opt_string, or_default, string_from_chars, take_chars, take_prefix, text_or,
    u64_decimal,
};
use crate::wiki_engine::string_views;

verus! {

broadcast use vstd::seq::group_seq_axioms;

/// Two captures that share a key within this many milliseconds are one capture.
pub const DEDUP_WINDOW_MS: u64 = 3000;

/// A key last seen this many milliseconds ago or earlier is forgotten.
pub const DEDUP_RETENTION_MS: u64 = 15000;

/// A text capture's key keeps this many characters of the text.
pub const TEXT_KEY_CHARS: usize = 64;

/// One capture as a watcher reports it; a field is absent when the report lacks it.
pub struct DetectedCapture {
    pub content_type: Option<String>,
    pub preview: Option<String>,
    pub source_app: Option<String>,
    pub raw_text: Option<String>,
    pub image_path: Option<String>,
    pub image_width: Option<u64>,
    pub image_height: Option<u64>,
    pub from_clipboard: Option<bool>,
}

// ─── Deduplication keys ────────────────────────────────────────────────────

/// The reported content type, `unknown` when there is none.
pub open spec fn capture_kind(e: DetectedCapture) -> Seq<char> {
    or_default(opt_string(e.content_type), "unknown"@)
}

pub open spec fn dimension(d: Option<u64>) -> nat {
    match d {
        Some(v) => v as nat,
        None => 0,
    }
}

/// An image is known by its path and by its size, so that the clipboard copy and the
/// screenshot file of one capture share a key; with neither, by a generic key.
pub open spec fn image_keys(e: DetectedCapture) -> Seq<Seq<char>> {
    let path_keys = match opt_string(e.image_path) {
        Some(p) => if p.len() > 0 {
            seq!["img:path:"@ + p]
        } else {
            Seq::empty()
        },
        None => Seq::empty(),
    };
    let w = dimension(e.image_width);
    let h = dimension(e.image_height);
    let dim_keys = if w > 0 && h > 0 {
        seq!["img:dims:"@ + decimal(w) + "x"@ + decimal(h)]
    } else {
        Seq::empty()
    };
    let keys = path_keys + dim_keys;
    if keys.len() == 0 {
        seq!["img:unknown"@]
    } else {
        keys
    }
}

/// The keys of a capture: a capture is a repeat when any of its keys was seen recently.
pub open spec fn dedup_keys(e: DetectedCapture) -> Seq<Seq<char>> {
    let kind = capture_kind(e);
    if kind == "image"@ {
        image_keys(e)
    } else if kind == "text"@ {
        match opt_string(e.raw_text) {
            Some(t) => seq!["text:"@ + take_chars(t, TEXT_KEY_CHARS as int)],
            None => seq!["text:empty"@],
        }
    } else {
        seq!["other:"@ + kind]
    }
}

/// What one call of `DeduplicationState::should_emit` leaves: the old keys dropped, and the
/// capture's keys marked at `now` when it goes on.
pub open spec fn dedup_step(m: Map<Seq<char>, u64>, keys: Seq<Seq<char>>, now: u64) -> Map<
    Seq<char>,
    u64,
> {
    if seen_recently(m, keys, now) {
        pruned(m, now)
    } else {
        with_keys_at(pruned(m, now), keys, now)
    }
}

/// What a run of `DeduplicationState::should_emit` calls leaves, each call given by its keys
/// and its time.
pub open spec fn after_calls(m: Map<Seq<char>, u64>, calls: Seq<(Seq<Seq<char>>, u64)>) -> Map<
    Seq<char>,
    u64,
>
    decreases calls.len(),
{
    if calls.len() == 0 {
        m
    } else {
        dedup_step(after_calls(m, calls.drop_last()), calls.last().0, calls.last().1)
    }
}

fn image_dedup_keys(event: &DetectedCapture) -> (keys: Vec<String>)
    ensures
        string_views(keys@) == image_keys(*event),
{
    let mut keys: Vec<String> = Vec::new();
    let ghost mut path_keys: Seq<Seq<char>> = Seq::empty();
    match &event.image_path {
        Some(p) => {
            let pc = chars_of(p.as_str());
            if pc.len() > 0 {
                let k = append(chars_of("img:path:"), p.as_str());
                keys.push(string_from_chars(&k));
                proof {
                    path_keys = seq!["img:path:"@ + p@];
                }
            }
        },
        None => {},
    }
    assert(string_views(keys@) =~= path_keys);
    let w: u64 = match event.image_width {
        Some(v) => v,
        None => 0,
    };
    let h: u64 = match event.image_height {
        Some(v) => v,
        None => 0,
    };
    if w > 0 && h > 0 {
        let a = concat_chars(&chars_of("img:dims:"), &u64_decimal(w));
        let b = append(a, "x");
        let c = concat_chars(&b, &u64_decimal(h));
        keys.push(string_from_chars(&c));
        proof {
            assert(string_views(keys@) =~= path_keys + seq![
                "img:dims:"@ + decimal(w as nat) + "x"@ + decimal(h as nat),
            ]);
        }
    } else {
        assert(string_views(keys@) =~= path_keys + Seq::<Seq<char>>::empty());
    }
    if keys.len() == 0 {
        keys.push(string_from_chars(&chars_of("img:unknown")));
        assert(string_views(keys@) =~= seq!["img:unknown"@]);
    }
    keys
}

/// The deduplication keys of a capture (see `dedup_keys`).
pub fn compute_dedup_keys(event: &DetectedCapture) -> (keys: Vec<String>)
    ensures
        string_views(keys@) == dedup_keys(*event),
{
    let kind = text_or(&event.content_type, "unknown");
    if eq_str(&kind, "image") {
        image_dedup_keys(event)
    } else if eq_str(&kind, "text") {
        let mut keys: Vec<String> = Vec::new();
        match &event.raw_text {
            Some(t) => {
                let head = take_prefix(&chars_of(t.as_str()), TEXT_KEY_CHARS);
                let k = concat_chars(&chars_of("text:"), &head);
                keys.push(string_from_chars(&k));
            },
            None => {
                keys.push(string_from_chars(&chars_of("text:empty")));
            },
        }
        assert(string_views(keys@) =~= dedup_keys(*event));
        keys
    } else {
        let mut keys: Vec<String> = Vec::new();
        let k = concat_chars(&chars_of("other:"), &kind);
        keys.push(string_from_chars(&k));
        assert(string_views(keys@) =~= dedup_keys(*event));
        keys
    }
}

// ─── Confirmation bubble ───────────────────────────────────────────────────

/// The app's own bubble names itself `xiaoyun`, in any letter case.
pub fn is_xiaoyun_source_app(source_app: &str) -> (b: bool)
    ensures
        b == eq_ignore_ascii_case(source_app@, "xiaoyun"@),
{
    eq_ignore_ascii_case_chars(&chars_of(source_app), &chars_of("xiaoyun"))
}

/// Whether a capture asks the user first: everything but text does; text does when it did not
/// come from the clipboard, or when the app itself put it there.
pub open spec fn shows_confirmation_bubble(e: DetectedCapture) -> bool {
    capture_kind(e) != "text"@ || !(e.from_clipboard == Some(true)) || eq_ignore_ascii_case(
        or_default(opt_string(e.source_app), Seq::empty()),
        "xiaoyun"@,
    )
}

pub fn should_show_confirmation_bubble(event: &DetectedCapture) -> (b: bool)
    ensures
        b == shows_confirmation_bubble(*event),
{
    let kind = text_or(&event.content_type, "unknown");
    if !eq_str(&kind, "text") {
        return true;
    }
    let from_clipboard = match event.from_clipboard {
        Some(v) => v,
        None => false,
    };
    let source_app = text_or(&event.source_app, "");
    proof {
        reveal_strlit("");
        assert(""@ =~= Seq::<char>::empty());
    }
    !from_clipboard || eq_ignore_ascii_case_chars(&source_app, &chars_of("xiaoyun"))
}


// ─── Deduplication state ───────────────────────────────────────────────────

/// Milliseconds from `then` to `now`, zero when `then` is later.
pub open spec fn elapsed_ms(now: u64, then: u64) -> int {
    if now >= then {
        now - then
    } else {
        0
    }
}

/// The keys seen less than the retention period ago.
pub open spec fn pruned(m: Map<Seq<char>, u64>, now: u64) -> Map<Seq<char>, u64> {
    Map::new(
        |k: Seq<char>| m.contains_key(k) && elapsed_ms(now, m[k]) < DEDUP_RETENTION_MS,
        |k: Seq<char>| m[k],
    )
}

/// Some key of the capture was seen less than the deduplication window ago.
pub open spec fn seen_recently(m: Map<Seq<char>, u64>, keys: Seq<Seq<char>>, now: u64) -> bool {
    exists|j: int|
        0 <= j < keys.len() && #[trigger] m.contains_key(keys[j]) && elapsed_ms(now, m[keys[j]])
            < DEDUP_WINDOW_MS
}

/// Every key of the capture marked as seen at `now`.
pub open spec fn with_keys_at(m: Map<Seq<char>, u64>, keys: Seq<Seq<char>>, now: u64) -> Map<
    Seq<char>,
    u64,
> {
    Map::new(
        |k: Seq<char>| m.contains_key(k) || keys.contains(k),
        |k: Seq<char>|
            if keys.contains(k) {
                now
            } else {
                m[k]
            },
    )
}

pub open spec fn keys_distinct(s: Seq<(String, u64)>) -> bool {
    forall|i: int, j: int| 0 <= i < j < s.len() ==> s[i].0@ != s[j].0@
}

pub open spec fn has_key(s: Seq<(String, u64)>, k: Seq<char>) -> bool {
    exists|i: int| 0 <= i < s.len() && #[trigger] s[i].0@ == k
}

/// The entries read as a map from key to the time it was last seen.
pub open spec fn entries_view(s: Seq<(String, u64)>) -> Map<Seq<char>, u64> {
    Map::new(
        |k: Seq<char>| has_key(s, k),
        |k: Seq<char>| s[choose|i: int| 0 <= i < s.len() && #[trigger] s[i].0@ == k].1,
    )
}

proof fn lemma_entry_at(s: Seq<(String, u64)>, i: int)
    requires
        keys_distinct(s),
        0 <= i < s.len(),
    ensures
        entries_view(s).contains_key(s[i].0@),
        entries_view(s)[s[i].0@] == s[i].1,
{
    let k = s[i].0@;
    assert(has_key(s, k));
    let c = choose|c: int| 0 <= c < s.len() && #[trigger] s[c].0@ == k;
    assert(0 <= c < s.len() && s[c].0@ == k);
    if c != i {
        if c < i {
            assert(s[c].0@ != s[i].0@);
        } else {
            assert(s[i].0@ != s[c].0@);
        }
    }
}

proof fn lemma_entries_push(s: Seq<(String, u64)>, e: (String, u64))
    requires
        keys_distinct(s),
        !has_key(s, e.0@),
    ensures
        keys_distinct(s.push(e)),
        entries_view(s.push(e)) =~= entries_view(s).insert(e.0@, e.1),
{
    let t = s.push(e);
    assert forall|i: int, j: int| 0 <= i < j < t.len() implies t[i].0@ != t[j].0@ by {
        if j == s.len() {
            if t[i].0@ == e.0@ {
                assert(s[i].0@ == e.0@);
            }
        } else {
            assert(t[i] == s[i] && t[j] == s[j]);
        }
    }
    assert forall|k: Seq<char>| #[trigger] has_key(t, k) == (has_key(s, k) || k == e.0@) by {
        if has_key(s, k) {
            let i = choose|i: int| 0 <= i < s.len() && #[trigger] s[i].0@ == k;
            assert(t[i] == s[i]);
        }
        if k == e.0@ {
            assert(t[s.len() as int] == e);
        }
        if has_key(t, k) {
            let i = choose|i: int| 0 <= i < t.len() && #[trigger] t[i].0@ == k;
            if i < s.len() {
                assert(t[i] == s[i]);
            }
        }
    }
    assert forall|k: Seq<char>| #[trigger]
        entries_view(t).contains_key(k) implies entries_view(t)[k] == entries_view(s).insert(
        e.0@,
        e.1,
    )[k] by {
        let i = choose|i: int| 0 <= i < t.len() && #[trigger] t[i].0@ == k;
        lemma_entry_at(t, i);
        if i < s.len() {
            assert(t[i] == s[i]);
            lemma_entry_at(s, i);
        } else {
            assert(t[i] == e);
        }
    }
}

proof fn lemma_entries_update(s: Seq<(String, u64)>, i: int, e: (String, u64))
    requires
        keys_distinct(s),
        0 <= i < s.len(),
        s[i].0@ == e.0@,
    ensures
        keys_distinct(s.update(i, e)),
        entries_view(s.update(i, e)) =~= entries_view(s).insert(e.0@, e.1),
{
    let t = s.update(i, e);
    assert forall|a: int, b: int| 0 <= a < b < t.len() implies t[a].0@ != t[b].0@ by {
        assert(t[a].0@ == s[a].0@ && t[b].0@ == s[b].0@);
    }
    assert forall|k: Seq<char>| #[trigger] has_key(t, k) == has_key(s, k) by {
        if has_key(s, k) {
            let j = choose|j: int| 0 <= j < s.len() && #[trigger] s[j].0@ == k;
            assert(t[j].0@ == s[j].0@);
        }
        if has_key(t, k) {
            let j = choose|j: int| 0 <= j < t.len() && #[trigger] t[j].0@ == k;
            assert(t[j].0@ == s[j].0@);
        }
    }
    lemma_entry_at(s, i);
    assert forall|k: Seq<char>| #[trigger]
        entries_view(t).contains_key(k) implies entries_view(t)[k] == entries_view(s).insert(
        e.0@,
        e.1,
    )[k] by {
        let j = choose|j: int| 0 <= j < t.len() && #[trigger] t[j].0@ == k;
        lemma_entry_at(t, j);
        if j != i {
            assert(t[j] == s[j]);
            lemma_entry_at(s, j);
        }
    }
}

/// The keys seen recently and when each was last seen.
pub struct DeduplicationState {
    recent_events: Vec<(String, u64)>,
}

impl View for DeduplicationState {
    type V = Map<Seq<char>, u64>;

    closed spec fn view(&self) -> Map<Seq<char>, u64> {
        entries_view(self.recent_events@)
    }
}

fn find_entry(entries: &Vec<(String, u64)>, key: &String) -> (r: Option<usize>)
    ensures
        r matches Some(i) ==> i < entries@.len() && entries@[i as int].0@ == key@,
        r is None ==> !has_key(entries@, key@),
{
    let mut i: usize = 0;
    while i < entries.len()
        invariant
            i <= entries@.len(),
            forall|j: int| 0 <= j < i ==> #[trigger] entries@[j].0@ != key@,
        decreases entries.len() - i,
    {
        if entries[i].0 == *key {
            return Some(i);
        }
        i += 1;
    }
    None
}

impl DeduplicationState {
    /// Each key is held once.
    pub closed spec fn wf(&self) -> bool {
        keys_distinct(self.recent_events@)
    }

    pub fn new() -> (s: Self)
        ensures
            s.wf(),
            s@ == Map::<Seq<char>, u64>::empty(),
    {
        let s = DeduplicationState { recent_events: Vec::new() };
        assert(s@ =~= Map::<Seq<char>, u64>::empty());
        s
    }

    fn forget_old(&mut self, now_ms: u64)
        requires
            old(self).wf(),
        ensures
            final(self).wf(),
            final(self)@ == pruned(old(self)@, now_ms),
            forall|i: int|
                0 <= i < final(self).recent_events@.len() ==> elapsed_ms(
                    now_ms,
                    #[trigger] final(self).recent_events@[i].1,
                ) < DEDUP_RETENTION_MS,
    {
        let ghost s = self.recent_events@;
        let mut kept: Vec<(String, u64)> = Vec::new();
        let mut i: usize = 0;
        while i < self.recent_events.len()
            invariant
                s == self.recent_events@,
                keys_distinct(s),
                i <= s.len(),
                keys_distinct(kept@),
                forall|k: Seq<char>| #[trigger]
                    has_key(kept@, k) ==> has_key(s.take(i as int), k),
                entries_view(kept@) == pruned(entries_view(s.take(i as int)), now_ms),
                forall|j: int|
                    0 <= j < kept@.len() ==> elapsed_ms(now_ms, #[trigger] kept@[j].1)
                        < DEDUP_RETENTION_MS,
            decreases s.len() - i,
        {
            let t = self.recent_events[i].1;
            let ghost prefix = s.take(i as int);
            let ghost next = s.take(i + 1);
            assert(next =~= prefix.push(s[i as int]));
            assert(keys_distinct(prefix));
            assert(!has_key(prefix, s[i as int].0@)) by {
                if has_key(prefix, s[i as int].0@) {
                    let j = choose|j: int| 0 <= j < prefix.len() && #[trigger] prefix[j].0@ == s[
                        i as int].0@;
                    assert(prefix[j] == s[j]);
                }
            }
            proof {
                lemma_entries_push(prefix, s[i as int]);
            }
            let keep = if now_ms >= t {
                now_ms - t < DEDUP_RETENTION_MS
            } else {
                true
            };
            if keep {
                let key = self.recent_events[i].0.clone();
                let ghost before = kept@;
                kept.push((key, t));
                proof {
                    assert(!has_key(before, s[i as int].0@));
                    lemma_entries_push(before, (key, t));
                    assert(kept@ == before.push((key, t)));
                    assert forall|k: Seq<char>| #[trigger] has_key(kept@, k) implies has_key(
                        next,
                        k,
                    ) by {
                        let j = choose|j: int| 0 <= j < kept@.len() && #[trigger] kept@[j].0@ == k;
                        if j < before.len() {
                            assert(kept@[j] == before[j]);
                            assert(has_key(before, k));
                            assert(has_key(prefix, k));
                            let q = choose|q: int| 0 <= q < prefix.len() && #[trigger] prefix[q].0@
                                == k;
                            assert(next[q] == prefix[q]);
                        } else {
                            assert(next[i as int] == s[i as int]);
                        }
                    }
                    assert(entries_view(kept@) =~= pruned(entries_view(next), now_ms));
                }
            } else {
                proof {
                    assert forall|k: Seq<char>| #[trigger] has_key(kept@, k) implies has_key(
                        next,
                        k,
                    ) by {
                        let q = choose|q: int| 0 <= q < prefix.len() && #[trigger] prefix[q].0@
                            == k;
                        assert(next[q] == prefix[q]);
                    }
                    assert(entries_view(kept@) =~= pruned(entries_view(next), now_ms));
                }
            }
            i += 1;
        }
        assert(s.take(s.len() as int) =~= s);
        self.recent_events = kept;
    }
}


proof fn lemma_take_push_contains(ks: Seq<Seq<char>>, j: int)
    requires
        0 <= j < ks.len(),
    ensures
        forall|k: Seq<char>| #[trigger]
            ks.take(j + 1).contains(k) == (ks.take(j).contains(k) || k == ks[j]),
{
    assert forall|k: Seq<char>| #[trigger]
        ks.take(j + 1).contains(k) == (ks.take(j).contains(k) || k == ks[j]) by {
        if ks.take(j + 1).contains(k) {
            let q = choose|q: int| 0 <= q < ks.take(j + 1).len() && #[trigger] ks.take(j + 1)[q] == k;
            if q < j {
                assert(ks.take(j)[q] == k);
            }
        }
        if ks.take(j).contains(k) {
            let q = choose|q: int| 0 <= q < ks.take(j).len() && #[trigger] ks.take(j)[q] == k;
            assert(ks.take(j + 1)[q] == k);
        }
        if k == ks[j] {
            assert(ks.take(j + 1)[j] == k);
        }
    }
}

impl DeduplicationState {
    /// Whether a capture with these keys goes on. Keys seen longer ago than the retention
    /// period are dropped first. The capture is suppressed when one of its keys was seen less
    /// than the deduplication window ago; otherwise it goes on and each of its keys is marked
    /// as seen now.
    pub fn should_emit(&mut self, keys: &Vec<String>, now_ms: u64) -> (emit: bool)
        requires
            old(self).wf(),
        ensures
            final(self).wf(),
            emit == !seen_recently(old(self)@, string_views(keys@), now_ms),
            emit ==> final(self)@ == with_keys_at(
                pruned(old(self)@, now_ms),
                string_views(keys@),
                now_ms,
            ),
            !emit ==> final(self)@ == pruned(old(self)@, now_ms),
            final(self)@ == dedup_step(old(self)@, string_views(keys@), now_ms),
    {
        let ghost m0 = self@;
        let ghost ks = string_views(keys@);
        self.forget_old(now_ms);
        let mut j: usize = 0;
        while j < keys.len()
            invariant
                self.wf(),
                m0 == old(self)@,
                self@ == pruned(m0, now_ms),
                ks == string_views(keys@),
                j <= keys@.len(),
                forall|q: int|
                    0 <= q < j ==> !(#[trigger] m0.contains_key(ks[q]) && elapsed_ms(
                        now_ms,
                        m0[ks[q]],
                    ) < DEDUP_WINDOW_MS),
            decreases keys.len() - j,
        {
            match find_entry(&self.recent_events, &keys[j]) {
                Some(idx) => {
                    let t = self.recent_events[idx].1;
                    proof {
                        lemma_entry_at(self.recent_events@, idx as int);
                        assert(ks[j as int] == keys@[j as int]@);
                    }
                    let recent = if now_ms >= t {
                        now_ms - t < DEDUP_WINDOW_MS
                    } else {
                        true
                    };
                    if recent {
                        assert(m0.contains_key(ks[j as int]));
                        assert(seen_recently(m0, ks, now_ms));
                        return false;
                    }
                },
                None => {
                    assert(!self@.contains_key(ks[j as int]));
                },
            }
            j += 1;
        }
        assert(!seen_recently(m0, ks, now_ms));
        let ghost base = self@;
        let mut j: usize = 0;
        while j < keys.len()
            invariant
                self.wf(),
                ks == string_views(keys@),
                j <= keys@.len(),
                self@ == with_keys_at(base, ks.take(j as int), now_ms),
            decreases keys.len() - j,
        {
            let key = keys[j].clone();
            let ghost before = self.recent_events@;
            proof {
                lemma_take_push_contains(ks, j as int);
                assert(key@ == ks[j as int]);
            }
            match find_entry(&self.recent_events, &key) {
                Some(idx) => {
                    self.recent_events.set(idx, (key, now_ms));
                    proof {
                        lemma_entries_update(before, idx as int, (key, now_ms));
                    }
                },
                None => {
                    self.recent_events.push((key, now_ms));
                    proof {
                        lemma_entries_push(before, (key, now_ms));
                    }
                },
            }
            assert(self@ =~= with_keys_at(base, ks.take(j + 1), now_ms));
            j += 1;
        }
        assert(ks.take(ks.len() as int) =~= ks);
        true
    }
}


// ─── Laws ──────────────────────────────────────────────────────────────────

/// A capture that shares a key with one let through less than the deduplication window
/// earlier is suppressed, whatever else was seen.
pub proof fn law_repeat_within_window_is_suppressed(
    m: Map<Seq<char>, u64>,
    first: Seq<Seq<char>>,
    t1: u64,
    second: Seq<Seq<char>>,
    t2: u64,
    k: Seq<char>,
)
    requires
        first.contains(k),
        second.contains(k),
        t1 <= t2,
        t2 - t1 < DEDUP_WINDOW_MS,
    ensures
        seen_recently(with_keys_at(pruned(m, t1), first, t1), second, t2),
{
    let after = with_keys_at(pruned(m, t1), first, t1);
    let j = choose|j: int| 0 <= j < second.len() && second[j] == k;
    assert(after.contains_key(second[j]));
    assert(after[second[j]] == t1);
}

/// A key marked at `t0` stays marked, at a time between `t0` and `t1`, through calls made
/// between those times, when they are less than the deduplication window apart.
proof fn lemma_key_stays_recent(
    m: Map<Seq<char>, u64>,
    calls: Seq<(Seq<Seq<char>>, u64)>,
    k: Seq<char>,
    t0: u64,
    t1: u64,
)
    requires
        m.contains_key(k),
        t0 <= m[k] <= t1,
        t1 - t0 < DEDUP_WINDOW_MS,
        forall|i: int| 0 <= i < calls.len() ==> t0 <= #[trigger] calls[i].1 <= t1,
    ensures
        after_calls(m, calls).contains_key(k),
        t0 <= after_calls(m, calls)[k] <= t1,
    decreases calls.len(),
{
    if calls.len() > 0 {
        let front = calls.drop_last();
        assert forall|i: int| 0 <= i < front.len() implies t0 <= #[trigger] front[i].1 <= t1 by {
            assert(front[i] == calls[i]);
        }
        lemma_key_stays_recent(m, front, k, t0, t1);
        let before = after_calls(m, front);
        let t = calls.last().1;
        assert(calls.last() == calls[calls.len() - 1]);
        assert(pruned(before, t).contains_key(k));
    }
}

/// Across any run of `DeduplicationState::should_emit` calls: a capture that shares a key
/// with one let through at `t0` is suppressed at `t1`, less than the deduplication window
/// later, whatever calls came in between (made between the two times, as a monotonic clock
/// gives them), whether they were let through or not. `should_emit` leaves `dedup_step` of
/// its state, so `after_calls` is what the calls in between leave; a call that is let
/// through only marks its keys anew, and a suppressed one marks nothing.
pub proof fn law_repeat_within_window_is_suppressed_across_calls(
    m: Map<Seq<char>, u64>,
    first: Seq<Seq<char>>,
    t0: u64,
    between: Seq<(Seq<Seq<char>>, u64)>,
    second: Seq<Seq<char>>,
    t1: u64,
    k: Seq<char>,
)
    requires
        !seen_recently(m, first, t0),
        first.contains(k),
        second.contains(k),
        t0 <= t1,
        t1 - t0 < DEDUP_WINDOW_MS,
        forall|i: int| 0 <= i < between.len() ==> t0 <= #[trigger] between[i].1 <= t1,
    ensures
        seen_recently(after_calls(dedup_step(m, first, t0), between), second, t1),
{
    let start = dedup_step(m, first, t0);
    assert(start.contains_key(k));
    lemma_key_stays_recent(start, between, k, t0, t1);
    let last = after_calls(start, between);
    let j = choose|j: int| 0 <= j < second.len() && second[j] == k;
    assert(last.contains_key(second[j]));
}

/// Once the deduplication window has passed, the same capture goes on again: when nothing
/// was seen after the first capture, no key of the second was seen less than the window ago.
pub proof fn law_repeat_after_window_goes_on(
    m: Map<Seq<char>, u64>,
    first: Seq<Seq<char>>,
    t1: u64,
    second: Seq<Seq<char>>,
    t2: u64,
)
    requires
        forall|k: Seq<char>| #[trigger] m.contains_key(k) ==> m[k] <= t1,
        t1 + DEDUP_WINDOW_MS <= t2,
    ensures
        !seen_recently(with_keys_at(pruned(m, t1), first, t1), second, t2),
{
    let after = with_keys_at(pruned(m, t1), first, t1);
    assert forall|j: int| 0 <= j < second.len() && #[trigger] after.contains_key(second[j]) implies elapsed_ms(
        t2,
        after[second[j]],
    ) >= DEDUP_WINDOW_MS by {
        if !first.contains(second[j]) {
            assert(m.contains_key(second[j]));
        }
    }
}

/// Two text captures whose texts begin with the same 64 characters share their key, so the
/// second, reported within the deduplication window, is suppressed.
pub proof fn law_texts_with_same_start_count_once(
    m: Map<Seq<char>, u64>,
    a: DetectedCapture,
    b: DetectedCapture,
    t1: u64,
    t2: u64,
)
    requires
        capture_kind(a) == "text"@,
        capture_kind(b) == "text"@,
        a.raw_text is Some,
        b.raw_text is Some,
        take_chars(a.raw_text->0@, TEXT_KEY_CHARS as int) == take_chars(
            b.raw_text->0@,
            TEXT_KEY_CHARS as int,
        ),
        t1 <= t2,
        t2 - t1 < DEDUP_WINDOW_MS,
    ensures
        seen_recently(with_keys_at(pruned(m, t1), dedup_keys(a), t1), dedup_keys(b), t2),
{
    reveal_strlit("text");
    reveal_strlit("image");
    let k = "text:"@ + take_chars(a.raw_text->0@, TEXT_KEY_CHARS as int);
    assert("text"@[0] != "image"@[0]);
    assert("text"@ != "image"@);
    assert(capture_kind(a) != "image"@);
    assert(capture_kind(b) != "image"@);
    assert(opt_string(a.raw_text) == Some(a.raw_text->0@));
    assert(dedup_keys(a) == seq![k]);
    assert(dedup_keys(b) == seq![k]);
    assert(dedup_keys(a)[0] == k);
    assert(dedup_keys(b)[0] == k);
    law_repeat_within_window_is_suppressed(m, dedup_keys(a), t1, dedup_keys(b), t2, k);
}

/// Two image captures of the same size share a key, so the clipboard copy and the screenshot
/// file of one capture, reported within the deduplication window, count once.
pub proof fn law_same_size_images_count_once(
    m: Map<Seq<char>, u64>,
    a: DetectedCapture,
    b: DetectedCapture,
    t1: u64,
    t2: u64,
)
    requires
        capture_kind(a) == "image"@,
        capture_kind(b) == "image"@,
        dimension(a.image_width) > 0,
        dimension(a.image_height) > 0,
        a.image_width == b.image_width,
        a.image_height == b.image_height,
        t1 <= t2,
        t2 - t1 < DEDUP_WINDOW_MS,
    ensures
        seen_recently(with_keys_at(pruned(m, t1), dedup_keys(a), t1), dedup_keys(b), t2),
{
    let k = "img:dims:"@ + decimal(dimension(a.image_width)) + "x"@ + decimal(
        dimension(a.image_height),
    );
    assert(dedup_keys(a) == image_keys(a));
    assert(dedup_keys(b) == image_keys(b));
    let pa = match opt_string(a.image_path) {
        Some(p) => if p.len() > 0 {
            seq!["img:path:"@ + p]
        } else {
            Seq::<Seq<char>>::empty()
        },
        None => Seq::<Seq<char>>::empty(),
    };
    let pb = match opt_string(b.image_path) {
        Some(p) => if p.len() > 0 {
            seq!["img:path:"@ + p]
        } else {
            Seq::<Seq<char>>::empty()
        },
        None => Seq::<Seq<char>>::empty(),
    };
    assert(image_keys(a) == pa + seq![k]);
    assert(image_keys(b) == pb + seq![k]);
    assert((pa + seq![k])[pa.len() as int] == k);
    assert((pb + seq![k])[pb.len() as int] == k);
    assert(dedup_keys(a).contains(k));
    assert(dedup_keys(b).contains(k));
    law_repeat_within_window_is_suppressed(m, dedup_keys(a), t1, dedup_keys(b), t2, k);
}


// ─── Routing and saving ────────────────────────────────────────────────────

/// Where a reported capture goes.
pub enum CaptureRoute {
    /// A repeat: dropped, and its pending image file removed.
    Discard,
    /// Saved at once.
    AutoSave,
    /// Held for the user to confirm in the bubble. `open_bubble` is set when no bubble is on
    /// screen yet: one is then scheduled, and the capture it replaces has its image removed.
    AwaitConfirmation { open_bubble: bool },
}

/// The route of a capture: a repeat is discarded; a screenshot is saved at once; a clipboard
/// capture waits for confirmation in `confirm` mode (the default) and is saved otherwise.
pub open spec fn capture_route(
    from_screenshot: bool,
    admitted: bool,
    capture_mode: Option<Seq<char>>,
    bubble_open: bool,
) -> CaptureRoute {
    if !admitted {
        CaptureRoute::Discard
    } else if from_screenshot {
        CaptureRoute::AutoSave
    } else if or_default(capture_mode, "confirm"@) == "confirm"@ {
        CaptureRoute::AwaitConfirmation { open_bubble: !bubble_open }
    } else {
        CaptureRoute::AutoSave
    }
}

pub fn route_capture(
    from_screenshot: bool,
    admitted: bool,
    capture_mode: &Option<String>,
    bubble_open: bool,
) -> (r: CaptureRoute)
    ensures
        r == capture_route(from_screenshot, admitted, opt_string(*capture_mode), bubble_open),
{
    if !admitted {
        CaptureRoute::Discard
    } else if from_screenshot {
        CaptureRoute::AutoSave
    } else {
        let mode = text_or(capture_mode, "confirm");
        if eq_str(&mode, "confirm") {
            CaptureRoute::AwaitConfirmation { open_bubble: !bubble_open }
        } else {
            CaptureRoute::AutoSave
        }
    }
}

fn copy_opt(o: &Option<String>) -> (r: Option<String>)
    ensures
        opt_string(r) == opt_string(*o),
{
    match o {
        Some(s) => Some(s.clone()),
        None => None,
    }
}

/// The record saved for a capture: type `text`, an empty preview and source app `Unknown`
/// stand in for what the report lacks.
pub open spec fn capture_event_matches(r: CaptureEvent, e: DetectedCapture) -> bool {
    &&& r.content_type@ == or_default(opt_string(e.content_type), "text"@)
    &&& r.preview@ == or_default(opt_string(e.preview), Seq::empty())
    &&& r.source_app@ == or_default(opt_string(e.source_app), "Unknown"@)
    &&& opt_string(r.raw_text) == opt_string(e.raw_text)
    &&& opt_string(r.image_path) == opt_string(e.image_path)
}

/// The sensitive-data filter is on only when its setting reads `true`.
pub open spec fn sensitive_filter_on(setting: Option<Seq<char>>) -> bool {
    setting == Some("true"@)
}

/// The record to save for a capture, or `None` when the sensitive-data filter is on and the
/// capture's text was found sensitive (`text_is_sensitive` is the filter's verdict on
/// `raw_text`; it is not consulted when there is no text).
pub fn plan_auto_save(
    event: &DetectedCapture,
    filter_setting: &Option<String>,
    text_is_sensitive: bool,
) -> (r: Option<CaptureEvent>)
    ensures
        r is None <==> (sensitive_filter_on(opt_string(*filter_setting)) && event.raw_text is Some
            && text_is_sensitive),
        r matches Some(rec) ==> capture_event_matches(rec, *event),
{
    let filter_on = match filter_setting {
        Some(s) => eq_str(&chars_of(s.as_str()), "true"),
        None => false,
    };
    if filter_on && event.raw_text.is_some() && text_is_sensitive {
        return None;
    }
    let preview = text_or(&event.preview, "");
    proof {
        reveal_strlit("");
        assert(""@ =~= Seq::<char>::empty());
    }
    Some(
        CaptureEvent {
            content_type: string_from_chars(&text_or(&event.content_type, "text")),
            preview: string_from_chars(&preview),
            source_app: string_from_chars(&text_or(&event.source_app, "Unknown")),
            raw_text: copy_opt(&event.raw_text),
            image_path: copy_opt(&event.image_path),
        },
    )
}

/// What follows a successful save.
pub enum SaveFollowUp {
    /// Summarise the text of a text capture.
    Summarize { text: String },
    /// Read the page behind a link capture.
    FetchUrl { url: String },
    /// The link's page was read before.
    AlreadyFetched,
    /// Link reading is switched off.
    UrlReadingDisabled,
    /// A link capture without its address.
    MissingSourceUrl,
    /// Read the text in a screenshot.
    RecognizeImage { path: String },
    Nothing,
}

/// Link reading is on unless its setting reads `false`.
pub open spec fn url_reading_on(setting: Option<Seq<char>>) -> bool {
    setting != Some("false"@)
}

/// A link still needs reading when its capture holds no text, empty text or just the address.
pub open spec fn needs_fetch(raw_text: Option<Seq<char>>, url: Seq<char>) -> bool {
    match raw_text {
        Some(t) => t.len() == 0 || t == url,
        None => true,
    }
}

/// The step after a capture was saved: a text capture with text is summarised; a link with
/// its address is read, unless it was read before or reading is off; a screenshot with its
/// file has its text recognised; anything else needs nothing.
pub open spec fn follow_up_matches(r: SaveFollowUp, c: CapturedContent, url_reading: Option<Seq<char>>) -> bool {
    if c.content_type@ == "text"@ && c.raw_text is Some {
        r matches SaveFollowUp::Summarize { text } && text@ == c.raw_text->0@
    } else if c.content_type@ == "url"@ {
        match c.source_url {
            Some(u) => if !needs_fetch(opt_string(c.raw_text), u@) {
                r is AlreadyFetched
            } else if url_reading_on(url_reading) {
                r matches SaveFollowUp::FetchUrl { url } && url@ == u@
            } else {
                r is UrlReadingDisabled
            },
            None => r is MissingSourceUrl,
        }
    } else if c.content_type@ == "image"@ && c.image_path is Some {
        r matches SaveFollowUp::RecognizeImage { path } && path@ == c.image_path->0@
    } else {
        r is Nothing
    }
}

pub fn follow_up_after_save(content: &CapturedContent, url_reading_setting: &Option<String>) -> (r:
    SaveFollowUp)
    ensures
        follow_up_matches(r, *content, opt_string(*url_reading_setting)),
{
    let kind = chars_of(content.content_type.as_str());
    if eq_str(&kind, "text") && content.raw_text.is_some() {
        match &content.raw_text {
            Some(t) => SaveFollowUp::Summarize { text: t.clone() },
            None => SaveFollowUp::Nothing,
        }
    } else if eq_str(&kind, "url") {
        match &content.source_url {
            Some(u) => {
                let fetched = match &content.raw_text {
                    Some(t) => {
                        let tc = chars_of(t.as_str());
                        !(tc.len() == 0 || *t == *u)
                    },
                    None => false,
                };
                if fetched {
                    SaveFollowUp::AlreadyFetched
                } else {
                    let off = match url_reading_setting {
                        Some(s) => eq_str(&chars_of(s.as_str()), "false"),
                        None => false,
                    };
                    if off {
                        SaveFollowUp::UrlReadingDisabled
                    } else {
                        SaveFollowUp::FetchUrl { url: u.clone() }
                    }
                }
            },
            None => SaveFollowUp::MissingSourceUrl,
        }
    } else if eq_str(&kind, "image") && content.image_path.is_some() {
        match &content.image_path {
            Some(p) => SaveFollowUp::RecognizeImage { path: p.clone() },
            None => SaveFollowUp::Nothing,
        }
    } else {
        SaveFollowUp::Nothing
    }
}

/// The text stored in place of a link's content when reading it failed.
pub fn url_fetch_failure_note(error: &str, url: &str) -> (r: String)
    ensures
        r@ == "[读取失败] "@ + error@ + "\n\n原始链接: "@ + url@,
{
    let a = append(chars_of("[读取失败] "), error);
    let b = append(a, "\n\n原始链接: ");
    string_from_chars(&append(b, url))
}

// ─── The detector ──────────────────────────────────────────────────────────

/// The capture detector: whether its clipboard and screenshot watchers run, and the keys of
/// the captures it let through recently. Both watchers feed one deduplication state.
pub struct CaptureDetector {
    clipboard_watching: bool,
    screenshot_watching: bool,
    dedup: DeduplicationState,
}

impl CaptureDetector {
    pub closed spec fn wf(&self) -> bool {
        self.dedup.wf()
    }

    pub closed spec fn watching(&self) -> bool {
        self.clipboard_watching || self.screenshot_watching
    }

    /// The keys let through and when each was last seen.
    pub closed spec fn seen(&self) -> Map<Seq<char>, u64> {
        self.dedup@
    }

    pub fn new() -> (d: Self)
        ensures
            d.wf(),
            !d.watching(),
            d.seen() == Map::<Seq<char>, u64>::empty(),
    {
        CaptureDetector {
            clipboard_watching: false,
            screenshot_watching: false,
            dedup: DeduplicationState::new(),
        }
    }

    /// Marks both watchers as running.
    pub fn start(&mut self)
        requires
            old(self).wf(),
        ensures
            final(self).wf(),
            final(self).watching(),
            final(self).seen() == old(self).seen(),
    {
        self.clipboard_watching = true;
        self.screenshot_watching = true;
    }

    /// Marks both watchers as stopped; what was seen is kept.
    pub fn stop(&mut self)
        requires
            old(self).wf(),
        ensures
            final(self).wf(),
            !final(self).watching(),
            final(self).seen() == old(self).seen(),
    {
        self.clipboard_watching = false;
        self.screenshot_watching = false;
    }

    /// Whether a reported capture goes on (see `DeduplicationState::should_emit`), by the keys
    /// of `compute_dedup_keys`.
    pub fn accept_capture(&mut self, event: &DetectedCapture, now_ms: u64) -> (go_on: bool)
        requires
            old(self).wf(),
        ensures
            final(self).wf(),
            final(self).watching() == old(self).watching(),
            go_on == !seen_recently(old(self).seen(), dedup_keys(*event), now_ms),
            go_on ==> final(self).seen() == with_keys_at(
                pruned(old(self).seen(), now_ms),
                dedup_keys(*event),
                now_ms,
            ),
            !go_on ==> final(self).seen() == pruned(old(self).seen(), now_ms),
    {
        let keys = compute_dedup_keys(event);
        self.dedup.should_emit(&keys, now_ms)
    }
}

} // verus!
