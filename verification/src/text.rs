//! Character-level text utilities shared by the rest of the library. Every function works on
//! sequences of Unicode scalar values (`Seq<char>`), the view of `&str` and `String`.

use vstd::prelude::*;

verus! {

broadcast use vstd::seq::group_seq_axioms;

// ─── Conversions ───────────────────────────────────────────────────────────

/// The characters of `s`, in order.
pub fn chars_of(s: &str) -> (v: Vec<char>)
    ensures
        v@ == s@,
{
    broadcast use vstd::string::group_string_axioms;

    let mut v: Vec<char> = Vec::new();
    for c in it: s.chars()
        invariant
            v@.len() == it.index@,
            v@ == it.seq().take(it.index@ as int),
    {
        v.push(c);
    }
    v
}

/// Builds a `String` holding exactly the given characters.
/// Trusted: `FromIterator<&char> for String` appends each character in order.
#[verifier::external_body]
pub(crate) fn string_from_chars(v: &[char]) -> (s: String)
    ensures
        s@ == v@,
{
    v.iter().collect()
}

/// A copy of `s[from..to]`.
pub fn slice_chars(s: &[char], from: usize, to: usize) -> (r: Vec<char>)
    requires
        from <= to <= s@.len(),
    ensures
        r@ == s@.subrange(from as int, to as int),
{
    let mut r: Vec<char> = Vec::new();
    let mut i = from;
    while i < to
        invariant
            from <= i <= to <= s@.len(),
            r@ == s@.subrange(from as int, i as int),
        decreases to - i,
    {
        r.push(s[i]);
        i += 1;
    }
    r
}

/// `a` followed by `b`.
pub fn concat_chars(a: &[char], b: &[char]) -> (r: Vec<char>)
    ensures
        r@ == a@ + b@,
{
    let mut r = slice_chars(a, 0, a.len());
    let mut i: usize = 0;
    while i < b.len()
        invariant
            i <= b@.len(),
            r@ == a@ + b@.take(i as int),
        decreases b.len() - i,
    {
        r.push(b[i]);
        i += 1;
    }
    r
}

// ─── Whitespace and trimming ───────────────────────────────────────────────

/// Unicode `White_Space`, the property that `char::is_whitespace` tests.
pub open spec fn is_ws(c: char) -> bool {
    let u = c as u32;
    (0x09 <= u && u <= 0x0d) || u == 0x20 || u == 0x85 || u == 0xa0 || u == 0x1680 || (0x2000 <= u
        && u <= 0x200a) || u == 0x2028 || u == 0x2029 || u == 0x202f || u == 0x205f || u == 0x3000
}

pub fn is_whitespace(c: char) -> (b: bool)
    ensures
        b == is_ws(c),
{
    let u = c as u32;
    (0x09 <= u && u <= 0x0d) || u == 0x20 || u == 0x85 || u == 0xa0 || u == 0x1680 || (0x2000 <= u
        && u <= 0x200a) || u == 0x2028 || u == 0x2029 || u == 0x202f || u == 0x205f || u == 0x3000
}

/// Number of whitespace characters that open `s`.
pub open spec fn leading_ws(s: Seq<char>) -> nat
    decreases s.len(),
{
    if s.len() > 0 && is_ws(s[0]) {
        1 + leading_ws(s.drop_first())
    } else {
        0
    }
}

/// Number of whitespace characters that close `s`.
pub open spec fn trailing_ws(s: Seq<char>) -> nat
    decreases s.len(),
{
    if s.len() > 0 && is_ws(s.last()) {
        1 + trailing_ws(s.drop_last())
    } else {
        0
    }
}

/// `str::trim_start`: `s` without its leading whitespace.
pub open spec fn trim_start(s: Seq<char>) -> Seq<char> {
    s.skip(leading_ws(s) as int)
}

/// `str::trim_end`: `s` without its trailing whitespace.
pub open spec fn trim_end(s: Seq<char>) -> Seq<char> {
    s.take(s.len() - trailing_ws(s))
}

/// `str::trim`: `s` without whitespace at either end.
pub open spec fn trim(s: Seq<char>) -> Seq<char> {
    trim_end(trim_start(s))
}

pub proof fn lemma_leading_ws_bound(s: Seq<char>)
    ensures
        leading_ws(s) <= s.len(),
        forall|k: int| 0 <= k < leading_ws(s) ==> is_ws(#[trigger] s[k]),
        leading_ws(s) < s.len() ==> !is_ws(s[leading_ws(s) as int]),
    decreases s.len(),
{
    if s.len() > 0 && is_ws(s[0]) {
        lemma_leading_ws_bound(s.drop_first());
        assert forall|k: int| 0 <= k < leading_ws(s) implies is_ws(#[trigger] s[k]) by {
            if k > 0 {
                assert(s[k] == s.drop_first()[k - 1]);
            }
        }
    }
}

pub proof fn lemma_trailing_ws_bound(s: Seq<char>)
    ensures
        trailing_ws(s) <= s.len(),
        forall|k: int| s.len() - trailing_ws(s) <= k < s.len() ==> is_ws(#[trigger] s[k]),
        trailing_ws(s) < s.len() ==> !is_ws(s[s.len() - trailing_ws(s) - 1]),
    decreases s.len(),
{
    if s.len() > 0 && is_ws(s.last()) {
        lemma_trailing_ws_bound(s.drop_last());
        assert forall|k: int| s.len() - trailing_ws(s) <= k < s.len() implies is_ws(
            #[trigger] s[k],
        ) by {
            if k < s.len() - 1 {
                assert(s[k] == s.drop_last()[k]);
            }
        }
    }
}

/// If the first `i` characters are whitespace, the leading run goes through them.
proof fn lemma_leading_ws_step(s: Seq<char>, i: int)
    requires
        0 <= i <= s.len(),
        forall|k: int| 0 <= k < i ==> is_ws(#[trigger] s[k]),
    ensures
        leading_ws(s) == i + leading_ws(s.skip(i)),
    decreases i,
{
    if i > 0 {
        assert(is_ws(s[0]));
        let t = s.drop_first();
        assert forall|k: int| 0 <= k < i - 1 implies is_ws(#[trigger] t[k]) by {
            assert(t[k] == s[k + 1]);
        }
        lemma_leading_ws_step(t, i - 1);
        assert(t.skip(i - 1) =~= s.skip(i));
    } else {
        assert(s.skip(0) =~= s);
    }
}

/// If the last `i` characters are whitespace, the trailing run goes through them.
proof fn lemma_trailing_ws_step(s: Seq<char>, i: int)
    requires
        0 <= i <= s.len(),
        forall|k: int| s.len() - i <= k < s.len() ==> is_ws(#[trigger] s[k]),
    ensures
        trailing_ws(s) == i + trailing_ws(s.take(s.len() - i)),
    decreases i,
{
    if i > 0 {
        assert(is_ws(s.last()));
        let t = s.drop_last();
        assert forall|k: int| t.len() - (i - 1) <= k < t.len() implies is_ws(#[trigger] t[k]) by {
            assert(t[k] == s[k]);
        }
        lemma_trailing_ws_step(t, i - 1);
        assert(t.take(t.len() - (i - 1)) =~= s.take(s.len() - i));
    } else {
        assert(s.take(s.len() as int) =~= s);
    }
}

/// Shape of a trimmed text: no whitespace at either end, no longer than the original.
pub proof fn lemma_trim_facts(s: Seq<char>)
    ensures
        trim(s).len() > 0 ==> !is_ws(trim(s)[0]) && !is_ws(trim(s).last()),
        trim(s).len() <= s.len(),
        trim_start(s).len() > 0 ==> !is_ws(trim_start(s)[0]),
{
    lemma_leading_ws_bound(s);
    let m = trim_start(s);
    lemma_trailing_ws_bound(m);
    let t = trim(s);
    if t.len() > 0 {
        assert(t[0] == m[0]);
        assert(m[0] == s[leading_ws(s) as int]);
        assert(t.last() == m[m.len() - trailing_ws(m) - 1]);
    }
}

/// Index of the first character of `s` that is not whitespace (its length if none is).
pub fn first_non_ws(s: &[char]) -> (i: usize)
    ensures
        i == leading_ws(s@),
{
    let mut i: usize = 0;
    while i < s.len() && is_whitespace(s[i])
        invariant
            i <= s@.len(),
            forall|k: int| 0 <= k < i ==> is_ws(#[trigger] s@[k]),
        decreases s.len() - i,
    {
        i += 1;
    }
    proof {
        lemma_leading_ws_step(s@, i as int);
        if i < s@.len() {
            assert(s@.skip(i as int)[0] == s@[i as int]);
        } else {
            assert(s@.skip(i as int).len() == 0);
        }
    }
    i
}

/// Number of whitespace characters that close `s`.
pub fn count_trailing_ws(s: &[char]) -> (n: usize)
    ensures
        n == trailing_ws(s@),
{
    let mut n: usize = 0;
    while n < s.len() && is_whitespace(s[s.len() - 1 - n])
        invariant
            n <= s@.len(),
            forall|k: int| s@.len() - n <= k < s@.len() ==> is_ws(#[trigger] s@[k]),
        decreases s.len() - n,
    {
        n += 1;
    }
    proof {
        lemma_trailing_ws_step(s@, n as int);
        let t = s@.take(s@.len() - n);
        if n < s@.len() {
            assert(t.last() == s@[s@.len() - n - 1]);
        } else {
            assert(t.len() == 0);
        }
    }
    n
}

/// `s.trim()`.
pub fn trim_chars(s: &[char]) -> (r: Vec<char>)
    ensures
        r@ == trim(s@),
{
    let a = first_non_ws(s);
    proof {
        lemma_leading_ws_bound(s@);
    }
    let mid = slice_chars(s, a, s.len());
    let b = count_trailing_ws(&mid);
    proof {
        lemma_trailing_ws_bound(mid@);
    }
    slice_chars(&mid, 0, mid.len() - b)
}

/// `s.trim_start()`.
pub fn trim_start_chars(s: &[char]) -> (r: Vec<char>)
    ensures
        r@ == trim_start(s@),
{
    let a = first_non_ws(s);
    proof {
        lemma_leading_ws_bound(s@);
    }
    slice_chars(s, a, s.len())
}

/// `s.trim_end()`.
pub fn trim_end_chars(s: &[char]) -> (r: Vec<char>)
    ensures
        r@ == trim_end(s@),
{
    let b = count_trailing_ws(s);
    proof {
        lemma_trailing_ws_bound(s@);
    }
    slice_chars(s, 0, s.len() - b)
}

// ─── Searching ─────────────────────────────────────────────────────────────

/// `needle` occurs in `hay` starting at position `i`.
pub open spec fn occurs_at(hay: Seq<char>, needle: Seq<char>, i: int) -> bool {
    0 <= i && i + needle.len() <= hay.len() && hay.subrange(i, i + needle.len()) == needle
}

/// `hay.starts_with(needle)`.
pub open spec fn starts_with(hay: Seq<char>, needle: Seq<char>) -> bool {
    occurs_at(hay, needle, 0)
}

/// `hay.ends_with(needle)`.
pub open spec fn ends_with(hay: Seq<char>, needle: Seq<char>) -> bool {
    occurs_at(hay, needle, hay.len() - needle.len())
}

/// First position at or after `from` where `needle` occurs in `hay`.
pub open spec fn find_from(hay: Seq<char>, needle: Seq<char>, from: int) -> Option<int>
    decreases hay.len() + 1 - from,
{
    if from < 0 || from + needle.len() > hay.len() {
        None
    } else if occurs_at(hay, needle, from) {
        Some(from)
    } else {
        find_from(hay, needle, from + 1)
    }
}

/// `hay.find(needle)`, counted in characters.
pub open spec fn find(hay: Seq<char>, needle: Seq<char>) -> Option<int> {
    find_from(hay, needle, 0)
}

/// `hay.contains(needle)`.
pub open spec fn contains(hay: Seq<char>, needle: Seq<char>) -> bool {
    find(hay, needle) is Some
}

/// What `find_from` returns, stated directly.
pub proof fn lemma_find_from(hay: Seq<char>, needle: Seq<char>, from: int)
    requires
        0 <= from,
    ensures
        match find_from(hay, needle, from) {
            Some(i) => from <= i && occurs_at(hay, needle, i) && forall|j: int|
                from <= j < i ==> !occurs_at(hay, needle, j),
            None => forall|j: int| from <= j ==> !occurs_at(hay, needle, j),
        },
    decreases hay.len() + 1 - from,
{
    if from + needle.len() > hay.len() {
    } else if occurs_at(hay, needle, from) {
    } else {
        lemma_find_from(hay, needle, from + 1);
    }
}

/// Whether `needle` occurs in `hay` at position `i`.
pub fn matches_at(hay: &[char], needle: &[char], i: usize) -> (b: bool)
    ensures
        b == occurs_at(hay@, needle@, i as int),
{
    if needle.len() > hay.len() || i > hay.len() - needle.len() {
        return false;
    }
    let end = i + needle.len();
    let mut k: usize = 0;
    while k < needle.len()
        invariant
            end == i + needle@.len(),
            end <= hay@.len(),
            k <= needle@.len(),
            forall|j: int| 0 <= j < k ==> hay@[i + j] == needle@[j],
        decreases needle.len() - k,
    {
        if hay[i + k] != needle[k] {
            assert(hay@.subrange(i as int, i + needle@.len())[k as int] != needle@[k as int]);
            return false;
        }
        k += 1;
    }
    assert(hay@.subrange(i as int, i + needle@.len()) =~= needle@);
    true
}

/// `hay[from..].find(needle)`, as a position in `hay`.
pub fn find_chars_from(hay: &[char], needle: &[char], from: usize) -> (r: Option<usize>)
    ensures
        r matches Some(i) ==> find_from(hay@, needle@, from as int) == Some(i as int) && i
            + needle@.len() <= hay@.len(),
        r is None ==> find_from(hay@, needle@, from as int) is None,
{
    if needle.len() > hay.len() {
        return None;
    }
    if needle.len() == 0 {
        if from <= hay.len() {
            proof {
                assert(hay@.subrange(from as int, from as int) =~= needle@);
            }
            return Some(from);
        }
        return None;
    }
    let n = hay.len();
    let last = n - needle.len();
    let mut i = from;
    while i <= last
        invariant
            from <= i,
            last < n,
            n == hay@.len(),
            needle@.len() > 0,
            last + needle@.len() == hay@.len(),
            find_from(hay@, needle@, from as int) == find_from(hay@, needle@, i as int),
        decreases last + 1 - i,
    {
        if matches_at(hay, needle, i) {
            return Some(i);
        }
        i += 1;
    }
    None
}

/// `hay.find(needle)`, counted in characters.
pub fn find_chars(hay: &[char], needle: &[char]) -> (r: Option<usize>)
    ensures
        r matches Some(i) ==> find(hay@, needle@) == Some(i as int) && i + needle@.len()
            <= hay@.len(),
        r is None ==> find(hay@, needle@) is None,
{
    find_chars_from(hay, needle, 0)
}

/// `hay.contains(needle)`.
pub fn contains_chars(hay: &[char], needle: &[char]) -> (b: bool)
    ensures
        b == contains(hay@, needle@),
{
    find_chars(hay, needle).is_some()
}

/// `hay.starts_with(needle)`.
pub fn starts_with_chars(hay: &[char], needle: &[char]) -> (b: bool)
    ensures
        b == starts_with(hay@, needle@),
{
    matches_at(hay, needle, 0)
}

/// `hay.ends_with(needle)`.
pub fn ends_with_chars(hay: &[char], needle: &[char]) -> (b: bool)
    ensures
        b == ends_with(hay@, needle@),
{
    if needle.len() > hay.len() {
        return false;
    }
    matches_at(hay, needle, hay.len() - needle.len())
}

} // verus!

verus! {

// ─── Replacing ─────────────────────────────────────────────────────────────

/// `s.replace(from, to)` for a non-empty `from`: every non-overlapping occurrence of `from`,
/// scanning left to right, is replaced by `to`. An empty `from` leaves `s` as it is.
pub open spec fn replace_all(s: Seq<char>, from: Seq<char>, to: Seq<char>) -> Seq<char>
    decreases s.len(),
{
    if from.len() == 0 || s.len() < from.len() {
        s
    } else if starts_with(s, from) {
        to + replace_all(s.skip(from.len() as int), from, to)
    } else {
        seq![s[0]] + replace_all(s.drop_first(), from, to)
    }
}

/// `s.replace(from, to)` (for an empty `from`, a copy of `s`).
pub fn replace_chars(s: &[char], from: &[char], to: &[char]) -> (r: Vec<char>)
    ensures
        r@ == replace_all(s@, from@, to@),
{
    if from.len() == 0 {
        return slice_chars(s, 0, s.len());
    }
    let n = s.len();
    let mut out: Vec<char> = Vec::new();
    let mut i: usize = 0;
    proof {
        assert(s@.skip(0) =~= s@);
    }
    while i < n
        invariant
            n == s@.len(),
            i <= n,
            from@.len() > 0,
            replace_all(s@, from@, to@) == out@ + replace_all(s@.skip(i as int), from@, to@),
        decreases n - i,
    {
        let rest = Ghost(s@.skip(i as int));
        if matches_at(s, from, i) {
            proof {
                assert(rest@.subrange(0, from@.len() as int) =~= s@.subrange(
                    i as int,
                    i + from@.len(),
                ));
                assert(rest@.skip(from@.len() as int) =~= s@.skip(i + from@.len()));
            }
            out = concat_chars(&out, to);
            i = i + from.len();
            proof {
                assert(out@ + replace_all(s@.skip(i as int), from@, to@) =~= (out@.subrange(
                    0,
                    out@.len() - to@.len(),
                )) + (to@ + replace_all(s@.skip(i as int), from@, to@)));
            }
        } else {
            proof {
                if rest@.len() >= from@.len() {
                    assert(rest@.subrange(0, from@.len() as int) =~= s@.subrange(
                        i as int,
                        i + from@.len(),
                    ));
                }
                assert(rest@.drop_first() =~= s@.skip(i + 1));
                if rest@.len() < from@.len() {
                    assert(replace_all(rest@.drop_first(), from@, to@) == rest@.drop_first());
                    assert(rest@ =~= seq![rest@[0]] + rest@.drop_first());
                }
            }
            out.push(s[i]);
            i = i + 1;
            proof {
                assert(out@ + replace_all(s@.skip(i as int), from@, to@) =~= out@.drop_last() + (
                seq![s@[i - 1]] + replace_all(s@.skip(i as int), from@, to@)));
            }
        }
    }
    proof {
        assert(s@.skip(n as int) =~= Seq::<char>::empty());
        assert(out@ + Seq::<char>::empty() =~= out@);
    }
    out
}

// ─── Splitting and joining ─────────────────────────────────────────────────

/// The texts held by a vector of character vectors.
pub open spec fn views(v: Seq<Vec<char>>) -> Seq<Seq<char>> {
    Seq::new(v.len(), |i: int| v[i]@)
}

/// `s.split(|c| seps.contains(c))`: the pieces between separator characters, in order. There
/// is always at least one piece.
pub open spec fn split_on(s: Seq<char>, seps: Seq<char>) -> Seq<Seq<char>>
    decreases s.len(),
{
    if s.len() == 0 {
        seq![Seq::<char>::empty()]
    } else {
        let init = split_on(s.drop_last(), seps);
        if seps.contains(s.last()) {
            init.push(Seq::<char>::empty())
        } else {
            init.update(init.len() - 1, init.last().push(s.last()))
        }
    }
}

pub proof fn lemma_split_on_nonempty(s: Seq<char>, seps: Seq<char>)
    ensures
        split_on(s, seps).len() >= 1,
    decreases s.len(),
{
    if s.len() > 0 {
        lemma_split_on_nonempty(s.drop_last(), seps);
    }
}

/// `s.split(|c| seps.contains(&c))`.
pub fn split_chars(s: &[char], seps: &[char]) -> (r: Vec<Vec<char>>)
    ensures
        views(r@) == split_on(s@, seps@),
{
    let mut pieces: Vec<Vec<char>> = Vec::new();
    let mut cur: Vec<char> = Vec::new();
    let mut i: usize = 0;
    proof {
        assert(s@.take(0) =~= Seq::<char>::empty());
        assert(views(pieces@).push(cur@) =~= seq![Seq::<char>::empty()]);
    }
    while i < s.len()
        invariant
            i <= s@.len(),
            views(pieces@).push(cur@) == split_on(s@.take(i as int), seps@),
        decreases s.len() - i,
    {
        let c = s[i];
        let ghost before = s@.take(i as int);
        proof {
            assert(s@.take(i + 1).drop_last() =~= before);
            assert(s@.take(i + 1).last() == c);
            lemma_split_on_nonempty(before, seps@);
        }
        if contains_char(seps, c) {
            let done = cur;
            pieces.push(done);
            cur = Vec::new();
            proof {
                assert(views(pieces@).push(cur@) =~= split_on(before, seps@).push(
                    Seq::<char>::empty(),
                ));
            }
        } else {
            cur.push(c);
            proof {
                let init = split_on(before, seps@);
                assert(views(pieces@).push(cur@) =~= init.update(
                    init.len() - 1,
                    init.last().push(c),
                ));
            }
        }
        i += 1;
    }
    proof {
        assert(s@.take(s@.len() as int) =~= s@);
    }
    pieces.push(cur);
    pieces
}

/// Whether `c` is one of `set`.
pub fn contains_char(set: &[char], c: char) -> (b: bool)
    ensures
        b == set@.contains(c),
{
    let mut i: usize = 0;
    while i < set.len()
        invariant
            i <= set@.len(),
            forall|j: int| 0 <= j < i ==> set@[j] != c,
        decreases set.len() - i,
    {
        if set[i] == c {
            return true;
        }
        i += 1;
    }
    false
}

/// `str::lines`: split at `\n`, drop the `\r` of a `\r\n` ending, and ignore the final line
/// ending (an empty text has no lines).
pub open spec fn lines(s: Seq<char>) -> Seq<Seq<char>> {
    if s.len() == 0 {
        Seq::empty()
    } else {
        let ends = s.last() == '\n';
        let body = if ends {
            s.drop_last()
        } else {
            s
        };
        let pieces = split_on(body, seq!['\n']);
        pieces.map(
            |i: int, p: Seq<char>|
                if (i < pieces.len() - 1 || ends) && p.len() > 0 && p.last() == '\r' {
                    p.drop_last()
                } else {
                    p
                },
        )
    }
}

/// `s.lines()`.
pub fn lines_chars(s: &[char]) -> (r: Vec<Vec<char>>)
    ensures
        views(r@) == lines(s@),
{
    if s.len() == 0 {
        let r: Vec<Vec<char>> = Vec::new();
        proof {
            assert(views(r@) =~= lines(s@));
        }
        return r;
    }
    let ends = s[s.len() - 1] == '\n';
    let body = if ends {
        slice_chars(s, 0, s.len() - 1)
    } else {
        slice_chars(s, 0, s.len())
    };
    proof {
        assert(body@ =~= (if ends {
            s@.drop_last()
        } else {
            s@
        }));
    }
    let nl = vec!['\n'];
    proof {
        assert(nl@ =~= seq!['\n']);
    }
    let pieces = split_chars(&body, &nl);
    let ghost spieces = split_on(body@, seq!['\n']);
    let mut out: Vec<Vec<char>> = Vec::new();
    let mut i: usize = 0;
    while i < pieces.len()
        invariant
            i <= pieces@.len(),
            views(pieces@) == spieces,
            out@.len() == i,
            forall|j: int|
                0 <= j < i ==> #[trigger] out@[j]@ == (if (j < spieces.len() - 1 || ends)
                    && spieces[j].len() > 0 && spieces[j].last() == '\r' {
                    spieces[j].drop_last()
                } else {
                    spieces[j]
                }),
        decreases pieces.len() - i,
    {
        let p = &pieces[i];
        proof {
            assert(p@ == spieces[i as int]);
        }
        let strip = (i + 1 < pieces.len() || ends) && p.len() > 0 && p[p.len() - 1] == '\r';
        let line = if strip {
            slice_chars(p, 0, p.len() - 1)
        } else {
            slice_chars(p, 0, p.len())
        };
        proof {
            assert(line@ =~= (if (i < spieces.len() - 1 || ends) && spieces[i as int].len() > 0
                && spieces[i as int].last() == '\r' {
                spieces[i as int].drop_last()
            } else {
                spieces[i as int]
            }));
        }
        out.push(line);
        i += 1;
    }
    proof {
        assert(views(out@) =~= lines(s@));
    }
    out
}

/// `pieces.join(sep)`.
pub open spec fn join(pieces: Seq<Seq<char>>, sep: Seq<char>) -> Seq<char>
    decreases pieces.len(),
{
    if pieces.len() == 0 {
        Seq::empty()
    } else if pieces.len() == 1 {
        pieces[0]
    } else {
        join(pieces.drop_last(), sep) + sep + pieces.last()
    }
}

/// `pieces.join(sep)`.
pub fn join_chars(pieces: &Vec<Vec<char>>, sep: &[char]) -> (r: Vec<char>)
    ensures
        r@ == join(views(pieces@), sep@),
{
    let mut out: Vec<char> = Vec::new();
    let mut i: usize = 0;
    while i < pieces.len()
        invariant
            i <= pieces@.len(),
            out@ == join(views(pieces@).take(i as int), sep@),
        decreases pieces.len() - i,
    {
        proof {
            let t = views(pieces@).take(i + 1);
            assert(t.drop_last() =~= views(pieces@).take(i as int));
            assert(t.last() == pieces[i as int]@);
        }
        if i == 0 {
            out = slice_chars(&pieces[0], 0, pieces[0].len());
            proof {
                assert(views(pieces@).take(1).len() == 1);
            }
        } else {
            out = concat_chars(&out, sep);
            out = concat_chars(&out, &pieces[i]);
        }
        i += 1;
    }
    proof {
        assert(views(pieces@).take(pieces@.len() as int) =~= views(pieces@));
    }
    out
}

/// The first `n` characters of `s` (all of it when shorter): `s.chars().take(n)`.
pub open spec fn take_chars(s: Seq<char>, n: int) -> Seq<char> {
    if s.len() <= n {
        s
    } else {
        s.take(n)
    }
}

/// `s.chars().take(n).collect()`.
pub fn take_prefix(s: &[char], n: usize) -> (r: Vec<char>)
    ensures
        r@ == take_chars(s@, n as int),
{
    if s.len() <= n {
        slice_chars(s, 0, s.len())
    } else {
        slice_chars(s, 0, n)
    }
}

} // verus!

verus! {

// ─── Numbers ───────────────────────────────────────────────────────────────

/// The ASCII digit for `d < 10`.
pub open spec fn digit_char(d: int) -> char {
    ((d + 48) as u32) as char
}

pub open spec fn is_digit(c: char) -> bool {
    '0' <= c && c <= '9'
}

pub open spec fn digit_value(c: char) -> int {
    (c as u32) - 48
}

/// Decimal representation of `n`, without leading zeros (`"0"` for zero).
pub open spec fn decimal(n: nat) -> Seq<char>
    decreases n,
{
    if n < 10 {
        seq![digit_char(n as int)]
    } else {
        decimal(n / 10).push(digit_char((n % 10) as int))
    }
}

/// `format!("{}", n)` for a signed integer.
pub open spec fn signed_decimal(n: int) -> Seq<char> {
    if n < 0 {
        seq!['-'] + decimal((-n) as nat)
    } else {
        decimal(n as nat)
    }
}

fn digit(d: u64) -> (c: char)
    requires
        d < 10,
    ensures
        c == digit_char(d as int),
{
    let b = (d + 48) as u8;
    b as char
}

/// `n.to_string()`.
pub fn u64_decimal(n: u64) -> (r: Vec<char>)
    ensures
        r@ == decimal(n as nat),
    decreases n,
{
    if n < 10 {
        let mut r = Vec::new();
        r.push(digit(n));
        proof {
            assert(r@ =~= seq![digit_char(n as int)]);
        }
        r
    } else {
        let mut r = u64_decimal(n / 10);
        r.push(digit(n % 10));
        r
    }
}

/// `n.to_string()` for a signed integer.
pub fn i64_decimal(n: i64) -> (r: Vec<char>)
    ensures
        r@ == signed_decimal(n as int),
{
    if n < 0 {
        let mag: u64 = if n == i64::MIN {
            9223372036854775808u64
        } else {
            (-n) as u64
        };
        let digits = u64_decimal(mag);
        let minus = vec!['-'];
        let r = concat_chars(&minus, &digits);
        proof {
            assert(minus@ =~= seq!['-']);
        }
        r
    } else {
        u64_decimal(n as u64)
    }
}

/// Value of a run of decimal digits.
pub open spec fn digits_value(d: Seq<char>) -> int
    decreases d.len(),
{
    if d.len() == 0 {
        0
    } else {
        digits_value(d.drop_last()) * 10 + digit_value(d.last())
    }
}

pub open spec fn all_digits(d: Seq<char>) -> bool {
    d.len() > 0 && forall|i: int| 0 <= i < d.len() ==> is_digit(#[trigger] d[i])
}

/// What `str::parse` reads as a signed integer, before any range check: an optional `+` or
/// `-` followed by at least one ASCII digit, and nothing else.
pub open spec fn parse_signed(s: Seq<char>) -> Option<int> {
    if s.len() > 0 && (s[0] == '+' || s[0] == '-') {
        let d = s.drop_first();
        if all_digits(d) {
            Some(
                if s[0] == '-' {
                    -digits_value(d)
                } else {
                    digits_value(d)
                },
            )
        } else {
            None
        }
    } else if all_digits(s) {
        Some(digits_value(s))
    } else {
        None
    }
}

/// What `str::parse` reads as an unsigned integer, before any range check: an optional `+`
/// followed by at least one ASCII digit, and nothing else.
pub open spec fn parse_unsigned(s: Seq<char>) -> Option<int> {
    if s.len() > 0 && s[0] == '+' {
        let d = s.drop_first();
        if all_digits(d) {
            Some(digits_value(d))
        } else {
            None
        }
    } else if all_digits(s) {
        Some(digits_value(s))
    } else {
        None
    }
}

/// `s.parse::<i64>().ok()`.
pub open spec fn parse_i64(s: Seq<char>) -> Option<int> {
    match parse_signed(s) {
        Some(v) => if i64::MIN <= v <= i64::MAX {
            Some(v)
        } else {
            None
        },
        None => None,
    }
}

/// `s.parse::<u64>().ok()` (and, with another bound, `u32` and `usize`).
pub open spec fn parse_unsigned_below(s: Seq<char>, max: int) -> Option<int> {
    match parse_unsigned(s) {
        Some(v) => if v <= max {
            Some(v)
        } else {
            None
        },
        None => None,
    }
}

proof fn lemma_digits_value_nonneg(d: Seq<char>)
    requires
        forall|i: int| 0 <= i < d.len() ==> is_digit(#[trigger] d[i]),
    ensures
        digits_value(d) >= 0,
    decreases d.len(),
{
    if d.len() > 0 {
        lemma_digits_value_nonneg(d.drop_last());
    }
}

/// A longer run of digits is worth at least as much as its prefix.
proof fn lemma_digits_value_mono(d: Seq<char>, i: int)
    requires
        0 <= i <= d.len(),
        forall|k: int| 0 <= k < d.len() ==> is_digit(#[trigger] d[k]),
    ensures
        digits_value(d.take(i)) <= digits_value(d),
    decreases d.len() - i,
{
    if i < d.len() {
        lemma_digits_value_mono(d, i + 1);
        let t = d.take(i + 1);
        assert(t.drop_last() =~= d.take(i));
        lemma_digits_value_nonneg(d.take(i));
        assert(is_digit(t.last()));
    } else {
        assert(d.take(i) =~= d);
    }
}

/// Reads `d` as unsigned decimal digits with a magnitude of at most `max`; `None` when a
/// character is not a digit, `d` is empty, or the value exceeds `max`.
fn read_digits(d: &[char], max: u64) -> (r: Option<u64>)
    ensures
        r matches Some(v) ==> all_digits(d@) && v == digits_value(d@) && v <= max,
        r is None ==> !all_digits(d@) || digits_value(d@) > max,
{
    if d.len() == 0 {
        return None;
    }
    let mut acc: u64 = 0;
    let mut i: usize = 0;
    while i < d.len()
        invariant
            i <= d@.len(),
            d@.len() > 0,
            forall|k: int| 0 <= k < i ==> is_digit(#[trigger] d@[k]),
            acc == digits_value(d@.take(i as int)),
            acc <= max,
        decreases d.len() - i,
    {
        let c = d[i];
        if !('0' <= c && c <= '9') {
            return None;
        }
        let v = (c as u32 - 48) as u64;
        proof {
            let t = d@.take(i + 1);
            assert(t.drop_last() =~= d@.take(i as int));
            assert(t.last() == c);
        }
        if v > max || acc > (max - v) / 10 {
            proof {
                assert(forall|k: int| 0 <= k < i + 1 ==> is_digit(#[trigger] d@[k]));
                if all_digits(d@) {
                    lemma_digits_value_mono(d@, i + 1);
                    if v <= max {
                        assert(acc * 10 + v > max) by (nonlinear_arith)
                            requires
                                acc > (max - v) / 10,
                                v <= max,
                                0 <= v < 10,
                        ;
                    }
                    assert(acc >= 0);
                }
            }
            return None;
        }
        proof {
            assert(acc * 10 + v <= max) by (nonlinear_arith)
                requires
                    acc <= (max - v) / 10,
                    v <= max,
            ;
        }
        acc = acc * 10 + v;
        i += 1;
    }
    proof {
        assert(d@.take(d@.len() as int) =~= d@);
    }
    Some(acc)
}

/// `s.parse::<i64>().ok()`.
pub fn parse_i64_chars(s: &[char]) -> (r: Option<i64>)
    ensures
        r matches Some(v) ==> parse_i64(s@) == Some(v as int),
        r is None ==> parse_i64(s@) is None,
{
    if s.len() > 0 && (s[0] == '+' || s[0] == '-') {
        let neg = s[0] == '-';
        let d = slice_chars(s, 1, s.len());
        proof {
            assert(d@ =~= s@.drop_first());
        }
        let lim: u64 = if neg {
            9223372036854775808u64
        } else {
            9223372036854775807u64
        };
        match read_digits(&d, lim) {
            Some(m) => {
                if neg {
                    if m == 9223372036854775808u64 {
                        Some(i64::MIN)
                    } else {
                        Some(-(m as i64))
                    }
                } else {
                    Some(m as i64)
                }
            },
            None => {
                proof {
                    if all_digits(d@) {
                        lemma_digits_value_nonneg(d@);
                    }
                }
                None
            },
        }
    } else {
        match read_digits(s, 9223372036854775807u64) {
            Some(m) => Some(m as i64),
            None => None,
        }
    }
}

/// `s.parse::<u64>().ok()` with `max` in place of `u64::MAX` (`u32::MAX` for `u32`, and so on).
pub fn parse_unsigned_chars(s: &[char], max: u64) -> (r: Option<u64>)
    ensures
        r matches Some(v) ==> parse_unsigned_below(s@, max as int) == Some(v as int),
        r is None ==> parse_unsigned_below(s@, max as int) is None,
{
    if s.len() > 0 && s[0] == '+' {
        let d = slice_chars(s, 1, s.len());
        proof {
            assert(d@ =~= s@.drop_first());
        }
        read_digits(&d, max)
    } else {
        read_digits(s, max)
    }
}

// ─── UTF-8 length ──────────────────────────────────────────────────────────

/// Bytes that `c` takes in UTF-8.
pub open spec fn utf8_width(c: char) -> nat {
    let u = c as u32;
    if u < 0x80 {
        1
    } else if u < 0x800 {
        2
    } else if u < 0x10000 {
        3
    } else {
        4
    }
}

/// `str::len`: the number of bytes `s` takes in UTF-8.
pub open spec fn utf8_len(s: Seq<char>) -> nat
    decreases s.len(),
{
    if s.len() == 0 {
        0
    } else {
        utf8_len(s.drop_last()) + utf8_width(s.last())
    }
}

pub fn char_utf8_width(c: char) -> (w: usize)
    ensures
        w == utf8_width(c),
{
    let u = c as u32;
    if u < 0x80 {
        1
    } else if u < 0x800 {
        2
    } else if u < 0x10000 {
        3
    } else {
        4
    }
}

/// The byte length of the UTF-8 encoding of `s` (what `str::len` returns), capped at `cap`.
pub fn utf8_len_capped(s: &[char], cap: usize) -> (n: usize)
    ensures
        n == if utf8_len(s@) <= cap {
            utf8_len(s@)
        } else {
            cap as nat
        },
{
    let mut n: usize = 0;
    let mut i: usize = 0;
    while i < s.len()
        invariant
            i <= s@.len(),
            n == if utf8_len(s@.take(i as int)) <= cap {
                utf8_len(s@.take(i as int))
            } else {
                cap as nat
            },
        decreases s.len() - i,
    {
        proof {
            let t = s@.take(i + 1);
            assert(t.drop_last() =~= s@.take(i as int));
        }
        let w = char_utf8_width(s[i]);
        if n >= cap || w > cap - n {
            n = cap;
        } else {
            n = n + w;
        }
        i += 1;
    }
    proof {
        assert(s@.take(s@.len() as int) =~= s@);
    }
    n
}

// ─── ASCII case ────────────────────────────────────────────────────────────

/// `char::to_ascii_lowercase`.
pub open spec fn ascii_lower(c: char) -> char {
    if 'A' <= c && c <= 'Z' {
        ((c as u32) + 32) as char
    } else {
        c
    }
}

pub open spec fn ascii_lower_seq(s: Seq<char>) -> Seq<char> {
    s.map_values(|c: char| ascii_lower(c))
}

pub fn to_ascii_lower_char(c: char) -> (r: char)
    ensures
        r == ascii_lower(c),
{
    if 'A' <= c && c <= 'Z' {
        let b = (c as u8) + 32;
        b as char
    } else {
        c
    }
}

/// `s.to_ascii_lowercase()`.
pub fn to_ascii_lower(s: &[char]) -> (r: Vec<char>)
    ensures
        r@ == ascii_lower_seq(s@),
{
    let mut r: Vec<char> = Vec::new();
    let mut i: usize = 0;
    while i < s.len()
        invariant
            i <= s@.len(),
            r@ == ascii_lower_seq(s@.take(i as int)),
        decreases s.len() - i,
    {
        r.push(to_ascii_lower_char(s[i]));
        i += 1;
        proof {
            assert(r@ =~= ascii_lower_seq(s@.take(i as int)));
        }
    }
    proof {
        assert(s@.take(s@.len() as int) =~= s@);
    }
    r
}

/// `a.eq_ignore_ascii_case(b)`.
pub open spec fn eq_ignore_ascii_case(a: Seq<char>, b: Seq<char>) -> bool {
    ascii_lower_seq(a) == ascii_lower_seq(b)
}

pub fn eq_ignore_ascii_case_chars(a: &[char], b: &[char]) -> (r: bool)
    ensures
        r == eq_ignore_ascii_case(a@, b@),
{
    let la = to_ascii_lower(a);
    let lb = to_ascii_lower(b);
    if la.len() != lb.len() {
        return false;
    }
    let r = matches_at(&la, &lb, 0);
    proof {
        assert(la@.subrange(0, lb@.len() as int) =~= la@);
    }
    r
}

/// Whether every character of `s` is an ASCII digit.
pub fn is_all_ascii_digits(s: &[char]) -> (r: bool)
    ensures
        r == forall|i: int| 0 <= i < s@.len() ==> is_digit(#[trigger] s@[i]),
{
    let mut i: usize = 0;
    while i < s.len()
        invariant
            i <= s@.len(),
            forall|k: int| 0 <= k < i ==> is_digit(#[trigger] s@[k]),
        decreases s.len() - i,
    {
        if !('0' <= s[i] && s[i] <= '9') {
            return false;
        }
        i += 1;
    }
    true
}

/// `s == lit`, comparing characters.
pub fn eq_chars(a: &[char], b: &[char]) -> (r: bool)
    ensures
        r == (a@ == b@),
{
    if a.len() != b.len() {
        return false;
    }
    let r = matches_at(a, b, 0);
    proof {
        assert(a@.subrange(0, b@.len() as int) =~= a@);
    }
    r
}

} // verus!

verus! {

// ─── Small helpers for contracts ───────────────────────────────────────────

/// The text an optional character vector holds.
pub open spec fn opt_chars(o: Option<Vec<char>>) -> Option<Seq<char>> {
    match o {
        Some(v) => Some(v@),
        None => None,
    }
}

/// The text an optional string holds.
pub open spec fn opt_string(o: Option<String>) -> Option<Seq<char>> {
    match o {
        Some(s) => Some(s@),
        None => None,
    }
}

/// The first index `i` in `from..n` that satisfies `p`.
pub open spec fn first_index(p: spec_fn(int) -> bool, from: int, n: int) -> Option<int>
    decreases n - from,
{
    if from >= n {
        None
    } else if p(from) {
        Some(from)
    } else {
        first_index(p, from + 1, n)
    }
}

pub proof fn lemma_first_index(p: spec_fn(int) -> bool, from: int, n: int)
    ensures
        match first_index(p, from, n) {
            Some(i) => from <= i < n && p(i) && forall|j: int| from <= j < i ==> !#[trigger] p(j),
            None => forall|j: int| from <= j < n ==> !#[trigger] p(j),
        },
    decreases n - from,
{
    if from < n && !p(from) {
        lemma_first_index(p, from + 1, n);
    }
}

/// Number of leading characters of `s` equal to `c`.
pub open spec fn leading_count(s: Seq<char>, c: char) -> nat
    decreases s.len(),
{
    if s.len() > 0 && s[0] == c {
        1 + leading_count(s.drop_first(), c)
    } else {
        0
    }
}

/// `s.trim_start_matches(c)`.
pub open spec fn trim_start_char(s: Seq<char>, c: char) -> Seq<char> {
    s.skip(leading_count(s, c) as int)
}

/// Number of trailing characters of `s` equal to `c`.
pub open spec fn trailing_count(s: Seq<char>, c: char) -> nat
    decreases s.len(),
{
    if s.len() > 0 && s.last() == c {
        1 + trailing_count(s.drop_last(), c)
    } else {
        0
    }
}

/// `s.trim_end_matches(c)`.
pub open spec fn trim_end_char(s: Seq<char>, c: char) -> Seq<char> {
    s.take(s.len() - trailing_count(s, c))
}

proof fn lemma_leading_count_step(s: Seq<char>, c: char, i: int)
    requires
        0 <= i <= s.len(),
        forall|k: int| 0 <= k < i ==> #[trigger] s[k] == c,
    ensures
        leading_count(s, c) == i + leading_count(s.skip(i), c),
    decreases i,
{
    if i > 0 {
        let t = s.drop_first();
        assert forall|k: int| 0 <= k < i - 1 implies #[trigger] t[k] == c by {
            assert(t[k] == s[k + 1]);
        }
        lemma_leading_count_step(t, c, i - 1);
        assert(t.skip(i - 1) =~= s.skip(i));
    } else {
        assert(s.skip(0) =~= s);
    }
}

proof fn lemma_trailing_count_step(s: Seq<char>, c: char, i: int)
    requires
        0 <= i <= s.len(),
        forall|k: int| s.len() - i <= k < s.len() ==> #[trigger] s[k] == c,
    ensures
        trailing_count(s, c) == i + trailing_count(s.take(s.len() - i), c),
    decreases i,
{
    if i > 0 {
        let t = s.drop_last();
        assert forall|k: int| t.len() - (i - 1) <= k < t.len() implies #[trigger] t[k] == c by {
            assert(t[k] == s[k]);
        }
        lemma_trailing_count_step(t, c, i - 1);
        assert(t.take(t.len() - (i - 1)) =~= s.take(s.len() - i));
    } else {
        assert(s.take(s.len() as int) =~= s);
    }
}

/// `s.trim_start_matches(c)`.
pub fn trim_start_matches_char(s: &[char], c: char) -> (r: Vec<char>)
    ensures
        r@ == trim_start_char(s@, c),
{
    let mut i: usize = 0;
    while i < s.len() && s[i] == c
        invariant
            i <= s@.len(),
            forall|k: int| 0 <= k < i ==> #[trigger] s@[k] == c,
        decreases s.len() - i,
    {
        i += 1;
    }
    proof {
        lemma_leading_count_step(s@, c, i as int);
        if i < s@.len() {
            assert(s@.skip(i as int)[0] == s@[i as int]);
        }
    }
    slice_chars(s, i, s.len())
}

/// `s.trim_end_matches(c)`.
pub fn trim_end_matches_char(s: &[char], c: char) -> (r: Vec<char>)
    ensures
        r@ == trim_end_char(s@, c),
{
    let mut n: usize = 0;
    while n < s.len() && s[s.len() - 1 - n] == c
        invariant
            n <= s@.len(),
            forall|k: int| s@.len() - n <= k < s@.len() ==> #[trigger] s@[k] == c,
        decreases s.len() - n,
    {
        n += 1;
    }
    proof {
        lemma_trailing_count_step(s@, c, n as int);
        let t = s@.take(s@.len() - n);
        if n < s@.len() {
            assert(t.last() == s@[s@.len() - n - 1]);
        }
    }
    slice_chars(s, 0, s.len() - n)
}

/// `s.strip_prefix(p)`.
pub open spec fn strip_prefix(s: Seq<char>, p: Seq<char>) -> Option<Seq<char>> {
    if starts_with(s, p) {
        Some(s.skip(p.len() as int))
    } else {
        None
    }
}

/// `s.strip_suffix(p)`.
pub open spec fn strip_suffix(s: Seq<char>, p: Seq<char>) -> Option<Seq<char>> {
    if ends_with(s, p) {
        Some(s.take(s.len() - p.len()))
    } else {
        None
    }
}

pub fn strip_prefix_chars(s: &[char], p: &[char]) -> (r: Option<Vec<char>>)
    ensures
        opt_chars(r) == strip_prefix(s@, p@),
{
    if starts_with_chars(s, p) {
        Some(slice_chars(s, p.len(), s.len()))
    } else {
        None
    }
}

pub fn strip_suffix_chars(s: &[char], p: &[char]) -> (r: Option<Vec<char>>)
    ensures
        opt_chars(r) == strip_suffix(s@, p@),
{
    if ends_with_chars(s, p) {
        Some(slice_chars(s, 0, s.len() - p.len()))
    } else {
        None
    }
}

/// `a + b` for owned texts.
pub fn append(a: Vec<char>, b: &str) -> (r: Vec<char>)
    ensures
        r@ == a@ + b@,
{
    let bc = chars_of(b);
    concat_chars(&a, &bc)
}

/// `s.replace(from, to)` with literal patterns.
pub fn replace_str(s: &[char], from: &str, to: &str) -> (r: Vec<char>)
    ensures
        r@ == replace_all(s@, from@, to@),
{
    let f = chars_of(from);
    let t = chars_of(to);
    replace_chars(s, &f, &t)
}

/// `hay.find(needle)` with a literal needle, counted in characters.
pub fn find_str(hay: &[char], needle: &str) -> (r: Option<usize>)
    ensures
        r matches Some(i) ==> find(hay@, needle@) == Some(i as int) && i + needle@.len()
            <= hay@.len(),
        r is None ==> find(hay@, needle@) is None,
{
    let n = chars_of(needle);
    find_chars(hay, &n)
}

/// `hay.starts_with(needle)` with a literal needle.
pub fn starts_with_str(hay: &[char], needle: &str) -> (b: bool)
    ensures
        b == starts_with(hay@, needle@),
{
    let n = chars_of(needle);
    starts_with_chars(hay, &n)
}

/// `hay == lit`.
pub fn eq_str(hay: &[char], lit: &str) -> (b: bool)
    ensures
        b == (hay@ == lit@),
{
    let n = chars_of(lit);
    eq_chars(hay, &n)
}

/// The text held, or `d` when there is none.
pub open spec fn or_default(o: Option<Seq<char>>, d: Seq<char>) -> Seq<char> {
    match o {
        Some(s) => s,
        None => d,
    }
}

pub(crate) fn text_or_empty(o: &Option<String>) -> (r: Vec<char>)
    ensures
        r@ == or_default(opt_string(*o), Seq::empty()),
{
    match o {
        Some(s) => chars_of(s.as_str()),
        None => Vec::new(),
    }
}

pub(crate) fn text_or(o: &Option<String>, d: &str) -> (r: Vec<char>)
    ensures
        r@ == or_default(opt_string(*o), d@),
{
    match o {
        Some(s) => chars_of(s.as_str()),
        None => chars_of(d),
    }
}

} // verus!
