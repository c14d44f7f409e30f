//! Folding overlapping copies of the same passage together. Re-selecting a sentence a few
//! times copies several overlapping pieces of it; only the most complete one is worth keeping.

use vstd::prelude::*;
use crate::text::{chars_of, contains, contains_chars, is_ws, leading_ws, trailing_ws, trim, trim_chars};

verus! {

/// Characters two pieces must share end-to-start before they count as the same passage.
pub const MIN_OVERLAP: usize = 4;

/// Beyond this length only full containment is checked.
pub const MAX_OVERLAP_CHARS: usize = 2000;

/// Overlap a piece of `n` characters needs: half of it, and at least `MIN_OVERLAP`.
pub open spec fn needed_overlap(n: int) -> int {
    if (n + 1) / 2 > MIN_OVERLAP as int {
        (n + 1) / 2
    } else {
        MIN_OVERLAP as int
    }
}

/// The last `k` characters of `x` are the first `k` of `y`.
pub open spec fn end_meets_start(x: Seq<char>, y: Seq<char>, k: int) -> bool {
    0 <= k <= x.len() && k <= y.len() && x.skip(x.len() - k) == y.take(k)
}

/// Trimmed `a` overlaps trimmed `b` end-to-start (either way round) by `k` characters.
pub open spec fn overlaps_by(a: Seq<char>, b: Seq<char>, k: int) -> bool {
    end_meets_start(a, b, k) || end_meets_start(b, a, k)
}

/// `short` adds nothing worth keeping beyond `long`: once both are trimmed, it is non-empty
/// and lies inside `long`, or (being no longer than `long` and at most `MAX_OVERLAP_CHARS`)
/// the two overlap end-to-start by at least `needed_overlap` characters and fewer than all
/// of `short`.
pub open spec fn fragment_of(short: Seq<char>, long: Seq<char>) -> bool {
    let a = trim(short);
    let b = trim(long);
    if a.len() == 0 {
        false
    } else if contains(b, a) {
        true
    } else if a.len() > b.len() || a.len() > MAX_OVERLAP_CHARS {
        false
    } else {
        exists|k: int| needed_overlap(a.len() as int) <= k < a.len() && #[trigger] overlaps_by(a, b, k)
    }
}

/// Whether the last `k` characters of `x` are the first `k` of `y`.
fn end_matches_start(x: &[char], y: &[char], k: usize) -> (r: bool)
    requires
        k <= x@.len(),
        k <= y@.len(),
    ensures
        r == end_meets_start(x@, y@, k as int),
{
    let n = x.len();
    let off = n - k;
    let mut i: usize = 0;
    while i < k
        invariant
            n == x@.len(),
            off + k == n,
            k <= y@.len(),
            i <= k,
            forall|j: int| 0 <= j < i ==> x@[off + j] == y@[j],
        decreases k - i,
    {
        if x[off + i] != y[i] {
            assert(x@.skip(x@.len() - k)[i as int] != y@.take(k as int)[i as int]);
            return false;
        }
        i += 1;
    }
    assert(x@.skip(x@.len() - k) =~= y@.take(k as int));
    true
}

/// True when `short` adds nothing worth keeping beyond `long`: it lies inside `long`, or the
/// two overlap end-to-start by at least half of `short` (and at least `MIN_OVERLAP`
/// characters). Texts that merely begin the same way, like two items of a list, are not
/// fragments. Surrounding whitespace is ignored.
pub fn is_fragment_of(short: &str, long: &str) -> (r: bool)
    ensures
        r == fragment_of(short@, long@),
{
    let a = trim_chars(&chars_of(short));
    let b = trim_chars(&chars_of(long));
    if a.len() == 0 {
        return false;
    }
    if contains_chars(&b, &a) {
        return true;
    }
    if a.len() > b.len() || a.len() > MAX_OVERLAP_CHARS {
        return false;
    }
    let need = if (a.len() + 1) / 2 > MIN_OVERLAP {
        (a.len() + 1) / 2
    } else {
        MIN_OVERLAP
    };
    let mut k = need;
    while k < a.len()
        invariant
            a@ == trim(short@),
            b@ == trim(long@),
            a@.len() <= b@.len(),
            0 < a@.len() <= MAX_OVERLAP_CHARS,
            !contains(b@, a@),
            need == needed_overlap(a@.len() as int),
            need <= k,
            forall|j: int| need <= j < k ==> !#[trigger] overlaps_by(a@, b@, j),
        decreases a.len() - k,
    {
        if end_matches_start(&a, &b, k) || end_matches_start(&b, &a, k) {
            assert(overlaps_by(a@, b@, k as int));
            assert(exists|j: int|
                needed_overlap(a@.len() as int) <= j < a@.len() && #[trigger] overlaps_by(
                    a@,
                    b@,
                    j,
                ));
            return true;
        }
        k += 1;
    }
    false
}

/// Trimming twice changes nothing more than trimming once.
pub proof fn lemma_trim_idempotent(s: Seq<char>)
    ensures
        trim(trim(s)) == trim(s),
{
    let t = trim(s);
    lemma_trim_shape(s);
    if t.len() > 0 {
        assert(!is_ws(t[0]));
        assert(!is_ws(t.last()));
        assert(leading_ws(t) == 0);
        assert(t.skip(0) =~= t);
        assert(trailing_ws(t) == 0);
        assert(t.take(t.len() as int) =~= t);
    } else {
        assert(trim(t) =~= t);
    }
}

/// A trimmed text neither starts nor ends with whitespace.
pub proof fn lemma_trim_shape(s: Seq<char>)
    ensures
        trim(s).len() > 0 ==> !is_ws(trim(s)[0]) && !is_ws(trim(s).last()),
        trim(s).len() <= s.len(),
{
    crate::text::lemma_trim_facts(s);
}

/// Law: surrounding whitespace on either text never changes the answer.
pub proof fn law_fragment_ignores_surrounding_whitespace(short: Seq<char>, long: Seq<char>)
    ensures
        fragment_of(short, long) == fragment_of(trim(short), trim(long)),
{
    lemma_trim_idempotent(short);
    lemma_trim_idempotent(long);
}

/// Law: a non-empty piece that lies inside the fuller copy is a fragment of it.
pub proof fn law_contained_piece_is_fragment(short: Seq<char>, long: Seq<char>)
    requires
        trim(short).len() > 0,
        contains(trim(long), trim(short)),
    ensures
        fragment_of(short, long),
{
}

/// Law: a text that is empty or only whitespace is never a fragment.
pub proof fn law_blank_is_never_fragment(short: Seq<char>, long: Seq<char>)
    requires
        trim(short).len() == 0,
    ensures
        !fragment_of(short, long),
{
}

} // verus!
