//! The fuzzy matcher: whether a query matches a text, as skim's matcher decides.
use fuzzy_matcher::skim::SkimMatcherV2;
use fuzzy_matcher::FuzzyMatcher;
use vstd::prelude::*;

verus! {

/// The score that skim's matcher, with its default settings, gives `pattern`
/// against `choice`.
pub uninterp spec fn skim_score(choice: Seq<char>, pattern: Seq<char>) -> Option<i64>;

pub open spec fn is_ascii_upper(c: char) -> bool {
    65 <= (c as u32) && (c as u32) <= 90
}

/// The character with ASCII capitals mapped to lower case.
pub open spec fn ascii_fold(c: char) -> int {
    if is_ascii_upper(c) {
        (c as u32) + 32
    } else {
        (c as u32) as int
    }
}

/// Smart case: a pattern with an ASCII capital letter is matched case-sensitively.
pub open spec fn has_ascii_upper(p: Seq<char>) -> bool {
    exists|i: int| 0 <= i < p.len() && is_ascii_upper(#[trigger] p[i])
}

pub open spec fn chars_agree(a: char, b: char, case_sensitive: bool) -> bool {
    if case_sensitive {
        a == b
    } else {
        ascii_fold(a) == ascii_fold(b)
    }
}

/// Each pattern character found, in order, at the first place after the
/// previous one.
pub open spec fn greedy_match(choice: Seq<char>, pattern: Seq<char>, case_sensitive: bool) -> bool
    decreases choice.len(),
{
    if pattern.len() == 0 {
        true
    } else if choice.len() == 0 {
        false
    } else if chars_agree(choice[0], pattern[0], case_sensitive) {
        greedy_match(choice.drop_first(), pattern.drop_first(), case_sensitive)
    } else {
        greedy_match(choice.drop_first(), pattern, case_sensitive)
    }
}

/// Whether skim's matcher gives `pattern` a score against `choice`.
pub open spec fn skim_accepts(choice: Seq<char>, pattern: Seq<char>) -> bool {
    greedy_match(choice, pattern, has_ascii_upper(pattern))
}

/// Relies on `SkimMatcherV2::fuzzy_match` with the default settings (smart
/// case): an empty pattern scores at once; otherwise a score comes back
/// exactly when `cheap_matches` finds every pattern character in order,
/// comparing with `eq_ignore_ascii_case` unless the pattern holds an ASCII
/// capital letter. The score itself is named, not stated.
#[verifier::external_body]
pub(crate) fn skim_fuzzy_match(choice: &str, pattern: &str) -> (r: Option<i64>)
    ensures
        r == skim_score(choice@, pattern@),
        r is Some <==> skim_accepts(choice@, pattern@),
{
    SkimMatcherV2::default().fuzzy_match(choice, pattern)
}

/// Whether `pattern` fuzzy-matches `choice`.
pub fn fuzzy_matches(choice: &str, pattern: &str) -> (r: bool)
    ensures
        r == skim_accepts(choice@, pattern@),
{
    skim_fuzzy_match(choice, pattern).is_some()
}

/// `idx` places the characters of `p`, in order, in `c`.
pub open spec fn places_in_order(p: Seq<char>, c: Seq<char>, idx: Seq<int>) -> bool {
    &&& idx.len() == p.len()
    &&& forall|j: int| 0 <= j < p.len() ==> 0 <= #[trigger] idx[j] < c.len() && c[idx[j]] == p[j]
    &&& forall|i: int, j: int| 0 <= i < j < p.len() ==> #[trigger] idx[i] < #[trigger] idx[j]
}

/// `p` is an ordered, not necessarily contiguous, subsequence of `c`.
pub open spec fn is_subsequence(p: Seq<char>, c: Seq<char>) -> bool {
    exists|idx: Seq<int>| places_in_order(p, c, idx)
}

proof fn lemma_greedy_complete(c: Seq<char>, p: Seq<char>, cs: bool, idx: Seq<int>)
    requires
        places_in_order(p, c, idx),
    ensures
        greedy_match(c, p, cs),
    decreases c.len(),
{
    if p.len() > 0 {
        assert(0 <= idx[0] < c.len());
        if chars_agree(c[0], p[0], cs) {
            let idx2 = idx.drop_first().map_values(|v: int| v - 1);
            assert forall|j: int| 0 <= j < p.len() - 1 implies 0 <= #[trigger] idx2[j] < c.len() - 1
                && c.drop_first()[idx2[j]] == p.drop_first()[j] by {
                assert(idx[0] < idx[j + 1]);
            }
            assert forall|i: int, j: int| 0 <= i < j < p.len() - 1 implies #[trigger] idx2[i]
                < #[trigger] idx2[j] by {
                assert(idx[i + 1] < idx[j + 1]);
            }
            lemma_greedy_complete(c.drop_first(), p.drop_first(), cs, idx2);
        } else {
            assert(idx[0] != 0);
            let idx2 = idx.map_values(|v: int| v - 1);
            assert forall|j: int| 0 <= j < p.len() implies 0 <= #[trigger] idx2[j] < c.len() - 1
                && c.drop_first()[idx2[j]] == p[j] by {
                if j > 0 {
                    assert(idx[0] < idx[j]);
                }
            }
            assert forall|i: int, j: int| 0 <= i < j < p.len() implies #[trigger] idx2[i]
                < #[trigger] idx2[j] by {
                assert(idx[i] < idx[j]);
            }
            lemma_greedy_complete(c.drop_first(), p, cs, idx2);
        }
    }
}

/// A query that occurs in a text as an ordered subsequence, contiguous or
/// not, is always accepted by the matcher.
pub proof fn lemma_subsequence_accepted(c: Seq<char>, p: Seq<char>)
    requires
        is_subsequence(p, c),
    ensures
        skim_accepts(c, p),
{
    let idx = choose|idx: Seq<int>| places_in_order(p, c, idx);
    lemma_greedy_complete(c, p, has_ascii_upper(p), idx);
}

/// The empty query is accepted by every text.
pub proof fn lemma_empty_query_accepted(c: Seq<char>)
    ensures
        skim_accepts(c, Seq::<char>::empty()),
{
}

proof fn lemma_greedy_sound(c: Seq<char>, p: Seq<char>)
    requires
        greedy_match(c, p, true),
    ensures
        is_subsequence(p, c),
    decreases c.len(),
{
    if p.len() == 0 {
        assert(places_in_order(p, c, Seq::<int>::empty()));
    } else if c[0] == p[0] {
        lemma_greedy_sound(c.drop_first(), p.drop_first());
        let idx1 = choose|idx: Seq<int>| places_in_order(p.drop_first(), c.drop_first(), idx);
        let idx = seq![0int] + idx1.map_values(|v: int| v + 1);
        assert forall|j: int| 0 <= j < p.len() implies 0 <= #[trigger] idx[j] < c.len() && c[idx[j]]
            == p[j] by {
            if j > 0 {
                assert(idx[j] == idx1[j - 1] + 1);
            }
        }
        assert forall|i: int, j: int| 0 <= i < j < p.len() implies #[trigger] idx[i]
            < #[trigger] idx[j] by {
            assert(idx[j] == idx1[j - 1] + 1);
            if i > 0 {
                assert(idx[i] == idx1[i - 1] + 1);
                assert(idx1[i - 1] < idx1[j - 1]);
            } else {
                assert(0 <= idx1[j - 1]);
            }
        }
        assert(places_in_order(p, c, idx));
    } else {
        lemma_greedy_sound(c.drop_first(), p);
        let idx1 = choose|idx: Seq<int>| places_in_order(p, c.drop_first(), idx);
        let idx = idx1.map_values(|v: int| v + 1);
        assert forall|j: int| 0 <= j < p.len() implies 0 <= #[trigger] idx[j] < c.len() && c[idx[j]]
            == p[j] by {
            assert(0 <= idx1[j] < c.len() - 1);
        }
        assert forall|i: int, j: int| 0 <= i < j < p.len() implies #[trigger] idx[i]
            < #[trigger] idx[j] by {
            assert(idx1[i] < idx1[j]);
        }
        assert(places_in_order(p, c, idx));
    }
}

/// A query with an ASCII capital letter is matched case-sensitively, and is
/// then accepted only by a text that holds it as an ordered subsequence.
pub proof fn lemma_case_sensitive_accepted_is_subsequence(c: Seq<char>, p: Seq<char>)
    requires
        has_ascii_upper(p),
        skim_accepts(c, p),
    ensures
        is_subsequence(p, c),
{
    lemma_greedy_sound(c, p);
}

} // verus!
