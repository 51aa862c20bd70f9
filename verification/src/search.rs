//! How well a project directory's name and path match a typed query.

use vstd::prelude::*;
use crate::text::{chars_of, contains_exec, contains_seq, starts_with, starts_with_exec, str_eq, to_lowercase, unicode_lowercase};

verus! {

/// One character of the haystack read by the subsequence scan: `state` is
/// (characters of the needle matched so far, characters skipped since the
/// first match).
spec fn scan_step(needle: Seq<char>, state: (nat, nat), c: char) -> (nat, nat) {
    if state.0 < needle.len() && needle[state.0 as int] == c {
        ((state.0 + 1) as nat, state.1)
    } else if state.0 > 0 {
        (state.0, state.1 + 1)
    } else {
        state
    }
}

/// The scan state after reading all of `hay`.
spec fn scan(needle: Seq<char>, hay: Seq<char>) -> (nat, nat)
    decreases hay.len(),
{
    if hay.len() == 0 {
        (0, 0)
    } else {
        scan_step(needle, scan(needle, hay.drop_last()), hay.last())
    }
}

/// The fuzzy score as the scan computes it.
spec fn scan_score(needle: Seq<char>, hay: Seq<char>) -> Option<u32> {
    if needle.len() == 0 {
        Some(0)
    } else {
        let (matched, gaps) = scan(needle, hay);
        if matched == needle.len() {
            Some((40 - if gaps > 30 {
                30
            } else {
                gaps
            }) as u32)
        } else {
            None
        }
    }
}

/// The score of a fuzzy match of `needle` against `hay`: `None` unless the
/// needle's characters occur in `hay` in order; otherwise 40 less the
/// characters skipped from the first occurrence of the needle's first
/// character on (at most 30 are counted). An empty needle scores 0.
pub open spec fn spec_subsequence_score(needle: Seq<char>, hay: Seq<char>) -> Option<u32> {
    if needle.len() == 0 {
        Some(0)
    } else if is_subsequence(needle, hay) {
        let skipped = hay.len() - first_index(hay, needle[0]) - needle.len();
        Some((40 - if skipped > 30 {
            30
        } else {
            skipped
        }) as u32)
    } else {
        None
    }
}

/// The text score of a directory for a lower-case needle: 100 for the exact
/// name, 70 for a name that starts with it, 55 for one that contains it, and
/// otherwise the fuzzy score against the path.
pub open spec fn spec_text_score(needle: Seq<char>, name: Seq<char>, path: Seq<char>) -> Option<u32> {
    if name == needle {
        Some(100)
    } else if starts_with(name, needle) {
        Some(70)
    } else if contains_seq(name, needle) {
        Some(55)
    } else {
        spec_subsequence_score(needle, path)
    }
}

proof fn lemma_scan_bounds(needle: Seq<char>, hay: Seq<char>)
    ensures
        scan(needle, hay).0 <= needle.len(),
        scan(needle, hay).0 <= hay.len(),
        scan(needle, hay).1 <= hay.len(),
    decreases hay.len(),
{
    if hay.len() > 0 {
        lemma_scan_bounds(needle, hay.drop_last());
    }
}

/// The fuzzy score of `needle` against `haystack`.
pub fn subsequence_score(needle: &str, haystack: &str) -> (r: Option<u32>)
    ensures
        r == spec_subsequence_score(needle@, haystack@),
{
    let target = chars_of(needle);
    if target.len() == 0 {
        return Some(0);
    }
    let hay = chars_of(haystack);
    let mut index: usize = 0;
    let mut gaps: usize = 0;
    let mut i: usize = 0;
    assert(hay@.subrange(0, 0) =~= Seq::<char>::empty());
    while i < hay.len()
        invariant
            i <= hay@.len(),
            (index as nat, gaps as nat) == scan(target@, hay@.subrange(0, i as int)),
            index <= target@.len(),
            gaps <= i,
        decreases hay.len() - i,
    {
        proof {
            assert(hay@.subrange(0, i + 1).drop_last() =~= hay@.subrange(0, i as int));
        }
        let value = hay[i];
        if index < target.len() && target[index] == value {
            index = index + 1;
        } else if index > 0 {
            gaps = gaps + 1;
        }
        i = i + 1;
    }
    assert(hay@.subrange(0, hay@.len() as int) =~= hay@);
    proof {
        lemma_scan_score_is_direct(target@, hay@);
    }
    if index == target.len() {
        let counted: u32 = if gaps > 30 {
            30
        } else {
            gaps as u32
        };
        Some(40 - counted)
    } else {
        None
    }
}

/// The text score of a directory named `name` at `path` for `needle`, the
/// three already in lower case.
pub fn lowered_text_score(needle: &str, name: &str, path: &str) -> (r: Option<u32>)
    ensures
        r == spec_text_score(needle@, name@, path@),
{
    if str_eq(name, needle) {
        return Some(100);
    }
    let name_chars = chars_of(name);
    let needle_chars = chars_of(needle);
    if starts_with_exec(&name_chars, &needle_chars) {
        return Some(70);
    }
    if contains_exec(&name_chars, &needle_chars) {
        return Some(55);
    }
    subsequence_score(needle, path)
}

/// The text score of a directory named `name` at `path` for `query`, all
/// three compared in lower case.
pub fn text_score(query: &str, name: &str, path: &str) -> (r: Option<u32>)
    ensures
        r == spec_text_score(unicode_lowercase(query@), unicode_lowercase(name@), unicode_lowercase(path@)),
{
    let needle = to_lowercase(query);
    let lowered_name = to_lowercase(name);
    let lowered_path = to_lowercase(path);
    lowered_text_score(needle.as_str(), lowered_name.as_str(), lowered_path.as_str())
}

/// A directory whose name is the needle scores above every directory whose
/// name is not: 100 against at most 70.
pub proof fn lemma_exact_name_scores_highest(needle: Seq<char>, path: Seq<char>, other: Seq<char>, other_path: Seq<char>)
    requires
        other != needle,
    ensures
        spec_text_score(needle, needle, path) == Some(100u32),
        spec_text_score(needle, other, other_path) matches Some(s) ==> s <= 70,
{
    lemma_scan_score_is_direct(needle, other_path);
    lemma_scan_bounds(needle, other_path);
}

/// The characters of `needle` occur in `hay` in order, at the strictly
/// increasing positions `pos`.
pub open spec fn occurs_in_order(needle: Seq<char>, hay: Seq<char>, pos: Seq<int>) -> bool {
    &&& pos.len() == needle.len()
    &&& forall|i: int| 0 <= i < pos.len() ==> 0 <= #[trigger] pos[i] < hay.len() && hay[pos[i]] == needle[i]
    &&& forall|i: int, j: int| 0 <= i < j < pos.len() ==> #[trigger] pos[i] < #[trigger] pos[j]
}

/// `needle` is a subsequence of `hay`.
pub open spec fn is_subsequence(needle: Seq<char>, hay: Seq<char>) -> bool {
    exists|pos: Seq<int>| occurs_in_order(needle, hay, pos)
}

proof fn lemma_scan_monotone(needle: Seq<char>, hay: Seq<char>)
    requires
        hay.len() > 0,
    ensures
        scan(needle, hay.drop_last()).0 <= scan(needle, hay).0,
{
}

/// The scan has matched the first `scan(..).0` characters of the needle.
proof fn lemma_scan_sound(needle: Seq<char>, hay: Seq<char>)
    ensures
        scan(needle, hay).0 <= needle.len(),
        is_subsequence(needle.take(scan(needle, hay).0 as int), hay),
    decreases hay.len(),
{
    let k = scan(needle, hay).0;
    if hay.len() == 0 {
        let pos = Seq::<int>::empty();
        assert(occurs_in_order(needle.take(0), hay, pos));
    } else {
        let rest = hay.drop_last();
        lemma_scan_sound(needle, rest);
        let k0 = scan(needle, rest).0;
        let pos0 = choose|pos: Seq<int>| occurs_in_order(needle.take(k0 as int), rest, pos);
        if k == k0 {
            assert(occurs_in_order(needle.take(k as int), hay, pos0)) by {
                assert forall|i: int| 0 <= i < pos0.len() implies 0 <= #[trigger] pos0[i] < hay.len()
                    && hay[pos0[i]] == needle.take(k as int)[i] by {
                    assert(rest[pos0[i]] == hay[pos0[i]]);
                }
            }
        } else {
            let pos = pos0.push(hay.len() - 1);
            assert(occurs_in_order(needle.take(k as int), hay, pos)) by {
                assert forall|i: int| 0 <= i < pos.len() implies 0 <= #[trigger] pos[i] < hay.len()
                    && hay[pos[i]] == needle.take(k as int)[i] by {
                    if i < pos0.len() {
                        assert(pos[i] == pos0[i]);
                        assert(rest[pos0[i]] == hay[pos0[i]]);
                    }
                }
                assert forall|i: int, j: int| 0 <= i < j < pos.len() implies #[trigger] pos[i]
                    < #[trigger] pos[j] by {
                    if j < pos0.len() {
                        assert(pos[i] == pos0[i] && pos[j] == pos0[j]);
                    } else {
                        assert(pos[i] == pos0[i]);
                        assert(0 <= pos0[i] < rest.len());
                    }
                }
            }
        }
    }
}

/// Whatever prefix of the needle occurs in order in the haystack, the scan
/// matches at least that much.
proof fn lemma_scan_complete(needle: Seq<char>, hay: Seq<char>, k: int, pos: Seq<int>)
    requires
        0 <= k <= needle.len(),
        occurs_in_order(needle.take(k), hay, pos),
    ensures
        scan(needle, hay).0 >= k,
    decreases hay.len(),
{
    if k == 0 {
        return;
    }
    if hay.len() == 0 {
        assert(0 <= pos[0] < hay.len());
        return;
    }
    let rest = hay.drop_last();
    let last = pos[k - 1];
    assert(0 <= last < hay.len());
    if last == hay.len() - 1 {
        let pos0 = pos.take(k - 1);
        assert(occurs_in_order(needle.take(k - 1), rest, pos0)) by {
            assert forall|i: int| 0 <= i < pos0.len() implies 0 <= #[trigger] pos0[i] < rest.len()
                && rest[pos0[i]] == needle.take(k - 1)[i] by {
                assert(pos0[i] == pos[i]);
                assert(pos[i] < pos[k - 1]);
                assert(needle.take(k)[i] == needle[i]);
            }
            assert forall|i: int, j: int| 0 <= i < j < pos0.len() implies #[trigger] pos0[i]
                < #[trigger] pos0[j] by {
                assert(pos0[i] == pos[i] && pos0[j] == pos[j]);
            }
        }
        lemma_scan_complete(needle, rest, k - 1, pos0);
        lemma_scan_bounds(needle, rest);
        assert(hay.last() == needle.take(k)[k - 1]);
    } else {
        assert(occurs_in_order(needle.take(k), rest, pos)) by {
            assert forall|i: int| 0 <= i < pos.len() implies 0 <= #[trigger] pos[i] < rest.len()
                && rest[pos[i]] == needle.take(k)[i] by {
                if i < k - 1 {
                    assert(pos[i] < pos[k - 1]);
                }
            }
        }
        lemma_scan_complete(needle, rest, k, pos);
        lemma_scan_monotone(needle, hay);
    }
}

/// The position of the first `c` in `s`, or -1.
pub open spec fn first_index(s: Seq<char>, c: char) -> int
    decreases s.len(),
{
    if s.len() == 0 {
        -1
    } else {
        let before = first_index(s.drop_last(), c);
        if before >= 0 {
            before
        } else if s.last() == c {
            s.len() - 1
        } else {
            -1
        }
    }
}

/// Once the needle's first character is found, every later character of the
/// haystack is either matched or counted as skipped.
proof fn lemma_scan_skips(needle: Seq<char>, hay: Seq<char>)
    requires
        needle.len() > 0,
    ensures
        (scan(needle, hay).0 == 0) == (first_index(hay, needle[0]) < 0),
        scan(needle, hay).0 == 0 ==> scan(needle, hay).1 == 0,
        scan(needle, hay).0 > 0 ==> scan(needle, hay).1 + scan(needle, hay).0 + first_index(hay, needle[0])
            == hay.len(),
        first_index(hay, needle[0]) < hay.len(),
    decreases hay.len(),
{
    if hay.len() > 0 {
        lemma_scan_skips(needle, hay.drop_last());
    }
}

/// The scan computes the fuzzy score: it finds every in-order occurrence,
/// and counts each character skipped after the first match.
proof fn lemma_scan_score_is_direct(needle: Seq<char>, hay: Seq<char>)
    ensures
        scan_score(needle, hay) == spec_subsequence_score(needle, hay),
{
    lemma_scan_sound(needle, hay);
    let k = scan(needle, hay).0;
    if k == needle.len() {
        assert(needle.take(k as int) =~= needle);
    }
    if is_subsequence(needle, hay) {
        let pos = choose|pos: Seq<int>| occurs_in_order(needle, hay, pos);
        assert(needle.take(needle.len() as int) =~= needle);
        lemma_scan_complete(needle, hay, needle.len() as int, pos);
    }
    if needle.len() > 0 {
        lemma_scan_skips(needle, hay);
    }
}

/// Every needle that occurs in order has a fuzzy score, between 10 and 40
/// (0 for the empty needle), and no other needle has one.
pub proof fn lemma_fuzzy_score_bounds(needle: Seq<char>, hay: Seq<char>)
    ensures
        spec_subsequence_score(needle, hay) is Some <==> needle.len() == 0 || is_subsequence(needle, hay),
        spec_subsequence_score(needle, hay) matches Some(s) ==> s <= 40 && (needle.len() > 0 ==> s >= 10),
{
    lemma_scan_score_is_direct(needle, hay);
    lemma_scan_bounds(needle, hay);
}

/// A name that begins with the needle, without being it, scores 70; a name
/// that holds the needle anywhere else as a contiguous part, without beginning
/// with it or being it, scores 55; neither depends on the path.
pub proof fn lemma_name_parts_score(needle: Seq<char>, name: Seq<char>, path: Seq<char>, at: int)
    requires
        name != needle,
        0 <= at,
        at + needle.len() <= name.len(),
        name.subrange(at, at + needle.len()) == needle,
    ensures
        name.subrange(0, needle.len() as int) == needle ==> spec_text_score(needle, name, path) == Some(70u32),
        name.subrange(0, needle.len() as int) != needle ==> spec_text_score(needle, name, path) == Some(55u32),
{
    assert(crate::text::occurs_at(name, needle, at));
    if name.subrange(0, needle.len() as int) == needle {
        assert(crate::text::occurs_at(name, needle, 0));
    }
}

} // verus!
