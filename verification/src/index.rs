//! The project directory index rebuilt from a scan of the workspaces: sorted
//! by path, one record per path, usage carried over from the previous index.

use vstd::prelude::*;
use crate::models::DirectoryRecord;
use crate::order::{compare_chars, lemma_lex_asymmetric, lemma_lex_irreflexive, lemma_lex_transitive, lex_lt};
use crate::text::chars_of;

verus! {

/// `i` is the first scanned record with path `path`.
pub open spec fn first_scanned(s: Seq<DirectoryRecord>, path: Seq<char>, i: int) -> bool {
    &&& 0 <= i < s.len()
    &&& s[i].path@ == path
    &&& forall|k: int| 0 <= k < i ==> s[k].path@ != path
}

/// `i` is the last previous record with path `path`.
pub open spec fn last_previous(p: Seq<DirectoryRecord>, path: Seq<char>, i: int) -> bool {
    &&& 0 <= i < p.len()
    &&& p[i].path@ == path
    &&& forall|k: int| i < k < p.len() ==> p[k].path@ != path
}

/// `rec` with the usage of the last previous record that has its path.
pub open spec fn restored(rec: DirectoryRecord, previous: Seq<DirectoryRecord>) -> DirectoryRecord {
    if exists|i: int| last_previous(previous, rec.path@, i) {
        let i = choose|i: int| last_previous(previous, rec.path@, i);
        DirectoryRecord {
            use_count: previous[i].use_count,
            last_used_at: previous[i].last_used_at,
            ..rec
        }
    } else {
        rec
    }
}

/// Paths strictly increasing.
pub open spec fn strictly_sorted(r: Seq<DirectoryRecord>) -> bool {
    forall|a: int, b: int| 0 <= a < b < r.len() ==> lex_lt(r[a].path@, r[b].path@)
}

/// Some record of `r` has path `path`.
pub open spec fn has_path(r: Seq<DirectoryRecord>, path: Seq<char>) -> bool {
    exists|a: int| 0 <= a < r.len() && #[trigger] r[a].path@ == path
}

/// Every one of the first `n` scanned paths is in `r`.
pub open spec fn covers(r: Seq<DirectoryRecord>, scanned: Seq<DirectoryRecord>, n: int) -> bool {
    forall|i: int| 0 <= i < n ==> has_path(r, #[trigger] scanned[i].path@)
}

/// The rebuilt index: the scanned records sorted by path, each path kept at
/// its first scanned occurrence, with the usage that the previous index held
/// for that path (its last record with that path).
pub open spec fn is_rebuilt_index(
    r: Seq<DirectoryRecord>,
    scanned: Seq<DirectoryRecord>,
    previous: Seq<DirectoryRecord>,
) -> bool {
    &&& strictly_sorted(r)
    &&& covers(r, scanned, scanned.len() as int)
    &&& forall|a: int| 0 <= a < r.len() ==> from_first_scan(#[trigger] r[a], scanned, previous)
}

/// `rec` is the first scanned record with its path, with restored usage.
pub open spec fn from_first_scan(rec: DirectoryRecord, scanned: Seq<DirectoryRecord>, previous: Seq<DirectoryRecord>) -> bool {
    exists|i: int| first_scanned(scanned, rec.path@, i) && rec == restored(scanned[i], previous)
}

/// `rec` is the first scanned record with its path, among the first `n`.
pub open spec fn first_scanned_before(rec: DirectoryRecord, scanned: Seq<DirectoryRecord>, n: int) -> bool {
    exists|k: int| 0 <= k < n && first_scanned(scanned, rec.path@, k) && rec == scanned[k]
}

/// Where a path goes in a strictly sorted sequence: `Ok(pos)` when absent,
/// `Err(())` when present.
fn find_slot(r: &Vec<DirectoryRecord>, path: &String) -> (res: Result<usize, ()>)
    requires
        strictly_sorted(r@),
    ensures
        res is Err ==> has_path(r@, path@),
        res matches Ok(pos) ==> pos <= r@.len() && (forall|a: int| 0 <= a < pos ==> lex_lt(
            r@[a].path@,
            path@,
        )) && (forall|a: int| pos <= a < r@.len() ==> lex_lt(path@, r@[a].path@)),
{
    let target = chars_of(path.as_str());
    let mut pos: usize = 0;
    while pos < r.len()
        invariant
            pos <= r@.len(),
            strictly_sorted(r@),
            target@ == path@,
            forall|a: int| 0 <= a < pos ==> lex_lt(r@[a].path@, path@),
        decreases r.len() - pos,
    {
        let here = chars_of(r[pos].path.as_str());
        let c = compare_chars(&here, &target);
        if c == 0 {
            return Err(());
        }
        if c > 0 {
            assert forall|a: int| pos <= a < r@.len() implies lex_lt(path@, r@[a].path@) by {
                if a > pos {
                    lemma_lex_transitive(path@, r@[pos as int].path@, r@[a].path@);
                }
            }
            return Ok(pos);
        }
        pos = pos + 1;
    }
    Ok(pos)
}

/// The usage of the last previous record with `path`, if any.
fn last_usage(previous: &Vec<DirectoryRecord>, path: &String) -> (res: Option<(u32, Option<u64>)>)
    ensures
        match res {
            Some((c, u)) => exists|i: int|
                last_previous(previous@, path@, i) && previous@[i].use_count == c
                    && previous@[i].last_used_at == u,
            None => !exists|i: int| last_previous(previous@, path@, i),
        },
{
    let mut i = previous.len();
    while i > 0
        invariant
            i <= previous@.len(),
            forall|k: int| i <= k < previous@.len() ==> previous@[k].path@ != path@,
        decreases i,
    {
        if previous[i - 1].path == *path {
            assert(last_previous(previous@, path@, i - 1));
            return Some((previous[i - 1].use_count, previous[i - 1].last_used_at));
        }
        i = i - 1;
    }
    None
}

/// Rebuilds the directory index from `scanned` (the records the scan found,
/// in scan order), carrying over usage counts and times from `previous`.
pub fn rebuild_index(scanned: &Vec<DirectoryRecord>, previous: &Vec<DirectoryRecord>) -> (r: Vec<
    DirectoryRecord,
>)
    ensures
        is_rebuilt_index(r@, scanned@, previous@),
{
    let mut r: Vec<DirectoryRecord> = Vec::new();
    let mut i: usize = 0;
    while i < scanned.len()
        invariant
            i <= scanned@.len(),
            strictly_sorted(r@),
            covers(r@, scanned@, i as int),
            forall|a: int| 0 <= a < r@.len() ==> first_scanned_before(#[trigger] r@[a], scanned@, i as int),
        decreases scanned.len() - i,
    {
        let ghost before = r@;
        match find_slot(&r, &scanned[i].path) {
            Err(()) => {
                assert(covers(r@, scanned@, i + 1));
            },
            Ok(pos) => {
                let record = scanned[i].clone();
                proof {
                    assert forall|k: int| 0 <= k < i implies scanned@[k].path@ != scanned@[i as int].path@ by {
                        if scanned@[k].path@ == scanned@[i as int].path@ {
                            assert(has_path(before, scanned@[k].path@));
                            let a = choose|a: int| 0 <= a < before.len() && before[a].path@ == scanned@[k].path@;
                            lemma_lex_irreflexive(before[a].path@);
                            if a < pos {
                            } else {
                            }
                        }
                    }
                    assert(first_scanned(scanned@, scanned@[i as int].path@, i as int));
                }
                r.insert(pos, record);
                assert(r@ =~= before.insert(pos as int, record));
                proof {
                    assert forall|a: int, b: int| 0 <= a < b < r@.len() implies lex_lt(r@[a].path@, r@[b].path@) by {
                        if b < pos {
                            assert(r@[a] == before[a] && r@[b] == before[b]);
                        } else if b == pos {
                            assert(r@[a] == before[a]);
                        } else if a < pos {
                            assert(r@[a] == before[a] && r@[b] == before[b - 1]);
                            lemma_lex_transitive(before[a].path@, record.path@, before[b - 1].path@);
                        } else if a == pos {
                            assert(r@[b] == before[b - 1]);
                        } else {
                            assert(r@[a] == before[a - 1] && r@[b] == before[b - 1]);
                        }
                    }
                    assert forall|k: int| 0 <= k < i + 1 implies has_path(r@, #[trigger] scanned@[k].path@) by {
                        if k < i {
                            let a = choose|a: int| 0 <= a < before.len() && before[a].path@ == scanned@[k].path@;
                            if a < pos {
                                assert(r@[a] == before[a]);
                                assert(r@[a].path@ == scanned@[k].path@);
                            } else {
                                assert(r@[a + 1] == before[a]);
                                assert(r@[a + 1].path@ == scanned@[k].path@);
                            }
                        } else {
                            assert(r@[pos as int] == record);
                            assert(r@[pos as int].path@ == scanned@[k].path@);
                        }
                    }
                    assert forall|a: int| 0 <= a < r@.len() implies first_scanned_before(#[trigger] r@[a], scanned@, i + 1) by {
                        if a < pos {
                            assert(r@[a] == before[a]);
                            assert(first_scanned_before(before[a], scanned@, i as int));
                        } else if a == pos {
                            assert(r@[a] == scanned@[i as int]);
                        } else {
                            assert(r@[a] == before[a - 1]);
                            assert(first_scanned_before(before[a - 1], scanned@, i as int));
                        }
                    }
                }
            },
        }
        i = i + 1;
    }
    let ghost sorted = r@;
    let mut a: usize = 0;
    while a < r.len()
        invariant
            r@.len() == sorted.len(),
            a <= r@.len(),
            forall|b: int| 0 <= b < r@.len() ==> r@[b].path@ == sorted[b].path@,
            forall|b: int| 0 <= b < a ==> r@[b] == restored(sorted[b], previous@),
            forall|b: int| a <= b < r@.len() ==> r@[b] == sorted[b],
        decreases r.len() - a,
    {
        let mut record = r[a].clone();
        match last_usage(previous, &record.path) {
            Some((count, used)) => {
                record.use_count = count;
                record.last_used_at = used;
                proof {
                    let k = choose|k: int| last_previous(previous@, sorted[a as int].path@, k) && previous@[k].use_count == count && previous@[k].last_used_at == used;
                    let c = choose|c: int| last_previous(previous@, sorted[a as int].path@, c);
                    assert(c == k) by {
                        if c < k {
                        } else if c > k {
                        }
                    }
                }
            },
            None => {},
        }
        assert(record == restored(sorted[a as int], previous@));
        r.set(a, record);
        a = a + 1;
    }
    proof {
        assert forall|x: int, y: int| 0 <= x < y < r@.len() implies lex_lt(r@[x].path@, r@[y].path@) by {
            assert(lex_lt(sorted[x].path@, sorted[y].path@));
        }
        assert forall|k: int| 0 <= k < scanned@.len() implies has_path(r@, #[trigger] scanned@[k].path@) by {
            assert(has_path(sorted, scanned@[k].path@));
            let b = choose|b: int| 0 <= b < sorted.len() && sorted[b].path@ == scanned@[k].path@;
            assert(r@[b].path@ == sorted[b].path@);
            assert(r@[b].path@ == scanned@[k].path@);
        }
        assert forall|b: int| 0 <= b < r@.len() implies from_first_scan(#[trigger] r@[b], scanned@, previous@) by {
            assert(first_scanned_before(sorted[b], scanned@, scanned@.len() as int));
            let k = choose|k: int| 0 <= k < scanned@.len() && first_scanned(scanned@, sorted[b].path@, k) && sorted[b] == scanned@[k];
            assert(r@[b] == restored(sorted[b], previous@));
            assert(r@[b] == restored(scanned@[k], previous@));
        }
    }
    r
}

} // verus!
