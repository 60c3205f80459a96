//! Trimming lists of search results: which to keep when identifiers
//! repeat, which come from a given source, and which fall on a page. The
//! results themselves, with their scores, stay with the caller; these
//! functions answer with positions in the list.
use vstd::prelude::*;
use crate::text::{contains_string, str_eq};

verus! {

/// `r` lists, in increasing order, exactly the positions below `n` that
/// satisfy `keep`.
pub open spec fn lists_positions(r: Seq<usize>, n: nat, keep: spec_fn(int) -> bool) -> bool {
    &&& forall|a: int, b: int| 0 <= a < b < r.len() ==> r[a] < r[b]
    &&& forall|a: int| 0 <= a < r.len() ==> r[a] < n && keep(r[a] as int)
    &&& forall|k: int| 0 <= k < n && #[trigger] keep(k) ==> r.contains(k as usize)
}

/// The identifier at position `k` does not occur before it.
pub open spec fn first_occurrence(ids: Seq<String>, k: int) -> bool {
    !ids.take(k).map_values(|s: String| s@).contains(ids[k]@)
}

/// The positions of the results to keep when results share an identifier:
/// the first result with each identifier (see [`first_occurrence`]).
pub fn deduplicate_positions(ids: &Vec<String>) -> (r: Vec<usize>)
    ensures
        lists_positions(r@, ids@.len(), |k: int| first_occurrence(ids@, k)),
{
    let ghost keep = |k: int| first_occurrence(ids@, k);
    let mut seen: Vec<String> = Vec::new();
    let mut r: Vec<usize> = Vec::new();
    let mut i: usize = 0;
    while i < ids.len()
        invariant
            keep == (|k: int| first_occurrence(ids@, k)),
            i <= ids@.len(),
            seen.deep_view() == ids@.take(i as int).map_values(|s: String| s@),
            lists_positions(r@, i as nat, keep),
            forall|a: int| 0 <= a < r@.len() ==> r@[a] < i,
        decreases ids@.len() - i,
    {
        let ghost r0 = r@;
        proof {
            assert(ids@.take(i + 1).map_values(|s: String| s@) =~= ids@.take(i as int).map_values(|s: String| s@).push(ids@[i as int]@));
        }
        if !contains_string(&seen, &ids[i]) {
            r.push(i);
            proof {
                assert(keep(i as int));
                assert forall|k: int| 0 <= k < i + 1 && #[trigger] keep(k) implies r@.contains(k as usize) by {
                    if k < i {
                        assert(r0.contains(k as usize));
                        let x = choose|x: int| 0 <= x < r0.len() && r0[x] == k as usize;
                        assert(r@[x] == k as usize);
                    } else {
                        assert(r@[r@.len() - 1] == i);
                    }
                }
            }
        } else {
            proof {
                assert(!keep(i as int));
            }
        }
        seen.push(ids[i].clone());
        i = i + 1;
    }
    r
}

/// The result at position `k` comes from `source`, where a source is
/// asked for.
pub open spec fn from_source(sources: Seq<String>, filter: Option<Seq<char>>, k: int) -> bool {
    match filter {
        Some(f) => sources[k]@ == f,
        None => true,
    }
}

/// The results kept when identifiers repeat carry distinct identifiers:
/// no two positions chosen by [`deduplicate_positions`] hold the same one.
pub proof fn law_deduplicated_ids_distinct(ids: Seq<String>, r: Seq<usize>)
    requires
        lists_positions(r, ids.len(), |k: int| first_occurrence(ids, k)),
    ensures
        forall|a: int, b: int| 0 <= a < b < r.len() ==> ids[r[a] as int]@ != ids[r[b] as int]@,
{
    assert forall|a: int, b: int| 0 <= a < b < r.len() implies ids[r[a] as int]@ != ids[r[b] as int]@ by {
        let p = r[a] as int;
        let q = r[b] as int;
        assert(p < q);
        assert(first_occurrence(ids, q));
        if ids[p]@ == ids[q]@ {
            assert(ids.take(q).map_values(|s: String| s@)[p] == ids[q]@);
        }
    }
}

/// A borrowed optional text, as text.
pub open spec fn opt_str(o: Option<&str>) -> Option<Seq<char>> {
    match o {
        Some(f) => Some(f@),
        None => None,
    }
}

/// The positions of the results from the source asked for, or of all
/// results when none is.
pub fn filter_positions(sources: &Vec<String>, source_filter: Option<&str>) -> (r: Vec<usize>)
    ensures
        lists_positions(r@, sources@.len(), |k: int| from_source(sources@, opt_str(source_filter), k)),
{
    let ghost keep = |k: int| from_source(sources@, opt_str(source_filter), k);
    let mut r: Vec<usize> = Vec::new();
    let mut i: usize = 0;
    while i < sources.len()
        invariant
            keep == (|k: int| from_source(sources@, opt_str(source_filter), k)),
            i <= sources@.len(),
            lists_positions(r@, i as nat, keep),
            forall|a: int| 0 <= a < r@.len() ==> r@[a] < i,
        decreases sources@.len() - i,
    {
        let ghost r0 = r@;
        let wanted = match source_filter {
            Some(s) => str_eq(sources[i].as_str(), s),
            None => true,
        };
        if wanted {
            r.push(i);
            proof {
                assert forall|k: int| 0 <= k < i + 1 && #[trigger] keep(k) implies r@.contains(k as usize) by {
                    if k < i {
                        let x = choose|x: int| 0 <= x < r0.len() && r0[x] == k as usize;
                        assert(r@[x] == k as usize);
                    } else {
                        assert(r@[r@.len() - 1] == i);
                    }
                }
            }
        }
        i = i + 1;
    }
    r
}

/// The positions `start..end` of page `page` (counted from zero) of
/// `per_page` results among `len`: empty past the last result, cut short
/// at the end.
pub open spec fn page_bounds(len: nat, page: nat, per_page: nat) -> (nat, nat) {
    let start = page * per_page;
    if start >= len {
        (0, 0)
    } else if start + per_page < len {
        (start, start + per_page)
    } else {
        (start, len)
    }
}

/// The positions of a page of results (see [`page_bounds`]).
pub fn paginate_positions(len: usize, page: usize, per_page: usize) -> (r: (usize, usize))
    requires
        page * per_page + per_page <= usize::MAX,
    ensures
        r.0 as nat == page_bounds(len as nat, page as nat, per_page as nat).0,
        r.1 as nat == page_bounds(len as nat, page as nat, per_page as nat).1,
{
    assert(page * per_page <= usize::MAX) by (nonlinear_arith)
        requires
            page * per_page + per_page <= usize::MAX,
            per_page >= 0,
    ;
    let start = page * per_page;
    let end = start + per_page;
    if start >= len {
        (0, 0)
    } else if end < len {
        (start, end)
    } else {
        (start, len)
    }
}

/// The position of the first source priority that occurs in `source`.
pub open spec fn priority_position(priorities: Seq<String>, source: Seq<char>) -> Option<int>
    decreases priorities.len(),
{
    if priorities.len() == 0 {
        None
    } else if crate::text::contains_seq(source, priorities[0]@) {
        Some(0)
    } else {
        match priority_position(priorities.drop_first(), source) {
            Some(p) => Some(p + 1),
            None => None,
        }
    }
}

/// The position of the first priority that occurs in `source` (see
/// [`priority_position`]).
pub fn source_priority_position(priorities: &Vec<String>, source: &str) -> (r: Option<usize>)
    ensures
        match r {
            Some(p) => priority_position(priorities@, source@) == Some(p as int),
            None => priority_position(priorities@, source@) is None,
        },
{
    let ghost ps = priorities@;
    let mut i: usize = 0;
    assert(ps.skip(0) =~= ps);
    while i < priorities.len()
        invariant
            ps == priorities@,
            i <= ps.len(),
            priority_position(ps, source@) == match priority_position(ps.skip(i as int), source@) {
                Some(p) => Some(p + i),
                None => None,
            },
        decreases ps.len() - i,
    {
        proof {
            assert(ps.skip(i as int).drop_first() =~= ps.skip(i + 1));
            assert(ps.skip(i as int)[0] == ps[i as int]);
        }
        if crate::text::str_contains(source, priorities[i].as_str()) {
            return Some(i);
        }
        i = i + 1;
    }
    assert(ps.skip(i as int).len() == 0);
    None
}

} // verus!
