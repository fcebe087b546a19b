use vstd::prelude::*;

use std::collections::HashSet;

use crate::text::{parse_index, parsed_index, pieces, split_on};

verus! {

broadcast use vstd::std_specs::hash::group_hash_axioms;

/// Why a selection of episodes could not be resolved.
pub enum ResolveError {
    /// The selector is not an index, a list of indices and ranges, or a number.
    Parse,
    /// An index names no episode of the feed.
    NotFound,
}

/// The inclusive range of display indices that one comma-separated segment
/// names: `n` is `n..=n`, `a-b` is `a..=b`.
pub open spec fn segment_range(seg: Seq<char>) -> Option<(usize, usize)> {
    let p = split_on(seg, '-');
    if p.len() == 1 {
        match parsed_index(p[0]) {
            Some(n) => Some((n, n)),
            None => None,
        }
    } else if p.len() == 2 {
        match (parsed_index(p[0]), parsed_index(p[1])) {
            (Some(a), Some(b)) => Some((a, b)),
            _ => None,
        }
    } else {
        None
    }
}

/// The ranges of a selector such as `1,3-5`, one per segment; none where a
/// segment is not an index or a range.
pub open spec fn selection_ranges(s: Seq<char>) -> Option<Seq<(usize, usize)>> {
    let segs = split_on(s, ',');
    if forall|k: int| 0 <= k < segs.len() ==> (#[trigger] segment_range(segs[k])) is Some {
        Some(Seq::new(segs.len(), |k: int| segment_range(segs[k])->0))
    } else {
        None
    }
}

pub open spec fn in_ranges(rs: Seq<(usize, usize)>, x: usize) -> bool {
    exists|k: int| 0 <= k < rs.len() && (#[trigger] rs[k]).0 <= x && x <= rs[k].1
}

/// The set of display indices that a selector names: the union of its segments.
pub open spec fn selected_indices(s: Seq<char>) -> Option<Set<usize>> {
    match selection_ranges(s) {
        Some(rs) => Some(Set::new(|x: usize| in_ranges(rs, x))),
        None => None,
    }
}

fn parse_segment(seg: &str) -> (r: Option<(usize, usize)>)
    ensures
        r == segment_range(seg@),
{
    let p = pieces(seg, '-');
    if p.len() == 1 {
        match parse_index(p[0].as_str()) {
            Some(n) => Some((n, n)),
            None => None,
        }
    } else if p.len() == 2 {
        let a = parse_index(p[0].as_str());
        let b = parse_index(p[1].as_str());
        match (a, b) {
            (Some(a), Some(b)) => Some((a, b)),
            _ => None,
        }
    } else {
        None
    }
}

/// The ranges of a selector, one per comma-separated segment.
pub fn parse_ranges(s: &str) -> (r: Option<Vec<(usize, usize)>>)
    ensures
        r is None <==> selection_ranges(s@) is None,
        r matches Some(v) ==> selection_ranges(s@) == Some(v@),
{
    let segs = pieces(s, ',');
    let ghost sp = split_on(s@, ',');
    let mut out: Vec<(usize, usize)> = Vec::new();
    let mut k: usize = 0;
    while k < segs.len()
        invariant
            k <= segs@.len(),
            sp == split_on(s@, ','),
            segs@.len() == sp.len(),
            forall|j: int| 0 <= j < segs@.len() ==> #[trigger] segs@[j]@ == sp[j],
            out@.len() == k,
            forall|j: int| 0 <= j < k ==> (#[trigger] segment_range(sp[j])) == Some(out@[j]),
        decreases segs@.len() - k,
    {
        match parse_segment(segs[k].as_str()) {
            None => {
                assert(segment_range(sp[k as int]) is None);
                return None;
            },
            Some(r) => {
                out.push(r);
            },
        }
        k = k + 1;
    }
    assert(forall|j: int| 0 <= j < sp.len() ==> (#[trigger] segment_range(sp[j])) is Some);
    assert(out@ =~= Seq::new(sp.len(), |j: int| segment_range(sp[j])->0));
    Some(out)
}

/// Adds every integer from `a` to `b`, both included, to `set`.
fn insert_range(set: &mut HashSet<usize>, a: usize, b: usize)
    ensures
        final(set)@ == old(set)@.union(Set::new(|x: usize| a <= x && x <= b)),
{
    if a > b {
        assert(Set::new(|x: usize| a <= x && x <= b) =~= Set::<usize>::empty());
        assert(old(set)@.union(Set::<usize>::empty()) =~= old(set)@);
        return;
    }
    let ghost base = set@;
    let mut x = a;
    loop
        invariant_except_break
            a <= x <= b,
            set@ == base.union(Set::new(|y: usize| a <= y && y < x)),
        ensures
            set@ == base.union(Set::new(|y: usize| a <= y && y <= b)),
        decreases b - x,
    {
        set.insert(x);
        if x == b {
            assert(set@ =~= base.union(Set::new(|y: usize| a <= y && y <= b)));
            break;
        }
        x = x + 1;
        assert(set@ =~= base.union(Set::new(|y: usize| a <= y && y < x)));
    }
}

/// The display indices that `e_search` names: a comma-separated list of
/// indices and inclusive ranges `a-b`, merged into one set.
pub fn parse_download_episodes(e_search: &str) -> (r: Result<HashSet<usize>, ResolveError>)
    ensures
        selected_indices(e_search@) is None ==> r matches Err(ResolveError::Parse),
        selected_indices(e_search@) matches Some(set) ==> r matches Ok(h) && h@ == set,
{
    let ranges = match parse_ranges(e_search) {
        None => {
            return Err(ResolveError::Parse);
        },
        Some(v) => v,
    };
    let mut elements: HashSet<usize> = HashSet::new();
    let mut k: usize = 0;
    while k < ranges.len()
        invariant
            k <= ranges@.len(),
            elements@ == Set::new(|x: usize| in_ranges(ranges@.take(k as int), x)),
        decreases ranges@.len() - k,
    {
        let (a, b) = ranges[k];
        let ghost before = elements@;
        insert_range(&mut elements, a, b);
        proof {
            let t = ranges@.take(k + 1);
            assert(t.drop_last() =~= ranges@.take(k as int));
            assert forall|x: usize| elements@.contains(x) <==> in_ranges(t, x) by {
                if in_ranges(t, x) {
                    let j = choose|j: int| 0 <= j < t.len() && (#[trigger] t[j]).0 <= x && x <= t[j].1;
                    if j < k {
                        assert(ranges@.take(k as int)[j] == t[j]);
                        assert(in_ranges(ranges@.take(k as int), x));
                    }
                }
                if before.contains(x) {
                    let j = choose|j: int|
                        0 <= j < ranges@.take(k as int).len() && (#[trigger] ranges@.take(
                            k as int,
                        )[j]).0 <= x && x <= ranges@.take(k as int)[j].1;
                    assert(t[j] == ranges@.take(k as int)[j]);
                }
                if a <= x && x <= b {
                    assert(t[k as int] == (a, b));
                }
            }
            assert(elements@ =~= Set::new(|x: usize| in_ranges(t, x)));
        }
        k = k + 1;
    }
    assert(ranges@.take(ranges@.len() as int) =~= ranges@);
    Ok(elements)
}

} // verus!
