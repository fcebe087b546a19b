use vstd::prelude::*;

use crate::feed::Subscription;
use crate::resolve::strictly_increasing;
use crate::text::same_text;

verus! {

/// Whether `regex::Regex::new` accepts `(?i)` followed by `pattern`.
pub uninterp spec fn pattern_valid(pattern: Seq<char>) -> bool;

/// Whether the case-insensitive regular expression `pattern` matches
/// somewhere in `text`, as `regex::Regex::is_match` finds.
pub uninterp spec fn pattern_matches(pattern: Seq<char>, text: Seq<char>) -> bool;

/// Relies on `regex::Regex::new`, which compiles `(?i)` followed by `pattern`
/// or fails, and on `Regex::is_match`, which tells whether the compiled
/// expression matches somewhere in `text`.
#[verifier::external_body]
fn matches_pattern(pattern: &str, text: &str) -> (r: Option<bool>)
    ensures
        r is Some <==> pattern_valid(pattern@),
        r matches Some(b) ==> b == pattern_matches(pattern@, text@),
{
    match regex::Regex::new(&format!("(?i){}", pattern)) {
        Ok(re) => Some(re.is_match(text)),
        Err(_) => None,
    }
}

/// A podcast pattern that is not a valid regular expression.
pub struct PatternError;

/// The positions, in order, at which `hits` is true.
pub fn matched_positions(hits: &Vec<bool>) -> (r: Vec<usize>)
    ensures
        strictly_increasing(r@),
        forall|p: usize| #[trigger] r@.contains(p) <==> (p < hits@.len() && hits@[p as int]),
{
    let mut out: Vec<usize> = Vec::new();
    let mut p: usize = 0;
    while p < hits.len()
        invariant
            p <= hits@.len(),
            strictly_increasing(out@),
            forall|i: int| 0 <= i < out@.len() ==> out@[i] < p,
            forall|q: usize| #[trigger] out@.contains(q) <==> (q < p && hits@[q as int]),
        decreases hits@.len() - p,
    {
        let ghost prev = out@;
        let hit = hits[p];
        if hit {
            out.push(p);
        }
        proof {
            assert forall|q: usize| #[trigger] out@.contains(q) <==> (q < p + 1 && hits@[q as int]) by {
                if hit {
                    if out@.contains(q) {
                        let i = choose|i: int| 0 <= i < out@.len() && out@[i] == q;
                        if i < prev.len() {
                            assert(prev[i] == q);
                        }
                    }
                    if q == p {
                        assert(out@[prev.len() as int] == p);
                    } else if prev.contains(q) {
                        let i = choose|i: int| 0 <= i < prev.len() && prev[i] == q;
                        assert(out@[i] == q);
                    }
                }
            }
        }
        p = p + 1;
    }
    out
}

/// The positions, in order, of the subscriptions whose title the
/// case-insensitive regular expression `pattern` matches.
pub fn matching_subscriptions(subs: &Vec<Subscription>, pattern: &str) -> (r: Result<
    Vec<usize>,
    PatternError,
>)
    ensures
        r is Err <==> !pattern_valid(pattern@),
        r matches Ok(v) ==> strictly_increasing(v@) && forall|p: usize| #[trigger]
            v@.contains(p) <==> (p < subs@.len() && pattern_matches(pattern@, subs@[p as int].title@)),
{
    if matches_pattern(pattern, "").is_none() {
        return Err(PatternError);
    }
    let mut hits: Vec<bool> = Vec::new();
    let mut k: usize = 0;
    while k < subs.len()
        invariant
            k <= subs@.len(),
            pattern_valid(pattern@),
            hits@.len() == k,
            forall|j: int| 0 <= j < k ==> #[trigger] hits@[j] == pattern_matches(pattern@, subs@[j].title@),
        decreases subs@.len() - k,
    {
        let hit = match matches_pattern(pattern, subs[k].title.as_str()) {
            Some(b) => b,
            None => false,
        };
        hits.push(hit);
        k = k + 1;
    }
    Ok(matched_positions(&hits))
}

/// The position of the first subscription whose title `pattern` matches.
pub fn find_matching_podcast(subs: &Vec<Subscription>, pattern: &str) -> (r: Result<
    Option<usize>,
    PatternError,
>)
    ensures
        r is Err <==> !pattern_valid(pattern@),
        r matches Ok(Some(p)) ==> p < subs@.len() && pattern_matches(pattern@, subs@[p as int].title@)
            && forall|q: int| 0 <= q < p ==> !pattern_matches(pattern@, #[trigger] subs@[q].title@),
        r matches Ok(None) ==> forall|q: int|
            0 <= q < subs@.len() ==> !pattern_matches(pattern@, #[trigger] subs@[q].title@),
{
    let v = match matching_subscriptions(subs, pattern) {
        Err(e) => {
            return Err(e);
        },
        Ok(v) => v,
    };
    let n = subs.len();
    if v.len() == 0 {
        assert forall|q: int| 0 <= q < subs@.len() implies !pattern_matches(
            pattern@,
            #[trigger] subs@[q].title@,
        ) by {
            if pattern_matches(pattern@, subs@[q].title@) {
                assert(q < n);
                assert(v@.contains(q as usize));
            }
        }
        Ok(None)
    } else {
        let first = v[0];
        assert(v@.contains(first));
        assert forall|q: int| 0 <= q < first implies !pattern_matches(
            pattern@,
            #[trigger] subs@[q].title@,
        ) by {
            if pattern_matches(pattern@, subs@[q].title@) {
                assert(v@.contains(q as usize));
                let i = choose|i: int| 0 <= i < v@.len() && v@[i] == q as usize;
                assert(v@[0] <= v@[i]);
            }
        }
        Ok(Some(first))
    }
}

/// What removing subscriptions by pattern took away.
pub enum Removed {
    /// Every subscription: the pattern was `*`.
    All,
    /// The subscription with this title.
    One(String),
    /// Nothing matched.
    Nothing,
}

/// Removes, for the pattern `*`, every subscription, and else the first one
/// whose title the pattern matches.
pub fn remove(subs: &mut Vec<Subscription>, pattern: &str) -> (r: Result<Removed, PatternError>)
    ensures
        pattern@ == "*"@ ==> (r matches Ok(Removed::All) && final(subs)@.len() == 0),
        pattern@ != "*"@ ==> (r is Err <==> !pattern_valid(pattern@)),
        pattern@ != "*"@ && r is Err ==> final(subs)@ == old(subs)@,
        r matches Ok(Removed::Nothing) ==> final(subs)@ == old(subs)@ && forall|q: int|
            0 <= q < old(subs)@.len() ==> !pattern_matches(pattern@, #[trigger] old(subs)@[q].title@),
        r matches Ok(Removed::One(t)) ==> exists|p: int|
            0 <= p < old(subs)@.len() && pattern_matches(pattern@, old(subs)@[p].title@) && (forall|
                q: int,
            | 0 <= q < p ==> !pattern_matches(pattern@, #[trigger] old(subs)@[q].title@)) && t@
                == old(subs)@[p].title@ && final(subs)@ == old(subs)@.remove(p),
{
    if same_text(pattern, "*") {
        subs.clear();
        return Ok(Removed::All);
    }
    match find_matching_podcast(subs, pattern) {
        Err(e) => Err(e),
        Ok(None) => Ok(Removed::Nothing),
        Ok(Some(p)) => {
            let gone = subs.remove(p);
            Ok(Removed::One(gone.title))
        },
    }
}

} // verus!
