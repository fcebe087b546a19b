use vstd::prelude::*;

use crate::feed::{intent_for, Config, Download, Episode, Podcast};
use crate::paths::{stem, trim_extension};
use crate::selector::{in_ranges, parse_ranges, selection_ranges, ResolveError};
use crate::text::{parse_index, parsed_index, same_text};

verus! {

/// The array position of display index `index` in a newest-first list of
/// `len` episodes: index 1 is the newest (position 0), index `len` the oldest.
pub open spec fn index_position(len: nat, index: usize) -> Option<usize> {
    if 1 <= index && index <= len {
        Some((len - index) as usize)
    } else {
        None
    }
}

/// The array position of display index `index` among `len` episodes.
pub fn resolve_index(len: usize, index: usize) -> (r: Option<usize>)
    ensures
        r == index_position(len as nat, index),
{
    if 1 <= index && index <= len {
        Some(len - index)
    } else {
        None
    }
}

pub open spec fn strictly_increasing(v: Seq<usize>) -> bool {
    forall|i: int, j: int| 0 <= i < j < v.len() ==> v[i] < v[j]
}

/// Whether every index of the ranges names one of `len` episodes.
pub open spec fn ranges_fit(rs: Seq<(usize, usize)>, len: nat) -> bool {
    forall|k: int|
        0 <= k < rs.len() && (#[trigger] rs[k]).0 <= rs[k].1 ==> 1 <= rs[k].0 && rs[k].1 <= len
}

/// The positions that the ranges name among `len` episodes, newest first.
pub open spec fn names_positions(rs: Seq<(usize, usize)>, len: nat, v: Seq<usize>) -> bool {
    &&& strictly_increasing(v)
    &&& forall|p: usize| #[trigger]
        v.contains(p) <==> (p < len && in_ranges(rs, (len - p) as usize))
}

fn ranges_contain(rs: &Vec<(usize, usize)>, x: usize) -> (r: bool)
    ensures
        r == in_ranges(rs@, x),
{
    let mut k: usize = 0;
    while k < rs.len()
        invariant
            k <= rs@.len(),
            forall|j: int| 0 <= j < k ==> !((#[trigger] rs@[j]).0 <= x && x <= rs@[j].1),
        decreases rs@.len() - k,
    {
        if rs[k].0 <= x && x <= rs[k].1 {
            return true;
        }
        k = k + 1;
    }
    false
}

/// What a list of indices and ranges resolves to among `len` episodes: a
/// parse error, an index that names no episode, or the positions it names.
pub open spec fn range_outcome(len: nat, text: Seq<char>, r: Result<Vec<usize>, ResolveError>) -> bool {
    match selection_ranges(text) {
        None => r matches Err(ResolveError::Parse),
        Some(rs) => if ranges_fit(rs, len) {
            r matches Ok(v) && names_positions(rs, len, v@)
        } else {
            r matches Err(ResolveError::NotFound)
        },
    }
}

/// The episodes that a list of indices and ranges such as `1,3-5` names, as
/// positions in the feed, newest first. Fails with `Parse` where the list is
/// malformed and with `NotFound` where an index names no episode.
pub fn download_range(podcast: &Podcast, e_search: &str) -> (r: Result<Vec<usize>, ResolveError>)
    ensures
        range_outcome(podcast.episodes@.len(), e_search@, r),
{
    let len = podcast.episodes.len();
    let rs = match parse_ranges(e_search) {
        None => {
            return Err(ResolveError::Parse);
        },
        Some(rs) => rs,
    };
    let mut k: usize = 0;
    while k < rs.len()
        invariant
            k <= rs@.len(),
            len == podcast.episodes@.len(),
            selection_ranges(e_search@) == Some(rs@),
            forall|j: int|
                0 <= j < k && (#[trigger] rs@[j]).0 <= rs@[j].1 ==> 1 <= rs@[j].0 && rs@[j].1
                    <= len,
        decreases rs@.len() - k,
    {
        let (a, b) = rs[k];
        if a <= b && (a == 0 || b > len) {
            return Err(ResolveError::NotFound);
        }
        k = k + 1;
    }
    let mut out: Vec<usize> = Vec::new();
    let mut p: usize = 0;
    while p < len
        invariant
            p <= len,
            len == podcast.episodes@.len(),
            selection_ranges(e_search@) == Some(rs@),
            ranges_fit(rs@, len as nat),
            forall|q: usize| #[trigger]
                out@.contains(q) <==> (q < p && in_ranges(rs@, (len - q) as usize)),
            strictly_increasing(out@),
            forall|i: int| 0 <= i < out@.len() ==> out@[i] < p,
        decreases len - p,
    {
        let ghost prev = out@;
        let hit = ranges_contain(&rs, len - p);
        if hit {
            out.push(p);
        }
        proof {
            assert forall|q: usize| #[trigger]
                out@.contains(q) <==> (q < p + 1 && in_ranges(rs@, (len - q) as usize)) by {
                if hit {
                    if out@.contains(q) {
                        let i = choose|i: int| 0 <= i < out@.len() && out@[i] == q;
                        if i < prev.len() {
                            assert(prev[i] == q);
                        }
                    }
                    if q == p {
                        assert(out@[prev.len() as int] == p);
                    } else if prev.contains(q) {
                        let i = choose|i: int| 0 <= i < prev.len() && prev[i] == q;
                        assert(out@[i] == q);
                    }
                }
            }
        }
        p = p + 1;
    }
    Ok(out)
}

/// What `str::to_lowercase` makes of a string.
pub uninterp spec fn lower_of(s: Seq<char>) -> Seq<char>;

/// Relies on `str::to_lowercase`: the lowercase form depends on the characters alone.
#[verifier::external_body]
fn lowercase(s: &str) -> (r: String)
    ensures
        r@ == lower_of(s@),
{
    s.to_lowercase()
}

/// Whether `q` occurs in `t` as a run of consecutive characters.
pub open spec fn has_substring(t: Seq<char>, q: Seq<char>) -> bool {
    exists|i: int| 0 <= i && i + q.len() <= t.len() && #[trigger] t.subrange(i, i + q.len()) == q
}

/// Whether `q` occurs in `t`.
pub fn contains_text(t: &str, q: &str) -> (r: bool)
    ensures
        r == has_substring(t@, q@),
{
    let n = t.unicode_len();
    let m = q.unicode_len();
    if m > n {
        return false;
    }
    let mut i: usize = 0;
    while i < n - m
        invariant
            i <= n - m,
            m <= n,
            n == t@.len(),
            m == q@.len(),
            forall|j: int| 0 <= j < i ==> #[trigger] t@.subrange(j, j + m) != q@,
        decreases n - m - i,
    {
        if same_text(t.substring_char(i, i + m), q) {
            return true;
        }
        i = i + 1;
    }
    same_text(t.substring_char(i, i + m), q)
}

pub open spec fn opt_view(o: Option<String>) -> Option<Seq<char>> {
    match o {
        Some(s) => Some(s@),
        None => None,
    }
}

pub open spec fn title_matches(t: Option<Seq<char>>, q: Seq<char>) -> bool {
    match t {
        Some(x) => has_substring(x, q),
        None => false,
    }
}

/// `v` holds the positions of the titles that contain `q`, in order: all of
/// them, or only the first where `all` is false.
pub open spec fn picks_matches(titles: Seq<Option<Seq<char>>>, q: Seq<char>, all: bool, v: Seq<
    usize,
>) -> bool {
    &&& strictly_increasing(v)
    &&& forall|p: usize| #[trigger]
        v.contains(p) ==> p < titles.len() && title_matches(titles[p as int], q)
    &&& all ==> forall|p: usize|
        p < titles.len() && #[trigger] title_matches(titles[p as int], q) ==> v.contains(p)
    &&& !all ==> v.len() <= 1
    &&& !all ==> forall|p: usize|
        p < titles.len() && #[trigger] title_matches(titles[p as int], q) ==> v.len() == 1 && v[0]
            <= p
}

/// The positions of the titles that contain `query`: all of them, or the first.
/// Titles and query are compared as given; callers fold their case first.
pub fn name_matches(titles: &Vec<Option<String>>, query: &str, all: bool) -> (r: Vec<usize>)
    ensures
        picks_matches(titles@.map_values(|o: Option<String>| opt_view(o)), query@, all, r@),
{
    let ghost tv = titles@.map_values(|o: Option<String>| opt_view(o));
    let mut out: Vec<usize> = Vec::new();
    let mut p: usize = 0;
    while p < titles.len()
        invariant
            p <= titles@.len(),
            tv == titles@.map_values(|o: Option<String>| opt_view(o)),
            strictly_increasing(out@),
            forall|i: int| 0 <= i < out@.len() ==> out@[i] < p,
            forall|x: usize| #[trigger]
                out@.contains(x) ==> x < titles@.len() && title_matches(tv[x as int], query@),
            all ==> forall|x: usize|
                x < p && #[trigger] title_matches(tv[x as int], query@) ==> out@.contains(x),
            !all ==> out@.len() == 0 && forall|x: usize|
                x < p ==> !#[trigger] title_matches(tv[x as int], query@),
        decreases titles@.len() - p,
    {
        let hit = match &titles[p] {
            Some(t) => contains_text(t.as_str(), query),
            None => false,
        };
        assert(hit == title_matches(tv[p as int], query@));
        if hit {
            let ghost prev = out@;
            out.push(p);
            proof {
                assert(out@[prev.len() as int] == p);
                assert forall|x: usize| #[trigger] out@.contains(x) implies x < titles@.len()
                    && title_matches(tv[x as int], query@) by {
                    let i = choose|i: int| 0 <= i < out@.len() && out@[i] == x;
                    if i < prev.len() {
                        assert(prev[i] == x);
                        assert(prev.contains(x));
                    }
                }
                if all {
                    assert forall|x: usize|
                        x < p + 1 && #[trigger] title_matches(tv[x as int], query@) implies out@.contains(
                        x,
                    ) by {
                        if x < p {
                            let i = choose|i: int| 0 <= i < prev.len() && prev[i] == x;
                            assert(out@[i] == x);
                        }
                    }
                }
            }
            if !all {
                proof {
                    assert(out@ =~= seq![p]);
                }
                return out;
            }
        }
        p = p + 1;
    }
    out
}

/// The escaped titles of the episodes, in lowercase.
pub open spec fn lowered_titles(eps: Seq<Episode>) -> Seq<Option<Seq<char>>> {
    eps.map_values(
        |e: Episode|
            match e.spec_title() {
                Some(t) => Some(lower_of(t)),
                None => None,
            },
    )
}

/// The episodes whose title contains `e_search`, ignoring case, as positions
/// newest first: every match where `download_all` is set, else the first.
pub fn download_episode_by_name(podcast: &Podcast, e_search: &str, download_all: bool) -> (r: Vec<
    usize,
>)
    ensures
        picks_matches(lowered_titles(podcast.episodes@), lower_of(e_search@), download_all, r@),
{
    let mut titles: Vec<Option<String>> = Vec::new();
    let mut k: usize = 0;
    while k < podcast.episodes.len()
        invariant
            k <= podcast.episodes@.len(),
            titles@.len() == k,
            forall|j: int|
                0 <= j < k ==> opt_view(#[trigger] titles@[j]) == lowered_titles(
                    podcast.episodes@,
                )[j],
        decreases podcast.episodes@.len() - k,
    {
        let t = match podcast.episodes[k].title() {
            Some(t) => Some(lowercase(t.as_str())),
            None => None,
        };
        titles.push(t);
        k = k + 1;
    }
    let q = lowercase(e_search);
    let r = name_matches(&titles, q.as_str(), download_all);
    assert(titles@.map_values(|o: Option<String>| opt_view(o)) =~= lowered_titles(
        podcast.episodes@,
    ));
    r
}

/// What a single selector resolves to: the episode its display index names,
/// an index that names no episode, or, where it is no number, the first
/// episode whose title contains it, ignoring case.
pub open spec fn number_outcome(eps: Seq<Episode>, text: Seq<char>, r: Result<Vec<usize>, ResolveError>) -> bool {
    match parsed_index(text) {
        Some(n) => match index_position(eps.len(), n) {
            Some(p) => r matches Ok(v) && v@ == seq![p],
            None => r matches Err(ResolveError::NotFound),
        },
        None => r matches Ok(v) && picks_matches(lowered_titles(eps), lower_of(text), false, v@),
    }
}

/// The episode that a display index names, as a one-element list of
/// positions; where `e_search` is no number, the first episode whose title
/// contains it, ignoring case.
pub fn download_episode_by_num(podcast: &Podcast, e_search: &str) -> (r: Result<
    Vec<usize>,
    ResolveError,
>)
    ensures
        number_outcome(podcast.episodes@, e_search@, r),
{
    match parse_index(e_search) {
        Some(n) => match resolve_index(podcast.episodes.len(), n) {
            Some(p) => {
                let mut v: Vec<usize> = Vec::new();
                v.push(p);
                assert(v@ =~= seq![p]);
                Ok(v)
            },
            None => Err(ResolveError::NotFound),
        },
        None => Ok(download_episode_by_name(podcast, e_search, false)),
    }
}

/// Whether `t` is one of `list`.
pub fn text_listed(list: &Vec<String>, t: &str) -> (r: bool)
    ensures
        r == list@.map_values(|s: String| s@).contains(t@),
{
    let ghost lv = list@.map_values(|s: String| s@);
    let mut k: usize = 0;
    while k < list.len()
        invariant
            k <= list@.len(),
            lv == list@.map_values(|s: String| s@),
            forall|j: int| 0 <= j < k ==> lv[j] != t@,
        decreases list@.len() - k,
    {
        if same_text(list[k].as_str(), t) {
            assert(lv[k as int] == t@);
            return true;
        }
        k = k + 1;
    }
    false
}

/// Whether a file whose name without extension is the episode's escaped title
/// is already among `stems`.
pub open spec fn episode_listed(e: Episode, stems: Seq<Seq<char>>) -> bool {
    match e.spec_title() {
        Some(t) => stems.contains(t),
        None => false,
    }
}

/// Every episode that has a title and is not yet downloaded, as positions
/// newest first. `downloaded` holds the names, without extension, of the files
/// already in the podcast's folder.
pub fn download_all(podcast: &Podcast, downloaded: &Vec<String>) -> (r: Vec<usize>)
    ensures
        strictly_increasing(r@),
        forall|p: usize| #[trigger]
            r@.contains(p) <==> (p < podcast.episodes@.len() && podcast.episodes@[p as int].spec_title() is Some
                && !episode_listed(
                podcast.episodes@[p as int],
                downloaded@.map_values(|s: String| s@),
            )),
{
    let ghost stems = downloaded@.map_values(|s: String| s@);
    let mut out: Vec<usize> = Vec::new();
    let mut p: usize = 0;
    while p < podcast.episodes.len()
        invariant
            p <= podcast.episodes@.len(),
            stems == downloaded@.map_values(|s: String| s@),
            strictly_increasing(out@),
            forall|i: int| 0 <= i < out@.len() ==> out@[i] < p,
            forall|q: usize| #[trigger]
                out@.contains(q) <==> (q < p && podcast.episodes@[q as int].spec_title() is Some
                    && !episode_listed(podcast.episodes@[q as int], stems)),
        decreases podcast.episodes@.len() - p,
    {
        let keep = match podcast.episodes[p].title() {
            Some(t) => !text_listed(downloaded, t.as_str()),
            None => false,
        };
        let ghost prev = out@;
        if keep {
            out.push(p);
        }
        proof {
            assert forall|q: usize| #[trigger]
                out@.contains(q) <==> (q < p + 1 && podcast.episodes@[q as int].spec_title() is Some
                    && !episode_listed(podcast.episodes@[q as int], stems)) by {
                if keep {
                    if out@.contains(q) {
                        let i = choose|i: int| 0 <= i < out@.len() && out@[i] == q;
                        if i < prev.len() {
                            assert(prev[i] == q);
                        }
                    }
                    if q == p {
                        assert(out@[prev.len() as int] == p);
                    } else if prev.contains(q) {
                        let i = choose|i: int| 0 <= i < prev.len() && prev[i] == q;
                        assert(out@[i] == q);
                    }
                }
            }
        }
        p = p + 1;
    }
    out
}

/// The positions `0..n`.
fn first_positions(n: usize) -> (r: Vec<usize>)
    ensures
        r@ == Seq::new(n as nat, |i: int| i as usize),
{
    let mut out: Vec<usize> = Vec::new();
    let mut i: usize = 0;
    while i < n
        invariant
            i <= n,
            out@ == Seq::new(i as nat, |j: int| j as usize),
        decreases n - i,
    {
        out.push(i);
        i = i + 1;
        assert(out@ =~= Seq::new(i as nat, |j: int| j as usize));
    }
    out
}

/// The `latest` newest episodes, as positions; all of them where the feed has fewer.
pub fn download_latest(podcast: &Podcast, latest: usize) -> (r: Vec<usize>)
    ensures
        r@ == Seq::new(
            if latest < podcast.episodes@.len() {
                latest as nat
            } else {
                podcast.episodes@.len()
            },
            |i: int| i as usize,
        ),
{
    let n = if latest < podcast.episodes.len() {
        latest
    } else {
        podcast.episodes.len()
    };
    first_positions(n)
}

/// How many of `n` items a download limit lets through: all where there is no
/// limit, and a negative limit sets no bound either.
pub open spec fn limited(limit: Option<i64>, n: nat) -> nat {
    match limit {
        None => n,
        Some(l) => if l < 0 || n <= l {
            n
        } else {
            l as nat
        },
    }
}

pub fn limited_count(limit: Option<i64>, n: usize) -> (r: usize)
    ensures
        r == limited(limit, n as nat),
{
    match limit {
        None => n,
        Some(l) => if l < 0 || (n as u64) <= (l as u64) {
            n
        } else {
            l as usize
        },
    }
}

/// The newest episodes of a podcast just subscribed to, as many as the
/// automatic download limit allows.
pub fn download_rss(podcast: &Podcast, config: &Config) -> (r: Vec<usize>)
    ensures
        r@ == Seq::new(
            limited(config.auto_download_limit, podcast.episodes@.len()),
            |i: int| i as usize,
        ),
{
    let n = limited_count(config.auto_download_limit, podcast.episodes.len());
    first_positions(n)
}

/// The names without extension of the files already in a podcast's folder.
pub fn already_downloaded(file_names: &Vec<String>) -> (r: Vec<String>)
    ensures
        r@.len() == file_names@.len(),
        forall|k: int| 0 <= k < r@.len() ==> #[trigger] r@[k]@ == stem(file_names@[k]@),
{
    let mut out: Vec<String> = Vec::new();
    let mut k: usize = 0;
    while k < file_names.len()
        invariant
            k <= file_names@.len(),
            out@.len() == k,
            forall|j: int| 0 <= j < k ==> #[trigger] out@[j]@ == stem(file_names@[j]@),
        decreases file_names@.len() - k,
    {
        let s = match trim_extension(file_names[k].as_str()) {
            Some(s) => s,
            None => String::new(),
        };
        out.push(s);
        k = k + 1;
    }
    out
}

/// The intents for the episodes at `positions`, in that order: one for each
/// episode that has a title and a media URL, unless a file of its title is
/// among `stems` already. Sizes are zero until the server announces them.
pub open spec fn intents_of(
    podcast_dir: Seq<char>,
    podcast: Podcast,
    positions: Seq<usize>,
    stems: Seq<Seq<char>>,
) -> Seq<crate::feed::DownloadView>
    decreases positions.len(),
{
    if positions.len() == 0 {
        Seq::empty()
    } else {
        let prev = intents_of(podcast_dir, podcast, positions.drop_last(), stems);
        let e = podcast.episodes@[positions.last() as int];
        match intent_for(podcast_dir, podcast.title@, e, 0) {
            Some(d) => if episode_listed(e, stems) {
                prev
            } else {
                prev.push(d)
            },
            None => prev,
        }
    }
}

/// The intents to fetch the episodes at `positions` into folders under
/// `podcast_dir`, leaving out those already downloaded.
pub fn collect_downloads(
    podcast_dir: &str,
    podcast: &Podcast,
    positions: &Vec<usize>,
    downloaded: &Vec<String>,
) -> (r: Vec<Download>)
    requires
        forall|i: int| 0 <= i < positions@.len() ==> #[trigger] positions@[i] < podcast.episodes@.len(),
    ensures
        r@.map_values(|d: Download| d@) == intents_of(
            podcast_dir@,
            *podcast,
            positions@,
            downloaded@.map_values(|s: String| s@),
        ),
{
    let ghost stems = downloaded@.map_values(|s: String| s@);
    let mut out: Vec<Download> = Vec::new();
    let mut k: usize = 0;
    while k < positions.len()
        invariant
            k <= positions@.len(),
            stems == downloaded@.map_values(|s: String| s@),
            forall|i: int| 0 <= i < positions@.len() ==> #[trigger] positions@[i] < podcast.episodes@.len(),
            out@.map_values(|d: Download| d@) == intents_of(
                podcast_dir@,
                *podcast,
                positions@.take(k as int),
                stems,
            ),
        decreases positions@.len() - k,
    {
        let e = &podcast.episodes[positions[k]];
        let ghost prev = out@.map_values(|d: Download| d@);
        assert(positions@.take(k + 1).drop_last() =~= positions@.take(k as int));
        assert(positions@.take(k + 1).last() == positions@[k as int]);
        match Download::new(podcast_dir, podcast, e, 0) {
            Some(d) => {
                let listed = match e.title() {
                    Some(t) => text_listed(downloaded, t.as_str()),
                    None => false,
                };
                if !listed {
                    out.push(d);
                    assert(out@.map_values(|d: Download| d@) =~= prev.push(d@));
                }
            },
            None => {},
        }
        k = k + 1;
    }
    assert(positions@.take(positions@.len() as int) =~= positions@);
    out
}

/// How the user picked episodes of a podcast.
pub enum Selection {
    /// An index, a list of indices and ranges, or a name where `by_name` is
    /// set (every match where `all` is set, else the first).
    Episode { text: String, by_name: bool, all: bool },
    /// The newest few.
    Latest(usize),
    /// Every episode not downloaded yet.
    All,
}

/// Whether a selector is a list or a range rather than a single index.
pub open spec fn has_list_marks(s: Seq<char>) -> bool {
    s.contains('-') || s.contains(',')
}

fn list_marks(s: &str) -> (r: bool)
    ensures
        r == has_list_marks(s@),
{
    let n = s.unicode_len();
    let mut i: usize = 0;
    while i < n
        invariant
            i <= n,
            n == s@.len(),
            forall|j: int| 0 <= j < i ==> s@[j] != '-' && s@[j] != ',',
        decreases n - i,
    {
        let c = s.get_char(i);
        if c == '-' || c == ',' {
            return true;
        }
        i = i + 1;
    }
    false
}

/// What a selection resolves to among the episodes `eps`, with `stems` the
/// files already downloaded.
pub open spec fn selection_outcome(
    eps: Seq<Episode>,
    selection: Selection,
    stems: Seq<Seq<char>>,
    r: Result<Vec<usize>, ResolveError>,
) -> bool {
    match selection {
        Selection::Episode { text, by_name, all } => if has_list_marks(text@) {
            range_outcome(eps.len(), text@, r)
        } else if by_name {
            r matches Ok(v) && picks_matches(lowered_titles(eps), lower_of(text@), all, v@)
        } else {
            number_outcome(eps, text@, r)
        },
        Selection::Latest(n) => r matches Ok(v) && v@ == Seq::new(
            if n < eps.len() {
                n as nat
            } else {
                eps.len()
            },
            |i: int| i as usize,
        ),
        Selection::All => r matches Ok(v) && strictly_increasing(v@) && forall|p: usize| #[trigger]
            v@.contains(p) <==> (p < eps.len() && eps[p as int].spec_title() is Some
                && !episode_listed(eps[p as int], stems)),
    }
}

/// The episodes that `selection` picks, as positions newest first:
/// a selector with `-` or `,` goes by `download_range`, a name by
/// `download_episode_by_name`, any other selector by
/// `download_episode_by_num`; `Latest` and `All` by `download_latest` and
/// `download_all`.
pub fn select_episodes(podcast: &Podcast, selection: &Selection, downloaded: &Vec<String>) -> (r:
    Result<Vec<usize>, ResolveError>)
    ensures
        selection_outcome(podcast.episodes@, *selection, downloaded@.map_values(|s: String| s@), r),
{
    match selection {
        Selection::Episode { text, by_name, all } => {
            if list_marks(text.as_str()) {
                download_range(podcast, text.as_str())
            } else if *by_name {
                Ok(download_episode_by_name(podcast, text.as_str(), *all))
            } else {
                download_episode_by_num(podcast, text.as_str())
            }
        },
        Selection::Latest(n) => Ok(download_latest(podcast, *n)),
        Selection::All => Ok(download_all(podcast, downloaded)),
    }
}

} // verus!
