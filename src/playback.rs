use vstd::prelude::*;

use crate::feed::{Episode, Podcast};
use crate::text::{decimal, decimal_text, pieces, split_on};

verus! {

/// An external program to run, with its arguments.
#[derive(Clone, Debug)]
pub struct PlayerCommand {
    pub program: String,
    pub args: Vec<String>,
}

pub open spec fn texts(v: Seq<String>) -> Seq<Seq<char>> {
    v.map_values(|s: String| s@)
}

/// The part of a URL before its query string.
pub open spec fn before_query(url: Seq<char>) -> Seq<char> {
    split_on(url, '?')[0]
}

/// The players to try on `url`, in order, until one of them runs: mpv, then
/// vlc, then sox's `play` on the URL without its query string.
pub fn player_attempts(url: &str) -> (r: Vec<PlayerCommand>)
    ensures
        r@.len() == 3,
        r@[0].program@ == "mpv"@,
        texts(r@[0].args@) == seq!["--no-audio-display"@, "--ytdl=no"@, url@],
        r@[1].program@ == "vlc"@,
        texts(r@[1].args@) == seq!["-I ncurses"@, url@],
        r@[2].program@ == "play"@,
        texts(r@[2].args@) == seq![before_query(url@)],
{
    let mut mpv_args: Vec<String> = Vec::new();
    mpv_args.push(String::from_str("--no-audio-display"));
    mpv_args.push(String::from_str("--ytdl=no"));
    mpv_args.push(String::from_str(url));
    let mut vlc_args: Vec<String> = Vec::new();
    vlc_args.push(String::from_str("-I ncurses"));
    vlc_args.push(String::from_str(url));
    let mut parts = pieces(url, '?');
    proof {
        crate::text::lemma_split_nonempty(url@, '?');
    }
    let head = parts.swap_remove(0);
    let mut play_args: Vec<String> = Vec::new();
    play_args.push(head);
    let mut out: Vec<PlayerCommand> = Vec::new();
    out.push(PlayerCommand { program: String::from_str("mpv"), args: mpv_args });
    out.push(PlayerCommand { program: String::from_str("vlc"), args: vlc_args });
    out.push(PlayerCommand { program: String::from_str("play"), args: play_args });
    assert(texts(out@[0].args@) =~= seq!["--no-audio-display"@, "--ytdl=no"@, url@]);
    assert(texts(out@[1].args@) =~= seq!["-I ncurses"@, url@]);
    assert(texts(out@[2].args@) =~= seq![before_query(url@)]);
    out
}

/// The titles of the episodes that have one, in order.
pub open spec fn titled(eps: Seq<Episode>) -> Seq<Seq<char>>
    decreases eps.len(),
{
    if eps.len() == 0 {
        Seq::empty()
    } else {
        let p = titled(eps.drop_last());
        match eps.last().spec_title() {
            Some(t) => p.push(t),
            None => p,
        }
    }
}

/// The line that lists the `k`-th titled episode of a feed of `len` episodes.
pub open spec fn listing_line(len: nat, k: int, title: Seq<char>) -> Seq<char> {
    "("@ + decimal((len - k) as nat) + ") "@ + title
}

/// The lines that list a podcast's episodes, newest first, each numbered
/// counting down from the number of episodes.
pub fn list_episodes(podcast: &Podcast) -> (r: Vec<String>)
    ensures
        r@.len() == titled(podcast.episodes@).len(),
        forall|k: int|
            0 <= k < r@.len() ==> #[trigger] r@[k]@ == listing_line(
                podcast.episodes@.len() as nat,
                k,
                titled(podcast.episodes@)[k],
            ),
{
    let len = podcast.episodes.len();
    let mut out: Vec<String> = Vec::new();
    let mut i: usize = 0;
    while i < len
        invariant
            i <= len,
            len == podcast.episodes@.len(),
            out@.len() == titled(podcast.episodes@.take(i as int)).len(),
            out@.len() <= i,
            forall|k: int|
                0 <= k < out@.len() ==> #[trigger] out@[k]@ == listing_line(
                    len as nat,
                    k,
                    titled(podcast.episodes@.take(i as int))[k],
                ),
        decreases len - i,
    {
        let ghost before = titled(podcast.episodes@.take(i as int));
        assert(podcast.episodes@.take(i + 1).drop_last() =~= podcast.episodes@.take(i as int));
        assert(podcast.episodes@.take(i + 1).last() == podcast.episodes@[i as int]);
        match podcast.episodes[i].title() {
            Some(t) => {
                let k = out.len();
                let mut line = String::from_str("(");
                let n = decimal_text((len - k) as u64);
                line.append(n.as_str());
                line.append(") ");
                line.append(t.as_str());
                out.push(line);
                assert forall|j: int| 0 <= j < out@.len() implies #[trigger] out@[j]@
                    == listing_line(len as nat, j, titled(podcast.episodes@.take(i + 1))[j]) by {}
            },
            None => {},
        }
        i = i + 1;
    }
    assert(podcast.episodes@.take(len as int) =~= podcast.episodes@);
    out
}

} // verus!
