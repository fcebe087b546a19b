use vstd::prelude::*;

use crate::paths::{append_extension, file_extension, find_extension, join_path, path_join, with_extension};
use crate::text::same_text;

verus! {

/// `s` with every `/` replaced by `_`, so that it can name a single file.
pub open spec fn escaped(s: Seq<char>) -> Seq<char> {
    s.map_values(|c: char| if c == '/' { '_' } else { c })
}

/// Relies on regex: `Regex::new("/")` is a valid pattern that matches the one
/// character `/`, and `replace_all` puts the literal `_` in place of each match.
#[verifier::external_body]
fn escape_file_name(s: &str) -> (r: String)
    ensures
        r@ == escaped(s@),
{
    regex::Regex::new("/").unwrap().replace_all(s, "_").into_owned()
}

/// The media link of a feed item.
#[derive(Clone, Debug)]
pub struct Enclosure {
    pub url: String,
    pub mime_type: String,
}

/// One item of a feed, as the feed parser hands it over.
#[derive(Clone, Debug)]
pub struct Episode {
    pub title: Option<String>,
    pub enclosure: Option<Enclosure>,
}

/// A parsed feed: its title, its link and its items, newest first.
#[derive(Clone, Debug)]
pub struct Podcast {
    pub title: String,
    pub link: String,
    pub episodes: Vec<Episode>,
}

/// The file extension that a MIME type calls for, where it is one of the known audio types.
pub open spec fn mime_extension(m: Seq<char>) -> Option<Seq<char>> {
    if m == "audio/mpeg"@ {
        Some("mp3"@)
    } else if m == "audio/mp4"@ || m == "audio/aac"@ {
        Some("m4a"@)
    } else if m == "audio/ogg"@ || m == "audio/vorbis"@ {
        Some("ogg"@)
    } else if m == "audio/opus"@ {
        Some("opus"@)
    } else {
        None
    }
}

impl Episode {
    /// The title with the characters that cannot stand in a file name escaped.
    pub open spec fn spec_title(&self) -> Option<Seq<char>> {
        match self.title {
            Some(t) => Some(escaped(t@)),
            None => None,
        }
    }

    pub open spec fn spec_url(&self) -> Option<Seq<char>> {
        match self.enclosure {
            Some(e) => Some(e.url@),
            None => None,
        }
    }

    /// The extension from the MIME type, else from the end of the media URL.
    pub open spec fn spec_extension(&self) -> Option<Seq<char>> {
        match self.enclosure {
            None => None,
            Some(e) => match mime_extension(e.mime_type@) {
                Some(x) => Some(x),
                None => file_extension(e.url@),
            },
        }
    }

    pub fn title(&self) -> (r: Option<String>)
        ensures
            r matches Some(t) ==> self.spec_title() == Some(t@),
            r is None ==> self.spec_title() is None,
    {
        match &self.title {
            Some(t) => Some(escape_file_name(t.as_str())),
            None => None,
        }
    }

    pub fn url(&self) -> (r: Option<String>)
        ensures
            r matches Some(u) ==> self.spec_url() == Some(u@),
            r is None ==> self.spec_url() is None,
    {
        match &self.enclosure {
            Some(e) => Some(e.url.clone()),
            None => None,
        }
    }

    pub fn extension(&self) -> (r: Option<String>)
        ensures
            r matches Some(x) ==> self.spec_extension() == Some(x@),
            r is None ==> self.spec_extension() is None,
    {
        match &self.enclosure {
            None => None,
            Some(e) => {
                let m = e.mime_type.as_str();
                if same_text(m, "audio/mpeg") {
                    Some(String::from_str("mp3"))
                } else if same_text(m, "audio/mp4") || same_text(m, "audio/aac") {
                    Some(String::from_str("m4a"))
                } else if same_text(m, "audio/ogg") || same_text(m, "audio/vorbis") {
                    Some(String::from_str("ogg"))
                } else if same_text(m, "audio/opus") {
                    Some(String::from_str("opus"))
                } else {
                    find_extension(e.url.as_str())
                }
            },
        }
    }
}

impl Podcast {
    pub fn title(&self) -> (r: &str)
        ensures
            r@ == self.title@,
    {
        self.title.as_str()
    }

    pub fn url(&self) -> (r: &str)
        ensures
            r@ == self.link@,
    {
        self.link.as_str()
    }

    pub fn episodes(&self) -> (r: &Vec<Episode>)
        ensures
            r == &self.episodes,
    {
        &self.episodes
    }
}

/// A subscription as it is persisted: the feed's title and URL, and how many
/// episodes the feed had when it was last refreshed.
#[derive(Clone, Debug)]
pub struct Subscription {
    pub title: String,
    pub url: String,
    pub num_episodes: usize,
}

/// What a `Subscription` holds, in mathematical terms.
pub struct SubscriptionView {
    pub title: Seq<char>,
    pub url: Seq<char>,
    pub num_episodes: usize,
}

impl View for Subscription {
    type V = SubscriptionView;

    open spec fn view(&self) -> SubscriptionView {
        SubscriptionView { title: self.title@, url: self.url@, num_episodes: self.num_episodes }
    }
}

impl Subscription {
    pub fn title(&self) -> (r: &str)
        ensures
            r@ == self.title@,
    {
        self.title.as_str()
    }
}

/// Settings of the command line tool; an absent download limit sets no bound.
#[derive(Clone, Copy, Debug, PartialEq, Eq)]
pub struct Config {
    pub auto_download_limit: Option<i64>,
    pub download_subscription_limit: Option<i64>,
    pub quiet: Option<bool>,
}

impl Default for Config {
    fn default() -> (r: Config)
        ensures
            r.auto_download_limit == Some(1i64),
            r.download_subscription_limit == Some(1i64),
            r.quiet == Some(false),
    {
        Config { auto_download_limit: Some(1), download_subscription_limit: Some(1), quiet: Some(false) }
    }
}

/// The decision to fetch one episode to one path.
#[derive(Clone, Debug)]
pub struct Download {
    pub title: String,
    pub path: String,
    pub url: String,
    pub size: u64,
}

/// What a `Download` holds, in mathematical terms.
pub struct DownloadView {
    pub title: Seq<char>,
    pub path: Seq<char>,
    pub url: Seq<char>,
    pub size: u64,
}

impl View for Download {
    type V = DownloadView;

    open spec fn view(&self) -> DownloadView {
        DownloadView { title: self.title@, path: self.path@, url: self.url@, size: self.size }
    }
}

/// The file name of an episode: its escaped title, with the extension when one is known.
pub open spec fn episode_file_name(e: Episode) -> Option<Seq<char>> {
    match e.spec_title() {
        None => None,
        Some(t) => match e.spec_extension() {
            Some(x) => Some(with_extension(t, x)),
            None => Some(t),
        },
    }
}

/// The directory that holds a podcast's episodes.
pub open spec fn podcast_folder(podcast_dir: Seq<char>, podcast_title: Seq<char>) -> Seq<char> {
    path_join(podcast_dir, escaped(podcast_title))
}

/// The intent to fetch `e`, where it has a title and a media URL.
pub open spec fn intent_for(
    podcast_dir: Seq<char>,
    podcast_title: Seq<char>,
    e: Episode,
    size: u64,
) -> Option<DownloadView> {
    match (episode_file_name(e), e.spec_url()) {
        (Some(name), Some(url)) => Some(
            DownloadView {
                title: name,
                path: path_join(podcast_folder(podcast_dir, podcast_title), name),
                url,
                size,
            },
        ),
        _ => None,
    }
}

/// The folder that holds the episodes of the podcast titled `title`.
pub fn folder_path(podcast_dir: &str, title: &str) -> (r: String)
    ensures
        r@ == podcast_folder(podcast_dir@, title@),
{
    let folder_name = escape_file_name(title);
    join_path(podcast_dir, folder_name.as_str())
}

impl Download {
    /// The intent to fetch `episode` of `podcast` under `podcast_dir`, with the
    /// size that the server announced; none where the episode has no title or no
    /// media URL.
    pub fn new(podcast_dir: &str, podcast: &Podcast, episode: &Episode, size: u64) -> (r: Option<
        Download,
    >)
        ensures
            r matches Some(d) ==> intent_for(podcast_dir@, podcast.title@, *episode, size) == Some(
                d@,
            ),
            r is None ==> intent_for(podcast_dir@, podcast.title@, *episode, size) is None,
    {
        let title = episode.title();
        let url = episode.url();
        match (title, url) {
            (Some(t), Some(u)) => {
                let name = match episode.extension() {
                    Some(x) => append_extension(t.as_str(), x.as_str()),
                    None => t,
                };
                let folder = folder_path(podcast_dir, podcast.title.as_str());
                let path = join_path(folder.as_str(), name.as_str());
                Some(Download { title: name, path, url: u, size })
            },
            _ => None,
        }
    }
}

/// Where the raw feed of the podcast titled `title` is cached.
pub open spec fn feed_cache_path(xml_dir: Seq<char>, title: Seq<char>) -> Seq<char> {
    path_join(xml_dir, with_extension(escaped(title), "xml"@))
}

/// The cache file of the feed titled `title` inside `xml_dir`.
pub fn feed_cache_file(xml_dir: &str, title: &str) -> (r: String)
    ensures
        r@ == feed_cache_path(xml_dir@, title@),
{
    let name = escape_file_name(title);
    let file = append_extension(name.as_str(), "xml");
    join_path(xml_dir, file.as_str())
}

} // verus!
