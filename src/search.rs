use vstd::prelude::*;

verus! {

/// An answer of the podcast directory to a search for artists.
#[derive(Clone, Debug, PartialEq)]
pub struct ArtistSearchResponse {
    pub result_count: usize,
    pub results: Vec<ArtistSearchResult>,
}

/// One artist found by a search.
#[derive(Clone, Debug, PartialEq)]
pub struct ArtistSearchResult {
    pub wrapper_type: Option<String>,
    pub artist_type: Option<String>,
    pub artist_name: Option<String>,
    pub artist_link_url: Option<String>,
    pub artist_id: Option<i64>,
    pub primary_genre_name: Option<String>,
    pub primary_genre_id: Option<i64>,
}

#[derive(Clone, Copy, Debug, PartialEq, Eq)]
pub enum Explicitness {
    Cleaned,
    Explicit,
    NotExplicit,
}

#[derive(Clone, Copy, Debug, PartialEq, Eq)]
pub enum ContentAdvisoryRating {
    Clean,
    Explicit,
}

#[derive(Clone, Copy, Debug, PartialEq, Eq)]
pub enum Country {
    Usa,
}

#[derive(Clone, Copy, Debug, PartialEq, Eq)]
pub enum Currency {
    Usd,
}

#[derive(Clone, Copy, Debug, PartialEq, Eq)]
pub enum Kind {
    Podcast,
}

#[derive(Clone, Copy, Debug, PartialEq, Eq)]
pub enum WrapperType {
    Track,
}

/// The answer to a lookup of a podcast's feed: its URL, or an error message.
#[derive(Clone, Debug, PartialEq)]
pub struct RssResponse {
    error: Option<String>,
    url: Option<String>,
}

impl RssResponse {
    pub closed spec fn spec_error(&self) -> Option<String> {
        self.error
    }

    pub closed spec fn spec_url(&self) -> Option<String> {
        self.url
    }

    pub fn new(error: Option<String>, url: Option<String>) -> (r: RssResponse)
        ensures
            r.spec_error() == error,
            r.spec_url() == url,
    {
        RssResponse { error, url }
    }

    pub fn error(&self) -> (r: &Option<String>)
        ensures
            *r == self.spec_error(),
    {
        &self.error
    }

    pub fn url(&self) -> (r: &Option<String>)
        ensures
            *r == self.spec_url(),
    {
        &self.url
    }
}

/// What `percent_encoding::utf8_percent_encode` with the `NON_ALPHANUMERIC`
/// set makes of a string.
pub uninterp spec fn percent_encoded(s: Seq<char>) -> Seq<char>;

/// Relies on `percent_encoding::utf8_percent_encode(s, NON_ALPHANUMERIC)`:
/// every byte of `s` that is not an ASCII letter or digit becomes `%XX`; the
/// result depends on `s` alone.
#[verifier::external_body]
fn encode_component(s: &str) -> (r: String)
    ensures
        r@ == percent_encoded(s@),
{
    percent_encoding::utf8_percent_encode(s, percent_encoding::NON_ALPHANUMERIC).to_string()
}

/// The search endpoint of the podcast directory.
pub open spec fn search_base() -> Seq<char> {
    "https://itunes.apple.com/search?media=podcast&term="@
}

/// The URL that asks the directory for an episode, from the encoded podcast
/// and episode names.
pub fn episode_query_url(podcast_encoded: &str, episode_encoded: &str) -> (r: String)
    ensures
        r@ == search_base() + "/query/"@ + podcast_encoded@ + "/episode/"@ + episode_encoded@,
{
    let mut url = String::from_str("https://itunes.apple.com/search?media=podcast&term=");
    url.append("/query/");
    url.append(podcast_encoded);
    url.append("/episode/");
    url.append(episode_encoded);
    url
}

/// The URL of a search for the episode `ep` of the podcast `podcast`.
pub fn search_for_episode(podcast: &str, ep: &str) -> (r: String)
    ensures
        r@ == search_base() + "/query/"@ + percent_encoded(podcast@) + "/episode/"@
            + percent_encoded(ep@),
{
    let p = encode_component(podcast);
    let e = encode_component(ep);
    episode_query_url(p.as_str(), e.as_str())
}

/// The URL that looks up the feed of a podcast, from its encoded identifier.
pub fn lookup_url(id_encoded: &str) -> (r: String)
    ensures
        r@ == "https://itunes.apple.com/lookup?id="@ + id_encoded@ + "&entity=podcast"@,
{
    let mut url = String::from_str("https://itunes.apple.com/lookup?id=");
    url.append(id_encoded);
    url.append("&entity=podcast");
    url
}

/// The URL that looks up the feed of the podcast with identifier `podcast`.
pub fn retrieve_rss(podcast: &str) -> (r: String)
    ensures
        r@ == "https://itunes.apple.com/lookup?id="@ + percent_encoded(podcast@) + "&entity=podcast"@,
{
    let id = encode_component(podcast);
    lookup_url(id.as_str())
}

} // verus!
