use podcast::feed::{Enclosure, Episode, Podcast};
use podcast::pattern::matched_positions;
use podcast::playback::{list_episodes, player_attempts};
use podcast::search::{episode_query_url, lookup_url, retrieve_rss, search_for_episode, RssResponse};

#[test]
fn positions_of_hits() {
    assert_eq!(matched_positions(&vec![true, false, true, true]), vec![0, 2, 3]);
    assert!(matched_positions(&vec![false, false]).is_empty());
    assert!(matched_positions(&Vec::new()).is_empty());
}

#[test]
fn players_fall_back_in_order() {
    let attempts = player_attempts("http://h/a.mp3?token=1");
    let programs: Vec<&str> = attempts.iter().map(|a| a.program.as_str()).collect();
    assert_eq!(programs, vec!["mpv", "vlc", "play"]);
    assert_eq!(attempts[0].args, vec!["--no-audio-display", "--ytdl=no", "http://h/a.mp3?token=1"]);
    assert_eq!(attempts[1].args, vec!["-I ncurses", "http://h/a.mp3?token=1"]);
    assert_eq!(attempts[2].args, vec!["http://h/a.mp3"]);
}

#[test]
fn episode_listing_counts_down() {
    let ep = |t: Option<&str>| Episode {
        title: t.map(str::to_string),
        enclosure: Some(Enclosure { url: "u".to_string(), mime_type: "audio/mpeg".to_string() }),
    };
    let p = Podcast {
        title: "Show".to_string(),
        link: String::new(),
        episodes: vec![ep(Some("Three")), ep(None), ep(Some("One/Two"))],
    };
    assert_eq!(list_episodes(&p), vec!["(3) Three", "(2) One_Two"]);
}

#[test]
fn rss_response_accessors() {
    let r = RssResponse::new(None, Some("http://feed".to_string()));
    assert_eq!(r.url(), &Some("http://feed".to_string()));
    assert_eq!(r.error(), &None);
}

#[test]
fn directory_urls() {
    assert_eq!(
        episode_query_url("a", "b"),
        "https://itunes.apple.com/search?media=podcast&term=/query/a/episode/b"
    );
    assert_eq!(
        search_for_episode("my show", "ep&1"),
        "https://itunes.apple.com/search?media=podcast&term=/query/my%20show/episode/ep%261"
    );
    assert_eq!(lookup_url("42"), "https://itunes.apple.com/lookup?id=42&entity=podcast");
    assert_eq!(retrieve_rss("4 2"), "https://itunes.apple.com/lookup?id=4%202&entity=podcast");
}
