use std::collections::HashSet;

use podcast::feed::{feed_cache_file, Config, Download, Enclosure, Episode, Podcast};
use podcast::resolve::{
    already_downloaded, collect_downloads, contains_text, download_all, download_episode_by_name,
    download_episode_by_num, download_latest, download_range, download_rss, name_matches,
    resolve_index, select_episodes, Selection,
};
use podcast::selector::{parse_download_episodes, ResolveError};

fn episode(title: &str, url: &str, mime: &str) -> Episode {
    Episode {
        title: Some(title.to_string()),
        enclosure: Some(Enclosure { url: url.to_string(), mime_type: mime.to_string() }),
    }
}

/// A feed of `n` episodes, newest first: "Episode n" down to "Episode 1".
fn feed(n: usize) -> Podcast {
    let mut episodes = Vec::new();
    for k in (1..=n).rev() {
        episodes.push(episode(
            &format!("Episode {}", k),
            &format!("http://example.com/ep{}.mp3", k),
            "audio/mpeg",
        ));
    }
    Podcast { title: "Show".to_string(), link: "http://example.com".to_string(), episodes }
}

#[test]
fn selector_union_of_segments() {
    let got = parse_download_episodes("1,3-5,5").ok().unwrap();
    let want: HashSet<usize> = [1, 3, 4, 5].into_iter().collect();
    assert_eq!(got, want);
}

#[test]
fn selector_accepts_single_index_and_reversed_range() {
    let one = parse_download_episodes("7").ok().unwrap();
    assert_eq!(one, [7].into_iter().collect::<HashSet<usize>>());
    let none = parse_download_episodes("5-3").ok().unwrap();
    assert!(none.is_empty());
    let plus = parse_download_episodes("+2").ok().unwrap();
    assert_eq!(plus, [2].into_iter().collect::<HashSet<usize>>());
}

#[test]
fn selector_rejects_malformed_segments() {
    for bad in ["", "1,", "a", "1-2-3", "-3", "3-", "1,,2", " 1", "99999999999999999999999"] {
        assert!(matches!(parse_download_episodes(bad), Err(ResolveError::Parse)), "{}", bad);
    }
}

#[test]
fn display_index_counts_from_newest() {
    assert_eq!(resolve_index(10, 1), Some(9));
    assert_eq!(resolve_index(10, 10), Some(0));
    assert_eq!(resolve_index(10, 0), None);
    assert_eq!(resolve_index(10, 11), None);
}

#[test]
fn range_selects_positions_newest_first() {
    let p = feed(10);
    let got = download_range(&p, "1,3-5,5").ok().unwrap();
    assert_eq!(got, vec![5, 6, 7, 9]);
}

#[test]
fn range_errors() {
    let p = feed(3);
    assert!(matches!(download_range(&p, "2,4"), Err(ResolveError::NotFound)));
    assert!(matches!(download_range(&p, "0-1"), Err(ResolveError::NotFound)));
    assert!(matches!(download_range(&p, "x"), Err(ResolveError::Parse)));
}

#[test]
fn by_number_and_fallback_to_name() {
    let p = feed(4);
    assert_eq!(download_episode_by_num(&p, "1").ok().unwrap(), vec![3]);
    assert!(matches!(download_episode_by_num(&p, "9"), Err(ResolveError::NotFound)));
    assert_eq!(download_episode_by_num(&p, "EPISODE 2").ok().unwrap(), vec![2]);
}

#[test]
fn name_search_ignores_case() {
    let mut p = feed(3);
    p.episodes.push(episode("Bonus: Interview", "http://example.com/b.mp3", "audio/mpeg"));
    assert_eq!(download_episode_by_name(&p, "episode", false), vec![0]);
    assert_eq!(download_episode_by_name(&p, "episode", true), vec![0, 1, 2]);
    assert_eq!(download_episode_by_name(&p, "INTERVIEW", true), vec![3]);
    assert!(download_episode_by_name(&p, "missing", true).is_empty());
}

#[test]
fn name_matches_on_folded_titles() {
    let titles = vec![Some("abc".to_string()), None, Some("xabcx".to_string())];
    assert_eq!(name_matches(&titles, "abc", true), vec![0, 2]);
    assert_eq!(name_matches(&titles, "abc", false), vec![0]);
    assert_eq!(name_matches(&titles, "ABC", true), Vec::<usize>::new());
    assert!(contains_text("hello", ""));
    assert!(contains_text("hello", "llo"));
    assert!(!contains_text("he", "hello"));
}

#[test]
fn latest_is_capped_by_feed_length() {
    let p = feed(3);
    assert_eq!(download_latest(&p, 2), vec![0, 1]);
    assert_eq!(download_latest(&p, 10), vec![0, 1, 2]);
}

#[test]
fn subscribe_limit() {
    let p = feed(5);
    let mut config = Config::default();
    config.auto_download_limit = Some(2);
    assert_eq!(download_rss(&p, &config), vec![0, 1]);
    config.auto_download_limit = None;
    assert_eq!(download_rss(&p, &config).len(), 5);
    config.auto_download_limit = Some(0);
    assert!(download_rss(&p, &config).is_empty());
    config.auto_download_limit = Some(-1);
    assert_eq!(download_rss(&p, &config).len(), 5);
}

#[test]
fn all_skips_downloaded_episodes() {
    let p = feed(4);
    let stems = already_downloaded(&vec!["Episode 1.mp3".to_string(), "Episode 2.mp3".to_string()]);
    assert_eq!(stems, vec!["Episode 1".to_string(), "Episode 2".to_string()]);
    let positions = download_all(&p, &stems);
    assert_eq!(positions, vec![0, 1]);
    let intents = collect_downloads("/pod", &p, &positions, &stems);
    let titles: Vec<&str> = intents.iter().map(|d| d.title.as_str()).collect();
    assert_eq!(titles, vec!["Episode 4.mp3", "Episode 3.mp3"]);
}

#[test]
fn intents_skip_downloaded_and_incomplete_episodes() {
    let mut p = feed(3);
    p.episodes.push(Episode { title: None, enclosure: None });
    p.episodes.push(Episode { title: Some("No media".to_string()), enclosure: None });
    let stems = vec!["Episode 2".to_string()];
    let intents = collect_downloads("/pod", &p, &vec![0, 1, 2, 3, 4], &stems);
    let titles: Vec<&str> = intents.iter().map(|d| d.title.as_str()).collect();
    assert_eq!(titles, vec!["Episode 3.mp3", "Episode 1.mp3"]);
}

#[test]
fn intent_layout_escapes_slashes() {
    let p = Podcast {
        title: "AC/DC Talk".to_string(),
        link: String::new(),
        episodes: vec![episode("Part 1/2", "http://x/y.ogg?z", "audio/ogg")],
    };
    let d: Download = Download::new("/pod", &p, &p.episodes[0], 42).unwrap();
    assert_eq!(d.title, "Part 1_2.ogg");
    assert_eq!(d.path, "/pod/AC_DC Talk/Part 1_2.ogg");
    assert_eq!(d.url, "http://x/y.ogg?z");
    assert_eq!(d.size, 42);
    assert_eq!(feed_cache_file("/pod/.rss", "AC/DC Talk"), "/pod/.rss/AC_DC Talk.xml");
}

#[test]
fn extension_from_mime_type_or_url() {
    assert_eq!(episode("t", "u.x", "audio/mpeg").extension(), Some("mp3".into()));
    assert_eq!(episode("t", "u.x", "audio/mp4").extension(), Some("m4a".into()));
    assert_eq!(episode("t", "u.x", "audio/aac").extension(), Some("m4a".into()));
    assert_eq!(episode("t", "u.x", "audio/vorbis").extension(), Some("ogg".into()));
    assert_eq!(episode("t", "u.x", "audio/opus").extension(), Some("opus".into()));
    assert_eq!(episode("t", "http://h/f.flac", "audio/flac").extension(), Some("flac".into()));
    assert_eq!(episode("t", "nodot", "video/x").extension(), None);
    assert_eq!(Episode { title: None, enclosure: None }.extension(), None);
}

#[test]
fn selection_dispatch() {
    let p = feed(5);
    let none: Vec<String> = Vec::new();
    let pick = |text: &str, by_name: bool, all: bool| Selection::Episode {
        text: text.to_string(),
        by_name,
        all,
    };
    assert_eq!(select_episodes(&p, &pick("1-2", false, false), &none).ok().unwrap(), vec![3, 4]);
    assert_eq!(select_episodes(&p, &pick("2", false, false), &none).ok().unwrap(), vec![3]);
    assert_eq!(select_episodes(&p, &pick("episode", true, true), &none).ok().unwrap().len(), 5);
    assert_eq!(select_episodes(&p, &pick("EPISODE 4", false, false), &none).ok().unwrap(), vec![1]);
    assert!(matches!(select_episodes(&p, &pick("6", false, false), &none), Err(ResolveError::NotFound)));
    assert!(matches!(select_episodes(&p, &pick("1,x", false, false), &none), Err(ResolveError::Parse)));
    assert_eq!(select_episodes(&p, &Selection::Latest(2), &none).ok().unwrap(), vec![0, 1]);
    let stems = vec!["Episode 5".to_string()];
    assert_eq!(select_episodes(&p, &Selection::All, &stems).ok().unwrap(), vec![1, 2, 3, 4]);
}
