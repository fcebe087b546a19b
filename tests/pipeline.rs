use std::collections::HashMap;

use podcast::feed::{Config, Enclosure, Episode, Podcast, Subscription};
use podcast::partition::partition;
use podcast::pattern::{find_matching_podcast, matching_subscriptions, remove, Removed};
use podcast::reconcile::update_subscription;
use podcast::resolve::{collect_downloads, download_rss};
use podcast::state::{save_steps, FileStep, State};
use podcast::transfer::{range_header, truncate_title, Transfer};
use podcast::version::{newer_release, update_available};

fn feed(n: usize) -> Podcast {
    let mut episodes = Vec::new();
    for k in (1..=n).rev() {
        episodes.push(Episode {
            title: Some(format!("Episode {}", k)),
            enclosure: Some(Enclosure {
                url: format!("http://example.com/ep{}.mp3", k),
                mime_type: "audio/mpeg".to_string(),
            }),
        });
    }
    Podcast { title: "Show".to_string(), link: String::new(), episodes }
}

fn sub(title: &str, n: usize) -> Subscription {
    Subscription { title: title.to_string(), url: format!("http://{}", title), num_episodes: n }
}

#[test]
fn resume_sends_range_and_completes() {
    let (mut t, req) = Transfer::start(1000, Some(400));
    assert_eq!(req.range.as_deref(), Some("bytes=400-"));
    assert!(req.append);
    assert_eq!(t.position, 400);
    t.on_chunk(250);
    t.on_chunk(350);
    t.finish();
    assert_eq!(t.file_len, 1000);
    assert_eq!(t.position, 1000);
    assert!(t.done);
}

#[test]
fn fresh_transfer_has_no_range() {
    let (t, req) = Transfer::start(10, None);
    assert!(req.range.is_none());
    assert!(!req.append);
    assert_eq!(t.file_len, 0);
    assert_eq!(range_header(0), "bytes=0-");
    assert_eq!(range_header(1234567890), "bytes=1234567890-");
}

#[test]
fn titles_fit_the_terminal() {
    let long = "x".repeat(100);
    assert_eq!(truncate_title(&long, Some(80)).len(), 35);
    assert_eq!(truncate_title(&long, Some(45)).len(), 10);
    assert_eq!(truncate_title(&long, None).len(), 40);
    assert_eq!(truncate_title("short", None), "short");
    assert_eq!(truncate_title("héllo wörld", Some(48)), "hél");
}

#[test]
fn partition_fewer_items_than_cores() {
    let w = partition(vec![1, 2, 3], 4);
    assert_eq!(w, vec![vec![1], vec![2], vec![3]]);
    assert!(partition(Vec::<u8>::new(), 4).is_empty());
}

#[test]
fn partition_into_core_count_chunks() {
    let w = partition((0..10).collect::<Vec<u32>>(), 4);
    assert_eq!(w, vec![vec![0, 1, 2], vec![3, 4, 5], vec![6, 7, 8], vec![9]]);
    let w = partition((0..8).collect::<Vec<u32>>(), 4);
    assert_eq!(w.len(), 4);
    assert!(w.iter().all(|c| c.len() == 2));
    let w = partition((0..5).collect::<Vec<u32>>(), 4);
    assert_eq!(w, vec![vec![0, 1], vec![2, 3], vec![4]]);
    let flat: Vec<u32> = partition((0..23).collect::<Vec<u32>>(), 6).concat();
    assert_eq!(flat, (0..23).collect::<Vec<u32>>());
}

#[test]
fn reconciliation_ignores_completion_order() {
    let start = vec![sub("a", 1), sub("b", 2), sub("c", 3)];
    let outcomes = vec![Ok((2, 30)), Err("feed unreachable".to_string()), Ok((0, 10))];
    let mut reordered = outcomes.clone();
    reordered.reverse();
    let mut s1 = State::new("1.0", Config::default(), 0);
    s1.subscriptions = start.clone();
    let mut s2 = State::new("1.0", Config::default(), 0);
    s2.subscriptions = start;
    s1.update_rss(&outcomes);
    s2.update_rss(&reordered);
    let counts = |s: &State| s.subscriptions.iter().map(|x| x.num_episodes).collect::<Vec<_>>();
    assert_eq!(counts(&s1), vec![10, 2, 30]);
    assert_eq!(counts(&s2), vec![10, 2, 30]);
    assert_eq!(s1.subscriptions[1].title, "b");
}

#[test]
fn save_is_atomic() {
    let bytes = b"{\"new\":true}".to_vec();
    let steps = save_steps("/p/.subscriptions.json", bytes.clone());
    let mut disk: HashMap<String, Vec<u8>> = HashMap::new();
    disk.insert("/p/.subscriptions.json".to_string(), b"old".to_vec());
    let apply = |disk: &mut HashMap<String, Vec<u8>>, step: &FileStep| match step {
        FileStep::Write { path, bytes } => {
            disk.insert(path.clone(), bytes.clone());
        }
        FileStep::Rename { from, to } => {
            if let Some(b) = disk.remove(from) {
                disk.insert(to.clone(), b);
            }
        }
    };
    assert_eq!(steps.len(), 2);
    apply(&mut disk, &steps[0]);
    assert_eq!(disk["/p/.subscriptions.json"], b"old".to_vec());
    assert!(disk.contains_key("/p/.subscriptions.json.tmp"));
    apply(&mut disk, &steps[1]);
    assert_eq!(disk["/p/.subscriptions.json"], bytes);
    assert!(!disk.contains_key("/p/.subscriptions.json.tmp"));
}

#[test]
fn subscribe_with_auto_download_limit() {
    let p = feed(5);
    let mut config = Config::default();
    config.auto_download_limit = Some(2);
    let mut state = State::new("1.0", config, 0);
    state.subscribe(&p.title, "http://example.com/feed", p.episodes.len());
    assert_eq!(state.subscriptions.len(), 1);
    assert_eq!(state.subscriptions[0].num_episodes, 5);
    let positions = download_rss(&p, &state.config);
    let intents = collect_downloads("/pod", &p, &positions, &Vec::new());
    let titles: Vec<&str> = intents.iter().map(|d| d.title.as_str()).collect();
    assert_eq!(titles, vec!["Episode 5.mp3", "Episode 4.mp3"]);
    state.subscribe(&p.title, "http://elsewhere", 9);
    assert_eq!(state.subscriptions.len(), 1);
}

#[test]
fn refresh_plans_newest_unknown_episodes() {
    let p = feed(6);
    let s = sub("Show", 2);
    let mut config = Config::default();
    config.download_subscription_limit = None;
    let plan = update_subscription(&s, &p, &config);
    assert_eq!(plan.total, 6);
    assert_eq!(plan.positions, vec![0, 1, 2, 3]);
    config.download_subscription_limit = Some(1);
    assert_eq!(update_subscription(&s, &p, &config).positions, vec![0]);
    let up_to_date = sub("Show", 6);
    assert!(update_subscription(&up_to_date, &p, &config).positions.is_empty());
}

#[test]
fn refresh_only_once_a_day() {
    let state = State::new("1.0", Config::default(), 1_000_000);
    assert!(!state.needs_refresh(1_000_000 + 86_399));
    assert!(state.needs_refresh(1_000_000 + 86_400));
    assert!(!state.needs_refresh(0));
}

#[test]
fn podcast_patterns_are_case_insensitive_regexes() {
    let subs = vec![sub("Rust Radio", 1), sub("Other", 1), sub("rusty", 1)];
    assert_eq!(matching_subscriptions(&subs, "^rust").ok().unwrap(), vec![0, 2]);
    assert_eq!(find_matching_podcast(&subs, "OTHER").ok().unwrap(), Some(1));
    assert_eq!(find_matching_podcast(&subs, "zzz").ok().unwrap(), None);
    assert!(matching_subscriptions(&subs, "(").is_err());
}

#[test]
fn remove_by_pattern() {
    let mut subs = vec![sub("Rust Radio", 1), sub("Other", 1), sub("rusty", 1)];
    match remove(&mut subs, "rust").ok().unwrap() {
        Removed::One(t) => assert_eq!(t, "Rust Radio"),
        _ => panic!("expected one removal"),
    }
    assert_eq!(subs.len(), 2);
    assert!(matches!(remove(&mut subs, "nothing").ok().unwrap(), Removed::Nothing));
    assert!(remove(&mut subs, "[").is_err());
    assert!(matches!(remove(&mut subs, "*").ok().unwrap(), Removed::All));
    assert!(subs.is_empty());
}

#[test]
fn newer_versions_are_detected() {
    assert!(update_available("0.17.0", "0.18.1"));
    assert!(update_available("1.2.3", "1.2.4"));
    assert!(!update_available("1.2.3", "1.2.3"));
    assert!(!update_available("2.0.0", "1.9.9"));
    assert!(!update_available("not a version", "1.0.0"));
    assert!(newer_release((1, 2, 3), (1, 3, 0)));
    assert!(!newer_release((1, 3, 0), (1, 2, 9)));
}
