use podcast::paths::{append_extension, find_extension, get_sub_file, get_xml_dir, migrate, trim_extension};

#[test]
fn test_find_extension_mp3() {
    assert_eq!(find_extension("test.mp3"), Some("mp3".into()))
}

#[test]
fn test_find_extension_m4a() {
    assert_eq!(find_extension("test.m4a"), Some("m4a".into()))
}

#[test]
fn test_find_extension_wav() {
    assert_eq!(find_extension("test.wav"), Some("wav".into()))
}

#[test]
fn test_find_extension_ogg() {
    assert_eq!(find_extension("test.ogg"), Some("ogg".into()))
}

#[test]
fn test_find_extension_opus() {
    assert_eq!(find_extension("test.opus"), Some("opus".into()))
}

#[test]
fn test_find_weird_extension() {
    assert_eq!(find_extension("test.taco"), Some("taco".into()))
}

#[test]
fn test_find_no_extension() {
    assert_eq!(find_extension("test"), None)
}

#[test]
fn test_trim_extension() {
    assert_eq!(trim_extension("test.taco"), Some(String::from("test")))
}

#[test]
fn test_trim_extension_invalid() {
    assert_eq!(trim_extension("test"), Some("test".into()))
}

#[test]
fn extension_is_after_the_last_dot() {
    assert_eq!(find_extension("a.b.mp3"), Some("mp3".into()));
    assert_eq!(find_extension("trailing."), Some("".into()));
    assert_eq!(trim_extension("Ep. 5.mp3"), Some("Ep. 5".into()));
    assert_eq!(trim_extension("dot."), Some("dot".into()));
}

#[test]
fn append_extension_adds_one_dot() {
    assert_eq!(append_extension("title", "mp3"), "title.mp3");
    assert_eq!(append_extension("title.", "mp3"), "title.mp3");
    assert_eq!(append_extension("", "xml"), ".xml");
}

#[test]
fn state_and_cache_locations() {
    assert_eq!(get_xml_dir("/home/u/Podcasts"), "/home/u/Podcasts/.rss");
    assert_eq!(get_xml_dir("/home/u/Podcasts/"), "/home/u/Podcasts/.rss");
    assert_eq!(get_sub_file("/p"), "/p/.subscriptions.json");
}

#[test]
fn migration_moves_only_an_existing_legacy_file() {
    assert_eq!(
        migrate("/p", true),
        Some(("/p/.subscriptions".to_string(), "/p/.subscriptions.json".to_string()))
    );
    assert_eq!(migrate("/p", false), None);
}
