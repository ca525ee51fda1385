use tydle::cookies::{CookieJar, CookieList, CookieStore};
use tydle::error::{CookieError, VideoIdError};
use tydle::yt_interface::VideoId;

#[test]
fn valid_video_id_is_kept_verbatim() {
    let id = VideoId::new("dQw4w9WgXcQ").unwrap();
    assert_eq!(id.as_str(), "dQw4w9WgXcQ");
}

#[test]
fn underscore_and_dash_are_allowed_in_ids() {
    assert!(VideoId::new("a-b_c-d_e-f").is_ok());
}

#[test]
fn short_video_id_is_rejected() {
    assert!(matches!(VideoId::new("short"), Err(VideoIdError::Malformed)));
}

#[test]
fn long_video_id_is_rejected() {
    assert!(matches!(
        VideoId::new("dQw4w9WgXcQx"),
        Err(VideoIdError::Malformed)
    ));
}

#[test]
fn video_id_with_foreign_characters_is_rejected() {
    assert!(matches!(
        VideoId::new("dQw4w9WgXc!"),
        Err(VideoIdError::Malformed)
    ));
}

#[test]
fn empty_video_id_is_rejected() {
    assert!(matches!(VideoId::new(""), Err(VideoIdError::Malformed)));
}

#[test]
fn empty_jar_knows_no_domain() {
    let jar = CookieJar::new();
    assert!(jar.get_all("https://example.com").unwrap().is_none());
}

#[test]
fn malformed_domain_is_rejected() {
    let jar = CookieJar::new();
    assert!(matches!(
        jar.get_all("not a url"),
        Err(CookieError::InvalidDomain)
    ));
    let mut jar = CookieJar::new();
    assert!(matches!(
        jar.set("not a url", "name", "value"),
        Err(CookieError::InvalidDomain)
    ));
}

#[test]
fn set_on_unseeded_domain_changes_nothing() {
    // By current contract `set` never creates the first entry for a
    // domain; entries are seeded externally.
    let mut jar = CookieJar::new();
    jar.set("https://example.com", "name", "value").unwrap();
    assert!(jar.get_all("https://example.com").unwrap().is_none());
}

#[test]
fn seeded_domain_accepts_cookies() {
    let mut jar = CookieJar::new();
    jar.seed("https://example.com", CookieList { pairs: vec![] })
        .unwrap();
    jar.set("https://example.com", "session", "abc").unwrap();
    let cookies = jar.get_all("https://example.com").unwrap().unwrap();
    assert_eq!(cookies.pairs.len(), 1);
    assert_eq!(cookies.pairs[0].0, "session");
    assert_eq!(cookies.pairs[0].1, "abc");
}

#[test]
fn set_replaces_an_existing_cookie_in_place() {
    let mut jar = CookieJar::new();
    jar.seed("https://example.com", CookieList { pairs: vec![] })
        .unwrap();
    jar.set("https://example.com", "session", "abc").unwrap();
    jar.set("https://example.com", "other", "x").unwrap();
    jar.set("https://example.com", "session", "def").unwrap();
    let cookies = jar.get_all("https://example.com").unwrap().unwrap();
    assert_eq!(cookies.pairs.len(), 2);
    assert_eq!(cookies.pairs[0].0, "session");
    assert_eq!(cookies.pairs[0].1, "def");
    assert_eq!(cookies.pairs[1].0, "other");
}

#[test]
fn domains_are_normalized_before_keying() {
    // The two spellings serialize to the same URL, so they share one
    // cookie entry.
    let mut jar = CookieJar::new();
    jar.seed("https://EXAMPLE.com", CookieList { pairs: vec![] })
        .unwrap();
    jar.set("https://example.com/", "session", "abc").unwrap();
    let cookies = jar.get_all("https://example.com").unwrap().unwrap();
    assert_eq!(cookies.pairs.len(), 1);
    assert_eq!(cookies.pairs[0].0, "session");
}
