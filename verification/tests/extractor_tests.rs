use tydle::error::ExtractionError;
use tydle::extractor::{manifest_request_url, StreamsOutcome};
use tydle::ty::{Extract, Ty};
use tydle::yt_interface::{StreamEntry, StreamSource, VideoId, YtManifest};

fn player_source() -> String {
    String::from("var M={r9:function(a){a.reverse()},w3:function(a,b){var c=a[0];a[0]=a[b%a.length];a[b%a.length]=c},s1:function(a,b){a.splice(0,b)}};function d(a){a=a.split(\"\");M.r9(a,0);M.w3(a,12);M.s1(a,3);return a.join(\"\")}")
}

fn full_manifest() -> YtManifest {
    YtManifest {
        title: Some(String::from("A title")),
        author: Some(String::from("An author")),
        duration_seconds: Some(212),
        streams: vec![],
    }
}

#[test]
fn video_info_reads_all_fields() {
    let ty = Ty::new().unwrap();
    let info = ty.get_video_info_from_manifest(&full_manifest()).unwrap();
    assert_eq!(info.title, "A title");
    assert_eq!(info.author, "An author");
    assert_eq!(info.duration_seconds, 212);
}

#[test]
fn video_info_reports_missing_title() {
    let ty = Ty::new().unwrap();
    let mut m = full_manifest();
    m.title = None;
    match ty.get_video_info_from_manifest(&m) {
        Err(ExtractionError::MetadataFieldMissing(f)) => assert_eq!(f, "title"),
        _ => panic!("title must be reported missing"),
    }
}

#[test]
fn video_info_reports_missing_author() {
    let ty = Ty::new().unwrap();
    let mut m = full_manifest();
    m.author = None;
    match ty.get_video_info_from_manifest(&m) {
        Err(ExtractionError::MetadataFieldMissing(f)) => assert_eq!(f, "author"),
        _ => panic!("author must be reported missing"),
    }
}

#[test]
fn video_info_reports_missing_duration() {
    let ty = Ty::new().unwrap();
    let mut m = full_manifest();
    m.duration_seconds = None;
    match ty.get_video_info_from_manifest(&m) {
        Err(ExtractionError::MetadataFieldMissing(f)) => assert_eq!(f, "durationSeconds"),
        _ => panic!("duration must be reported missing"),
    }
}

fn direct_entry(itag: u64, url: &str) -> StreamEntry {
    StreamEntry {
        itag,
        mime_type: String::from("video/mp4"),
        source: StreamSource::Direct { url: String::from(url) },
    }
}

fn ciphered_entry(itag: u64, player_ref: &str) -> StreamEntry {
    StreamEntry {
        itag,
        mime_type: String::from("video/mp4"),
        source: StreamSource::Ciphered {
            base_url: String::from("https://cdn.example/video?sig="),
            signature: String::from("ABCDEFGHIJKLMNOP"),
            player_ref: String::from(player_ref),
        },
    }
}

#[test]
fn direct_streams_pass_through_unchanged() {
    let mut ty = Ty::new().unwrap();
    let m = YtManifest {
        title: None,
        author: None,
        duration_seconds: None,
        streams: vec![direct_entry(18, "https://cdn.example/direct")],
    };
    match ty.get_streams_from_manifest(&m) {
        StreamsOutcome::Ready(resp) => {
            assert_eq!(resp.streams.len(), 1);
            assert_eq!(resp.failures.len(), 0);
            assert_eq!(resp.streams[0].itag, 18);
            assert_eq!(resp.streams[0].url, "https://cdn.example/direct");
        },
        StreamsOutcome::NeedPlayerSources(_) => panic!("direct streams need no player source"),
    }
}

#[test]
fn uncached_references_are_requested_before_any_resolution() {
    let mut ty = Ty::new().unwrap();
    let m = YtManifest {
        title: None,
        author: None,
        duration_seconds: None,
        streams: vec![
            direct_entry(18, "https://cdn.example/direct"),
            ciphered_entry(137, "https://player.example/a.js"),
        ],
    };
    match ty.get_streams_from_manifest(&m) {
        StreamsOutcome::NeedPlayerSources(refs) => {
            assert_eq!(refs, vec![String::from("https://player.example/a.js")]);
        },
        StreamsOutcome::Ready(_) => panic!("the player source is not cached yet"),
    }
}

#[test]
fn ciphered_stream_resolves_against_supplied_source() {
    let mut ty = Ty::new().unwrap();
    ty.supply_player_source(String::from("https://player.example/a.js"), player_source());
    let m = YtManifest {
        title: None,
        author: None,
        duration_seconds: None,
        streams: vec![ciphered_entry(137, "https://player.example/a.js")],
    };
    match ty.get_streams_from_manifest(&m) {
        StreamsOutcome::Ready(resp) => {
            assert_eq!(resp.streams.len(), 1);
            assert_eq!(
                resp.streams[0].url,
                "https://cdn.example/video?sig=MLKJIHGFEPCBA"
            );
        },
        StreamsOutcome::NeedPlayerSources(_) => panic!("the player source was supplied"),
    }
}

#[test]
fn one_broken_cipher_yields_nine_streams_and_one_diagnostic() {
    // Ten entries; the one whose player source holds no recognizable
    // transform routine becomes a diagnostic, the other nine resolve.
    let mut ty = Ty::new().unwrap();
    let good_ref = "https://player.example/good.js";
    let bad_ref = "https://player.example/bad.js";
    ty.supply_player_source(String::from(good_ref), player_source());
    ty.supply_player_source(String::from(bad_ref), String::from("no routine in here"));

    let mut streams = Vec::new();
    for itag in 0..5u64 {
        streams.push(ciphered_entry(itag, good_ref));
    }
    streams.push(ciphered_entry(99, bad_ref));
    for itag in 5..9u64 {
        streams.push(direct_entry(itag, "https://cdn.example/direct"));
    }
    assert_eq!(streams.len(), 10);
    let m = YtManifest { title: None, author: None, duration_seconds: None, streams };

    match ty.get_streams_from_manifest(&m) {
        StreamsOutcome::Ready(resp) => {
            assert_eq!(resp.streams.len(), 9);
            assert_eq!(resp.failures.len(), 1);
            assert_eq!(resp.failures[0].itag, 99);
            assert!(matches!(
                resp.failures[0].error,
                ExtractionError::CipherPatternNotFound
            ));
        },
        StreamsOutcome::NeedPlayerSources(_) => panic!("both player sources were supplied"),
    }
}

#[test]
fn manifest_is_reused_across_both_derivations() {
    // Metadata and stream extraction from the same manifest value give
    // the same answers twice over, with no further input needed.
    let mut ty = Ty::new().unwrap();
    ty.supply_player_source(String::from("https://player.example/a.js"), player_source());
    let m = YtManifest {
        title: Some(String::from("A title")),
        author: Some(String::from("An author")),
        duration_seconds: Some(212),
        streams: vec![ciphered_entry(137, "https://player.example/a.js")],
    };
    let info1 = ty.get_video_info_from_manifest(&m).unwrap();
    let info2 = ty.get_video_info_from_manifest(&m).unwrap();
    assert_eq!(info1.title, info2.title);
    assert_eq!(info1.author, info2.author);
    assert_eq!(info1.duration_seconds, info2.duration_seconds);
    let r1 = match ty.get_streams_from_manifest(&m) {
        StreamsOutcome::Ready(resp) => resp,
        StreamsOutcome::NeedPlayerSources(_) => panic!("the player source was supplied"),
    };
    let r2 = match ty.get_streams_from_manifest(&m) {
        StreamsOutcome::Ready(resp) => resp,
        StreamsOutcome::NeedPlayerSources(_) => panic!("the player source was supplied"),
    };
    assert_eq!(r1.streams.len(), r2.streams.len());
    assert_eq!(r1.streams[0].url, r2.streams[0].url);
}

#[test]
fn manifest_url_embeds_the_identifier() {
    let id = VideoId::new("dQw4w9WgXcQ").unwrap();
    assert_eq!(
        manifest_request_url(&id),
        "https://www.youtube.com/youtubei/v1/player?videoId=dQw4w9WgXcQ"
    );
}

#[test]
fn unavailable_source_costs_one_stream_not_the_call() {
    // One reference is cached, the other could never be supplied;
    // resolving against the caches as they stand still succeeds, with
    // the unsupplied stream recorded as a diagnostic.
    let mut ty = Ty::new().unwrap();
    ty.supply_player_source(String::from("https://player.example/a.js"), player_source());
    let m = YtManifest {
        title: None,
        author: None,
        duration_seconds: None,
        streams: vec![
            ciphered_entry(137, "https://player.example/a.js"),
            ciphered_entry(22, "https://player.example/unreachable.js"),
        ],
    };
    let resp = ty.resolve_streams_from_manifest(&m);
    assert_eq!(resp.streams.len(), 1);
    assert_eq!(resp.streams[0].itag, 137);
    assert_eq!(resp.failures.len(), 1);
    assert_eq!(resp.failures[0].itag, 22);
    assert!(matches!(
        resp.failures[0].error,
        ExtractionError::PlayerSourceUnavailable
    ));
}

#[test]
fn resolve_ten_entries_with_one_unreachable_source() {
    let mut ty = Ty::new().unwrap();
    let good_ref = "https://player.example/good.js";
    ty.supply_player_source(String::from(good_ref), player_source());

    let mut streams = Vec::new();
    for itag in 0..5u64 {
        streams.push(ciphered_entry(itag, good_ref));
    }
    streams.push(ciphered_entry(99, "https://player.example/unreachable.js"));
    for itag in 5..9u64 {
        streams.push(direct_entry(itag, "https://cdn.example/direct"));
    }
    assert_eq!(streams.len(), 10);
    let m = YtManifest { title: None, author: None, duration_seconds: None, streams };

    let resp = ty.resolve_streams_from_manifest(&m);
    assert_eq!(resp.streams.len(), 9);
    assert_eq!(resp.failures.len(), 1);
    assert_eq!(resp.failures[0].itag, 99);
    assert!(matches!(
        resp.failures[0].error,
        ExtractionError::PlayerSourceUnavailable
    ));
}

#[test]
fn resolve_matches_gated_extraction_when_everything_is_cached() {
    let mut ty = Ty::new().unwrap();
    ty.supply_player_source(String::from("https://player.example/a.js"), player_source());
    let m = YtManifest {
        title: None,
        author: None,
        duration_seconds: None,
        streams: vec![ciphered_entry(137, "https://player.example/a.js")],
    };
    let direct = ty.resolve_streams_from_manifest(&m);
    let gated = match ty.get_streams_from_manifest(&m) {
        StreamsOutcome::Ready(resp) => resp,
        StreamsOutcome::NeedPlayerSources(_) => panic!("the player source was supplied"),
    };
    assert_eq!(direct.streams.len(), gated.streams.len());
    assert_eq!(direct.streams[0].url, gated.streams[0].url);
    assert_eq!(direct.failures.len(), 0);
    assert_eq!(gated.failures.len(), 0);
}
