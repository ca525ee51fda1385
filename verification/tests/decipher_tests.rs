use tydle::decipher::{DecipherOutcome, SignatureDecipher};
use tydle::error::ExtractionError;
use tydle::ty::{Extract, Ty};

fn player_source() -> String {
    String::from("var M={r9:function(a){a.reverse()},w3:function(a,b){var c=a[0];a[0]=a[b%a.length];a[b%a.length]=c},s1:function(a,b){a.splice(0,b)}};function d(a){a=a.split(\"\");M.r9(a,0);M.w3(a,12);M.s1(a,3);return a.join(\"\")}")
}

fn player_ref() -> String {
    String::from("https://player.example/base.js")
}

#[test]
fn uncached_reference_needs_player_source() {
    let mut ty = Ty::new().unwrap();
    let outcome = ty
        .decipher_signature(&String::from("ABCDEFGHIJKLMNOP"), &player_ref())
        .unwrap();
    assert!(matches!(outcome, DecipherOutcome::NeedsPlayerSource));
}

#[test]
fn supplied_source_is_derived_and_replayed() {
    let mut ty = Ty::new().unwrap();
    ty.supply_player_source(player_ref(), player_source());
    let outcome = ty
        .decipher_signature(&String::from("ABCDEFGHIJKLMNOP"), &player_ref())
        .unwrap();
    match outcome {
        DecipherOutcome::Done(url) => assert_eq!(url, "MLKJIHGFEPCBA"),
        DecipherOutcome::NeedsPlayerSource => panic!("source was supplied"),
    }
}

#[test]
fn second_call_answers_from_the_program_cache() {
    let mut ty = Ty::new().unwrap();
    ty.supply_player_source(player_ref(), player_source());
    let first = ty
        .decipher_signature(&String::from("ABCDEFGHIJKLMNOP"), &player_ref())
        .unwrap();
    let second = ty
        .decipher_signature(&String::from("ABCDEFGHIJKLMNOP"), &player_ref())
        .unwrap();
    match (first, second) {
        (DecipherOutcome::Done(a), DecipherOutcome::Done(b)) => assert_eq!(a, b),
        _ => panic!("both calls must resolve"),
    }
}

#[test]
fn cache_entries_are_immutable_once_inserted() {
    // A second supply for the same reference is discarded, so the
    // program derived from the first source keeps answering.
    let mut ty = Ty::new().unwrap();
    ty.supply_player_source(player_ref(), player_source());
    let first = ty
        .decipher_signature(&String::from("ABCDEFGHIJKLMNOP"), &player_ref())
        .unwrap();
    ty.supply_player_source(player_ref(), String::from("no routine in here"));
    let second = ty
        .decipher_signature(&String::from("ABCDEFGHIJKLMNOP"), &player_ref())
        .unwrap();
    match (first, second) {
        (DecipherOutcome::Done(a), DecipherOutcome::Done(b)) => {
            assert_eq!(a, "MLKJIHGFEPCBA");
            assert_eq!(b, "MLKJIHGFEPCBA");
        },
        _ => panic!("both calls must resolve"),
    }
}

#[test]
fn pattern_not_found_is_reported_not_swallowed() {
    let mut ty = Ty::new().unwrap();
    ty.supply_player_source(player_ref(), String::from("no routine in here"));
    let r = ty.decipher_signature(&String::from("ABCDEFGHIJKLMNOP"), &player_ref());
    assert!(matches!(r, Err(ExtractionError::CipherPatternNotFound)));
}

#[test]
fn replay_error_surfaces_through_decipher() {
    // A derived program whose first step swaps cannot run on an empty
    // signature.
    let mut ty = Ty::new().unwrap();
    let source = String::from("var M={w3:function(a,b){var c=a[0];a[0]=a[b%a.length];a[b%a.length]=c}};function d(a){a=a.split(\"\");M.w3(a,3);return a.join(\"\")}");
    ty.supply_player_source(player_ref(), source);
    let r = ty.decipher_signature(&String::from(""), &player_ref());
    assert!(matches!(r, Err(ExtractionError::CipherReplayError)));
}

#[test]
fn different_references_are_independent() {
    let mut ty = Ty::new().unwrap();
    let ref_a = String::from("https://player.example/a.js");
    let ref_b = String::from("https://player.example/b.js");
    ty.supply_player_source(ref_a.clone(), player_source());
    let done = ty
        .decipher_signature(&String::from("ABCDEFGHIJKLMNOP"), &ref_a)
        .unwrap();
    assert!(matches!(done, DecipherOutcome::Done(_)));
    let pending = ty
        .decipher_signature(&String::from("ABCDEFGHIJKLMNOP"), &ref_b)
        .unwrap();
    assert!(matches!(pending, DecipherOutcome::NeedsPlayerSource));
}

#[test]
fn decipher_engine_reports_cache_state() {
    let mut engine = SignatureDecipher::new();
    assert!(!engine.has_source(&player_ref()));
    assert!(!engine.has_program(&player_ref()));
    engine.supply_player_source(player_ref(), player_source());
    assert!(engine.has_source(&player_ref()));
    assert!(!engine.has_program(&player_ref()));
    let outcome = engine
        .decipher("ABCDEFGHIJKLMNOP", &player_ref())
        .unwrap();
    match outcome {
        DecipherOutcome::Done(url) => assert_eq!(url, "MLKJIHGFEPCBA"),
        DecipherOutcome::NeedsPlayerSource => panic!("source was supplied"),
    }
    assert!(engine.has_program(&player_ref()));
}
