use tydle::cipher::{CipherOperation, DecipherProgram};
use tydle::error::ExtractionError;
use tydle::player::derive_program;

fn sample_program() -> DecipherProgram {
    DecipherProgram::from_ops(vec![
        CipherOperation::Reverse,
        CipherOperation::Swap(12),
        CipherOperation::Splice(3),
    ])
}

#[test]
fn replay_concrete_program() {
    // reverse, swap(12), splice(3) applied by hand to the signature:
    // "ABCDEFGHIJKLMNOP" -> "PONMLKJIHGFEDCBA" -> "DONMLKJIHGFEPCBA"
    // -> "MLKJIHGFEPCBA"
    let program = sample_program();
    let out = program.run("ABCDEFGHIJKLMNOP").unwrap();
    assert_eq!(out, "MLKJIHGFEPCBA");
}

#[test]
fn replay_is_idempotent() {
    let program = sample_program();
    let first = program.run("ABCDEFGHIJKLMNOP").unwrap();
    let second = program.run("ABCDEFGHIJKLMNOP").unwrap();
    assert_eq!(first, second);
}

#[test]
fn replay_empty_program_is_identity() {
    let program = DecipherProgram::from_ops(vec![]);
    assert_eq!(program.run("abc").unwrap(), "abc");
    assert_eq!(program.run("").unwrap(), "");
}

#[test]
fn replay_swap_on_empty_signature_fails() {
    let program = DecipherProgram::from_ops(vec![CipherOperation::Swap(2)]);
    assert!(matches!(
        program.run(""),
        Err(ExtractionError::CipherReplayError)
    ));
}

#[test]
fn replay_splice_past_end_fails() {
    let program = DecipherProgram::from_ops(vec![CipherOperation::Splice(5)]);
    assert!(matches!(
        program.run("abc"),
        Err(ExtractionError::CipherReplayError)
    ));
}

#[test]
fn replay_splice_whole_signature() {
    let program = DecipherProgram::from_ops(vec![CipherOperation::Splice(3)]);
    assert_eq!(program.run("abc").unwrap(), "");
}

#[test]
fn replay_swap_uses_modulo() {
    // swap(7) on a 5-character signature exchanges positions 0 and 2.
    let program = DecipherProgram::from_ops(vec![CipherOperation::Swap(7)]);
    assert_eq!(program.run("abcde").unwrap(), "cbade");
}

fn player_source() -> &'static str {
    "var M={r9:function(a){a.reverse()},w3:function(a,b){var c=a[0];a[0]=a[b%a.length];a[b%a.length]=c},s1:function(a,b){a.splice(0,b)}};function d(a){a=a.split(\"\");M.r9(a,0);M.w3(a,12);M.s1(a,3);return a.join(\"\")}"
}

#[test]
fn derive_program_from_player_source() {
    // The routine calls the reversal, the swap with operand 12 and the
    // splice with operand 3, in that literal order.
    let program = derive_program(player_source()).unwrap();
    assert_eq!(
        program.ops,
        vec![
            CipherOperation::Reverse,
            CipherOperation::Swap(12),
            CipherOperation::Splice(3),
        ]
    );
}

#[test]
fn derived_program_matches_manual_application() {
    let program = derive_program(player_source()).unwrap();
    assert_eq!(program.run("ABCDEFGHIJKLMNOP").unwrap(), "MLKJIHGFEPCBA");
}

#[test]
fn derive_program_identifies_helpers_by_shape_not_name() {
    // The same routine under entirely different cosmetic names.
    let renamed = "var Qx={aaa:function(a){a.reverse()},bbb:function(a,b){var c=a[0];a[0]=a[b%a.length];a[b%a.length]=c},ccc:function(a,b){a.splice(0,b)}};function z(a){a=a.split(\"\");Qx.aaa(a,0);Qx.bbb(a,12);Qx.ccc(a,3);return a.join(\"\")}";
    let program = derive_program(renamed).unwrap();
    assert_eq!(
        program.ops,
        vec![
            CipherOperation::Reverse,
            CipherOperation::Swap(12),
            CipherOperation::Splice(3),
        ]
    );
}

#[test]
fn derive_program_rejects_sourceless_text() {
    assert!(matches!(
        derive_program("nothing that looks like a transform routine"),
        Err(ExtractionError::CipherPatternNotFound)
    ));
}

#[test]
fn derive_program_rejects_unclassifiable_helper() {
    // The routine is present but its helper body matches no known shape.
    let source = "var M={r9:function(a,b){a.shift(b)}};function d(a){a=a.split(\"\");M.r9(a,2);return a.join(\"\")}";
    assert!(matches!(
        derive_program(source),
        Err(ExtractionError::CipherPatternNotFound)
    ));
}
