use android_sdk_cli::checksum::{verify_checksum, ChecksumGate, FetchError};

const ABC_SHA1: &str = "a9993e364706816aba3e25717850c26c9cd0d89d";

#[test]
fn matching_stream_passes_the_gate() {
    let mut gate = ChecksumGate::new(ABC_SHA1);
    gate.absorb(b"a");
    gate.absorb(b"bc");
    assert_eq!(gate.received(), 3);
    assert!(gate.finish().is_ok());
}

#[test]
fn corrupted_stream_is_a_checksum_mismatch() {
    let mut gate = ChecksumGate::new(ABC_SHA1);
    gate.absorb(b"abd");
    match gate.finish() {
        Err(FetchError::ChecksumMismatch { expected, actual }) => {
            assert_eq!(expected, ABC_SHA1);
            assert_eq!(actual, "cb4cc28df0fdbe0ecf9d9662e294b118092a5735");
        }
        other => panic!("unexpected outcome: {:?}", other),
    }
}

#[test]
fn empty_stream_has_the_empty_digest() {
    let gate = ChecksumGate::new("da39a3ee5e6b4b0d3255bfef95601890afd80709");
    assert!(gate.finish().is_ok());
}

#[test]
fn checksum_comparison_is_exact() {
    assert!(verify_checksum("ab12", "ab12".to_string()).is_ok());
    match verify_checksum("AB12", "ab12".to_string()) {
        Err(FetchError::ChecksumMismatch { expected, actual }) => {
            assert_eq!(expected, "AB12");
            assert_eq!(actual, "ab12");
        }
        other => panic!("unexpected outcome: {:?}", other),
    }
}
