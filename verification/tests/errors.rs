use std::io::ErrorKind;

use eth_pir::{eth_error_to_io, EthPirError, KeywordError, PirError, WireError};

fn keyword_error() -> KeywordError {
    KeywordError {
        duplicate: None,
        message: String::from("directory is full"),
    }
}

fn pir_error() -> PirError {
    PirError {
        message: String::from("shard out of range"),
    }
}

fn wire_error() -> WireError {
    WireError {
        kind: ErrorKind::UnexpectedEof,
        message: String::from("failed to fill whole buffer"),
    }
}

#[test]
fn each_layer_converts_into_its_own_variant() {
    assert_eq!(
        EthPirError::from(keyword_error()),
        EthPirError::Keyword(keyword_error())
    );
    assert_eq!(EthPirError::from(pir_error()), EthPirError::Pir(pir_error()));
    assert_eq!(
        EthPirError::from(wire_error()),
        EthPirError::Io {
            kind: ErrorKind::UnexpectedEof,
            message: String::from("failed to fill whole buffer"),
        }
    );
}

#[test]
fn every_failure_has_its_sentence() {
    assert_eq!(
        EthPirError::NotInSet.to_text(),
        "address not in the served set"
    );
    assert_eq!(
        EthPirError::ServerPoisoned.to_text(),
        "serving server mutex was poisoned"
    );
    assert_eq!(
        EthPirError::from(keyword_error()).to_text(),
        "keyword layer: directory is full"
    );
    assert_eq!(
        EthPirError::from(pir_error()).to_text(),
        "PIR layer: shard out of range"
    );
    assert_eq!(
        EthPirError::from(wire_error()).to_text(),
        "keyword wire I/O: failed to fill whole buffer"
    );
}

#[test]
fn a_wire_failure_keeps_its_kind() {
    let io = eth_error_to_io(EthPirError::from(wire_error()));
    assert_eq!(io.kind, ErrorKind::UnexpectedEof);
    assert_eq!(io.to_text(), "keyword wire I/O: failed to fill whole buffer");
}

#[test]
fn wrong_addresses_and_directories_are_invalid_data() {
    assert_eq!(
        eth_error_to_io(EthPirError::NotInSet).kind,
        ErrorKind::InvalidData
    );
    let io = eth_error_to_io(EthPirError::from(keyword_error()));
    assert_eq!(io.kind, ErrorKind::InvalidData);
    assert_eq!(io.to_text(), "keyword layer: directory is full");
}

#[test]
fn the_error_is_kept_beside_its_kind() {
    let duplicate = EthPirError::Keyword(KeywordError {
        duplicate: Some([4u8; 20]),
        message: String::from("duplicate key"),
    });
    assert_eq!(eth_error_to_io(duplicate.clone()).error, duplicate);
    assert_eq!(
        eth_error_to_io(EthPirError::from(wire_error())).error,
        EthPirError::from(wire_error())
    );
}

#[test]
fn failures_of_the_service_are_of_another_kind() {
    assert_eq!(
        eth_error_to_io(EthPirError::ServerPoisoned).kind,
        ErrorKind::Other
    );
    assert_eq!(
        eth_error_to_io(EthPirError::from(pir_error())).kind,
        ErrorKind::Other
    );
}

#[test]
fn a_copied_error_equals_the_error() {
    let errors = vec![
        EthPirError::NotInSet,
        EthPirError::ServerPoisoned,
        EthPirError::Keyword(KeywordError {
            duplicate: Some([4u8; 20]),
            message: String::from("duplicate key"),
        }),
        EthPirError::from(pir_error()),
        EthPirError::from(wire_error()),
    ];
    for error in &errors {
        assert_eq!(&error.clone(), error);
    }
    assert_eq!(keyword_error().clone(), keyword_error());
    assert_eq!(pir_error().clone(), pir_error());
    assert_eq!(wire_error().clone(), wire_error());
}
