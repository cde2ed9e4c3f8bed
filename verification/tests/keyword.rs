use std::io::ErrorKind;

use eth_pir::{DirectoryState, KeywordSyncMode, KeywordWire, RestoreReport, WireError};

fn wire_for(version: u64) -> DirectoryState {
    DirectoryState {
        version,
        mphf_len: 3,
        delta_len: 0,
    }
}

#[test]
fn sync_mode_forces_full_resync_after_mphf_generation_change() {
    let directory = wire_for(8);
    let wire = KeywordWire {
        directory: &directory,
    };

    assert_eq!(wire.sync_mode(7, 0), KeywordSyncMode::Full);
    assert_eq!(wire.sync_mode(8, 2), KeywordSyncMode::Tail { from: 2 });
}

#[test]
fn a_client_of_a_later_generation_is_sent_the_whole_directory_too() {
    let directory = wire_for(8);
    let wire = KeywordWire {
        directory: &directory,
    };
    assert_eq!(wire.version(), 8);
    assert_eq!(wire.sync_mode(9, 0), KeywordSyncMode::Full);
    assert_eq!(wire.sync_mode(8, 0), KeywordSyncMode::Tail { from: 0 });
}

#[test]
fn a_directory_addresses_base_and_tail() {
    let directory = DirectoryState {
        version: 1,
        mphf_len: 3,
        delta_len: 2,
    };
    assert_eq!(directory.len(), 5);
}

fn refused() -> WireError {
    WireError {
        kind: ErrorKind::WriteZero,
        message: String::from("no room"),
    }
}

#[test]
fn blobs_are_written_into_an_empty_buffer() {
    let directory = wire_for(1);
    let wire = KeywordWire {
        directory: &directory,
    };
    let full = wire.try_full(|buffer: Vec<u8>| {
        let mut buffer = buffer;
        assert!(buffer.is_empty());
        buffer.extend_from_slice(&[1, 2, 3]);
        (buffer, Ok(()))
    });
    assert_eq!(full, Ok(vec![1, 2, 3]));
    let mphf = wire.try_mphf(|buffer: Vec<u8>| {
        let mut buffer = buffer;
        assert!(buffer.is_empty());
        buffer.push(9);
        (buffer, Ok(()))
    });
    assert_eq!(mphf, Ok(vec![9]));
}

#[test]
fn a_blob_that_cannot_be_written_is_a_failure() {
    let directory = wire_for(1);
    let wire = KeywordWire {
        directory: &directory,
    };
    let full = wire.try_full(|buffer: Vec<u8>| {
        let mut buffer = buffer;
        buffer.push(1);
        (buffer, Err(refused()))
    });
    assert_eq!(full, Err(refused()));
    assert_eq!(wire.try_mphf(|buffer: Vec<u8>| (buffer, Err(refused()))), Err(refused()));
    assert_eq!(
        wire.try_tail(1, |buffer: Vec<u8>, _have: usize| (buffer, Err(refused()))),
        Err(refused())
    );
}

#[test]
fn the_tail_is_asked_for_from_where_the_client_stands() {
    let directory = wire_for(1);
    let wire = KeywordWire {
        directory: &directory,
    };
    let tail = wire.try_tail(4, |buffer: Vec<u8>, have: usize| {
        let mut buffer = buffer;
        assert!(buffer.is_empty());
        buffer.push(have as u8);
        (buffer, Ok(()))
    });
    assert_eq!(tail, Ok(vec![4]));
}

#[test]
fn a_restore_report_starts_at_zero() {
    assert_eq!(
        RestoreReport::default(),
        RestoreReport {
            placed: 0,
            appended: 0,
            vacant: 0,
        }
    );
}
