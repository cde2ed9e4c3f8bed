use std::io::{ErrorKind, Read};

use eth_pir::{
    default_shape, record_of, Address, Config, DatabaseLayout, DirectoryState, EthPirClient,
    EthPirError, PirError, Record, Session, U256Balance, WireError,
};

/// Three little-endian words: generation, base and tail.
fn read_directory(blob: &[u8]) -> Result<(Vec<u8>, DirectoryState), WireError> {
    let mut reader = blob;
    let mut words = [0u64; 3];
    for i in 0..3 {
        let mut word = [0u8; 8];
        match reader.read_exact(&mut word) {
            Ok(()) => words[i] = u64::from_le_bytes(word),
            Err(e) => {
                return Err(WireError {
                    kind: e.kind(),
                    message: e.to_string(),
                })
            }
        }
    }
    let state = DirectoryState {
        version: words[0],
        mphf_len: words[1] as usize,
        delta_len: words[2] as usize,
    };
    Ok((blob.to_vec(), state))
}

fn blob(version: u64, mphf_len: u64, delta_len: u64) -> Vec<u8> {
    let mut blob = Vec::new();
    blob.extend_from_slice(&version.to_le_bytes());
    blob.extend_from_slice(&mphf_len.to_le_bytes());
    blob.extend_from_slice(&delta_len.to_le_bytes());
    blob
}

fn make(_: Config, _: DatabaseLayout) -> Result<(), PirError> {
    Ok(())
}

fn broken() -> PirError {
    PirError {
        message: String::from("parameters do not fit"),
    }
}

fn truncated() -> WireError {
    WireError {
        kind: ErrorKind::UnexpectedEof,
        message: String::from("truncated"),
    }
}

fn session() -> Session<U256Balance, Vec<u8>, ()> {
    match EthPirClient::<U256Balance>::try_new(&blob(4, 10, 2), read_directory, make) {
        Ok(session) => session,
        Err(e) => panic!("{}", e.to_text()),
    }
}

#[test]
fn client_bootstrap_rejects_invalid_directory_blob() {
    let err = match EthPirClient::<U256Balance>::try_new(
        b"not a keyword directory",
        read_directory,
        make,
    ) {
        Ok(_) => panic!("invalid keyword directory was accepted"),
        Err(err) => err,
    };
    assert!(matches!(err, EthPirError::Io { .. }));
}

#[test]
fn io_error_mapping_preserves_truncated_wire_kind() {
    let err = match EthPirClient::<U256Balance>::new(
        b"not a keyword directory",
        read_directory,
        make,
    ) {
        Ok(_) => panic!("invalid keyword directory was accepted"),
        Err(err) => err,
    };
    assert_eq!(err.kind, ErrorKind::UnexpectedEof);
}

#[test]
fn a_client_holds_what_it_was_bootstrapped_from() {
    let session = session();
    assert_eq!(session.client.version(), 4);
    assert_eq!(session.client.tail_len(), 2);
    assert_eq!(session.directory, blob(4, 10, 2));
    let (config, layout) = default_shape();
    let same = EthPirClient::<U256Balance>::with_shape(
        config,
        layout,
        &blob(1, 2, 3),
        read_directory,
        |c: Config, l: DatabaseLayout| {
            assert_eq!((c, l), default_shape());
            Ok(7)
        },
    );
    match same {
        Ok(session) => {
            assert_eq!(session.client.version(), 1);
            assert_eq!(session.pir, 7);
        }
        Err(e) => panic!("{}", e.to_text()),
    }
}

#[test]
fn the_directory_is_read_before_the_client_is_made() {
    let (config, layout) = default_shape();
    let refuse = |_: Config, _: DatabaseLayout| Err::<(), _>(broken());
    let first = EthPirClient::<U256Balance>::try_with_shape(
        config,
        layout,
        b"short",
        read_directory,
        refuse,
    );
    assert!(matches!(first.err(), Some(EthPirError::Io { .. })));
    let second = EthPirClient::<U256Balance>::try_with_shape(
        config,
        layout,
        &blob(1, 2, 3),
        read_directory,
        refuse,
    );
    assert_eq!(second.err(), Some(EthPirError::Pir(broken())));
    let third = EthPirClient::<U256Balance>::with_shape(
        config,
        layout,
        &blob(1, 2, 3),
        read_directory,
        refuse,
    );
    match third.err() {
        Some(io) => {
            assert_eq!(io.kind, ErrorKind::Other);
            assert_eq!(io.to_text(), "PIR layer: parameters do not fit");
            assert_eq!(io.error, EthPirError::Pir(broken()));
        }
        None => panic!("a client was made"),
    }
}

#[test]
fn a_tail_brings_the_client_up_to_date() {
    let mut session = session();
    let grown = DirectoryState {
        version: 4,
        mphf_len: 10,
        delta_len: 5,
    };
    let applied = session.client.try_apply_tail(b"tail", |tail: &[u8]| {
        assert_eq!(tail, b"tail");
        (grown, Ok(()))
    });
    assert_eq!(applied, Ok(()));
    assert_eq!(session.client.tail_len(), 5);
    assert_eq!(session.client.version(), 4);
    let refused = session
        .client
        .try_apply_tail(b"tail", |_: &[u8]| (grown, Err(truncated())));
    assert_eq!(refused, Err(EthPirError::from(truncated())));
    assert_eq!(session.client.tail_len(), 5);
    let io = session
        .client
        .apply_tail(b"tail", |_: &[u8]| (grown, Err(truncated())));
    match io {
        Ok(()) => panic!("a truncated tail was accepted"),
        Err(io) => {
            assert_eq!(io.kind, ErrorKind::UnexpectedEof);
            assert_eq!(io.to_text(), "keyword wire I/O: truncated");
            assert_eq!(io.error, EthPirError::from(truncated()));
        }
    }
    assert_eq!(
        session.client.apply_tail(b"tail", |_: &[u8]| (grown, Ok(()))),
        Ok(())
    );
}

#[test]
fn a_resync_takes_the_new_directory_or_changes_nothing() {
    let mut session = session();
    assert!(session.client.try_resync(b"short", read_directory).is_err());
    assert_eq!(session.client.version(), 4);
    assert_eq!(session.client.tail_len(), 2);
    match session.client.resync(b"short", read_directory) {
        Ok(_) => panic!("a truncated directory was accepted"),
        Err(io) => assert_eq!(io.kind, ErrorKind::UnexpectedEof),
    }
    assert_eq!(session.client.version(), 4);
    assert_eq!(
        session.client.try_resync(&blob(5, 12, 0), read_directory),
        Ok(blob(5, 12, 0))
    );
    assert_eq!(session.client.version(), 5);
    assert_eq!(session.client.tail_len(), 0);
    assert_eq!(
        session.client.resync(&blob(6, 12, 1), read_directory),
        Ok(blob(6, 12, 1))
    );
    assert_eq!(session.client.version(), 6);
}

fn index(addr: &Address) -> usize {
    addr[0] as usize % 3
}

fn served() -> Vec<Record> {
    vec![
        record_of::<U256Balance>(&[3u8; 20], &[30u8; 32]),
        record_of::<U256Balance>(&[1u8; 20], &[10u8; 32]),
        record_of::<U256Balance>(&[2u8; 20], &[20u8; 32]),
    ]
}

#[test]
fn a_lookup_reads_the_slot_that_the_directory_names() {
    let session = session();
    let database = served();
    for i in 1..12u8 {
        let addr = [i; 20];
        assert_eq!(session.client.slot(&addr, index), i as usize % 3);
        let (query, lookup) =
            match session.client.try_query(addr, index, |slot: usize| Ok((slot, slot * 7))) {
                Ok(asked) => asked,
                Err(e) => panic!("{}", e.to_text()),
            };
        assert_eq!(query, i as usize % 3);
        let answer = database[query];
        let found = session
            .client
            .try_decrypt(&answer, &lookup, |answer: &Record, state: &usize| {
                assert_eq!(*state, query * 7);
                Ok(*answer)
            });
        let same = session
            .client
            .decrypt(&answer, &lookup, |answer: &Record, _: &usize| Ok(*answer));
        assert_eq!(found, same);
        if i <= 3 {
            assert_eq!(found, Ok([10 * i; 32]));
        } else {
            assert_eq!(found, Err(EthPirError::NotInSet));
        }
    }
}

#[test]
fn a_lookup_passes_the_failures_of_the_layer_below_on() {
    let session = session();
    let refused = session
        .client
        .try_query([1u8; 20], index, |_: usize| Err::<((), ()), _>(broken()));
    assert_eq!(refused.err(), Some(EthPirError::Pir(broken())));
    let (_, lookup) = match session
        .client
        .try_query([1u8; 20], index, |slot: usize| Ok((slot, ())))
    {
        Ok(asked) => asked,
        Err(e) => panic!("{}", e.to_text()),
    };
    let garbled = session
        .client
        .try_decrypt(&0u8, &lookup, |_: &u8, _: &()| Err(broken()));
    assert_eq!(garbled, Err(EthPirError::Pir(broken())));
}

#[test]
fn a_query_travels_in_wire_form() {
    let session = session();
    let sent = session.client.try_query_bytes(
        [1u8; 20],
        index,
        |slot: usize| Ok((slot, ())),
        |query: &usize| Ok(vec![*query as u8, 9]),
    );
    let lookup = match sent {
        Ok((bytes, lookup)) => {
            assert_eq!(bytes, vec![1, 9]);
            lookup
        }
        Err(e) => panic!("{}", e.to_text()),
    };
    let unsent = session.client.try_query_bytes(
        [1u8; 20],
        index,
        |slot: usize| Ok((slot, ())),
        |_: &usize| Err(truncated()),
    );
    assert_eq!(unsent.err(), Some(EthPirError::from(truncated())));
    let unasked = session.client.try_query_bytes(
        [1u8; 20],
        index,
        |_: usize| Err::<(usize, ()), _>(broken()),
        |_: &usize| unreachable!(),
    );
    assert_eq!(unasked.err(), Some(EthPirError::Pir(broken())));
    assert_eq!(
        session.client.encode_query(&5u8, |query: &u8| Ok(vec![*query])),
        Ok(vec![5])
    );
    assert_eq!(
        session.client.encode_query(&5u8, |_: &u8| Err(truncated())),
        Err(EthPirError::from(truncated()))
    );
    let found = session.client.try_decrypt_bytes(
        &[1u8],
        &lookup,
        |bytes: &[u8]| Ok(bytes[0] as usize),
        |response: &usize, _: &()| Ok(served()[*response]),
    );
    assert_eq!(found, Ok([10u8; 32]));
    let unread = session.client.try_decrypt_bytes(
        &[1u8],
        &lookup,
        |_: &[u8]| Err::<usize, _>(truncated()),
        |_: &usize, _: &()| unreachable!(),
    );
    assert_eq!(unread, Err(EthPirError::from(truncated())));
    assert_eq!(
        session
            .client
            .decode_response(&[8u8], |bytes: &[u8]| Ok(bytes[0])),
        Ok(8)
    );
    assert_eq!(
        session
            .client
            .decode_response(&[8u8], |_: &[u8]| Err::<u8, _>(truncated())),
        Err(EthPirError::from(truncated()))
    );
}
