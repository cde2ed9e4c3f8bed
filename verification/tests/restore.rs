use std::io::ErrorKind;

use eth_pir::address_map::AddressMap;
use eth_pir::server::restore::{
    append_new_slots, check_checkpoint_directory, place_checkpoint_slots, place_delta_slots,
};
use eth_pir::{
    default_shape, record_of, Address, Balance, Config, DatabaseLayout, DirectoryState, Duration,
    EthPirError, EthPirServer, KeywordError, PirError, Record, RestoreReport, Service,
    ServingTimings, U256Balance, WireError,
};

/// A keyword directory that lists its addresses.
#[derive(Clone)]
struct Directory {
    base: Vec<Address>,
    tail: Vec<Address>,
    capacity: usize,
}

impl Directory {
    fn index(&self, addr: &Address) -> usize {
        for i in 0..self.tail.len() {
            if self.tail[i] == *addr {
                return self.base.len() + i;
            }
        }
        for i in 0..self.base.len() {
            if self.base[i] == *addr {
                return i;
            }
        }
        if self.base.is_empty() {
            0
        } else {
            addr[0] as usize % self.base.len()
        }
    }

    fn pushed(self, addr: &Address) -> (Directory, Result<usize, KeywordError>) {
        let mut directory = self;
        if directory.base.len() + directory.tail.len() >= directory.capacity {
            return (directory, Err(full()));
        }
        directory.tail.push(*addr);
        let slot = directory.base.len() + directory.tail.len() - 1;
        (directory, Ok(slot))
    }

    fn state(&self) -> DirectoryState {
        DirectoryState {
            version: 3,
            mphf_len: self.base.len(),
            delta_len: self.tail.len(),
        }
    }
}

fn full() -> KeywordError {
    KeywordError {
        duplicate: None,
        message: String::from("directory is full"),
    }
}

fn no_time() -> ServingTimings {
    ServingTimings {
        server_alloc: Duration::zero(),
        database_encode: Duration::zero(),
        query_mask: Duration::zero(),
        offline: Duration::zero(),
        staging_alloc: Duration::zero(),
    }
}

fn directory() -> Directory {
    Directory {
        base: vec![[5u8; 20], [2u8; 20], [8u8; 20]],
        tail: vec![[1u8; 20]],
        capacity: 8,
    }
}

fn restore(
    found: Result<Directory, WireError>,
    keys: &[Address],
    map: &AddressMap<Balance>,
) -> Result<(Service<U256Balance, Directory, Vec<Record>>, RestoreReport), EthPirError> {
    EthPirServer::<U256Balance>::restore(
        Vec::new(),
        b"blob",
        keys,
        map,
        |blob: &[u8]| {
            assert_eq!(blob, b"blob");
            match found {
                Ok(directory) => {
                    let state = directory.state();
                    Ok((directory, state))
                }
                Err(e) => Err(e),
            }
        },
        |directory: &Directory, addr: &Address| directory.index(addr),
        |directory: Directory, addr: &Address| directory.pushed(addr),
        |served: Vec<Record>, config: Config, layout: DatabaseLayout, records: &Vec<Record>| {
            assert!(served.is_empty());
            assert_eq!((config, layout), default_shape());
            (records.clone(), Ok(no_time()))
        },
    )
}

fn record(i: u8, value: u8) -> Record {
    record_of::<U256Balance>(&[i; 20], &[value; 32])
}

#[test]
fn a_restart_moves_no_address_and_serves_every_address() {
    let mut map = AddressMap::<Balance>::new();
    map.insert([8u8; 20], [80u8; 32]);
    map.insert([1u8; 20], [10u8; 32]);
    map.insert([9u8; 20], [90u8; 32]);
    map.insert([5u8; 20], [50u8; 32]);
    let restored = restore(Ok(directory()), &[[5u8; 20], [2u8; 20], [8u8; 20]], &map);
    let (service, report) = match restored {
        Ok(restored) => restored,
        Err(e) => panic!("{}", e.to_text()),
    };
    assert_eq!(
        service.server.records(),
        &vec![
            record(5, 50),
            [0u8; 64],
            record(8, 80),
            record(1, 10),
            record(9, 90),
        ]
    );
    assert_eq!(
        report,
        RestoreReport {
            placed: 3,
            appended: 1,
            vacant: 1,
        }
    );
    assert_eq!(&service.serving, service.server.records());
    assert_eq!(service.directory.tail, vec![[1u8; 20], [9u8; 20]]);
    assert_eq!(service.server.keyword().version(), 3);
    assert_eq!(service.server.keyword().directory.delta_len, 2);
    assert_eq!(service.server.pending(), 0);
    assert_eq!(service.server.len(), 5);
}

#[test]
fn a_server_restarts_from_its_own_checkpoint_as_it_was() {
    let mut map = AddressMap::<Balance>::new();
    map.insert([8u8; 20], [80u8; 32]);
    map.insert([2u8; 20], [20u8; 32]);
    map.insert([5u8; 20], [50u8; 32]);
    map.insert([1u8; 20], [10u8; 32]);
    let (first, _) = match restore(Ok(directory()), &[[5u8; 20], [2u8; 20], [8u8; 20]], &map) {
        Ok(restored) => restored,
        Err(e) => panic!("{}", e.to_text()),
    };
    let checkpoint = match first.server.checkpoint(|buffer: Vec<u8>| {
        let mut buffer = buffer;
        buffer.extend_from_slice(b"blob");
        (buffer, Ok(()))
    }) {
        Ok(checkpoint) => checkpoint,
        Err(e) => panic!("{}", e.to_text()),
    };
    assert_eq!(checkpoint.directory, b"blob");
    assert_eq!(checkpoint.version, 3);
    assert_eq!(checkpoint.keys, vec![[5u8; 20], [2u8; 20], [8u8; 20]]);
    let (second, report) = match restore(Ok(first.directory.clone()), &checkpoint.keys, &map) {
        Ok(restored) => restored,
        Err(e) => panic!("{}", e.to_text()),
    };
    assert_eq!(second.server.records(), first.server.records());
    assert_eq!(
        report,
        RestoreReport {
            placed: 4,
            appended: 0,
            vacant: 0,
        }
    );
}

#[test]
fn a_checkpoint_that_cannot_be_written_is_a_failure() {
    let server = EthPirServer::<U256Balance>::assemble(
        DirectoryState {
            version: 0,
            mphf_len: 1,
            delta_len: 0,
        },
        vec![record(1, 1)],
    );
    let failed = server.checkpoint(|buffer: Vec<u8>| {
        (
            buffer,
            Err(WireError {
                kind: ErrorKind::WriteZero,
                message: String::from("no room"),
            }),
        )
    });
    assert_eq!(
        failed.err(),
        Some(EthPirError::Io {
            kind: ErrorKind::WriteZero,
            message: String::from("no room"),
        })
    );
}

#[test]
fn a_directory_that_cannot_be_read_ends_the_restart() {
    let map = AddressMap::<Balance>::new();
    let failed = restore(
        Err(WireError {
            kind: ErrorKind::UnexpectedEof,
            message: String::from("short"),
        }),
        &[],
        &map,
    );
    assert_eq!(
        failed.err(),
        Some(EthPirError::Io {
            kind: ErrorKind::UnexpectedEof,
            message: String::from("short"),
        })
    );
}

#[test]
fn keys_that_do_not_match_the_directory_end_the_restart() {
    let map = AddressMap::<Balance>::new();
    let failed = restore(Ok(directory()), &[[5u8; 20], [2u8; 20]], &map);
    assert_eq!(
        failed.err(),
        Some(EthPirError::Io {
            kind: ErrorKind::InvalidData,
            message: String::from("checkpoint holds 2 keys but its MPHF addresses 3"),
        })
    );
    let keys = [[1u8; 20]; 12];
    let state = DirectoryState {
        version: 0,
        mphf_len: 100,
        delta_len: 0,
    };
    assert_eq!(
        check_checkpoint_directory(Ok(((), state)), &keys),
        Err(EthPirError::Io {
            kind: ErrorKind::InvalidData,
            message: String::from("checkpoint holds 12 keys but its MPHF addresses 100"),
        })
    );
}

#[test]
fn an_address_that_does_not_fit_ends_the_restart() {
    let mut map = AddressMap::<Balance>::new();
    map.insert([9u8; 20], [90u8; 32]);
    let mut directory = directory();
    directory.capacity = 4;
    let failed = restore(Ok(directory), &[[5u8; 20], [2u8; 20], [8u8; 20]], &map);
    assert_eq!(failed.err(), Some(EthPirError::Keyword(full())));
}

#[test]
fn a_database_that_does_not_fit_ends_the_restart() {
    let (config, layout) = default_shape();
    let map = AddressMap::<Balance>::new();
    let failed = EthPirServer::<U256Balance>::restore_with(
        (),
        config,
        layout,
        b"blob",
        &[[5u8; 20], [2u8; 20], [8u8; 20]],
        &map,
        |_: &[u8]| {
            let directory = directory();
            let state = directory.state();
            Ok((directory, state))
        },
        |directory: &Directory, addr: &Address| directory.index(addr),
        |directory: Directory, addr: &Address| directory.pushed(addr),
        |world: (), _: Config, _: DatabaseLayout, _: &Vec<Record>| {
            (
                world,
                Err(EthPirError::Pir(PirError {
                    message: String::from("too many records"),
                })),
            )
        },
    );
    assert_eq!(
        failed.err(),
        Some(EthPirError::Pir(PirError {
            message: String::from("too many records"),
        }))
    );
}

#[test]
fn an_empty_slot_of_the_checkpoint_stays_empty() {
    let mut map = AddressMap::<Balance>::new();
    map.insert([0u8; 20], [1u8; 32]);
    map.insert([5u8; 20], [50u8; 32]);
    let mut records = vec![[0u8; 64]; 4];
    let mut report = RestoreReport::default();
    place_checkpoint_slots::<U256Balance>(
        &[[5u8; 20], [0u8; 20], [6u8; 20]],
        &map,
        &mut records,
        &mut report,
    );
    assert_eq!(records, vec![record(5, 50), [0u8; 64], [0u8; 64], [0u8; 64]]);
    assert_eq!(
        report,
        RestoreReport {
            placed: 1,
            appended: 0,
            vacant: 2,
        }
    );
}

#[test]
fn only_the_slots_of_the_tail_are_filled_from_the_directory() {
    let mut map = AddressMap::<Balance>::new();
    map.insert([5u8; 20], [50u8; 32]);
    map.insert([1u8; 20], [10u8; 32]);
    let mut records = vec![[0u8; 64]; 4];
    let mut report = RestoreReport::default();
    place_delta_slots::<U256Balance, Directory, _>(
        &directory(),
        3,
        &map,
        &mut records,
        &mut report,
        &|directory: &Directory, addr: &Address| directory.index(addr),
    );
    assert_eq!(records, vec![[0u8; 64], [0u8; 64], [0u8; 64], record(1, 10)]);
    assert_eq!(report.placed, 1);
    let mut short = vec![[0u8; 64]; 3];
    place_delta_slots::<U256Balance, Directory, _>(
        &directory(),
        3,
        &map,
        &mut short,
        &mut report,
        &|directory: &Directory, addr: &Address| directory.index(addr),
    );
    assert_eq!(short, vec![[0u8; 64]; 3]);
    assert_eq!(report.placed, 1);
}

#[test]
fn only_addresses_without_their_record_are_appended() {
    let mut map = AddressMap::<Balance>::new();
    map.insert([5u8; 20], [50u8; 32]);
    map.insert([7u8; 20], [70u8; 32]);
    map.insert([2u8; 20], [20u8; 32]);
    let mut records = vec![record(5, 50), [0u8; 64], [0u8; 64], [0u8; 64]];
    let mut report = RestoreReport::default();
    let (directory, done) = append_new_slots::<U256Balance, Directory, _, _>(
        directory(),
        &map,
        &mut records,
        &mut report,
        &|directory: &Directory, addr: &Address| directory.index(addr),
        &|directory: Directory, addr: &Address| directory.pushed(addr),
    );
    assert_eq!(done, Ok(()));
    assert_eq!(directory.tail, vec![[1u8; 20], [7u8; 20], [2u8; 20]]);
    assert_eq!(records.len(), 6);
    assert_eq!(records[4], record(7, 70));
    assert_eq!(records[5], record(2, 20));
    assert_eq!(report.appended, 2);
}

#[test]
fn a_refused_address_leaves_neither_entry_nor_record_nor_count() {
    let mut map = AddressMap::<Balance>::new();
    map.insert([7u8; 20], [70u8; 32]);
    map.insert([9u8; 20], [90u8; 32]);
    map.insert([6u8; 20], [60u8; 32]);
    let mut records = vec![record(5, 50), record(2, 20), record(8, 80), record(1, 10)];
    let before = records.clone();
    let mut report = RestoreReport::default();
    let mut small = directory();
    small.capacity = 5;
    let (directory, done) = append_new_slots::<U256Balance, Directory, _, _>(
        small,
        &map,
        &mut records,
        &mut report,
        &|directory: &Directory, addr: &Address| directory.index(addr),
        &|directory: Directory, addr: &Address| directory.pushed(addr),
    );
    assert_eq!(done, Err(EthPirError::Keyword(full())));
    assert_eq!(directory.tail, vec![[1u8; 20], [7u8; 20]]);
    assert_eq!(&records[..4], &before[..]);
    assert_eq!(records[4], record(7, 70));
    assert_eq!(records.len(), 5);
    assert_eq!(report.appended, 1);
}

#[test]
fn a_restart_accounts_for_every_address() {
    let keys = [[5u8; 20], [2u8; 20], [8u8; 20]];
    let mut map = AddressMap::<Balance>::new();
    for i in [8u8, 1, 3, 5, 4] {
        map.insert([i; 20], [i; 32]);
    }
    let (service, report) = match restore(Ok(directory()), &keys, &map) {
        Ok(restored) => restored,
        Err(e) => panic!("{}", e.to_text()),
    };
    assert_eq!(report.placed + report.appended, map.len());
    assert_eq!(report.vacant, 1);
    assert_eq!(service.server.len(), directory().state().len() + report.appended);
    for i in [8u8, 1, 3, 5, 4] {
        let slot = service.directory.index(&[i; 20]);
        assert_eq!(service.serving[slot], record(i, i));
    }
    for i in [8u8, 1, 5] {
        assert_eq!(
            service.directory.index(&[i; 20]),
            directory().index(&[i; 20])
        );
    }
}
