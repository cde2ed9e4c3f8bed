use eth_pir::address_map::AddressMap;
use eth_pir::{
    default_shape, record_of, Address, Balance, Config, DatabaseLayout, DirectoryState, Duration,
    EthPirClient, EthPirError, EthPirServer, Record, ServingTimings, U256Balance, WireError,
};

/// The addresses in descending order; an unknown one is sent to some slot.
fn slot_in(directory: &Vec<Address>, addr: &Address) -> usize {
    for i in 0..directory.len() {
        if directory[i] == *addr {
            return i;
        }
    }
    addr[0] as usize % directory.len()
}

fn build_directory(
    database: Vec<Record>,
    _: Config,
    _: DatabaseLayout,
    keys: &Vec<Address>,
    _: u64,
) -> (Vec<Record>, Result<Vec<Address>, eth_pir::KeywordError>) {
    let mut directory = keys.clone();
    directory.sort();
    directory.reverse();
    (database, Ok(directory))
}

fn serve(
    _: Vec<Record>,
    _: Config,
    _: DatabaseLayout,
    records: &Vec<Record>,
) -> (Vec<Record>, Result<ServingTimings, EthPirError>) {
    let timings = ServingTimings {
        server_alloc: Duration::zero(),
        database_encode: Duration::zero(),
        query_mask: Duration::zero(),
        offline: Duration::zero(),
        staging_alloc: Duration::zero(),
    };
    (records.clone(), Ok(timings))
}

fn read_directory(blob: &[u8]) -> Result<(Vec<Address>, DirectoryState), WireError> {
    let mut directory = Vec::new();
    for chunk in blob.chunks(20) {
        let mut addr = [0u8; 20];
        addr.copy_from_slice(chunk);
        directory.push(addr);
    }
    let state = DirectoryState {
        version: 0,
        mphf_len: directory.len(),
        delta_len: 0,
    };
    Ok((directory, state))
}

#[test]
fn a_lookup_finds_exactly_what_the_server_holds() {
    let mut map = AddressMap::<Balance>::new();
    for i in [4u8, 9, 2, 7, 30] {
        map.insert([i; 20], [i + 100; 32]);
    }
    let service = match EthPirServer::<U256Balance>::init(
        Vec::new(),
        &map,
        build_directory,
        |directory: &Vec<Address>, keys: &Vec<Address>| {
            keys.iter().map(|key| slot_in(directory, key)).collect()
        },
        serve,
        |database: Vec<Record>| (database, Duration::zero()),
    ) {
        Ok(service) => service,
        Err(e) => panic!("{}", e.to_text()),
    };
    let blob = match service.server.keyword().try_full(|buffer: Vec<u8>| {
        let mut buffer = buffer;
        for addr in &service.directory {
            buffer.extend_from_slice(addr);
        }
        (buffer, Ok(()))
    }) {
        Ok(blob) => blob,
        Err(e) => panic!("{}", e.message),
    };
    let session = match EthPirClient::<U256Balance>::try_new(
        &blob,
        read_directory,
        |config: Config, layout: DatabaseLayout| {
            assert_eq!((config, layout), default_shape());
            Ok(())
        },
    ) {
        Ok(session) => session,
        Err(e) => panic!("{}", e.to_text()),
    };
    for i in 0..=255u8 {
        let addr = [i; 20];
        let (query, lookup) = match session.client.try_query(
            addr,
            |addr: &Address| slot_in(&session.directory, addr),
            |slot: usize| Ok((slot, ())),
        ) {
            Ok(asked) => asked,
            Err(e) => panic!("{}", e.to_text()),
        };
        let response = match service.server.try_respond(
            &service.serving,
            &query,
            |database: &Vec<Record>, slot: &usize| Some(Ok(database[*slot])),
        ) {
            Ok(response) => response,
            Err(e) => panic!("{}", e.to_text()),
        };
        let found = session
            .client
            .try_decrypt(&response, &lookup, |record: &Record, _: &()| Ok(*record));
        match map.get(&addr) {
            Some(value) => assert_eq!(found, Ok(value)),
            None => assert_eq!(found, Err(EthPirError::NotInSet)),
        }
    }
}

#[test]
fn a_stale_directory_never_gives_the_value_of_another_address() {
    let held = [4u8, 9, 2, 7, 30];
    let stale: Vec<Address> = held.iter().map(|i| [*i; 20]).collect();
    let mut current = stale.clone();
    current.sort();
    let database: Vec<Record> = current
        .iter()
        .map(|addr| record_of::<U256Balance>(addr, &[addr[0] + 100; 32]))
        .collect();
    let mut blob = Vec::new();
    for addr in &stale {
        blob.extend_from_slice(addr);
    }
    let session = match EthPirClient::<U256Balance>::try_new(
        &blob,
        read_directory,
        |_: Config, _: DatabaseLayout| Ok(()),
    ) {
        Ok(session) => session,
        Err(e) => panic!("{}", e.to_text()),
    };
    let mut found = 0;
    for i in held {
        let (query, lookup) = match session.client.try_query(
            [i; 20],
            |addr: &Address| slot_in(&session.directory, addr),
            |slot: usize| Ok((slot, ())),
        ) {
            Ok(asked) => asked,
            Err(e) => panic!("{}", e.to_text()),
        };
        let value = session
            .client
            .decrypt(&database[query], &lookup, |record: &Record, _: &()| Ok(*record));
        if current[query] == [i; 20] {
            assert_eq!(value, Ok([i + 100; 32]));
            found += 1;
        } else {
            assert_eq!(value, Err(EthPirError::NotInSet));
        }
    }
    assert_eq!(found, 1);
}
