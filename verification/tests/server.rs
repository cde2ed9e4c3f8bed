use eth_pir::address_map::AddressMap;
use eth_pir::client::verify_record;
use eth_pir::record::address_of;
use eth_pir::server::service::{build_pir_server, init_serving_database};
use eth_pir::{
    default_shape, record_of, Address, Balance, Config, DatabaseLayout, Duration, EthPirError,
    EthPirServer, KeywordError, KeywordSyncMode, PirError, Record, Service, ServingMemory,
    ServingTimings, U256Balance, DEFAULT_CAPACITY,
};

/// A keyword directory that lists its addresses.
#[derive(Clone)]
struct Directory {
    version: u64,
    base: Vec<Address>,
    tail: Vec<Address>,
    capacity: usize,
}

impl Directory {
    /// The base holds the addresses in descending order.
    fn build(keys: &[Address], capacity: usize, version: u64) -> Directory {
        let mut base = keys.to_vec();
        base.sort();
        base.reverse();
        Directory {
            version,
            base,
            tail: Vec::new(),
            capacity,
        }
    }

    /// Names some slot for an unknown address too.
    fn index(&self, addr: &Address) -> usize {
        for i in 0..self.tail.len() {
            if self.tail[i] == *addr {
                return self.base.len() + i;
            }
        }
        for i in 0..self.base.len() {
            if self.base[i] == *addr {
                return i;
            }
        }
        if self.base.is_empty() {
            0
        } else {
            addr[0] as usize % self.base.len()
        }
    }

    fn push(&mut self, addr: &Address) -> Result<usize, KeywordError> {
        if self.tail.contains(addr) {
            return Err(KeywordError {
                duplicate: Some(*addr),
                message: String::from("duplicate key"),
            });
        }
        if self.base.len() + self.tail.len() >= self.capacity {
            return Err(full());
        }
        self.tail.push(*addr);
        Ok(self.base.len() + self.tail.len() - 1)
    }
}

fn full() -> KeywordError {
    KeywordError {
        duplicate: None,
        message: String::from("directory is full"),
    }
}

fn broken() -> PirError {
    PirError {
        message: String::from("shard does not fit"),
    }
}

/// The outside world: a clock, the staging database with what its precomputation was
/// made for, and the served database.
#[derive(Clone, Debug, PartialEq)]
struct World {
    now: u64,
    staging: Vec<Record>,
    database: Vec<Record>,
    calls: Vec<&'static str>,
}

fn world() -> World {
    World {
        now: 0,
        staging: Vec::new(),
        database: Vec::new(),
        calls: Vec::new(),
    }
}

fn after(world: World, secs: u64, call: &'static str) -> World {
    let mut world = world;
    world.now += secs;
    world.calls.push(call);
    world
}

fn clock(world: World) -> (World, Duration) {
    let now = Duration::new(world.now, 0);
    (world, now)
}

fn balances(n: u8) -> AddressMap<Balance> {
    let mut map = AddressMap::new();
    for i in 1..n + 1 {
        map.insert([i; 20], [100 + i; 32]);
    }
    map
}

fn no_time() -> ServingTimings {
    ServingTimings {
        server_alloc: Duration::new(1, 0),
        database_encode: Duration::new(2, 0),
        query_mask: Duration::new(3, 0),
        offline: Duration::new(4, 0),
        staging_alloc: Duration::new(5, 0),
    }
}

fn slots_of(directory: &Directory, keys: &Vec<Address>) -> Vec<usize> {
    keys.iter().map(|key| directory.index(key)).collect()
}

fn serve(
    world: World,
    _: Config,
    _: DatabaseLayout,
    records: &Vec<Record>,
) -> (World, Result<ServingTimings, EthPirError>) {
    let mut world = after(world, 15, "serve");
    world.database = records.clone();
    (world, Ok(no_time()))
}

fn build(n: u8, capacity: usize) -> Service<U256Balance, Directory, World> {
    let (config, layout) = default_shape();
    let built = EthPirServer::<U256Balance>::init_with(
        world(),
        config,
        layout,
        &balances(n),
        |world: World, _: Config, _: DatabaseLayout, keys: &Vec<Address>, version: u64| {
            (world, Ok(Directory::build(keys, capacity, version)))
        },
        slots_of,
        serve,
        clock,
    );
    match built {
        Ok(service) => service,
        Err(e) => panic!("{}", e.to_text()),
    }
}

fn write(
    service: &mut Service<U256Balance, Directory, World>,
    addr: Address,
    value: Balance,
) -> Result<(), EthPirError> {
    let (_, done) = service.server.update(
        &mut service.directory,
        addr,
        value,
        |directory, addr| directory.index(addr),
        |directory, addr| {
            let pushed = directory.push(addr);
            (directory, pushed)
        },
    );
    done
}

fn encode(world: World, records: &Vec<Record>) -> (World, Result<(), PirError>) {
    let mut world = after(world, 1, "encode");
    world.staging = records.clone();
    (world, Ok(()))
}

/// A precomputation is for the staging database as it is.
fn precompute(world: World) -> (World, Option<Vec<Record>>) {
    let world = after(world, 2, "precompute");
    let made = world.staging.clone();
    (world, Some(made))
}

fn install(world: World, made: Vec<Record>) -> (World, bool) {
    let mut world = after(world, 3, "install");
    assert_eq!(made, world.staging);
    world.database = made;
    (world, true)
}

fn publish(service: &mut Service<U256Balance, Directory, World>) -> bool {
    let before = service.serving.clone();
    let (left, done) = service.server.try_rebuild_database(
        before.clone(),
        encode,
        precompute,
        install,
        clock,
    );
    service.serving = left;
    match done {
        Ok(Some(timings)) => {
            assert_eq!(timings.database_encode, Duration::new(1, 0));
            assert_eq!(timings.precompute, Duration::new(2, 0));
            assert_eq!(timings.install, Duration::new(3, 0));
            assert_eq!(timings.total(), Duration::new(6, 0));
            true
        }
        Ok(None) => {
            assert_eq!(service.serving, before);
            false
        }
        Err(e) => panic!("{}", e.to_text()),
    }
}

fn look_up(
    service: &Service<U256Balance, Directory, World>,
    addr: Address,
) -> Result<Balance, EthPirError> {
    let slot = service.directory.index(&addr);
    verify_record::<U256Balance>(&service.serving.database[slot], &addr)
}

#[test]
fn a_new_server_serves_every_address_it_was_built_from() {
    let service = build(5, 8);
    assert_eq!(service.server.len(), 5);
    assert!(!service.server.is_empty());
    assert_eq!(service.server.pending(), 0);
    for i in 1..6u8 {
        assert_eq!(look_up(&service, [i; 20]), Ok([100 + i; 32]));
    }
    assert_eq!(service.server.records(), &service.serving.database);
    assert_eq!(service.server.keyword().version(), 0);
}

#[test]
fn an_unknown_address_is_not_in_the_set() {
    let service = build(5, 8);
    for i in 6..40u8 {
        assert_eq!(look_up(&service, [i; 20]), Err(EthPirError::NotInSet));
    }
}

#[test]
fn a_server_can_be_built_from_nothing() {
    let service = build(0, 8);
    assert_eq!(service.server.len(), 0);
    assert!(service.server.is_empty());
    assert!(service.server.records().is_empty());
}

#[test]
fn a_server_at_the_fixed_shape_is_handed_that_shape() {
    let service = EthPirServer::<U256Balance>::init(
        world(),
        &balances(2),
        |world: World,
         config: Config,
         layout: DatabaseLayout,
         keys: &Vec<Address>,
         version: u64| {
            assert_eq!((config, layout), default_shape());
            assert_eq!(keys, &vec![[1u8; 20], [2u8; 20]]);
            assert_eq!(version, 0);
            (world, Ok(Directory::build(keys, DEFAULT_CAPACITY, version)))
        },
        slots_of,
        |world: World, config: Config, layout: DatabaseLayout, records: &Vec<Record>| {
            assert_eq!((config, layout), default_shape());
            serve(world, config, layout, records)
        },
        clock,
    );
    match service {
        Ok(service) => {
            assert_eq!(service.serving.database.len(), 2);
            assert_eq!(service.directory.capacity, 33_554_432);
        }
        Err(e) => panic!("{}", e.to_text()),
    }
}

#[test]
fn building_a_server_tells_the_time_of_each_step() {
    let (config, layout) = default_shape();
    let built = EthPirServer::<U256Balance>::init_with_timed(
        world(),
        config,
        layout,
        &balances(2),
        |world: World, _: Config, _: DatabaseLayout, keys: &Vec<Address>, version: u64| {
            (
                after(world, 10, "directory"),
                Ok(Directory::build(keys, 8, version)),
            )
        },
        slots_of,
        serve,
        |world: World| clock(after(world, 1, "clock")),
    );
    match built {
        Ok((service, timings)) => {
            assert_eq!(
                service.serving.calls,
                vec!["clock", "directory", "clock", "clock", "serve"]
            );
            assert_eq!(timings.keyword_index, Duration::new(11, 0));
            assert_eq!(timings.records_scatter, Duration::new(1, 0));
            assert_eq!(timings.server_alloc, Duration::new(1, 0));
            assert_eq!(timings.database_encode, Duration::new(2, 0));
            assert_eq!(timings.query_mask, Duration::new(3, 0));
            assert_eq!(timings.offline, Duration::new(4, 0));
            assert_eq!(timings.staging_alloc, Duration::new(5, 0));
            assert_eq!(timings.total(), Duration::new(27, 0));
            assert!(timings.total().as_secs() <= service.serving.now);
        }
        Err(e) => panic!("{}", e.to_text()),
    }
}

#[test]
fn building_a_server_passes_each_failure_on() {
    let (config, layout) = default_shape();
    let refused = EthPirServer::<U256Balance>::init_with(
        world(),
        config,
        layout,
        &balances(2),
        |world: World, _: Config, _: DatabaseLayout, _: &Vec<Address>, _: u64| {
            (world, Err::<Directory, _>(full()))
        },
        slots_of,
        |_: World, _: Config, _: DatabaseLayout, _: &Vec<Record>| unreachable!(),
        clock,
    );
    assert_eq!(refused.err(), Some(EthPirError::Keyword(full())));
    let unfit = EthPirServer::<U256Balance>::init_with(
        world(),
        config,
        layout,
        &balances(2),
        |world: World, _: Config, _: DatabaseLayout, keys: &Vec<Address>, version: u64| {
            (world, Ok(Directory::build(keys, 8, version)))
        },
        slots_of,
        |world: World, _: Config, _: DatabaseLayout, _: &Vec<Record>| {
            (world, Err(EthPirError::Pir(broken())))
        },
        clock,
    );
    assert_eq!(unfit.err(), Some(EthPirError::Pir(broken())));
}

fn ready(
    allocated: Result<(), PirError>,
    encoded: Result<(), PirError>,
) -> (World, Result<ServingTimings, EthPirError>) {
    let (config, layout) = default_shape();
    build_pir_server(
        world(),
        config,
        layout,
        &vec![[7u8; 64]],
        |world: World, c: Config, l: DatabaseLayout| {
            assert_eq!((c, l), default_shape());
            (after(world, 1, "alloc"), allocated)
        },
        |world: World, records: &Vec<Record>| {
            assert_eq!(records, &vec![[7u8; 64]]);
            (after(world, 2, "encode"), encoded)
        },
        |world: World| after(world, 3, "mask"),
        |world: World| after(world, 4, "offline"),
        |world: World| after(world, 5, "stage"),
        &clock,
    )
}

#[test]
fn the_pir_layer_is_made_ready_step_by_step() {
    let (left, timings) = ready(Ok(()), Ok(()));
    assert_eq!(left.calls, vec!["alloc", "encode", "mask", "offline", "stage"]);
    match timings {
        Ok(timings) => {
            assert_eq!(timings.server_alloc, Duration::new(1, 0));
            assert_eq!(timings.database_encode, Duration::new(2, 0));
            assert_eq!(timings.query_mask, Duration::new(3, 0));
            assert_eq!(timings.offline, Duration::new(4, 0));
            assert_eq!(timings.staging_alloc, Duration::new(5, 0));
        }
        Err(e) => panic!("{}", e.to_text()),
    }
}

#[test]
fn a_step_that_fails_ends_the_setting_up() {
    let (left, failed) = ready(Err(broken()), Ok(()));
    assert_eq!(left.calls, vec!["alloc"]);
    assert_eq!(failed.err(), Some(EthPirError::Pir(broken())));
    let (left, failed) = ready(Ok(()), Err(broken()));
    assert_eq!(left.calls, vec!["alloc", "encode"]);
    assert_eq!(failed.err(), Some(EthPirError::Pir(broken())));
}

#[test]
fn the_first_database_is_encoded_before_its_mask_and_offline_phase() {
    let (left, timings) = init_serving_database(
        world(),
        &vec![[7u8; 64]],
        |world: World, _: &Vec<Record>| (after(world, 2, "encode"), Ok(())),
        |world: World| after(world, 3, "mask"),
        |world: World| after(world, 4, "offline"),
        &clock,
    );
    assert_eq!(left.calls, vec!["encode", "mask", "offline"]);
    match timings {
        Ok(timings) => {
            assert_eq!(timings.database_encode, Duration::new(2, 0));
            assert_eq!(timings.query_mask, Duration::new(3, 0));
            assert_eq!(timings.offline, Duration::new(4, 0));
        }
        Err(e) => panic!("{}", e.to_text()),
    }
}

#[test]
fn an_update_is_found_after_the_rebuild_and_not_before() {
    let mut service = build(5, 8);
    assert_eq!(write(&mut service, [3u8; 20], [7u8; 32]), Ok(()));
    assert_eq!(service.server.pending(), 1);
    assert_eq!(look_up(&service, [3u8; 20]), Ok([103u8; 32]));
    assert!(publish(&mut service));
    assert_eq!(service.server.pending(), 0);
    assert_eq!(look_up(&service, [3u8; 20]), Ok([7u8; 32]));
    for i in [1u8, 2, 4, 5] {
        assert_eq!(look_up(&service, [i; 20]), Ok([100 + i; 32]));
    }
    assert_eq!(service.server.len(), 5);
}

#[test]
fn the_last_of_two_updates_counts() {
    let mut service = build(5, 8);
    assert_eq!(write(&mut service, [3u8; 20], [7u8; 32]), Ok(()));
    assert_eq!(write(&mut service, [3u8; 20], [8u8; 32]), Ok(()));
    assert_eq!(service.server.pending(), 2);
    assert!(publish(&mut service));
    assert_eq!(look_up(&service, [3u8; 20]), Ok([8u8; 32]));
}

#[test]
fn a_new_address_gets_the_next_slot() {
    let mut service = build(5, 8);
    let before = service.server.records().clone();
    assert_eq!(write(&mut service, [9u8; 20], [7u8; 32]), Ok(()));
    assert_eq!(service.server.len(), 6);
    assert_eq!(service.server.pending(), 1);
    assert_eq!(&service.server.records()[..5], &before[..]);
    assert_eq!(
        service.server.records()[5],
        record_of::<U256Balance>(&[9u8; 20], &[7u8; 32])
    );
    assert!(publish(&mut service));
    assert_eq!(look_up(&service, [9u8; 20]), Ok([7u8; 32]));
    assert_eq!(
        service.server.keyword().sync_mode(0, 0),
        KeywordSyncMode::Tail { from: 0 }
    );
}

#[test]
fn updates_give_no_address_a_second_slot() {
    let mut service = build(4, 8);
    for i in [9u8, 2, 9, 7, 2, 7] {
        assert_eq!(write(&mut service, [i; 20], [i; 32]), Ok(()));
    }
    let mut addresses: Vec<Address> = service.server.records().iter().map(address_of).collect();
    assert_eq!(addresses.len(), 6);
    addresses.sort();
    addresses.dedup();
    assert_eq!(addresses.len(), 6);
    assert_eq!(service.server.pending(), 6);
}

#[test]
fn a_refused_address_changes_nothing() {
    let mut service = build(5, 5);
    let before = service.server.records().clone();
    assert_eq!(
        write(&mut service, [9u8; 20], [7u8; 32]),
        Err(EthPirError::Keyword(full()))
    );
    assert_eq!(service.server.records(), &before);
    assert_eq!(service.server.pending(), 0);
    assert_eq!(service.server.len(), 5);
}

#[test]
fn an_address_that_the_directory_holds_already_gets_its_slot_back() {
    let mut service = build(3, 8);
    let pushed = Err(KeywordError {
        duplicate: Some([9u8; 20]),
        message: String::from("duplicate key"),
    });
    let done = service
        .server
        .insert_or_reclaim(1, [9u8; 20], [7u8; 32], pushed);
    assert_eq!(done, Ok(()));
    assert_eq!(service.server.len(), 3);
    assert_eq!(service.server.pending(), 0);
    assert_eq!(
        service.server.records()[1],
        record_of::<U256Balance>(&[9u8; 20], &[7u8; 32])
    );
}

#[test]
fn a_duplicate_of_another_key_or_past_the_end_is_a_failure() {
    let mut service = build(3, 8);
    let before = service.server.records().clone();
    let duplicate = |addr: Address| KeywordError {
        duplicate: Some(addr),
        message: String::from("duplicate key"),
    };
    assert_eq!(
        service
            .server
            .insert_or_reclaim(1, [9u8; 20], [7u8; 32], Err(duplicate([8u8; 20]))),
        Err(EthPirError::Keyword(duplicate([8u8; 20])))
    );
    assert_eq!(
        service
            .server
            .insert_or_reclaim(3, [9u8; 20], [7u8; 32], Err(duplicate([9u8; 20]))),
        Err(EthPirError::Keyword(duplicate([9u8; 20])))
    );
    assert_eq!(service.server.records(), &before);
    assert_eq!(service.server.pending(), 0);
}

#[test]
fn a_rebuild_with_nothing_pending_does_nothing() {
    let mut service = build(3, 8);
    assert!(!publish(&mut service));
    assert_eq!(write(&mut service, [1u8; 20], [7u8; 32]), Ok(()));
    assert!(publish(&mut service));
    assert!(!publish(&mut service));
}

#[test]
fn an_address_with_its_record_is_not_pushed() {
    let mut service = build(3, 8);
    let (left, done) = service.server.update(
        Vec::new(),
        [2u8; 20],
        [7u8; 32],
        |_: &Vec<Address>, _: &Address| 1usize,
        |pushed: Vec<Address>, addr: &Address| {
            let mut pushed = pushed;
            pushed.push(*addr);
            (pushed, Ok(3))
        },
    );
    assert_eq!(done, Ok(()));
    assert!(left.is_empty());
    let (left, done) = service.server.update(
        left,
        [9u8; 20],
        [7u8; 32],
        |_: &Vec<Address>, _: &Address| 1usize,
        |pushed: Vec<Address>, addr: &Address| {
            let mut pushed = pushed;
            pushed.push(*addr);
            (pushed, Ok(3))
        },
    );
    assert_eq!(done, Ok(()));
    assert_eq!(left, vec![[9u8; 20]]);
    assert_eq!(service.server.pending(), 2);
}

#[test]
fn an_inserted_address_is_not_in_the_set_before_the_rebuild() {
    let mut service = build(3, 8);
    assert_eq!(write(&mut service, [9u8; 20], [7u8; 32]), Ok(()));
    let slot = service.directory.index(&[9u8; 20]);
    assert_eq!(slot, 3);
    assert_eq!(service.serving.database.len(), 3);
    assert_eq!(
        verify_record::<U256Balance>(&[0u8; 64], &[9u8; 20]),
        Err(EthPirError::NotInSet)
    );
    for slot in 0..3usize {
        assert_eq!(
            verify_record::<U256Balance>(&service.serving.database[slot], &[9u8; 20]),
            Err(EthPirError::NotInSet)
        );
    }
}

#[test]
fn a_rebuild_takes_its_steps_in_order() {
    let mut service = build(3, 8);
    assert_eq!(write(&mut service, [1u8; 20], [7u8; 32]), Ok(()));
    service.serving.calls.clear();
    assert!(publish(&mut service));
    assert_eq!(service.serving.calls, vec!["encode", "precompute", "install"]);
}

#[test]
fn a_rebuild_that_fails_leaves_the_updates_pending() {
    let mut service = build(3, 8);
    assert_eq!(write(&mut service, [1u8; 20], [7u8; 32]), Ok(()));
    let (left, unfit) = service.server.try_rebuild_database(
        world(),
        |world: World, _: &Vec<Record>| (after(world, 0, "encode"), Err(broken())),
        precompute,
        install,
        clock,
    );
    assert_eq!(unfit.err(), Some(EthPirError::Pir(broken())));
    assert_eq!(left.calls, vec!["encode"]);
    assert_eq!(service.server.pending(), 1);
    let (left, poisoned) = service.server.try_rebuild_database(
        world(),
        encode,
        |world: World| (after(world, 0, "precompute"), None),
        install,
        clock,
    );
    assert_eq!(poisoned.err(), Some(EthPirError::ServerPoisoned));
    assert_eq!(left.calls, vec!["encode", "precompute"]);
    assert_eq!(service.server.pending(), 1);
    let (left, late) = service.server.try_rebuild_database(
        world(),
        encode,
        precompute,
        |world: World, _: Vec<Record>| (after(world, 0, "install"), false),
        clock,
    );
    assert_eq!(late.err(), Some(EthPirError::ServerPoisoned));
    assert_eq!(left.calls, vec!["encode", "precompute", "install"]);
    assert_eq!(service.server.pending(), 1);
    assert_eq!(look_up(&service, [1u8; 20]), Ok([101u8; 32]));
    assert!(publish(&mut service));
    assert_eq!(look_up(&service, [1u8; 20]), Ok([7u8; 32]));
}

fn compact(
    service: &mut Service<U256Balance, Directory, World>,
) -> Result<Duration, EthPirError> {
    let version = service.directory.version + 1;
    let capacity = service.directory.capacity;
    let start = service.serving.now;
    let (left, done) = service.server.rebuild_keyword_index(
        service.serving.clone(),
        |world: World, keys: &Vec<Address>| {
            (
                after(world, 10, "directory"),
                Ok((version, Directory::build(keys, capacity, version))),
            )
        },
        slots_of,
        encode,
        precompute,
        install,
        |world: World| clock(after(world, 100, "clock")),
    );
    service.serving = left;
    match done {
        Ok((timings, directory)) => {
            service.directory = directory;
            assert_eq!(timings.collect_keys, Duration::new(100, 0));
            assert_eq!(timings.mphf_rebuild, Duration::new(110, 0));
            assert_eq!(timings.permute, Duration::new(100, 0));
            assert!(timings.total().as_secs() <= service.serving.now - start);
            Ok(timings.total())
        }
        Err(e) => Err(e),
    }
}

#[test]
fn compaction_keeps_every_value_and_empties_the_tail() {
    let mut service = build(4, 8);
    assert_eq!(write(&mut service, [9u8; 20], [7u8; 32]), Ok(()));
    assert_eq!(write(&mut service, [2u8; 20], [8u8; 32]), Ok(()));
    service.serving.calls.clear();
    assert_eq!(compact(&mut service), Ok(Duration::new(616, 0)));
    let mut steps = service.serving.calls.clone();
    steps.retain(|call| *call != "clock");
    assert_eq!(steps, vec!["directory", "encode", "precompute", "install"]);
    assert_eq!(service.server.pending(), 0);
    assert_eq!(service.server.len(), 5);
    assert_eq!(service.server.records(), &service.serving.database);
    assert_eq!(look_up(&service, [1u8; 20]), Ok([101u8; 32]));
    assert_eq!(look_up(&service, [2u8; 20]), Ok([8u8; 32]));
    assert_eq!(look_up(&service, [3u8; 20]), Ok([103u8; 32]));
    assert_eq!(look_up(&service, [4u8; 20]), Ok([104u8; 32]));
    assert_eq!(look_up(&service, [9u8; 20]), Ok([7u8; 32]));
    assert_eq!(look_up(&service, [5u8; 20]), Err(EthPirError::NotInSet));
    let wire = service.server.keyword();
    assert_eq!(wire.version(), 1);
    assert_eq!(wire.sync_mode(0, 1), KeywordSyncMode::Full);
    assert_eq!(wire.sync_mode(1, 0), KeywordSyncMode::Tail { from: 0 });
    assert_eq!(wire.directory.mphf_len, 5);
    assert_eq!(wire.directory.delta_len, 0);
}

#[test]
fn compaction_publishes_the_directory_only_with_its_database() {
    let mut service = build(4, 8);
    assert_eq!(write(&mut service, [9u8; 20], [7u8; 32]), Ok(()));
    let before = service.server.records().clone();
    let (left, failed) = service.server.rebuild_keyword_index(
        world(),
        |world: World, keys: &Vec<Address>| (world, Ok((1, Directory::build(keys, 8, 1)))),
        slots_of,
        encode,
        precompute,
        |world: World, _: Vec<Record>| (world, false),
        clock,
    );
    assert_eq!(failed.err(), Some(EthPirError::ServerPoisoned));
    assert_eq!(left.calls, vec!["encode", "precompute"]);
    assert_eq!(service.server.records(), &before);
    assert_eq!(service.server.pending(), 1);
    assert_eq!(service.server.keyword().version(), 0);
    assert_eq!(service.server.keyword().directory.delta_len, 1);
    let (left, refused) = service.server.rebuild_keyword_index(
        world(),
        |world: World, _: &Vec<Address>| (world, Err::<(u64, Directory), _>(full())),
        slots_of,
        encode,
        precompute,
        install,
        clock,
    );
    assert_eq!(refused.err(), Some(EthPirError::Keyword(full())));
    assert!(left.calls.is_empty());
    assert_eq!(service.server.records(), &before);
}

#[test]
fn the_index_can_be_rebuilt_over_another_map() {
    let mut service = build(4, 8);
    let mut map = AddressMap::<Balance>::new();
    map.insert([3u8; 20], [1u8; 32]);
    map.insert([7u8; 20], [2u8; 32]);
    let (left, done) = service.server.rebuild_keyword_index_from(
        service.serving.clone(),
        &map,
        |world: World, keys: &Vec<Address>| (world, Ok((5, Directory::build(keys, 8, 5)))),
        slots_of,
        encode,
        precompute,
        install,
        clock,
    );
    service.serving = left;
    match done {
        Ok((_, directory)) => service.directory = directory,
        Err(e) => panic!("{}", e.to_text()),
    }
    assert_eq!(service.server.len(), 2);
    assert_eq!(look_up(&service, [3u8; 20]), Ok([1u8; 32]));
    assert_eq!(look_up(&service, [7u8; 20]), Ok([2u8; 32]));
    assert_eq!(look_up(&service, [1u8; 20]), Err(EthPirError::NotInSet));
    assert_eq!(service.server.keyword().version(), 5);
}

#[test]
fn memory_is_accounted_for() {
    let mut service = build(4, 8);
    assert_eq!(write(&mut service, [9u8; 20], [7u8; 32]), Ok(()));
    let report = service.server.memory_report(
        ServingMemory {
            database: 1000,
            precomputation: 200,
            online_scratch_pool: 30,
        },
        4000,
        50,
    );
    assert_eq!(report.serving_database, 1000);
    assert_eq!(report.staging_database, 4000);
    assert_eq!(report.precomputation, 200);
    assert_eq!(report.online_scratch_pool, 30);
    assert_eq!(report.records, 5 * 64);
    assert_eq!(report.keyword_directory, 50 + 44);
    assert_eq!(report.total(), 1000 + 4000 + 200 + 30 + 320 + 94);
    assert_eq!(report.refresh_peak(), report.total() + 200);
}
