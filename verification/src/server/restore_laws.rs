//! What holds of every restart: no address moves, and every address is served.

use vstd::prelude::*;

use std::io::ErrorKind;

use crate::address_map;
use crate::bytes;
use crate::error::{EthPirError, KeywordError, WireError};
use crate::record;
use crate::record::{Address, Record, RecordCodec};
use crate::server::keyword::{DirectoryState, RestoreReport};
use crate::server::laws;
use crate::server::records;
use crate::server::report::ServingTimings;
use crate::server::restore;
use crate::server::ServerView;
use crate::shape::{Config, DatabaseLayout};
use crate::text;

verus! {

/// Whether every record that is not empty is the one that `map` has for its
/// address.
pub open spec fn carries<C: RecordCodec>(
    records: Seq<Record>,
    map: Map<Address, C::Value>,
) -> bool {
    forall|s: int|
        0 <= s < records.len() && record::address_in(#[trigger] records[s])
            != record::vacant_address() ==> map.contains_key(record::address_in(records[s]))
            && records[s] == record::record_for::<C>(
            record::address_in(records[s]),
            map[record::address_in(records[s])],
        )
}

/// Whether some slot of `records` has the record of `addr` with `value`.
pub open spec fn serves<C: RecordCodec>(
    records: Seq<Record>,
    addr: Address,
    value: C::Value,
) -> bool {
    exists|s: int|
        0 <= s < records.len() && #[trigger] records[s] == record::record_for::<C>(addr, value)
}

/// Whether some slot of `records` holds a record of `addr`.
spec fn stands(records: Seq<Record>, addr: Address) -> bool {
    exists|s: int| restore::stands_at(records, s, addr)
}

/// What is in slot `s` after scattering: what was there, if no placement names the
/// slot; else the record of a placement that does.
proof fn lemma_scattered_origin(
    before: Seq<Record>,
    placements: Seq<(usize, Record)>,
    s: int,
)
    requires
        forall|k: int| 0 <= k < placements.len() ==> (#[trigger] placements[k]).0 < before.len(),
        0 <= s < before.len(),
    ensures
        records::scattered(before, placements).len() == before.len(),
        (forall|k: int| 0 <= k < placements.len() ==> (#[trigger] placements[k]).0 != s)
            ==> records::scattered(before, placements)[s] == before[s],
        (exists|k: int| 0 <= k < placements.len() && (#[trigger] placements[k]).0 == s) ==> exists|
            k: int,
        |
            0 <= k < placements.len() && (#[trigger] placements[k]).0 == s && placements[k].1
                == records::scattered(before, placements)[s],
    decreases placements.len(),
{
    records::lemma_scattered_len(before, placements);
    if placements.len() > 0 {
        let fewer = placements.drop_last();
        let n = placements.len() - 1;
        assert forall|k: int| 0 <= k < fewer.len() implies #[trigger] fewer[k]
            == placements[k] by {}
        lemma_scattered_origin(before, fewer, s);
        assert(placements.last() == placements[n]);
        if placements[n].0 != s {
            if exists|k: int| 0 <= k < placements.len() && (#[trigger] placements[k]).0 == s {
                let k = choose|k: int|
                    0 <= k < placements.len() && (#[trigger] placements[k]).0 == s;
                assert(fewer[k].0 == s);
                let j = choose|j: int|
                    0 <= j < fewer.len() && (#[trigger] fewer[j]).0 == s && fewer[j].1
                        == records::scattered(before, fewer)[s];
                assert(placements[j].0 == s);
            } else {
                assert forall|k: int| 0 <= k < fewer.len() implies (#[trigger] fewer[k]).0
                    != s by {
                    assert(placements[k].0 != s);
                }
            }
        }
    }
}

/// The entry that placement `k` in a directory's tail is made for.
proof fn placement_entry<C: RecordCodec>(
    entries: Seq<(Address, C::Value)>,
    slots: Seq<usize>,
    low: nat,
    high: nat,
    k: int,
) -> (i: int)
    requires
        slots.len() == entries.len(),
        0 <= k < restore::placements_between::<C>(entries, slots, low, high).len(),
    ensures
        0 <= i < entries.len(),
        low <= slots[i] < high,
        restore::placements_between::<C>(entries, slots, low, high)[k] == (
            slots[i],
            record::record_for::<C>(entries[i].0, entries[i].1),
        ),
    decreases entries.len(),
{
    let fewer = entries.drop_last();
    let earlier = slots.drop_last();
    if k < restore::placements_between::<C>(fewer, earlier, low, high).len() {
        placement_entry::<C>(fewer, earlier, low, high, k)
    } else {
        entries.len() - 1
    }
}

/// The placement that is made for entry `i`, whose slot lies in a directory's tail.
proof fn entry_placement<C: RecordCodec>(
    entries: Seq<(Address, C::Value)>,
    slots: Seq<usize>,
    low: nat,
    high: nat,
    i: int,
) -> (k: int)
    requires
        slots.len() == entries.len(),
        0 <= i < entries.len(),
        low <= slots[i] < high,
    ensures
        0 <= k < restore::placements_between::<C>(entries, slots, low, high).len(),
        restore::placements_between::<C>(entries, slots, low, high)[k].0 == slots[i],
    decreases entries.len(),
{
    if i < entries.len() - 1 {
        entry_placement::<C>(entries.drop_last(), slots.drop_last(), low, high, i)
    } else {
        restore::placements_between::<C>(entries, slots, low, high).len() - 1
    }
}

/// The records that are put back: one per slot of the directory, those of the base
/// where the checkpoint had them, and none that the map does not have.
proof fn lemma_placed_back<C: RecordCodec>(
    state: DirectoryState,
    keys: Seq<Address>,
    entries: Seq<(Address, C::Value)>,
    slots: Seq<usize>,
)
    requires
        address_map::distinct_addresses(entries),
        slots.len() == entries.len(),
        keys.len() == state.mphf_len,
    ensures
        ({
            let map = address_map::entries_as_map(entries);
            let placed = restore::placed_back::<C>(state, keys, entries, map, slots).0;
            &&& placed.len() == state.addressed()
            &&& carries::<C>(placed, map)
            &&& forall|s: int|
                0 <= s < keys.len() ==> #[trigger] placed[s] == if restore::comes_back(
                    keys[s],
                    map,
                ) {
                    record::record_for::<C>(keys[s], map[keys[s]])
                } else {
                    record::vacant_record()
                }
        }),
{
    let map = address_map::entries_as_map(entries);
    let low = state.mphf_len as nat;
    let n = state.addressed();
    let base = restore::checkpoint_placed::<C>(records::vacant_records(n), keys, map);
    let tail = restore::placements_between::<C>(entries, slots, low, n);
    let placed = restore::placed_back::<C>(state, keys, entries, map, slots).0;
    restore::lemma_placements_between::<C>(entries, slots, low, n);
    records::lemma_scattered_len(base, tail);
    record::lemma_vacant();
    assert forall|s: int| 0 <= s < keys.len() implies #[trigger] placed[s]
        == if restore::comes_back(keys[s], map) {
        record::record_for::<C>(keys[s], map[keys[s]])
    } else {
        record::vacant_record()
    } by {
        lemma_scattered_origin(base, tail, s);
    }
    assert forall|s: int|
        0 <= s < placed.len() && record::address_in(#[trigger] placed[s])
            != record::vacant_address() implies map.contains_key(record::address_in(placed[s]))
        && placed[s] == record::record_for::<C>(
        record::address_in(placed[s]),
        map[record::address_in(placed[s])],
    ) by {
        lemma_scattered_origin(base, tail, s);
        if exists|k: int| 0 <= k < tail.len() && (#[trigger] tail[k]).0 == s {
            let k = choose|k: int|
                0 <= k < tail.len() && (#[trigger] tail[k]).0 == s && tail[k].1 == placed[s];
            let i = placement_entry::<C>(entries, slots, low, n, k);
            record::lemma_record_for::<C>(entries[i].0, entries[i].1);
            address_map::lemma_entry_maps(entries, i);
        } else if s < keys.len() && restore::comes_back(keys[s], map) {
            record::lemma_record_for::<C>(keys[s], map[keys[s]]);
        }
    }
}

/// Seeing to entries keeps every record where it is, adds none that the map does
/// not have, and leaves each entry's address in some slot.
proof fn lemma_append_runs<C: RecordCodec, D, X, P>(
    index: X,
    push: P,
    all: Seq<(Address, C::Value)>,
    n: int,
    start: (D, Seq<Record>),
    end: (D, Seq<Record>),
) where
    X: Fn(&D, &Address) -> usize,
    P: Fn(D, &Address) -> (D, Result<usize, KeywordError>),

    requires
        address_map::distinct_addresses(all),
        0 <= n <= all.len(),
        restore::append_runs::<C, D, X, P>(index, push, all.take(n), start, end),
        carries::<C>(start.1, address_map::entries_as_map(all)),
    ensures
        start.1.len() <= end.1.len(),
        end.1.take(start.1.len() as int) == start.1,
        carries::<C>(end.1, address_map::entries_as_map(all)),
        forall|i: int|
            0 <= i < n ==> stands(end.1, (#[trigger] all[i]).0),
    decreases n,
{
    let entries = all.take(n);
    let map = address_map::entries_as_map(all);
    if n == 0 {
        assert(end.1.take(start.1.len() as int) =~= start.1);
    } else {
        assert(entries.drop_last() =~= all.take(n - 1));
        assert(entries.last() == all[n - 1]);
        let middle = choose|middle: (D, Seq<Record>)|
            #![trigger restore::append_step::<C, D, X, P>(index, push, entries.last(), middle, end)]
            {
                &&& restore::append_runs::<C, D, X, P>(
                    index,
                    push,
                    entries.drop_last(),
                    start,
                    middle,
                )
                &&& restore::append_step::<C, D, X, P>(index, push, entries.last(), middle, end)
            };
        lemma_append_runs::<C, D, X, P>(index, push, all, n - 1, start, middle);
        let (addr, value) = all[n - 1];
        let slot = choose|slot: usize| #[trigger]
            call_ensures(index, (&middle.0, &addr), slot) && if restore::stands_at(
                middle.1,
                slot as int,
                addr,
            ) {
                end == middle
            } else {
                exists|pushed: (D, Result<usize, KeywordError>)| #[trigger]
                    call_ensures(push, (middle.0, &addr), pushed) && pushed.1 is Ok && end == (
                        pushed.0,
                        middle.1.push(record::record_for::<C>(addr, value)),
                    )
            };
        record::lemma_record_for::<C>(addr, value);
        address_map::lemma_entry_maps(all, n - 1);
        let last = middle.1.len() as int;
        if restore::stands_at(middle.1, slot as int, addr) {
            assert(restore::stands_at(end.1, slot as int, addr));
        } else {
            assert(restore::stands_at(end.1, last, addr));
        }
        assert(end.1.take(start.1.len() as int) =~= middle.1.take(start.1.len() as int));
        assert forall|s: int|
            0 <= s < end.1.len() && record::address_in(#[trigger] end.1[s])
                != record::vacant_address() implies map.contains_key(record::address_in(end.1[s]))
            && end.1[s] == record::record_for::<C>(
            record::address_in(end.1[s]),
            map[record::address_in(end.1[s])],
        ) by {
            if s < last {
                assert(end.1[s] == middle.1[s]);
            }
        }
        assert forall|i: int| 0 <= i < n implies stands(end.1, (#[trigger] all[i]).0) by {
            if i < n - 1 {
                assert(stands(middle.1, all[i].0));
                let s = choose|s: int| restore::stands_at(middle.1, s, all[i].0);
                assert(end.1[s] == middle.1[s]);
                assert(restore::stands_at(end.1, s, all[i].0));
            }
        }
    }
}

/// Restarting moves no address: each slot that the checkpoint assigned to an
/// address still in the map holds that address's record, each other slot of the
/// directory's base is empty; the generation and the base are those of the
/// directory that was read, whose tail grew by exactly the appended records; and
/// what is served is what the records say, with nothing pending.
pub proof fn law_restore_moves_no_address<C: RecordCodec, W, D, R, X, P, S>(
    world: W,
    config: Config,
    layout: DatabaseLayout,
    blob: &[u8],
    keys: Seq<Address>,
    entries: Seq<(Address, C::Value)>,
    read: R,
    index: X,
    push: P,
    build_server: S,
    server: ServerView,
    directory: D,
    left: W,
    report: RestoreReport,
) where
    R: FnOnce(&[u8]) -> Result<(D, DirectoryState), WireError>,
    X: Fn(&D, &Address) -> usize,
    P: Fn(D, &Address) -> (D, Result<usize, KeywordError>),
    S: FnOnce(W, Config, DatabaseLayout, &Vec<Record>) -> (W, Result<ServingTimings, EthPirError>),

    requires
        address_map::distinct_addresses(entries),
        restore::restore_gives::<C, W, D, R, X, P, S>(
            world,
            config,
            layout,
            blob,
            keys,
            entries,
            address_map::entries_as_map(entries),
            read,
            index,
            push,
            build_server,
            Ok((server, directory, left, report)),
        ),
        server.wf(),
    ensures
        forall|s: int|
            0 <= s < keys.len() ==> #[trigger] server.records[s] == if restore::comes_back(
                keys[s],
                address_map::entries_as_map(entries),
            ) {
                record::record_for::<C>(
                    keys[s],
                    address_map::entries_as_map(entries)[keys[s]],
                )
            } else {
                record::vacant_record()
            },
        server.served == server.records,
        server.pending == 0,
        exists|found: D, state: DirectoryState| #[trigger]
            call_ensures(read, (blob,), Ok((found, state))) && keys.len() == state.mphf_len
                && server.directory.version == state.version && server.directory.mphf_len
                == state.mphf_len && server.records.len() >= state.addressed() && report.appended
                == (server.records.len() - state.addressed()) as usize,
{
    let map = address_map::entries_as_map(entries);
    let (found, state, slots) = restored_by::<C, W, D, R, X, P, S>(
        world,
        config,
        layout,
        blob,
        keys,
        entries,
        read,
        index,
        push,
        build_server,
        server,
        directory,
        left,
        report,
    );
    let placed = restore::placed_back::<C>(state, keys, entries, map, slots).0;
    lemma_placed_back::<C>(state, keys, entries, slots);
    assert(entries.take(entries.len() as int) =~= entries);
    lemma_append_runs::<C, D, X, P>(
        index,
        push,
        entries,
        entries.len() as int,
        (found, placed),
        (directory, server.records),
    );
    assert forall|s: int| 0 <= s < keys.len() implies #[trigger] server.records[s] == placed[s] by {
        assert(server.records.take(placed.len() as int)[s] == server.records[s]);
    }
}

/// The directory and state that a successful restart read, and the slots it found
/// for the entries.
proof fn restored_by<C: RecordCodec, W, D, R, X, P, S>(
    world: W,
    config: Config,
    layout: DatabaseLayout,
    blob: &[u8],
    keys: Seq<Address>,
    entries: Seq<(Address, C::Value)>,
    read: R,
    index: X,
    push: P,
    build_server: S,
    server: ServerView,
    directory: D,
    left: W,
    report: RestoreReport,
) -> (r: (D, DirectoryState, Seq<usize>)) where
    R: FnOnce(&[u8]) -> Result<(D, DirectoryState), WireError>,
    X: Fn(&D, &Address) -> usize,
    P: Fn(D, &Address) -> (D, Result<usize, KeywordError>),
    S: FnOnce(W, Config, DatabaseLayout, &Vec<Record>) -> (W, Result<ServingTimings, EthPirError>),

    requires
        restore::restore_gives::<C, W, D, R, X, P, S>(
            world,
            config,
            layout,
            blob,
            keys,
            entries,
            address_map::entries_as_map(entries),
            read,
            index,
            push,
            build_server,
            Ok((server, directory, left, report)),
        ),
    ensures
        ({
            let (found, state, slots) = r;
            let map = address_map::entries_as_map(entries);
            let placed = restore::placed_back::<C>(state, keys, entries, map, slots);
            &&& call_ensures(read, (blob,), Ok((found, state)))
            &&& keys.len() == state.mphf_len
            &&& restore::indexed_by(index, found, entries, slots)
            &&& restore::append_runs::<C, D, X, P>(
                index,
                push,
                entries,
                (found, placed.0),
                (directory, server.records),
            )
            &&& server == (ServerView {
                directory: restore::grown_to(state, server.records.len()),
                records: server.records,
                served: server.records,
                pending: 0,
            })
            &&& report == restore::restore_report(
                keys,
                map,
                placed.1,
                (server.records.len() - placed.0.len()) as nat,
            )
        }),
{
    let map = address_map::entries_as_map(entries);
    let outcome = Ok::<_, EthPirError>((server, directory, left, report));
    let (found, checked) = choose|
        found: Result<(D, DirectoryState), WireError>,
        checked: Result<(D, DirectoryState), EthPirError>,
    |
        #![trigger call_ensures(read, (blob,), found), restore::checked_gives(found, keys.len(), checked)]
        call_ensures(read, (blob,), found) && restore::checked_gives(found, keys.len(), checked)
            && match checked {
            Err(e) => outcome == Err::<(ServerView, D, W, RestoreReport), _>(e),
            Ok((d, state)) => exists|slots: Seq<usize>| #[trigger]
                restore::indexed_by(index, d, entries, slots) && restore::restart_gives::<
                    C,
                    W,
                    D,
                    X,
                    P,
                    S,
                >(
                    world,
                    config,
                    layout,
                    keys,
                    entries,
                    map,
                    d,
                    state,
                    restore::placed_back::<C>(state, keys, entries, map, slots),
                    index,
                    push,
                    build_server,
                    outcome,
                ),
        };
    let (d, state) = checked->Ok_0;
    let slots = choose|slots: Seq<usize>| #[trigger]
        restore::indexed_by(index, d, entries, slots) && restore::restart_gives::<C, W, D, X, P, S>(
            world,
            config,
            layout,
            keys,
            entries,
            map,
            d,
            state,
            restore::placed_back::<C>(state, keys, entries, map, slots),
            index,
            push,
            build_server,
            outcome,
        );
    (d, state, slots)
}

/// After a restart every address of the map is served, with the value that the map
/// has for it, the empty slots' own address aside.
pub proof fn law_restore_serves_every_address<C: RecordCodec, W, D, R, X, P, S>(
    world: W,
    config: Config,
    layout: DatabaseLayout,
    blob: &[u8],
    keys: Seq<Address>,
    entries: Seq<(Address, C::Value)>,
    read: R,
    index: X,
    push: P,
    build_server: S,
    server: ServerView,
    directory: D,
    left: W,
    report: RestoreReport,
) where
    R: FnOnce(&[u8]) -> Result<(D, DirectoryState), WireError>,
    X: Fn(&D, &Address) -> usize,
    P: Fn(D, &Address) -> (D, Result<usize, KeywordError>),
    S: FnOnce(W, Config, DatabaseLayout, &Vec<Record>) -> (W, Result<ServingTimings, EthPirError>),

    requires
        address_map::distinct_addresses(entries),
        restore::restore_gives::<C, W, D, R, X, P, S>(
            world,
            config,
            layout,
            blob,
            keys,
            entries,
            address_map::entries_as_map(entries),
            read,
            index,
            push,
            build_server,
            Ok((server, directory, left, report)),
        ),
    ensures
        forall|i: int|
            0 <= i < entries.len() && (#[trigger] entries[i]).0 != record::vacant_address()
                ==> serves::<C>(server.served, entries[i].0, entries[i].1),
{
    let map = address_map::entries_as_map(entries);
    let (found, state, slots) = restored_by::<C, W, D, R, X, P, S>(
        world,
        config,
        layout,
        blob,
        keys,
        entries,
        read,
        index,
        push,
        build_server,
        server,
        directory,
        left,
        report,
    );
    let placed = restore::placed_back::<C>(state, keys, entries, map, slots).0;
    lemma_placed_back::<C>(state, keys, entries, slots);
    assert(entries.take(entries.len() as int) =~= entries);
    lemma_append_runs::<C, D, X, P>(
        index,
        push,
        entries,
        entries.len() as int,
        (found, placed),
        (directory, server.records),
    );
    assert forall|i: int|
        0 <= i < entries.len() && (#[trigger] entries[i]).0
            != record::vacant_address() implies serves::<C>(
        server.served,
        entries[i].0,
        entries[i].1,
    ) by {
        assert(stands(server.records, entries[i].0));
        let s = choose|s: int| restore::stands_at(server.records, s, entries[i].0);
        address_map::lemma_entry_maps(entries, i);
        assert(server.records[s] == record::record_for::<C>(entries[i].0, entries[i].1));
    }
}

/// What a restart reports adds up: every slot of the directory's base was either
/// filled or left empty, and no more is counted as placed than those that were
/// filled and the entries whose slot lies in the tail.
pub proof fn law_restore_report_adds_up<V>(
    keys: Seq<Address>,
    map: Map<Address, V>,
    tail: nat,
    appended: nat,
)
    requires
        keys.len() + tail <= usize::MAX,
        appended <= usize::MAX,
    ensures
        restore::restore_report(keys, map, tail, appended).placed
            + restore::restore_report(keys, map, tail, appended).vacant == keys.len() + tail,
        restore::restore_report(keys, map, tail, appended).appended == appended,
{
    let filled = |s: int| restore::comes_back(keys[s], map);
    let vacant = |s: int| !restore::comes_back(keys[s], map);
    assert forall|s: int| 0 <= s < keys.len() implies #[trigger] filled(s) != vacant(s) by {}
    restore::lemma_count_split(keys.len(), filled, vacant);
}

/// Whether `map` is what a server with these records serves: each slot is empty or
/// holds the map's record of its address, and no two slots share an address.
pub open spec fn laid_out_for<C: RecordCodec>(
    records: Seq<Record>,
    map: Map<Address, C::Value>,
) -> bool {
    &&& carries::<C>(records, map)
    &&& forall|s: int|
        0 <= s < records.len() && record::address_in(#[trigger] records[s])
            == record::vacant_address() ==> records[s] == record::vacant_record()
    &&& laws::one_slot_per_address(records)
}

/// Where a directory names for each entry the slot that has its record, an entry
/// whose slot is `s` has the record that is there.
proof fn lemma_entry_at<C: RecordCodec>(
    server: Seq<Record>,
    entries: Seq<(Address, C::Value)>,
    slots: Seq<usize>,
    i: int,
)
    requires
        address_map::distinct_addresses(entries),
        laid_out_for::<C>(server, address_map::entries_as_map(entries)),
        0 <= i < entries.len(),
        entries[i].0 != record::vacant_address(),
        restore::stands_at(server, slots[i] as int, entries[i].0),
    ensures
        server[slots[i] as int] == record::record_for::<C>(entries[i].0, entries[i].1),
{
    address_map::lemma_entry_maps(entries, i);
}

/// Where a directory names for each entry the slot that has its record, each slot
/// that is not empty is named for an entry.
proof fn lemma_slot_named<C: RecordCodec>(
    server: Seq<Record>,
    entries: Seq<(Address, C::Value)>,
    slots: Seq<usize>,
    s: int,
) -> (i: int)
    requires
        laid_out_for::<C>(server, address_map::entries_as_map(entries)),
        slots.len() == entries.len(),
        forall|i: int|
            0 <= i < entries.len() ==> restore::stands_at(
                server,
                slots[i] as int,
                (#[trigger] entries[i]).0,
            ),
        0 <= s < server.len(),
        record::address_in(server[s]) != record::vacant_address(),
    ensures
        0 <= i < entries.len(),
        slots[i] == s,
{
    let addr = record::address_in(server[s]);
    let i = address_map::position_of(entries, addr);
    assert(address_map::entries_as_map(entries).contains_key(addr));
    assert(entries[i].0 == addr);
    let t = slots[i] as int;
    assert(restore::stands_at(server, t, addr));
    if s < t {
        assert(record::address_in(server[s]) != record::address_in(server[t]));
    } else if t < s {
        assert(record::address_in(server[t]) != record::address_in(server[s]));
    }
    i
}

/// Where a directory names for each entry the slot that has its record, putting
/// the records back gives the records there were.
proof fn lemma_placed_where_it_was<C: RecordCodec>(
    server: ServerView,
    entries: Seq<(Address, C::Value)>,
    slots: Seq<usize>,
)
    requires
        server.wf(),
        address_map::distinct_addresses(entries),
        laid_out_for::<C>(server.records, address_map::entries_as_map(entries)),
        slots.len() == entries.len(),
        forall|i: int|
            0 <= i < entries.len() ==> (#[trigger] entries[i]).0 != record::vacant_address()
                && restore::stands_at(server.records, slots[i] as int, entries[i].0),
    ensures
        restore::placed_back::<C>(
            server.directory,
            restore::base_keys(server),
            entries,
            address_map::entries_as_map(entries),
            slots,
        ).0 == server.records,
{
    let map = address_map::entries_as_map(entries);
    let state = server.directory;
    let keys = restore::base_keys(server);
    let placed = restore::placed_back::<C>(state, keys, entries, map, slots).0;
    lemma_placed_back::<C>(state, keys, entries, slots);
    assert forall|s: int| 0 <= s < placed.len() implies #[trigger] placed[s]
        == server.records[s] by {
        if s < keys.len() {
            assert(server.records.take(keys.len() as int)[s] == server.records[s]);
            assert(keys[s] == record::address_in(server.records[s]));
        } else {
            lemma_tail_where_it_was::<C>(server, entries, slots, s);
        }
    }
    assert(placed =~= server.records);
}

/// The part of [`lemma_placed_where_it_was`] for a slot of the tail.
proof fn lemma_tail_where_it_was<C: RecordCodec>(
    server: ServerView,
    entries: Seq<(Address, C::Value)>,
    slots: Seq<usize>,
    s: int,
)
    requires
        server.wf(),
        address_map::distinct_addresses(entries),
        laid_out_for::<C>(server.records, address_map::entries_as_map(entries)),
        slots.len() == entries.len(),
        forall|i: int|
            0 <= i < entries.len() ==> (#[trigger] entries[i]).0 != record::vacant_address()
                && restore::stands_at(server.records, slots[i] as int, entries[i].0),
        server.directory.mphf_len <= s < server.records.len(),
    ensures
        restore::placed_back::<C>(
            server.directory,
            restore::base_keys(server),
            entries,
            address_map::entries_as_map(entries),
            slots,
        ).0[s] == server.records[s],
{
    let map = address_map::entries_as_map(entries);
    let low = server.directory.mphf_len as nat;
    let n = server.directory.addressed();
    let base = restore::checkpoint_placed::<C>(
        records::vacant_records(n),
        restore::base_keys(server),
        map,
    );
    let tail = restore::placements_between::<C>(entries, slots, low, n);
    restore::lemma_placements_between::<C>(entries, slots, low, n);
    lemma_scattered_origin(base, tail, s);
    if record::address_in(server.records[s]) != record::vacant_address() {
        let i = lemma_slot_named::<C>(server.records, entries, slots, s);
        let k = entry_placement::<C>(entries, slots, low, n, i);
        assert(tail[k].0 == s);
    }
    if exists|k: int| 0 <= k < tail.len() && (#[trigger] tail[k]).0 == s {
        let k = choose|k: int|
            0 <= k < tail.len() && (#[trigger] tail[k]).0 == s && tail[k].1 == records::scattered(
                base,
                tail,
            )[s];
        let i = placement_entry::<C>(entries, slots, low, n, k);
        assert(entries[i].0 != record::vacant_address());
        lemma_entry_at::<C>(server.records, entries, slots, i);
    }
}

/// Where every entry's slot has its record, seeing to the entries changes nothing.
proof fn lemma_nothing_to_append<C: RecordCodec, D, X, P>(
    index: X,
    push: P,
    all: Seq<(Address, C::Value)>,
    n: int,
    start: (D, Seq<Record>),
    end: (D, Seq<Record>),
) where
    X: Fn(&D, &Address) -> usize,
    P: Fn(D, &Address) -> (D, Result<usize, KeywordError>),

    requires
        0 <= n <= all.len(),
        forall|i: int, slot: usize|
            0 <= i < all.len() && #[trigger] call_ensures(index, (&start.0, &all[i].0), slot)
                ==> restore::stands_at(start.1, slot as int, all[i].0),
        restore::append_runs::<C, D, X, P>(index, push, all.take(n), start, end),
    ensures
        end == start,
    decreases n,
{
    let entries = all.take(n);
    if n > 0 {
        assert(entries.drop_last() =~= all.take(n - 1));
        assert(entries.last() == all[n - 1]);
        let middle = choose|middle: (D, Seq<Record>)|
            #![trigger restore::append_step::<C, D, X, P>(index, push, entries.last(), middle, end)]
            {
                &&& restore::append_runs::<C, D, X, P>(
                    index,
                    push,
                    entries.drop_last(),
                    start,
                    middle,
                )
                &&& restore::append_step::<C, D, X, P>(index, push, entries.last(), middle, end)
            };
        lemma_nothing_to_append::<C, D, X, P>(index, push, all, n - 1, start, middle);
    }
}

/// A server that is restarted from its own checkpoint, with the map it served, is
/// the server that it was: the same directory state, the same record in each slot.
/// Every address is reported as placed, none as appended; the empty slots of the
/// base are those that it had, so none where it had none.
pub proof fn law_checkpoint_restores_the_server<C: RecordCodec, W, D, R, X, P, S>(
    world: W,
    config: Config,
    layout: DatabaseLayout,
    blob: &[u8],
    entries: Seq<(Address, C::Value)>,
    read: R,
    index: X,
    push: P,
    build_server: S,
    server: ServerView,
    restored: ServerView,
    directory: D,
    left: W,
    report: RestoreReport,
) where
    R: FnOnce(&[u8]) -> Result<(D, DirectoryState), WireError>,
    X: Fn(&D, &Address) -> usize,
    P: Fn(D, &Address) -> (D, Result<usize, KeywordError>),
    S: FnOnce(W, Config, DatabaseLayout, &Vec<Record>) -> (W, Result<ServingTimings, EthPirError>),

    requires
        server.wf(),
        server.directory.mphf_len + entries.len() <= usize::MAX,
        address_map::distinct_addresses(entries),
        forall|i: int|
            0 <= i < entries.len() ==> (#[trigger] entries[i]).0 != record::vacant_address(),
        laid_out_for::<C>(server.records, address_map::entries_as_map(entries)),
        forall|found: D, state: DirectoryState| #[trigger]
            call_ensures(read, (blob,), Ok((found, state))) ==> state == server.directory
                && forall|i: int, slot: usize|
                0 <= i < entries.len() && #[trigger] call_ensures(
                    index,
                    (&found, &entries[i].0),
                    slot,
                ) ==> restore::stands_at(server.records, slot as int, entries[i].0),
        restore::restore_gives::<C, W, D, R, X, P, S>(
            world,
            config,
            layout,
            blob,
            restore::base_keys(server),
            entries,
            address_map::entries_as_map(entries),
            read,
            index,
            push,
            build_server,
            Ok((restored, directory, left, report)),
        ),
    ensures
        restored == (ServerView { served: server.records, pending: 0, ..server }),
        report.placed == entries.len(),
        report.appended == 0,
        report.vacant == restore::count(
            server.directory.mphf_len as nat,
            |s: int| record::address_in(server.records[s]) == record::vacant_address(),
        ),
{
    let keys = restore::base_keys(server);
    let map = address_map::entries_as_map(entries);
    let (found, state, slots) = restored_by::<C, W, D, R, X, P, S>(
        world,
        config,
        layout,
        blob,
        keys,
        entries,
        read,
        index,
        push,
        build_server,
        restored,
        directory,
        left,
        report,
    );
    let placed = restore::placed_back::<C>(state, keys, entries, map, slots).0;
    assert forall|i: int| 0 <= i < entries.len() implies (#[trigger] entries[i]).0
        != record::vacant_address() && restore::stands_at(
        server.records,
        slots[i] as int,
        entries[i].0,
    ) by {
        assert(call_ensures(index, (&found, &entries[i].0), slots[i]));
    }
    lemma_placed_where_it_was::<C>(server, entries, slots);
    assert(entries.take(entries.len() as int) =~= entries);
    lemma_nothing_to_append::<C, D, X, P>(
        index,
        push,
        entries,
        entries.len() as int,
        (found, placed),
        (directory, restored.records),
    );
    lemma_own_report::<C>(server, entries, slots);
}

/// What a server's own checkpoint is reported as: each entry is either among the
/// keys or placed in the tail.
proof fn lemma_own_report<C: RecordCodec>(
    server: ServerView,
    entries: Seq<(Address, C::Value)>,
    slots: Seq<usize>,
)
    requires
        server.wf(),
        server.directory.mphf_len + entries.len() <= usize::MAX,
        address_map::distinct_addresses(entries),
        laid_out_for::<C>(server.records, address_map::entries_as_map(entries)),
        slots.len() == entries.len(),
        forall|i: int|
            0 <= i < entries.len() ==> (#[trigger] entries[i]).0 != record::vacant_address()
                && restore::stands_at(server.records, slots[i] as int, entries[i].0),
    ensures
        ({
            let keys = restore::base_keys(server);
            let map = address_map::entries_as_map(entries);
            let tail = restore::placed_back::<C>(server.directory, keys, entries, map, slots).1;
            let report = restore::restore_report(keys, map, tail, 0);
            &&& report.placed == entries.len()
            &&& report.vacant == restore::count(
                server.directory.mphf_len as nat,
                |s: int| record::address_in(server.records[s]) == record::vacant_address(),
            )
        }),
{
    let keys = restore::base_keys(server);
    let map = address_map::entries_as_map(entries);
    let low = server.directory.mphf_len as nat;
    let high = server.directory.addressed();
    assert forall|s: int| 0 <= s < keys.len() implies #[trigger] keys[s] == record::address_in(
        server.records[s],
    ) by {
        assert(server.records.take(low as int)[s] == server.records[s]);
    }
    let known = |i: int| among(keys, entries[i].0);
    let late = |i: int| low <= slots[i] < high;
    assert forall|i: int| 0 <= i < entries.len() implies #[trigger] known(i) != late(i) by {
        let slot = slots[i] as int;
        assert(restore::stands_at(server.records, slot, entries[i].0));
        if slot < low {
            assert(keys[slot] == entries[i].0);
        }
        if known(i) {
            let s = choose|s: int| 0 <= s < keys.len() && #[trigger] keys[s] == entries[i].0;
            if s < slot {
                assert(record::address_in(server.records[s]) != record::address_in(
                    server.records[slot],
                ));
            }
        }
    }
    restore::lemma_count_split(entries.len(), known, late);
    lemma_placements_counted::<C>(entries, slots, low, high);
    assert forall|s: int, t: int|
        0 <= s < t < keys.len() && #[trigger] keys[s] != record::vacant_address() implies keys[s]
        != #[trigger] keys[t] by {
        assert(record::address_in(server.records[s]) != record::address_in(server.records[t]));
    }
    lemma_keys_counted(keys, entries, keys.len() as int);
    assert(keys.take(keys.len() as int) =~= keys);
    let empty = |s: int| !restore::comes_back(keys[s], map);
    let filled = |s: int| restore::comes_back(keys[s], map);
    let was_empty = |s: int|
        record::address_in(server.records[s]) == record::vacant_address();
    assert forall|s: int| 0 <= s < keys.len() implies #[trigger] filled(s) != empty(s) by {}
    restore::lemma_count_split(keys.len(), filled, empty);
    assert forall|s: int| 0 <= s < keys.len() implies #[trigger] empty(s) == was_empty(s) by {
        assert(keys[s] == record::address_in(server.records[s]));
    }
    restore::lemma_count_same(keys.len(), empty, was_empty);
}

/// Whether a directory answers as `names` and `size` say: `names` gives the slot it
/// names for an address, and pushing an address gives it the slot after the last and
/// leaves the slots of all others as they are.
pub open spec fn directory_obeys<D, X, P>(
    index: X,
    push: P,
    names: spec_fn(D, Address) -> int,
    size: spec_fn(D) -> int,
) -> bool where
    X: Fn(&D, &Address) -> usize,
    P: Fn(D, &Address) -> (D, Result<usize, KeywordError>),
 {
    &&& forall|d: D, addr: Address, slot: usize| #[trigger]
        call_ensures(index, (&d, &addr), slot) ==> slot == names(d, addr)
    &&& forall|d: D, addr: Address, pushed: (D, Result<usize, KeywordError>)| #[trigger]
        call_ensures(push, (d, &addr), pushed) && pushed.1 is Ok ==> {
            &&& names(pushed.0, addr) == size(d)
            &&& size(pushed.0) == size(d) + 1
            &&& forall|other: Address|
                other != addr ==> #[trigger] names(pushed.0, other) == names(d, other)
        }
}

/// Whether the directory that was read back names for each address of the
/// checkpoint its slot, and never one slot of the tail for two entries.
pub open spec fn matches_checkpoint<D, V>(
    names: spec_fn(D, Address) -> int,
    size: spec_fn(D) -> int,
    found: D,
    state: DirectoryState,
    keys: Seq<Address>,
    entries: Seq<(Address, V)>,
) -> bool {
    &&& size(found) == state.addressed()
    &&& forall|s: int|
        0 <= s < keys.len() && #[trigger] keys[s] != record::vacant_address() ==> names(
            found,
            keys[s],
        ) == s
    &&& forall|i: int, j: int|
        0 <= i < j < entries.len() && state.mphf_len <= names(found, (#[trigger] entries[i]).0)
            < state.addressed() ==> names(found, entries[i].0) != names(
            found,
            (#[trigger] entries[j]).0,
        )
}

/// Whether `addr` is among `keys`.
pub open spec fn among(keys: Seq<Address>, addr: Address) -> bool {
    exists|s: int| 0 <= s < keys.len() && #[trigger] keys[s] == addr
}

/// What seeing to the first `n` entries does where the directory answers as `names`
/// and `size` say: each ends in the slot that the directory names for it, those that
/// stood there already keep it, and one record is appended for each of the others.
proof fn lemma_append_counts<C: RecordCodec, D, X, P>(
    index: X,
    push: P,
    names: spec_fn(D, Address) -> int,
    size: spec_fn(D) -> int,
    all: Seq<(Address, C::Value)>,
    n: int,
    start: (D, Seq<Record>),
    end: (D, Seq<Record>),
) where
    X: Fn(&D, &Address) -> usize,
    P: Fn(D, &Address) -> (D, Result<usize, KeywordError>),

    requires
        directory_obeys(index, push, names, size),
        address_map::distinct_addresses(all),
        0 <= n <= all.len(),
        size(start.0) == start.1.len(),
        restore::append_runs::<C, D, X, P>(index, push, all.take(n), start, end),
    ensures
        size(end.0) == end.1.len(),
        start.1.len() <= end.1.len(),
        forall|s: int| 0 <= s < start.1.len() ==> #[trigger] end.1[s] == start.1[s],
        forall|s: int|
            start.1.len() <= s < end.1.len() ==> appended_for(
                all,
                n,
                record::address_in(#[trigger] end.1[s]),
            ),
        forall|i: int|
            0 <= i < n ==> restore::stands_at(
                end.1,
                names(end.0, (#[trigger] all[i]).0),
                all[i].0,
            ),
        forall|i: int|
            0 <= i < all.len() && (i >= n || restore::stands_at(
                start.1,
                names(start.0, (#[trigger] all[i]).0),
                all[i].0,
            )) ==> names(end.0, all[i].0) == names(start.0, all[i].0),
        end.1.len() - start.1.len() == restore::count(
            n as nat,
            |i: int| !restore::stands_at(start.1, names(start.0, all[i].0), all[i].0),
        ),
    decreases n,
{
    let entries = all.take(n);
    if n > 0 {
        assert(entries.drop_last() =~= all.take(n - 1));
        assert(entries.last() == all[n - 1]);
        let middle = choose|middle: (D, Seq<Record>)|
            #![trigger restore::append_step::<C, D, X, P>(index, push, entries.last(), middle, end)]
            {
                &&& restore::append_runs::<C, D, X, P>(
                    index,
                    push,
                    entries.drop_last(),
                    start,
                    middle,
                )
                &&& restore::append_step::<C, D, X, P>(index, push, entries.last(), middle, end)
            };
        lemma_append_counts::<C, D, X, P>(index, push, names, size, all, n - 1, start, middle);
        let (addr, value) = all[n - 1];
        let slot = names(middle.0, addr);
        assert(slot == names(start.0, addr));
        record::lemma_record_for::<C>(addr, value);
        let stood = restore::stands_at(start.1, names(start.0, addr), addr);
        assert(restore::stands_at(middle.1, slot, addr) == stood) by {
            if start.1.len() <= slot < middle.1.len() {
                assert(appended_for(all, n - 1, record::address_in(middle.1[slot])));
                let j = choose|j: int|
                    0 <= j < n - 1 && (#[trigger] all[j]).0 == record::address_in(middle.1[slot]);
                assert(all[j].0 != all[n - 1].0);
            } else if 0 <= slot < start.1.len() {
                assert(middle.1[slot] == start.1[slot]);
            }
        }
        lemma_last_step::<C, D, X, P>(index, push, names, size, (addr, value), middle, end);
        let last = middle.1.len() as int;
        assert forall|s: int| 0 <= s < start.1.len() implies #[trigger] end.1[s] == start.1[s] by {
            assert(end.1[s] == middle.1[s]);
        }
        assert forall|s: int| start.1.len() <= s < end.1.len() implies appended_for(
            all,
            n,
            record::address_in(#[trigger] end.1[s]),
        ) by {
            if s < last {
                assert(end.1[s] == middle.1[s]);
                assert(appended_for(all, n - 1, record::address_in(middle.1[s])));
                let j = choose|j: int|
                    0 <= j < n - 1 && (#[trigger] all[j]).0 == record::address_in(middle.1[s]);
                assert(all[j].0 == record::address_in(end.1[s]));
            } else {
                assert(all[n - 1].0 == record::address_in(end.1[s]));
            }
        }
        assert forall|i: int| 0 <= i < n implies restore::stands_at(
            end.1,
            names(end.0, (#[trigger] all[i]).0),
            all[i].0,
        ) by {
            if i < n - 1 {
                assert(all[i].0 != all[n - 1].0);
                assert(restore::stands_at(middle.1, names(middle.0, all[i].0), all[i].0));
                assert(names(end.0, all[i].0) == names(middle.0, all[i].0));
                assert(end.1[names(middle.0, all[i].0)] == middle.1[names(middle.0, all[i].0)]);
            }
        }
        assert forall|i: int|
            0 <= i < all.len() && (i >= n || restore::stands_at(
                start.1,
                names(start.0, (#[trigger] all[i]).0),
                all[i].0,
            )) implies names(end.0, all[i].0) == names(start.0, all[i].0) by {
            if i < n - 1 {
                assert(all[i].0 != all[n - 1].0);
            } else if i > n - 1 {
                assert(all[n - 1].0 != all[i].0);
            }
            assert(names(middle.0, all[i].0) == names(start.0, all[i].0));
        }
    }
}

/// However seeing to the entries ends, there is one record for each slot of the
/// directory, and the records there were stand where they stood: an address that the
/// directory refused has neither an entry nor a record. Of the directory it is asked
/// that it answers as one does, and that an address it refuses gets no slot.
pub proof fn law_append_keeps_directory_and_records_aligned<C: RecordCodec, D, X, P>(
    index: X,
    push: P,
    names: spec_fn(D, Address) -> int,
    size: spec_fn(D) -> int,
    entries: Seq<(Address, C::Value)>,
    start: (D, Seq<Record>),
    end: (D, Seq<Record>),
    outcome: Result<(), EthPirError>,
) where
    X: Fn(&D, &Address) -> usize,
    P: Fn(D, &Address) -> (D, Result<usize, KeywordError>),

    requires
        directory_obeys(index, push, names, size),
        forall|d: D, addr: Address, pushed: (D, Result<usize, KeywordError>)| #[trigger]
            call_ensures(push, (d, &addr), pushed) && pushed.1 is Err ==> size(pushed.0) == size(
                d,
            ),
        address_map::distinct_addresses(entries),
        size(start.0) == start.1.len(),
        restore::append_ends::<C, D, X, P>(index, push, entries, start, end, outcome),
    ensures
        size(end.0) == end.1.len(),
        start.1.len() <= end.1.len(),
        forall|s: int| 0 <= s < start.1.len() ==> #[trigger] end.1[s] == start.1[s],
{
    match outcome {
        Ok(()) => {
            assert(entries.take(entries.len() as int) =~= entries);
            lemma_append_counts::<C, D, X, P>(
                index,
                push,
                names,
                size,
                entries,
                entries.len() as int,
                start,
                end,
            );
        },
        Err(e) => {
            let (n, middle) = choose|n: int, middle: (D, Seq<Record>)|
                #![trigger restore::append_runs::<C, D, X, P>(
                    index,
                    push,
                    entries.take(n),
                    start,
                    middle,
                )]
                {
                    &&& 0 <= n < entries.len()
                    &&& restore::append_runs::<C, D, X, P>(
                        index,
                        push,
                        entries.take(n),
                        start,
                        middle,
                    )
                    &&& restore::append_fails(index, push, entries[n], middle, end.0, e)
                    &&& end.1 == middle.1
                };
            lemma_append_counts::<C, D, X, P>(
                index,
                push,
                names,
                size,
                entries,
                n,
                start,
                middle,
            );
        },
    }
}

/// Whether `addr` is that of one of the first `n` entries.
spec fn appended_for<V>(all: Seq<(Address, V)>, n: int, addr: Address) -> bool {
    exists|j: int| 0 <= j < n && (#[trigger] all[j]).0 == addr
}

/// One step of [`lemma_append_counts`].
proof fn lemma_last_step<C: RecordCodec, D, X, P>(
    index: X,
    push: P,
    names: spec_fn(D, Address) -> int,
    size: spec_fn(D) -> int,
    entry: (Address, C::Value),
    middle: (D, Seq<Record>),
    end: (D, Seq<Record>),
) where
    X: Fn(&D, &Address) -> usize,
    P: Fn(D, &Address) -> (D, Result<usize, KeywordError>),

    requires
        directory_obeys(index, push, names, size),
        size(middle.0) == middle.1.len(),
        restore::append_step::<C, D, X, P>(index, push, entry, middle, end),
    ensures
        size(end.0) == end.1.len(),
        forall|other: Address|
            other != entry.0 ==> #[trigger] names(end.0, other) == names(middle.0, other),
        restore::stands_at(middle.1, names(middle.0, entry.0), entry.0) ==> end == middle,
        !restore::stands_at(middle.1, names(middle.0, entry.0), entry.0) ==> end.1
            == middle.1.push(record::record_for::<C>(entry.0, entry.1)) && names(
            end.0,
            entry.0,
        ) == middle.1.len(),
{
}

/// As many entries have their address among the checkpoint's keys as there are keys
/// whose address comes back.
proof fn lemma_keys_counted<V>(keys: Seq<Address>, entries: Seq<(Address, V)>, m: int)
    requires
        0 <= m <= keys.len(),
        address_map::distinct_addresses(entries),
        forall|i: int|
            0 <= i < entries.len() ==> (#[trigger] entries[i]).0 != record::vacant_address(),
        forall|s: int, t: int|
            0 <= s < t < keys.len() && #[trigger] keys[s] != record::vacant_address() ==> keys[s]
                != #[trigger] keys[t],
    ensures
        restore::count(
            m as nat,
            |s: int| restore::comes_back(keys[s], address_map::entries_as_map(entries)),
        ) == restore::count(entries.len(), |i: int| among(keys.take(m), entries[i].0)),
    decreases m,
{
    let map = address_map::entries_as_map(entries);
    let p = |i: int| among(keys.take(m), entries[i].0);
    if m == 0 {
        lemma_count_none(entries.len(), p);
    } else {
        lemma_keys_counted(keys, entries, m - 1);
        let q = |i: int| among(keys.take(m - 1), entries[i].0);
        let key = keys[m - 1];
        assert forall|i: int| 0 <= i < entries.len() && (#[trigger] entries[i]).0 != key implies p(i)
            == q(i) by {
            if p(i) {
                let s = choose|s: int|
                    0 <= s < m && #[trigger] keys.take(m)[s] == entries[i].0;
                assert(keys.take(m - 1)[s] == entries[i].0);
            }
            if q(i) {
                let s = choose|s: int|
                    0 <= s < m - 1 && #[trigger] keys.take(m - 1)[s] == entries[i].0;
                assert(keys.take(m)[s] == entries[i].0);
            }
        }
        if restore::comes_back(key, map) {
            let i = address_map::position_of(entries, key);
            assert(entries[i].0 == key);
            assert(keys.take(m)[m - 1] == key);
            assert(p(i));
            if q(i) {
                let s = choose|s: int| 0 <= s < m - 1 && #[trigger] keys.take(m - 1)[s] == key;
                assert(keys[s] != keys[m - 1]);
            }
            assert forall|j: int| 0 <= j < entries.len() && j != i implies #[trigger] q(j) == p(
                j,
            ) by {
                if j < i {
                    assert(entries[j].0 != entries[i].0);
                } else {
                    assert(entries[i].0 != entries[j].0);
                }
            }
            lemma_count_one_more(entries.len(), q, p, i);
        } else {
            assert forall|i: int| 0 <= i < entries.len() implies #[trigger] q(i) == p(i) by {
                if entries[i].0 == key {
                    address_map::lemma_entry_maps(entries, i);
                }
            }
            restore::lemma_count_same(entries.len(), q, p);
        }
    }
}

proof fn lemma_count_none(n: nat, p: spec_fn(int) -> bool)
    requires
        forall|i: int| 0 <= i < n ==> !(#[trigger] p(i)),
    ensures
        restore::count(n, p) == 0,
    decreases n,
{
    if n > 0 {
        lemma_count_none((n - 1) as nat, p);
        assert(!p(n - 1));
    }
}

proof fn lemma_count_one_more(n: nat, p: spec_fn(int) -> bool, q: spec_fn(int) -> bool, at: int)
    requires
        0 <= at < n,
        !p(at),
        q(at),
        forall|i: int| 0 <= i < n && i != at ==> #[trigger] p(i) == q(i),
    ensures
        restore::count(n, q) == restore::count(n, p) + 1,
    decreases n,
{
    if at < n - 1 {
        lemma_count_one_more((n - 1) as nat, p, q, at);
        assert(p(n - 1) == q(n - 1));
    } else {
        restore::lemma_count_same((n - 1) as nat, p, q);
    }
}

proof fn lemma_count_parts(
    n: nat,
    p: spec_fn(int) -> bool,
    q: spec_fn(int) -> bool,
    r: spec_fn(int) -> bool,
)
    requires
        forall|i: int| 0 <= i < n ==> (#[trigger] r(i) <==> !p(i) && !q(i)) && !(p(i) && q(i)),
    ensures
        restore::count(n, p) + restore::count(n, q) + restore::count(n, r) == n,
    decreases n,
{
    if n > 0 {
        lemma_count_parts((n - 1) as nat, p, q, r);
        assert(r(n - 1) <==> !p(n - 1) && !q(n - 1));
    }
}

/// One placement is made in the tail for each entry whose slot lies there.
proof fn lemma_placements_counted<C: RecordCodec>(
    entries: Seq<(Address, C::Value)>,
    slots: Seq<usize>,
    low: nat,
    high: nat,
)
    requires
        slots.len() == entries.len(),
    ensures
        restore::placements_between::<C>(entries, slots, low, high).len() == restore::count(
            entries.len(),
            |i: int| low <= slots[i] < high,
        ),
    decreases entries.len(),
{
    if entries.len() > 0 {
        let n = (entries.len() - 1) as nat;
        let fewer = slots.drop_last();
        lemma_placements_counted::<C>(entries.drop_last(), fewer, low, high);
        let p = |i: int| low <= slots[i] < high;
        let q = |i: int| low <= fewer[i] < high;
        assert forall|i: int| 0 <= i < n implies #[trigger] p(i) == q(i) by {
            assert(fewer[i] == slots[i]);
        }
        restore::lemma_count_same(n, p, q);
    }
}

/// An entry stands in the slot that its directory names, once the records were put
/// back, where the checkpoint knows its address or the slot lies in the tail, and
/// not otherwise.
proof fn lemma_stands_once_placed<C: RecordCodec, D>(
    names: spec_fn(D, Address) -> int,
    size: spec_fn(D) -> int,
    found: D,
    state: DirectoryState,
    keys: Seq<Address>,
    entries: Seq<(Address, C::Value)>,
    slots: Seq<usize>,
    i: int,
)
    requires
        address_map::distinct_addresses(entries),
        matches_checkpoint(names, size, found, state, keys, entries),
        keys.len() == state.mphf_len,
        slots.len() == entries.len(),
        forall|j: int|
            0 <= j < entries.len() ==> slots[j] == names(found, (#[trigger] entries[j]).0),
        0 <= i < entries.len(),
        entries[i].0 != record::vacant_address(),
    ensures
        restore::stands_at(
            restore::placed_back::<C>(
                state,
                keys,
                entries,
                address_map::entries_as_map(entries),
                slots,
            ).0,
            slots[i] as int,
            entries[i].0,
        ) <==> among(keys, entries[i].0) || state.mphf_len <= slots[i] < state.addressed(),
        !(among(keys, entries[i].0) && state.mphf_len <= slots[i] < state.addressed()),
{
    let map = address_map::entries_as_map(entries);
    let low = state.mphf_len as nat;
    let n = state.addressed();
    let placed = restore::placed_back::<C>(state, keys, entries, map, slots).0;
    let (addr, value) = entries[i];
    let slot = slots[i] as int;
    assert(slot == names(found, entries[i].0));
    lemma_placed_back::<C>(state, keys, entries, slots);
    address_map::lemma_entry_maps(entries, i);
    record::lemma_vacant();
    if among(keys, addr) {
        let s = choose|s: int| 0 <= s < keys.len() && #[trigger] keys[s] == addr;
        assert(names(found, keys[s]) == s);
        assert(restore::comes_back(keys[s], map));
        record::lemma_record_for::<C>(keys[s], map[keys[s]]);
        assert(placed[s] == record::record_for::<C>(keys[s], map[keys[s]]));
    } else if low <= slot < n {
        let base = restore::checkpoint_placed::<C>(records::vacant_records(n), keys, map);
        let tail = restore::placements_between::<C>(entries, slots, low, n);
        restore::lemma_placements_between::<C>(entries, slots, low, n);
        lemma_scattered_origin(base, tail, slot);
        let k = entry_placement::<C>(entries, slots, low, n, i);
        assert(tail[k].0 == slot);
        let k = choose|k: int|
            0 <= k < tail.len() && (#[trigger] tail[k]).0 == slot && tail[k].1 == placed[slot];
        let j = placement_entry::<C>(entries, slots, low, n, k);
        assert(slots[j] == names(found, entries[j].0));
        if j < i {
            assert(names(found, entries[j].0) != names(found, entries[i].0));
        } else if i < j {
            assert(names(found, entries[i].0) != names(found, entries[j].0));
        }
        record::lemma_record_for::<C>(addr, value);
    } else if slot < low {
        assert(keys[slot] != addr);
        if restore::comes_back(keys[slot], map) {
            record::lemma_record_for::<C>(keys[slot], map[keys[slot]]);
        }
    }
}

/// A restart accounts for every address of the map: each is put back or appended,
/// and those are all that the report counts; the slots that stay empty are those
/// that the checkpoint assigns to no address of the map. Each address has its record
/// in the slot that the directory names for it, and an address that the directory
/// knew keeps the slot that it had. Of the directory it is asked that it answers as
/// one does, and that it belongs to the checkpoint.
pub proof fn law_restore_accounts_for_every_address<C: RecordCodec, W, D, R, X, P, S>(
    names: spec_fn(D, Address) -> int,
    size: spec_fn(D) -> int,
    world: W,
    config: Config,
    layout: DatabaseLayout,
    blob: &[u8],
    keys: Seq<Address>,
    entries: Seq<(Address, C::Value)>,
    read: R,
    index: X,
    push: P,
    build_server: S,
    server: ServerView,
    directory: D,
    left: W,
    report: RestoreReport,
) -> (found: (D, DirectoryState)) where
    R: FnOnce(&[u8]) -> Result<(D, DirectoryState), WireError>,
    X: Fn(&D, &Address) -> usize,
    P: Fn(D, &Address) -> (D, Result<usize, KeywordError>),
    S: FnOnce(W, Config, DatabaseLayout, &Vec<Record>) -> (W, Result<ServingTimings, EthPirError>),

    requires
        address_map::distinct_addresses(entries),
        forall|i: int|
            0 <= i < entries.len() ==> (#[trigger] entries[i]).0 != record::vacant_address(),
        keys.len() + entries.len() <= usize::MAX,
        directory_obeys(index, push, names, size),
        forall|found: D, state: DirectoryState| #[trigger]
            call_ensures(read, (blob,), Ok((found, state))) ==> matches_checkpoint(
                names,
                size,
                found,
                state,
                keys,
                entries,
            ),
        restore::restore_gives::<C, W, D, R, X, P, S>(
            world,
            config,
            layout,
            blob,
            keys,
            entries,
            address_map::entries_as_map(entries),
            read,
            index,
            push,
            build_server,
            Ok((server, directory, left, report)),
        ),
    ensures
        call_ensures(read, (blob,), Ok(found)),
        report.placed + report.appended == entries.len(),
        report.vacant == restore::count(
            keys.len(),
            |s: int| !restore::comes_back(keys[s], address_map::entries_as_map(entries)),
        ),
        server.records.len() == found.1.addressed() + report.appended,
        forall|i: int|
            #![trigger entries[i]]
            0 <= i < entries.len() ==> {
                let slot = names(directory, entries[i].0);
                &&& 0 <= slot < server.served.len()
                &&& server.served[slot] == record::record_for::<C>(entries[i].0, entries[i].1)
            },
        forall|i: int|
            0 <= i < entries.len() && (among(keys, (#[trigger] entries[i]).0) || found.1.mphf_len
                <= names(found.0, entries[i].0) < found.1.addressed()) ==> names(
                directory,
                entries[i].0,
            ) == names(found.0, entries[i].0),
{
    let map = address_map::entries_as_map(entries);
    let (found, state, slots) = restored_by::<C, W, D, R, X, P, S>(
        world,
        config,
        layout,
        blob,
        keys,
        entries,
        read,
        index,
        push,
        build_server,
        server,
        directory,
        left,
        report,
    );
    let low = state.mphf_len as nat;
    let high = state.addressed();
    let (placed, tail) = restore::placed_back::<C>(state, keys, entries, map, slots);
    lemma_placed_back::<C>(state, keys, entries, slots);
    assert(entries.take(entries.len() as int) =~= entries);
    assert forall|j: int| 0 <= j < entries.len() implies slots[j] == names(
        found,
        (#[trigger] entries[j]).0,
    ) by {
        assert(call_ensures(index, (&found, &entries[j].0), slots[j]));
    }
    let known = |i: int| among(keys, entries[i].0);
    let late = |i: int| low <= slots[i] < high;
    let fresh = |i: int| !restore::stands_at(placed, names(found, entries[i].0), entries[i].0);
    assert forall|i: int| 0 <= i < entries.len() implies (#[trigger] fresh(i) <==> !known(i)
        && !late(i)) && !(known(i) && late(i)) by {
        lemma_stands_once_placed::<C, D>(
            names,
            size,
            found,
            state,
            keys,
            entries,
            slots,
            i,
        );
        assert(slots[i] == names(found, entries[i].0));
    }
    lemma_count_parts(entries.len(), known, late, fresh);
    lemma_placements_counted::<C>(entries, slots, low, high);
    assert forall|s: int, t: int|
        0 <= s < t < keys.len() && #[trigger] keys[s] != record::vacant_address() implies keys[s]
        != #[trigger] keys[t] by {
        assert(names(found, keys[s]) == s);
        if keys[t] != record::vacant_address() {
            assert(names(found, keys[t]) == t);
        }
    }
    lemma_keys_counted(keys, entries, keys.len() as int);
    assert(keys.take(keys.len() as int) =~= keys);
    lemma_append_counts::<C, D, X, P>(
        index,
        push,
        names,
        size,
        entries,
        entries.len() as int,
        (found, placed),
        (directory, server.records),
    );
    lemma_append_runs::<C, D, X, P>(
        index,
        push,
        entries,
        entries.len() as int,
        (found, placed),
        (directory, server.records),
    );
    let empty = |s: int| !restore::comes_back(keys[s], map);
    let filled = |s: int| restore::comes_back(keys[s], map);
    assert forall|s: int| 0 <= s < keys.len() implies #[trigger] filled(s) != empty(s) by {}
    restore::lemma_count_split(keys.len(), filled, empty);
    assert forall|i: int| #![trigger entries[i]] 0 <= i < entries.len() implies {
        let slot = names(directory, entries[i].0);
        &&& 0 <= slot < server.served.len()
        &&& server.served[slot] == record::record_for::<C>(entries[i].0, entries[i].1)
    } by {
        let slot = names(directory, entries[i].0);
        assert(restore::stands_at(server.records, slot, entries[i].0));
        address_map::lemma_entry_maps(entries, i);
        assert(record::address_in(server.records[slot]) == entries[i].0);
    }
    assert forall|i: int|
        0 <= i < entries.len() && (among(keys, (#[trigger] entries[i]).0) || state.mphf_len
            <= names(found, entries[i].0) < state.addressed()) implies names(
        directory,
        entries[i].0,
    ) == names(found, entries[i].0) by {
        assert(slots[i] == names(found, entries[i].0));
        assert(!fresh(i));
    }
    (found, state)
}

/// After every successful restart the PIR layer was handed exactly the records that
/// the returned server holds, whatever their number, at the shape that was asked for,
/// and the world that is handed back is the one that call left.
pub proof fn law_restored_records_are_handed_on<C: RecordCodec, W, D, R, X, P, S>(
    world: W,
    config: Config,
    layout: DatabaseLayout,
    blob: &[u8],
    keys: Seq<Address>,
    entries: Seq<(Address, C::Value)>,
    map: Map<Address, C::Value>,
    read: R,
    index: X,
    push: P,
    build_server: S,
    server: ServerView,
    directory: D,
    left: W,
    report: RestoreReport,
) where
    R: FnOnce(&[u8]) -> Result<(D, DirectoryState), WireError>,
    X: Fn(&D, &Address) -> usize,
    P: Fn(D, &Address) -> (D, Result<usize, KeywordError>),
    S: FnOnce(W, Config, DatabaseLayout, &Vec<Record>) -> (W, Result<ServingTimings, EthPirError>),

    requires
        restore::restore_gives::<C, W, D, R, X, P, S>(
            world,
            config,
            layout,
            blob,
            keys,
            entries,
            map,
            read,
            index,
            push,
            build_server,
            Ok((server, directory, left, report)),
        ),
    ensures
        exists|handed: Vec<Record>, ready: (W, Result<ServingTimings, EthPirError>)|
            #![trigger call_ensures(build_server, (world, config, layout, &handed), ready)]
            {
                &&& call_ensures(build_server, (world, config, layout, &handed), ready)
                &&& handed@ == server.records
                &&& ready.0 == left
                &&& ready.1 is Ok
            },
        server.served == server.records,
        server.pending == 0,
{
}

/// Where the PIR layer serves what it is handed, a restarted server has its own
/// records served.
pub proof fn law_restart_puts_the_records_into_the_database<C: RecordCodec, W, D, R, X, P, S>(
    database: spec_fn(W) -> Seq<Record>,
    world: W,
    config: Config,
    layout: DatabaseLayout,
    blob: &[u8],
    keys: Seq<Address>,
    entries: Seq<(Address, C::Value)>,
    map: Map<Address, C::Value>,
    read: R,
    index: X,
    push: P,
    build_server: S,
    server: ServerView,
    directory: D,
    left: W,
    report: RestoreReport,
) where
    R: FnOnce(&[u8]) -> Result<(D, DirectoryState), WireError>,
    X: Fn(&D, &Address) -> usize,
    P: Fn(D, &Address) -> (D, Result<usize, KeywordError>),
    S: FnOnce(W, Config, DatabaseLayout, &Vec<Record>) -> (W, Result<ServingTimings, EthPirError>),

    requires
        forall|w: W, handed: Vec<Record>, ready: (W, Result<ServingTimings, EthPirError>)|
            #[trigger]
            call_ensures(build_server, (w, config, layout, &handed), ready) && ready.1 is Ok
                ==> database(ready.0) == handed@,
        restore::restore_gives::<C, W, D, R, X, P, S>(
            world,
            config,
            layout,
            blob,
            keys,
            entries,
            map,
            read,
            index,
            push,
            build_server,
            Ok((server, directory, left, report)),
        ),
    ensures
        database(left) == server.records,
{
    law_restored_records_are_handed_on::<C, W, D, R, X, P, S>(
        world,
        config,
        layout,
        blob,
        keys,
        entries,
        map,
        read,
        index,
        push,
        build_server,
        server,
        directory,
        left,
        report,
    );
}

/// A restart fails only where the directory could not be read, with that failure; the
/// checkpoint's keys are not as many as the directory's base, which is invalid data;
/// the directory refused an address, with its refusal; or the PIR layer could not be
/// made ready, with what it said.
pub proof fn law_restart_fails_only_where_a_call_fails<C: RecordCodec, W, D, R, X, P, S>(
    world: W,
    config: Config,
    layout: DatabaseLayout,
    blob: &[u8],
    keys: Seq<Address>,
    entries: Seq<(Address, C::Value)>,
    map: Map<Address, C::Value>,
    read: R,
    index: X,
    push: P,
    build_server: S,
    e: EthPirError,
) where
    R: FnOnce(&[u8]) -> Result<(D, DirectoryState), WireError>,
    X: Fn(&D, &Address) -> usize,
    P: Fn(D, &Address) -> (D, Result<usize, KeywordError>),
    S: FnOnce(W, Config, DatabaseLayout, &Vec<Record>) -> (W, Result<ServingTimings, EthPirError>),

    requires
        restore::restore_gives::<C, W, D, R, X, P, S>(
            world,
            config,
            layout,
            blob,
            keys,
            entries,
            map,
            read,
            index,
            push,
            build_server,
            Err::<(ServerView, D, W, RestoreReport), EthPirError>(e),
        ),
    ensures
        ({
            ||| exists|found: Result<(D, DirectoryState), WireError>| #[trigger]
                call_ensures(read, (blob,), found) && (found matches Err(w) && e == (
                EthPirError::Io { kind: w.kind, message: w.message }))
            ||| exists|found: Result<(D, DirectoryState), WireError>| #[trigger]
                call_ensures(read, (blob,), found) && (found matches Ok((_, state))
                    && state.mphf_len != keys.len()) && (e matches EthPirError::Io {
                    kind,
                    message: _,
                } && kind == ErrorKind::InvalidData)
            ||| exists|d: D, addr: Address, pushed: (D, Result<usize, KeywordError>)| #[trigger]
                call_ensures(push, (d, &addr), pushed) && (pushed.1 matches Err(k) && e
                    == EthPirError::Keyword(k))
            ||| exists|handed: Vec<Record>, ready: (W, Result<ServingTimings, EthPirError>)|
                #[trigger]
                call_ensures(build_server, (world, config, layout, &handed), ready) && ready.1
                    == Err::<ServingTimings, EthPirError>(e)
        }),
{
}

/// A restart succeeds where its calls do and the checkpoint has a key for each slot of
/// the directory's base, whatever the map.
pub proof fn law_restart_succeeds_where_its_calls_do<C: RecordCodec, W, D, R, X, P, S>(
    world: W,
    config: Config,
    layout: DatabaseLayout,
    blob: &[u8],
    keys: Seq<Address>,
    entries: Seq<(Address, C::Value)>,
    map: Map<Address, C::Value>,
    read: R,
    index: X,
    push: P,
    build_server: S,
    outcome: Result<(ServerView, D, W, RestoreReport), EthPirError>,
) where
    R: FnOnce(&[u8]) -> Result<(D, DirectoryState), WireError>,
    X: Fn(&D, &Address) -> usize,
    P: Fn(D, &Address) -> (D, Result<usize, KeywordError>),
    S: FnOnce(W, Config, DatabaseLayout, &Vec<Record>) -> (W, Result<ServingTimings, EthPirError>),

    requires
        restore::restore_gives::<C, W, D, R, X, P, S>(
            world,
            config,
            layout,
            blob,
            keys,
            entries,
            map,
            read,
            index,
            push,
            build_server,
            outcome,
        ),
        forall|found: Result<(D, DirectoryState), WireError>| #[trigger]
            call_ensures(read, (blob,), found) ==> (found matches Ok((_, state))
                && state.mphf_len == keys.len()),
        forall|d: D, addr: Address, pushed: (D, Result<usize, KeywordError>)| #[trigger]
            call_ensures(push, (d, &addr), pushed) ==> pushed.1 is Ok,
        forall|handed: Vec<Record>, ready: (W, Result<ServingTimings, EthPirError>)| #[trigger]
            call_ensures(build_server, (world, config, layout, &handed), ready) ==> ready.1 is Ok,
    ensures
        outcome is Ok,
{
    if let Err(e) = outcome {
        law_restart_fails_only_where_a_call_fails::<C, W, D, R, X, P, S>(
            world,
            config,
            layout,
            blob,
            keys,
            entries,
            map,
            read,
            index,
            push,
            build_server,
            e,
        );
    }
}

/// A restart does not go on with keys that are not as many as the directory's base.
pub proof fn law_restart_refuses_other_key_counts<C: RecordCodec, W, D, R, X, P, S>(
    world: W,
    config: Config,
    layout: DatabaseLayout,
    blob: &[u8],
    keys: Seq<Address>,
    entries: Seq<(Address, C::Value)>,
    map: Map<Address, C::Value>,
    read: R,
    index: X,
    push: P,
    build_server: S,
    outcome: Result<(ServerView, D, W, RestoreReport), EthPirError>,
) where
    R: FnOnce(&[u8]) -> Result<(D, DirectoryState), WireError>,
    X: Fn(&D, &Address) -> usize,
    P: Fn(D, &Address) -> (D, Result<usize, KeywordError>),
    S: FnOnce(W, Config, DatabaseLayout, &Vec<Record>) -> (W, Result<ServingTimings, EthPirError>),

    requires
        restore::restore_gives::<C, W, D, R, X, P, S>(
            world,
            config,
            layout,
            blob,
            keys,
            entries,
            map,
            read,
            index,
            push,
            build_server,
            outcome,
        ),
        forall|found: Result<(D, DirectoryState), WireError>| #[trigger]
            call_ensures(read, (blob,), found) ==> (found matches Ok((_, state))
                && state.mphf_len != keys.len()),
    ensures
        outcome matches Err(e) && (e matches EthPirError::Io { kind, message: _ } && kind
            == ErrorKind::InvalidData),
{
}

/// The message about a key count gives both numbers in decimal, after words that are
/// the same for all numbers.
pub proof fn law_key_count_message_gives_both_numbers(
    held: nat,
    addressed: nat,
    other_held: nat,
    other_addressed: nat,
)
    ensures
        ({
            let message = restore::key_count_message(held, addressed);
            let other = restore::key_count_message(other_held, other_addressed);
            let same_held = restore::key_count_message(held, other_addressed);
            let end = message.len() - text::decimal(addressed).len();
            let first = (same_held.len() - text::decimal(other_addressed).len()) as int;
            &&& message.skip(end) == text::decimal(addressed)
            &&& end == first
            &&& message.take(end) == same_held.take(end)
            &&& exists|words: Seq<char>, more: Seq<char>|
                message.take(end) == #[trigger] (words + text::decimal(held) + more)
                    && other.take(other.len() - text::decimal(other_addressed).len()) == words
                    + text::decimal(other_held) + more
        }),
{
    let message = restore::key_count_message(held, addressed);
    let other = restore::key_count_message(other_held, other_addressed);
    let same_held = restore::key_count_message(held, other_addressed);
    let end = message.len() - text::decimal(addressed).len();
    let words = "checkpoint holds "@;
    let more = " keys but its MPHF addresses "@;
    assert(message.skip(end) =~= text::decimal(addressed));
    assert(message.take(end) =~= same_held.take(end));
    assert(message.take(end) =~= words + text::decimal(held) + more);
    assert(other.take(other.len() - text::decimal(other_addressed).len()) =~= words
        + text::decimal(other_held) + more);
}

/// A slot of a checkpoint gets its record back exactly where its address is not zero
/// and still in the map.
pub proof fn law_a_slot_comes_back_with_its_address<V>(addr: Address, map: Map<Address, V>)
    ensures
        restore::comes_back(addr, map) <==> map.contains_key(addr) && exists|i: int|
            0 <= i < 20 && #[trigger] addr@[i] != 0,
{
    record::law_vacant_is_zero();
    if forall|i: int| 0 <= i < 20 ==> #[trigger] addr@[i] == 0 {
        assert(addr@ =~= record::vacant_address()@);
        bytes::lemma_same_bytes(addr, record::vacant_address());
    } else {
        let i = choose|i: int| 0 <= i < 20 && #[trigger] addr@[i] != 0;
        assert(record::vacant_address()@[i] == 0);
    }
}

/// A checkpoint has as many keys as the directory's base has slots, and each is the
/// address of the record in its slot.
pub proof fn law_checkpoint_keys_are_the_base_addresses(server: ServerView)
    requires
        server.wf(),
    ensures
        restore::base_keys(server).len() == server.directory.mphf_len,
        forall|s: int|
            0 <= s < server.directory.mphf_len ==> #[trigger] restore::base_keys(server)[s]
                == record::address_in(server.records[s]),
{
    assert forall|s: int| 0 <= s < server.directory.mphf_len implies #[trigger] restore::base_keys(
        server,
    )[s] == record::address_in(server.records[s]) by {
        assert(server.records.take(server.directory.mphf_len as int)[s] == server.records[s]);
    }
}

/// One more candidate adds one to a count where it is counted, and nothing else.
pub proof fn law_count_goes_up_by_one(n: nat, p: spec_fn(int) -> bool)
    ensures
        restore::count(0, p) == 0,
        p(n as int) ==> restore::count(n + 1, p) == restore::count(n, p) + 1,
        !p(n as int) ==> restore::count(n + 1, p) == restore::count(n, p),
{
}

/// After the tail was placed, a slot of the tail holds the record of the last entry that
/// the directory names that slot for; every other slot is as it was; and as many records
/// were placed as entries have a slot in the tail.
pub proof fn law_tail_slots_hold_their_addresses<C: RecordCodec>(
    before: Seq<Record>,
    entries: Seq<(Address, C::Value)>,
    slots: Seq<usize>,
    low: nat,
    s: int,
)
    requires
        slots.len() == entries.len(),
        0 <= s < before.len(),
    ensures
        ({
            let placements = restore::placements_between::<C>(entries, slots, low, before.len());
            let after = records::scattered(before, placements);
            &&& after.len() == before.len()
            &&& placements.len() == restore::count(
                entries.len(),
                |i: int| low <= slots[i] < before.len(),
            )
            &&& s < low || (forall|i: int| 0 <= i < slots.len() ==> #[trigger] slots[i] != s)
                ==> after[s] == before[s]
            &&& forall|i: int|
                0 <= i < entries.len() && #[trigger] slots[i] == s && low <= s && (forall|j: int|
                    i < j < entries.len() ==> #[trigger] slots[j] != s) ==> after[s]
                    == record::record_for::<C>(entries[i].0, entries[i].1)
        }),
    decreases entries.len(),
{
    let placements = restore::placements_between::<C>(entries, slots, low, before.len());
    assert forall|k: int| 0 <= k < placements.len() implies (#[trigger] placements[k]).0
        < before.len() by {
        let i = placement_entry::<C>(entries, slots, low, before.len(), k);
    }
    records::lemma_scattered_len(before, placements);
    if entries.len() > 0 {
        let e = entries.drop_last();
        let t = slots.drop_last();
        let n = e.len();
        law_tail_slots_hold_their_addresses::<C>(before, e, t, low, s);
        let earlier = restore::placements_between::<C>(e, t, low, before.len());
        restore::lemma_count_same(
            n,
            |i: int| low <= t[i] < before.len(),
            |i: int| low <= slots[i] < before.len(),
        );
        assert(slots[n as int] == slots.last());
        assert(forall|i: int| 0 <= i < n ==> t[i] == slots[i] && e[i] == entries[i]);
        if low <= slots.last() < before.len() {
            assert(placements.drop_last() =~= earlier);
            records::lemma_scattered_len(before, earlier);
        } else {
            assert(placements == earlier);
        }
        assert forall|i: int|
            0 <= i < entries.len() && #[trigger] slots[i] == s && low <= s && (forall|j: int|
                i < j < entries.len() ==> #[trigger] slots[j] != s) implies records::scattered(
            before,
            placements,
        )[s] == record::record_for::<C>(entries[i].0, entries[i].1) by {
            if i < n {
                assert(slots[n as int] != s);
                assert(t[i] == s);
                assert forall|j: int| i < j < n implies #[trigger] t[j] != s by {
                    assert(slots[j] != s);
                }
            }
        }
        if forall|i: int| 0 <= i < slots.len() ==> #[trigger] slots[i] != s {
            assert(slots[n as int] != s);
            assert forall|i: int| 0 <= i < t.len() implies #[trigger] t[i] != s by {
                assert(slots[i] != s);
            }
        }
    }
}

} // verus!
