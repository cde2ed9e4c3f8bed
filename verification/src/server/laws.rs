//! What holds across updates, rebuilds, syncs and lookups.

use vstd::prelude::*;

use crate::address_map;
use crate::bytes;
use crate::error::{EthPirError, KeywordError, PirError};
use crate::record;
use crate::record::{Address, Record, RecordCodec};
use crate::server::keyword;
use crate::server::keyword::{DirectoryState, KeywordSyncMode};
use crate::server::rebuild;
use crate::server::records;
use crate::server::report;
use crate::server::report::{
    Duration, InitTimings, KeywordRebuildTimings, RefreshTimings, ServingTimings,
};
use crate::server::service;
use crate::server::ServerView;
use crate::shape::{Config, DatabaseLayout};

verus! {

/// An update of an address that has a slot changes the record in that slot and no
/// other, and leaves the directory and what is served as they are.
pub proof fn law_update_changes_one_slot(server: ServerView, slot: int, record: Record, other: int)
    requires
        server.wf(),
        0 <= slot < server.records.len(),
        0 <= other < server.records.len(),
    ensures
        server.written(slot, record).records[slot] == record,
        other != slot ==> server.written(slot, record).records[other] == server.records[other],
        server.written(slot, record).records.len() == server.records.len(),
        server.written(slot, record).directory == server.directory,
        server.written(slot, record).served == server.served,
        server.written(slot, record).counted().pending == server.pending + 1,
        server.written(slot, record).counted().records == server.written(slot, record).records,
{
}

/// An address without a slot gets the next one: every other address keeps its
/// slot and its record, the directory keeps its generation and its base, and what
/// is served does not change.
pub proof fn law_insert_appends(server: ServerView, record: Record, other: int)
    requires
        server.wf(),
        server.records.len() < usize::MAX,
        0 <= other < server.records.len(),
    ensures
        server.appended(record).records.len() == server.records.len() + 1,
        server.appended(record).records.last() == record,
        server.appended(record).records[other] == server.records[other],
        server.appended(record).directory.addressed() == server.directory.addressed() + 1,
        server.appended(record).directory.version == server.directory.version,
        server.appended(record).directory.mphf_len == server.directory.mphf_len,
        server.appended(record).served == server.served,
        server.appended(record).counted().pending == server.pending + 1,
        server.appended(record).counted().records == server.appended(record).records,
{
}

/// A valid server has a record for each slot that its directory addresses, base and
/// tail, and serves exactly its records where nothing is pending.
pub proof fn law_valid_server_is_in_step(server: ServerView)
    requires
        server.wf(),
    ensures
        server.records.len() == server.directory.mphf_len + server.directory.delta_len,
        server.pending == 0 ==> server.served == server.records,
{
}

/// A slot holds an address exactly where it has a record that starts with the twenty
/// bytes of the address.
pub proof fn law_a_slot_holds_what_its_bytes_say(server: ServerView, slot: int, addr: Address)
    ensures
        server.holds(slot, addr) <==> 0 <= slot < server.records.len() && forall|i: int|
            0 <= i < 20 ==> #[trigger] server.records[slot]@[i] == addr@[i],
{
    let record = server.records[slot];
    record::law_parts_are_bytes_of_the_record(record);
    if forall|i: int| 0 <= i < 20 ==> #[trigger] record@[i] == addr@[i] {
        assert forall|i: int| 0 <= i < 20 implies record::address_in(record)@[i] == addr@[i] by {
            assert(record@[i] == addr@[i]);
        }
        assert(record::address_in(record)@ =~= addr@);
        bytes::lemma_same_bytes(record::address_in(record), addr);
    } else if record::address_in(record) == addr {
        assert forall|i: int| 0 <= i < 20 implies #[trigger] record@[i] == addr@[i] by {
            assert(record::address_in(record)@[i] == record@[i]);
        }
    }
}

/// Counting an update changes nothing but the number of those that wait.
pub proof fn law_counting_changes_nothing_else(server: ServerView)
    ensures
        server.counted().pending == server.pending + 1,
        server.counted().records == server.records,
        server.counted().served == server.served,
        server.counted().directory == server.directory,
{
}

/// Whenever the directory takes the push of an address, the server has one record
/// more: the last is that of the address, every earlier one is as it was, and the
/// tail is one longer. The update succeeds; once it was counted and the database
/// rebuilt, looking the new slot up gives the value.
pub proof fn law_taken_push_stores_a_record<C: RecordCodec>(
    before: ServerView,
    slot: usize,
    addr: Address,
    value: C::Value,
    given: usize,
)
    requires
        before.aligned(),
        before.records.len() < usize::MAX,
    ensures
        ({
            let record = record::record_for::<C>(addr, value);
            let (after, outcome) = service::inserted(before, slot, addr, record, Ok(given));
            let n = before.records.len() as int;
            &&& outcome is Ok
            &&& after.records.len() == n + 1
            &&& after.records[n] == record
            &&& forall|s: int| 0 <= s < n ==> #[trigger] after.records[s] == before.records[s]
            &&& after.directory.delta_len == before.directory.delta_len + 1
            &&& after.directory.mphf_len == before.directory.mphf_len
            &&& after.directory.version == before.directory.version
            &&& after.served == before.served
            &&& after.pending == before.pending
            &&& after.aligned()
            &&& record::verified::<C>(
                service::settled(after, outcome).published().served[n],
                addr,
            ) == Ok::<C::Value, EthPirError>(C::decoded(C::encoded(value)))
        }),
{
    record::lemma_record_for::<C>(addr, value);
}

/// Where the directory holds an address already, in a slot that does not have its
/// record, that slot gets the record, and nothing else changes.
pub proof fn law_known_address_gets_its_slot_back<C: RecordCodec>(
    before: ServerView,
    slot: usize,
    addr: Address,
    value: C::Value,
    refusal: KeywordError,
)
    requires
        refusal.duplicate == Some(addr),
        slot < before.records.len(),
    ensures
        ({
            let record = record::record_for::<C>(addr, value);
            let (after, outcome) = service::inserted(before, slot, addr, record, Err(refusal));
            &&& outcome is Ok
            &&& after.records.len() == before.records.len()
            &&& after.records[slot as int] == record
            &&& forall|s: int|
                0 <= s < before.records.len() && s != slot ==> #[trigger] after.records[s]
                    == before.records[s]
            &&& after.directory == before.directory
            &&& after.served == before.served
            &&& after.pending == before.pending
        }),
{
}

/// A refusal that is not about this very address, or about a slot that there is not,
/// ends the update with that refusal and leaves the server as it was.
pub proof fn law_other_refusals_end_the_update(
    before: ServerView,
    slot: usize,
    addr: Address,
    record: Record,
    refusal: KeywordError,
)
    requires
        refusal.duplicate != Some(addr) || slot >= before.records.len(),
    ensures
        service::inserted(before, slot, addr, record, Err(refusal)) == (
            before,
            Err::<(), EthPirError>(EthPirError::Keyword(refusal)),
        ),
        service::settled(before, Err(EthPirError::Keyword(refusal))) == before,
{
}

/// An update that was taken is counted once, and counting it changes nothing else.
pub proof fn law_taken_update_is_counted_once(server: ServerView)
    ensures
        service::settled(server, Ok(())).pending == server.pending + 1,
        service::settled(server, Ok(())).records == server.records,
        service::settled(server, Ok(())).served == server.served,
        service::settled(server, Ok(())).directory == server.directory,
{
}

/// A server that was moved to another directory has the new records, serves them,
/// and has nothing pending.
pub proof fn law_relocated_server_serves_the_new_records(
    server: ServerView,
    directory: DirectoryState,
    laid: Seq<Record>,
)
    ensures
        server.relocated(directory, laid).directory == directory,
        server.relocated(directory, laid).records == laid,
        server.relocated(directory, laid).served == laid,
        server.relocated(directory, laid).pending == 0,
{
}

/// An update that the keyword layer refuses changes nothing; one that it takes is
/// counted as pending; neither changes what is served.
pub proof fn law_updates_wait_for_a_rebuild(
    server: ServerView,
    slot: usize,
    addr: Address,
    record: Record,
    pushed: Result<usize, KeywordError>,
)
    ensures
        ({
            let (changed, outcome) = service::inserted(server, slot, addr, record, pushed);
            let after = service::settled(changed, outcome);
            &&& after.served == server.served
            &&& outcome is Err ==> after == server
            &&& outcome is Ok ==> after.pending == server.pending + 1
        }),
        server.written(slot as int, record).counted().served == server.served,
{
}

/// The record that a query for a slot reads: the one served there. The database
/// holds nothing in the slots past the served records.
pub open spec fn database_record(served: Seq<Record>, slot: int) -> Record {
    if 0 <= slot < served.len() {
        served[slot]
    } else {
        record::vacant_record()
    }
}

/// Until the next rebuild every lookup ends as it did before an update, whatever
/// slot is asked for; and an address that was not served is not in the set yet, also
/// for a client that knows the slot that the update gave it.
pub proof fn law_lookups_wait_for_a_rebuild<C: RecordCodec>(
    server: ServerView,
    slot: usize,
    addr: Address,
    value: C::Value,
    pushed: Result<usize, KeywordError>,
    asked: int,
    whose: Address,
)
    ensures
        ({
            let record = record::record_for::<C>(addr, value);
            let (changed, outcome) = service::inserted(server, slot, addr, record, pushed);
            let inserted = service::settled(changed, outcome);
            let written = server.written(slot as int, record).counted();
            let before = record::verified::<C>(database_record(server.served, asked), whose);
            &&& record::verified::<C>(database_record(inserted.served, asked), whose) == before
            &&& record::verified::<C>(database_record(written.served, asked), whose) == before
            &&& whose != record::vacant_address() && (forall|s: int|
                0 <= s < server.served.len() ==> record::address_in(#[trigger] server.served[s])
                    != whose) ==> before == Err::<C::Value, _>(EthPirError::NotInSet)
        }),
{
    record::lemma_vacant();
}

/// Rebuilding the database publishes every update there was and keeps the
/// directory, so that no client needs to resync; doing it again changes nothing.
pub proof fn law_rebuild_publishes(
    server: ServerView,
    client_version: u64,
    client_tail_len: usize,
)
    ensures
        server.published().served == server.records,
        server.published().records == server.records,
        server.published().pending == 0,
        server.published().directory == server.directory,
        server.published().published() == server.published(),
        keyword::sync_mode_for(
            server.published().directory.version,
            client_version,
            client_tail_len,
        ) == keyword::sync_mode_for(server.directory.version, client_version, client_tail_len),
{
}

/// Of two updates of one slot the later one counts.
pub proof fn law_last_update_wins(server: ServerView, slot: int, first: Record, second: Record)
    requires
        0 <= slot < server.records.len(),
    ensures
        server.written(slot, first).written(slot, second).records == server.written(
            slot,
            second,
        ).records,
{
    assert(server.written(slot, first).written(slot, second).records =~= server.written(
        slot,
        second,
    ).records);
}

/// Whether no two slots have a record of the same address, empty slots aside.
pub open spec fn one_slot_per_address(records: Seq<Record>) -> bool {
    forall|s: int, t: int|
        0 <= s < t < records.len() && record::address_in(#[trigger] records[s])
            != record::vacant_address() ==> record::address_in(records[s]) != record::address_in(
            #[trigger] records[t],
        )
}

/// Updates keep every address in one slot: where the directory names for an address
/// the one slot that may have it, neither writing it there nor what the keyword
/// layer's answer makes of it gives an address a second slot.
pub proof fn law_updates_keep_one_slot_per_address<C: RecordCodec>(
    server: ServerView,
    slot: usize,
    addr: Address,
    value: C::Value,
    pushed: Result<usize, KeywordError>,
)
    requires
        server.wf(),
        one_slot_per_address(server.records),
        forall|s: int|
            0 <= s < server.records.len() && record::address_in(#[trigger] server.records[s])
                == addr ==> s == slot,
    ensures
        server.holds(slot as int, addr) ==> one_slot_per_address(
            server.written(slot as int, record::record_for::<C>(addr, value)).records,
        ),
        !server.holds(slot as int, addr) ==> one_slot_per_address(
            service::inserted(
                server,
                slot,
                addr,
                record::record_for::<C>(addr, value),
                pushed,
            ).0.records,
        ),
{
    record::lemma_record_for::<C>(addr, value);
}

/// A lookup gives the value that was written under the address once the database
/// was rebuilt, and until then what it gave before.
pub proof fn law_update_is_found_after_rebuild<C: RecordCodec>(
    server: ServerView,
    slot: int,
    addr: Address,
    value: C::Value,
)
    requires
        server.wf(),
        0 <= slot < server.records.len(),
    ensures
        record::verified::<C>(
            server.written(slot, record::record_for::<C>(addr, value)).published().served[slot],
            addr,
        ) == Ok::<C::Value, EthPirError>(C::decoded(C::encoded(value))),
        record::verified::<C>(
            server.written(slot, record::record_for::<C>(addr, value)).served[slot],
            addr,
        ) == record::verified::<C>(server.served[slot], addr),
{
    record::lemma_record_for::<C>(addr, value);
}

/// An inserted address is found in the slot after the last once the database was
/// rebuilt, without a rebuild of the keyword index.
pub proof fn law_insert_is_found_after_rebuild<C: RecordCodec>(
    server: ServerView,
    addr: Address,
    value: C::Value,
)
    ensures
        record::verified::<C>(
            server.appended(
                record::record_for::<C>(addr, value),
            ).published().served[server.records.len() as int],
            addr,
        ) == Ok::<C::Value, EthPirError>(C::decoded(C::encoded(value))),
{
    record::lemma_record_for::<C>(addr, value);
}

/// A lookup never gives one address the value of another: what it gives for `addr`
/// is the payload of a record that carries `addr`, and an address that no served
/// record carries is not in the set, whatever slot it is hashed to.
pub proof fn law_lookup_gives_no_other_value<C: RecordCodec>(
    served: Seq<Record>,
    slot: int,
    addr: Address,
)
    requires
        0 <= slot < served.len(),
    ensures
        record::verified::<C>(served[slot], addr) matches Ok(value) ==> record::address_in(
            served[slot],
        ) == addr && value == C::decoded(record::payload_in(served[slot])),
        (forall|s: int|
            0 <= s < served.len() ==> record::address_in(#[trigger] served[s]) != addr)
            ==> record::verified::<C>(served[slot], addr) == Err::<C::Value, _>(
            EthPirError::NotInSet,
        ),
{
}

/// Whether looking up every entry through `slots` finds its value in `served`.
pub open spec fn all_found<C: RecordCodec>(
    served: Seq<Record>,
    entries: Seq<(Address, C::Value)>,
    slots: Seq<usize>,
) -> bool {
    forall|i: int|
        0 <= i < entries.len() ==> record::verified::<C>(
            served[#[trigger] slots[i] as int],
            entries[i].0,
        ) == Ok::<C::Value, EthPirError>(C::decoded(C::encoded(entries[i].1)))
}

proof fn lemma_laid_out_is_found<C: RecordCodec>(
    entries: Seq<(Address, C::Value)>,
    slots: Seq<usize>,
)
    requires
        records::one_slot_each(slots, entries.len()),
    ensures
        all_found::<C>(service::laid_out::<C>(entries, slots), entries, slots),
{
    records::law_scatter_places_every_record::<C>(entries, slots);
    assert forall|i: int| 0 <= i < entries.len() implies record::verified::<C>(
        service::laid_out::<C>(entries, slots)[#[trigger] slots[i] as int],
        entries[i].0,
    ) == Ok::<C::Value, EthPirError>(C::decoded(C::encoded(entries[i].1))) by {
        record::lemma_record_for::<C>(entries[i].0, entries[i].1);
    }
}

/// The calls behind a server that was just built: the addresses that the directory
/// was built over and the slots that it named for them.
pub proof fn built_by<C: RecordCodec, W, D, B, X, S, Clock>(
    config: Config,
    layout: DatabaseLayout,
    entries: Seq<(Address, C::Value)>,
    world: W,
    build_directory: B,
    index_all: X,
    build_server: S,
    clock: Clock,
    server: ServerView,
    directory: D,
    left: W,
    timings: InitTimings,
) -> (r: ((W, Duration), Vec<Address>, W, (W, Duration), Vec<usize>, (W, Duration))) where
    B: FnOnce(W, Config, DatabaseLayout, &Vec<Address>, u64) -> (W, Result<D, KeywordError>),
    X: FnOnce(&D, &Vec<Address>) -> Vec<usize>,
    S: FnOnce(W, Config, DatabaseLayout, &Vec<Record>) -> (W, Result<ServingTimings, EthPirError>),
    Clock: Fn(W) -> (W, Duration),

    requires
        service::init_gives::<C, W, D, B, X, S, Clock>(
            config,
            layout,
            entries,
            world,
            build_directory,
            index_all,
            build_server,
            clock,
            Ok((server, directory, left, timings)),
        ),
    ensures
        ({
            let (start, keys, built, middle, slots, end) = r;
            &&& call_ensures(clock, (world,), start)
            &&& keys@ == records::addresses_of(entries)
            &&& call_ensures(
                build_directory,
                (start.0, config, layout, &keys, 0u64),
                (built, Ok::<D, KeywordError>(directory)),
            )
            &&& call_ensures(clock, (built,), middle)
            &&& call_ensures(index_all, (&directory, &keys), slots)
            &&& call_ensures(clock, (middle.0,), end)
            &&& exists|records: Vec<Record>|
                records@ == server.records && #[trigger] call_ensures(
                    build_server,
                    (end.0, config, layout, &records),
                    (left, Ok::<ServingTimings, EthPirError>(service::serving_steps(timings))),
                )
            &&& server == service::fresh(
                entries.len(),
                service::laid_out::<C>(entries, slots@),
            )
            &&& report::lasted(timings.keyword_index, start.1, middle.1)
            &&& report::lasted(timings.records_scatter, middle.1, end.1)
        }),
{
    let outcome = Ok::<_, EthPirError>((server, directory, left, timings));
    let (start, keys, built) = choose|
        start: (W, Duration),
        keys: Vec<Address>,
        built: (W, Result<D, KeywordError>),
    |
        #![trigger call_ensures(clock, (world,), start), call_ensures(
            build_directory,
            (start.0, config, layout, &keys, 0u64),
            built,
        )]
        {
            &&& call_ensures(clock, (world,), start)
            &&& keys@ == records::addresses_of(entries)
            &&& call_ensures(build_directory, (start.0, config, layout, &keys, 0u64), built)
            &&& match built.1 {
                Err(e) => false,
                Ok(d) => exists|middle: (W, Duration), slots: Vec<usize>|
                    #![trigger call_ensures(clock, (built.0,), middle), call_ensures(
                        index_all,
                        (&d, &keys),
                        slots,
                    )]
                    {
                        &&& call_ensures(clock, (built.0,), middle)
                        &&& call_ensures(index_all, (&d, &keys), slots)
                        &&& service::serve_gives::<C, W, D, S, Clock>(
                            config,
                            layout,
                            entries,
                            start.1,
                            middle,
                            d,
                            slots@,
                            build_server,
                            clock,
                            outcome,
                        )
                    },
            }
        };
    let d = built.1->Ok_0;
    let (middle, slots) = choose|middle: (W, Duration), slots: Vec<usize>|
        #![trigger call_ensures(clock, (built.0,), middle), call_ensures(
            index_all,
            (&d, &keys),
            slots,
        )]
        {
            &&& call_ensures(clock, (built.0,), middle)
            &&& call_ensures(index_all, (&d, &keys), slots)
            &&& service::serve_gives::<C, W, D, S, Clock>(
                config,
                layout,
                entries,
                start.1,
                middle,
                d,
                slots@,
                build_server,
                clock,
                outcome,
            )
        };
    let (end, records, ready) = choose|
        end: (W, Duration),
        records: Vec<Record>,
        ready: (W, Result<ServingTimings, EthPirError>),
    |
        #![trigger call_ensures(clock, (middle.0,), end), call_ensures(
            build_server,
            (end.0, config, layout, &records),
            ready,
        )]
        {
            &&& call_ensures(clock, (middle.0,), end)
            &&& records@ == service::laid_out::<C>(entries, slots@)
            &&& call_ensures(build_server, (end.0, config, layout, &records), ready)
            &&& match ready.1 {
                Err(e) => false,
                Ok(steps) => {
                    &&& server == service::fresh(entries.len(), records@)
                    &&& d == directory
                    &&& left == ready.0
                    &&& report::lasted(timings.keyword_index, start.1, middle.1)
                    &&& report::lasted(timings.records_scatter, middle.1, end.1)
                    &&& service::serving_steps(timings) == steps
                },
            }
        };
    assert(built == (built.0, Ok::<D, KeywordError>(directory)));
    assert(ready == (
        left,
        Ok::<ServingTimings, EthPirError>(service::serving_steps(timings)),
    ));
    (start, keys, built.0, middle, slots, end)
}

/// A server that was just built serves every address it was built from: where the
/// directory has a slot of its own for each, looking an address up in the slot
/// that the directory names for it gives its value.
pub proof fn law_init_serves_every_address<C: RecordCodec, W, D, B, X, S, Clock>(
    config: Config,
    layout: DatabaseLayout,
    entries: Seq<(Address, C::Value)>,
    world: W,
    build_directory: B,
    index_all: X,
    build_server: S,
    clock: Clock,
    server: ServerView,
    directory: D,
    left: W,
    timings: InitTimings,
) where
    B: FnOnce(W, Config, DatabaseLayout, &Vec<Address>, u64) -> (W, Result<D, KeywordError>),
    X: FnOnce(&D, &Vec<Address>) -> Vec<usize>,
    S: FnOnce(W, Config, DatabaseLayout, &Vec<Record>) -> (W, Result<ServingTimings, EthPirError>),
    Clock: Fn(W) -> (W, Duration),

    requires
        service::init_gives::<C, W, D, B, X, S, Clock>(
            config,
            layout,
            entries,
            world,
            build_directory,
            index_all,
            build_server,
            clock,
            Ok((server, directory, left, timings)),
        ),
        forall|keys: Vec<Address>, slots: Vec<usize>|
            keys@ == records::addresses_of(entries) && #[trigger] call_ensures(
                index_all,
                (&directory, &keys),
                slots,
            ) ==> records::one_slot_each(slots@, entries.len()),
    ensures
        exists|keys: Vec<Address>, slots: Vec<usize>|
            keys@ == records::addresses_of(entries) && #[trigger] call_ensures(
                index_all,
                (&directory, &keys),
                slots,
            ) && all_found::<C>(server.served, entries, slots@),
{
    let r = built_by::<C, W, D, B, X, S, Clock>(
        config,
        layout,
        entries,
        world,
        build_directory,
        index_all,
        build_server,
        clock,
        server,
        directory,
        left,
        timings,
    );
    lemma_laid_out_is_found::<C>(entries, r.4@);
}

/// The steps of building a server do not overlap: where the clock tells the time,
/// time does not run backwards in the calls, and getting the PIR layer ready does
/// not report more time than it took, the steps add up to no more than the whole
/// took.
pub proof fn law_init_steps_are_disjoint<C: RecordCodec, W, D, B, X, S, Clock>(
    now: spec_fn(W) -> int,
    config: Config,
    layout: DatabaseLayout,
    entries: Seq<(Address, C::Value)>,
    world: W,
    build_directory: B,
    index_all: X,
    build_server: S,
    clock: Clock,
    server: ServerView,
    directory: D,
    left: W,
    timings: InitTimings,
) where
    B: FnOnce(W, Config, DatabaseLayout, &Vec<Address>, u64) -> (W, Result<D, KeywordError>),
    X: FnOnce(&D, &Vec<Address>) -> Vec<usize>,
    S: FnOnce(W, Config, DatabaseLayout, &Vec<Record>) -> (W, Result<ServingTimings, EthPirError>),
    Clock: Fn(W) -> (W, Duration),

    requires
        service::init_gives::<C, W, D, B, X, S, Clock>(
            config,
            layout,
            entries,
            world,
            build_directory,
            index_all,
            build_server,
            clock,
            Ok((server, directory, left, timings)),
        ),
        report::tells(clock, now),
        forall|w: W, keys: Vec<Address>, built: (W, Result<D, KeywordError>)| #[trigger]
            call_ensures(build_directory, (w, config, layout, &keys, 0u64), built) ==> now(w)
                <= now(built.0),
        forall|w: W, data: Vec<Record>, ready: (W, Result<ServingTimings, EthPirError>)| #[trigger]
            call_ensures(build_server, (w, config, layout, &data), ready) ==> (
            ready.1 matches Ok(steps) ==> steps.spent() <= now(ready.0) - now(w)),
    ensures
        timings.spent() <= now(left) - now(world),
{
    let r = built_by::<C, W, D, B, X, S, Clock>(
        config,
        layout,
        entries,
        world,
        build_directory,
        index_all,
        build_server,
        clock,
        server,
        directory,
        left,
        timings,
    );
}

/// The steps of getting the PIR layer ready do not overlap: where the clock tells
/// the time and time does not run backwards in the calls, they add up to no more
/// than the whole took.
pub proof fn law_serving_steps_are_disjoint<W, A, E, M, O, N, Clock>(
    now: spec_fn(W) -> int,
    world: W,
    config: Config,
    layout: DatabaseLayout,
    data: Seq<Record>,
    alloc: A,
    encode: E,
    mask: M,
    offline: O,
    stage: N,
    clock: Clock,
    after: W,
    timings: ServingTimings,
) where
    A: FnOnce(W, Config, DatabaseLayout) -> (W, Result<(), PirError>),
    E: FnOnce(W, &Vec<Record>) -> (W, Result<(), PirError>),
    M: FnOnce(W) -> W,
    O: FnOnce(W) -> W,
    N: FnOnce(W) -> W,
    Clock: Fn(W) -> (W, Duration),

    requires
        service::pir_server_gives(
            world,
            config,
            layout,
            data,
            alloc,
            encode,
            mask,
            offline,
            stage,
            clock,
            after,
            Ok(timings),
        ),
        report::tells(clock, now),
        forall|w: W, made: (W, Result<(), PirError>)| #[trigger]
            call_ensures(alloc, (w, config, layout), made) ==> now(w) <= now(made.0),
        forall|w: W, d: Vec<Record>, encoded: (W, Result<(), PirError>)| #[trigger]
            call_ensures(encode, (w, &d), encoded) ==> now(w) <= now(encoded.0),
        forall|w: W, masked: W| #[trigger]
            call_ensures(mask, (w,), masked) ==> now(w) <= now(masked),
        forall|w: W, ready: W| #[trigger]
            call_ensures(offline, (w,), ready) ==> now(w) <= now(ready),
        forall|w: W, ready: W| #[trigger]
            call_ensures(stage, (w,), ready) ==> now(w) <= now(ready),
    ensures
        timings.spent() <= now(after) - now(world),
{
}

/// The steps of a database rebuild do not overlap: where the clock tells the time
/// and time does not run backwards in the calls, they add up to no more than the
/// whole took.
pub proof fn law_refresh_steps_are_disjoint<W, Q, E, P, I, Clock>(
    now: spec_fn(W) -> int,
    data: Seq<Record>,
    world: W,
    encode: E,
    precompute: P,
    install: I,
    clock: Clock,
    after: W,
    timings: RefreshTimings,
) where
    E: FnOnce(W, &Vec<Record>) -> (W, Result<(), PirError>),
    P: FnOnce(W) -> (W, Option<Q>),
    I: FnOnce(W, Q) -> (W, bool),
    Clock: Fn(W) -> (W, Duration),

    requires
        rebuild::refresh_gives(
            data,
            world,
            encode,
            precompute,
            install,
            clock,
            after,
            Ok(timings),
        ),
        report::tells(clock, now),
        forall|w: W, d: Vec<Record>, encoded: (W, Result<(), PirError>)| #[trigger]
            call_ensures(encode, (w, &d), encoded) ==> now(w) <= now(encoded.0),
        forall|w: W, made: (W, Option<Q>)| #[trigger]
            call_ensures(precompute, (w,), made) ==> now(w) <= now(made.0),
        forall|w: W, made: Q, placed: (W, bool)| #[trigger]
            call_ensures(install, (w, made), placed) ==> now(w) <= now(placed.0),
    ensures
        timings.spent() <= now(after) - now(world),
{
}

/// The calls behind a keyword-index rebuild that succeeded: the readings of the
/// clock, the addresses that the directory was rebuilt over, the world that was left
/// then, and the slots that the new directory named.
pub proof fn relocation<C: RecordCodec, W, D, Q, R, X, E, P, I, Clock>(
    before: ServerView,
    entries: Seq<(Address, C::Value)>,
    world: W,
    rebuild: R,
    index_all: X,
    encode: E,
    precompute: P,
    install: I,
    clock: Clock,
    left: W,
    timings: KeywordRebuildTimings,
    directory: D,
    after: ServerView,
) -> (r: (
    (W, Duration),
    (W, Duration),
    Vec<Address>,
    W,
    (W, Duration),
    Vec<usize>,
    (W, Duration),
)) where
    R: FnOnce(W, &Vec<Address>) -> (W, Result<(u64, D), KeywordError>),
    X: FnOnce(&D, &Vec<Address>) -> Vec<usize>,
    E: FnOnce(W, &Vec<Record>) -> (W, Result<(), PirError>),
    P: FnOnce(W) -> (W, Option<Q>),
    I: FnOnce(W, Q) -> (W, bool),
    Clock: Fn(W) -> (W, Duration),

    requires
        rebuild::keyword_rebuild_ends::<C, W, D, Q, R, X, E, P, I, Clock>(
            before,
            entries,
            world,
            rebuild,
            index_all,
            encode,
            precompute,
            install,
            clock,
            (left, Ok((timings, directory))),
            after,
        ),
    ensures
        ({
            let (start, at, keys, rebuilt, later, slots, end) = r;
            let laid = service::laid_out::<C>(entries, slots@);
            &&& call_ensures(clock, (world,), start)
            &&& call_ensures(clock, (start.0,), at)
            &&& keys@ == records::addresses_of(entries)
            &&& call_ensures(
                rebuild,
                (at.0, &keys),
                (rebuilt, Ok::<(u64, D), KeywordError>((after.directory.version, directory))),
            )
            &&& call_ensures(clock, (rebuilt,), later)
            &&& call_ensures(index_all, (&directory, &keys), slots)
            &&& call_ensures(clock, (later.0,), end)
            &&& rebuild::refresh_gives(
                laid,
                end.0,
                encode,
                precompute,
                install,
                clock,
                left,
                Ok(timings.refresh),
            )
            &&& after.records == laid
            &&& report::lasted(timings.collect_keys, start.1, at.1)
            &&& report::lasted(timings.mphf_rebuild, at.1, later.1)
            &&& report::lasted(timings.permute, later.1, end.1)
        }),
{
    let outcome = Ok::<_, EthPirError>(
        (after.directory.version, after.records, directory, timings),
    );
    let start = choose|start: (W, Duration)| #[trigger]
        call_ensures(clock, (world,), start) && rebuild::keyword_rebuild_gives::<
            C,
            W,
            D,
            Q,
            R,
            X,
            E,
            P,
            I,
            Clock,
        >(
            entries,
            start,
            rebuild,
            index_all,
            encode,
            precompute,
            install,
            clock,
            left,
            outcome,
        );
    let (at, keys, rebuilt) = choose|
        at: (W, Duration),
        keys: Vec<Address>,
        rebuilt: (W, Result<(u64, D), KeywordError>),
    |
        #![trigger call_ensures(clock, (start.0,), at), call_ensures(
            rebuild,
            (at.0, &keys),
            rebuilt,
        )]
        {
            &&& call_ensures(clock, (start.0,), at)
            &&& keys@ == records::addresses_of(entries)
            &&& call_ensures(rebuild, (at.0, &keys), rebuilt)
            &&& match rebuilt.1 {
                Err(e) => false,
                Ok((version, d)) => exists|later: (W, Duration), slots: Vec<usize>|
                    #![trigger call_ensures(clock, (rebuilt.0,), later), call_ensures(
                        index_all,
                        (&d, &keys),
                        slots,
                    )]
                    {
                        &&& call_ensures(clock, (rebuilt.0,), later)
                        &&& call_ensures(index_all, (&d, &keys), slots)
                        &&& rebuild::permuted_gives::<C, W, D, Q, E, P, I, Clock>(
                            entries,
                            start.1,
                            at.1,
                            later,
                            version,
                            d,
                            slots@,
                            encode,
                            precompute,
                            install,
                            clock,
                            left,
                            outcome,
                        )
                    },
            }
        };
    let (version, d) = rebuilt.1->Ok_0;
    let (later, slots) = choose|later: (W, Duration), slots: Vec<usize>|
        #![trigger call_ensures(clock, (rebuilt.0,), later), call_ensures(
            index_all,
            (&d, &keys),
            slots,
        )]
        {
            &&& call_ensures(clock, (rebuilt.0,), later)
            &&& call_ensures(index_all, (&d, &keys), slots)
            &&& rebuild::permuted_gives::<C, W, D, Q, E, P, I, Clock>(
                entries,
                start.1,
                at.1,
                later,
                version,
                d,
                slots@,
                encode,
                precompute,
                install,
                clock,
                left,
                outcome,
            )
        };
    let laid = service::laid_out::<C>(entries, slots@);
    let end = choose|end: (W, Duration)| #[trigger]
        call_ensures(clock, (later.0,), end) && rebuild::refresh_gives(
            laid,
            end.0,
            encode,
            precompute,
            install,
            clock,
            left,
            Ok(timings.refresh),
        ) && report::lasted(timings.permute, later.1, end.1);
    assert(rebuilt == (rebuilt.0, Ok::<(u64, D), KeywordError>((version, d))));
    (start, at, keys, rebuilt.0, later, slots, end)
}

/// After the keyword index was rebuilt, the server serves every address that it
/// was rebuilt over, in the new directory's order; nothing is pending; and a
/// client of another generation is sent the whole directory.
pub proof fn law_keyword_rebuild_serves_every_address<
    C: RecordCodec,
    W,
    D,
    Q,
    R,
    X,
    E,
    P,
    I,
    Clock,
>(
    before: ServerView,
    entries: Seq<(Address, C::Value)>,
    world: W,
    rebuild: R,
    index_all: X,
    encode: E,
    precompute: P,
    install: I,
    clock: Clock,
    left: W,
    timings: KeywordRebuildTimings,
    directory: D,
    after: ServerView,
    client: DirectoryState,
) where
    R: FnOnce(W, &Vec<Address>) -> (W, Result<(u64, D), KeywordError>),
    X: FnOnce(&D, &Vec<Address>) -> Vec<usize>,
    E: FnOnce(W, &Vec<Record>) -> (W, Result<(), PirError>),
    P: FnOnce(W) -> (W, Option<Q>),
    I: FnOnce(W, Q) -> (W, bool),
    Clock: Fn(W) -> (W, Duration),

    requires
        rebuild::keyword_rebuild_ends::<C, W, D, Q, R, X, E, P, I, Clock>(
            before,
            entries,
            world,
            rebuild,
            index_all,
            encode,
            precompute,
            install,
            clock,
            (left, Ok((timings, directory))),
            after,
        ),
        forall|keys: Vec<Address>, slots: Vec<usize>|
            keys@ == records::addresses_of(entries) && #[trigger] call_ensures(
                index_all,
                (&directory, &keys),
                slots,
            ) ==> records::one_slot_each(slots@, entries.len()),
    ensures
        exists|keys: Vec<Address>, slots: Vec<usize>|
            keys@ == records::addresses_of(entries) && #[trigger] call_ensures(
                index_all,
                (&directory, &keys),
                slots,
            ) && all_found::<C>(after.served, entries, slots@),
        after.served == after.records,
        after.pending == 0,
        after.directory.delta_len == 0,
        client.version != after.directory.version ==> keyword::sync_mode_for(
            after.directory.version,
            client.version,
            client.delta_len,
        ) == KeywordSyncMode::Full,
{
    let r = relocation::<C, W, D, Q, R, X, E, P, I, Clock>(
        before,
        entries,
        world,
        rebuild,
        index_all,
        encode,
        precompute,
        install,
        clock,
        left,
        timings,
        directory,
        after,
    );
    lemma_laid_out_is_found::<C>(entries, r.5@);
}

/// Compaction loses and invents nothing: after the keyword index was rebuilt over
/// what the records said, the records say the same, though each may stand in
/// another slot; where no two records shared an address, there are as many as
/// before. The codec has to give back every value that it gave.
pub proof fn law_compaction_keeps_every_value<
    C: RecordCodec,
    W,
    D,
    Q,
    R,
    X,
    E,
    P,
    I,
    Clock,
>(
    before: ServerView,
    entries: Seq<(Address, C::Value)>,
    world: W,
    rebuild: R,
    index_all: X,
    encode: E,
    precompute: P,
    install: I,
    clock: Clock,
    left: W,
    timings: KeywordRebuildTimings,
    directory: D,
    after: ServerView,
) where
    R: FnOnce(W, &Vec<Address>) -> (W, Result<(u64, D), KeywordError>),
    X: FnOnce(&D, &Vec<Address>) -> Vec<usize>,
    E: FnOnce(W, &Vec<Record>) -> (W, Result<(), PirError>),
    P: FnOnce(W) -> (W, Option<Q>),
    I: FnOnce(W, Q) -> (W, bool),
    Clock: Fn(W) -> (W, Duration),

    requires
        address_map::distinct_addresses(entries),
        address_map::entries_as_map(entries) == records::records_map::<C>(before.records),
        rebuild::keyword_rebuild_ends::<C, W, D, Q, R, X, E, P, I, Clock>(
            before,
            entries,
            world,
            rebuild,
            index_all,
            encode,
            precompute,
            install,
            clock,
            (left, Ok((timings, directory))),
            after,
        ),
        forall|keys: Vec<Address>, slots: Vec<usize>|
            keys@ == records::addresses_of(entries) && #[trigger] call_ensures(
                index_all,
                (&directory, &keys),
                slots,
            ) ==> records::one_slot_each(slots@, entries.len()),
        forall|i: int|
            0 <= i < entries.len() ==> C::decoded(C::encoded((#[trigger] entries[i]).1))
                == entries[i].1,
    ensures
        records::records_map::<C>(after.records) == records::records_map::<C>(before.records),
        after.served == after.records,
        after.pending == 0,
        after.directory.delta_len == 0,
        all_addresses_differ(before.records) ==> after.records.len() == before.records.len(),
        (forall|w: W, keys: Vec<Address>, rebuilt: (W, Result<(u64, D), KeywordError>)| #[trigger]
            call_ensures(rebuild, (w, &keys), rebuilt) ==> (rebuilt.1 matches Ok((version, _))
                ==> version == before.directory.version + 1)) ==> after.directory.version
            == before.directory.version + 1,
{
    let r = relocation::<C, W, D, Q, R, X, E, P, I, Clock>(
        before,
        entries,
        world,
        rebuild,
        index_all,
        encode,
        precompute,
        install,
        clock,
        left,
        timings,
        directory,
        after,
    );
    records::law_rebuild_keeps_the_map::<C>(entries, r.5@);
    let placements = records::placements_for::<C>(entries, r.5@);
    assert forall|i: int| 0 <= i < placements.len() implies (#[trigger] placements[i]).0
        < entries.len() by {
        assert(r.5@[i] < entries.len());
    }
    records::lemma_scattered_len(records::vacant_records(entries.len()), placements);
    if all_addresses_differ(before.records) {
        lemma_records_counted::<C>(before.records);
        lemma_entries_counted(entries);
    }
}

/// Whether no two records have the same address.
pub open spec fn all_addresses_differ(records: Seq<Record>) -> bool {
    forall|s: int, t: int|
        0 <= s < t < records.len() ==> record::address_in(#[trigger] records[s])
            != record::address_in(#[trigger] records[t])
}

proof fn lemma_records_counted<C: RecordCodec>(records: Seq<Record>)
    requires
        all_addresses_differ(records),
    ensures
        records::records_map::<C>(records).dom().finite(),
        records::records_map::<C>(records).dom().len() == records.len(),
    decreases records.len(),
{
    if records.len() > 0 {
        let fewer = records.drop_last();
        let last = records::records_map::<C>(fewer);
        let n = records.len() - 1;
        assert forall|s: int, t: int| 0 <= s < t < fewer.len() implies record::address_in(
            #[trigger] fewer[s],
        ) != record::address_in(#[trigger] fewer[t]) by {
            assert(record::address_in(records[s]) != record::address_in(records[t]));
        }
        lemma_records_counted::<C>(fewer);
        records::lemma_records_map::<C>(fewer);
        let addr = record::address_in(records[n]);
        if last.contains_key(addr) {
            let s = choose|s: int|
                0 <= s < fewer.len() && record::address_in(#[trigger] fewer[s]) == addr;
            assert(record::address_in(records[s]) != record::address_in(records[n]));
        }
        assert(records::records_map::<C>(records).dom() =~= last.dom().insert(addr));
    } else {
        assert(records::records_map::<C>(records).dom() =~= Set::<Address>::empty());
    }
}

proof fn lemma_entries_counted<V>(entries: Seq<(Address, V)>)
    requires
        address_map::distinct_addresses(entries),
    ensures
        address_map::entries_as_map(entries).dom().finite(),
        address_map::entries_as_map(entries).dom().len() == entries.len(),
    decreases entries.len(),
{
    let all = address_map::entries_as_map(entries).dom();
    if entries.len() > 0 {
        let fewer = entries.drop_last();
        let some = address_map::entries_as_map(fewer).dom();
        let n = entries.len() - 1;
        assert forall|i: int, j: int| 0 <= i < j < fewer.len() implies (#[trigger] fewer[i]).0 != (
        #[trigger] fewer[j]).0 by {
            assert(entries[i].0 != entries[j].0);
        }
        lemma_entries_counted(fewer);
        let addr = entries[n].0;
        if some.contains(addr) {
            let i = choose|i: int| 0 <= i < fewer.len() && (#[trigger] fewer[i]).0 == addr;
            assert(entries[i].0 != entries[n].0);
        }
        assert forall|a: Address| all.contains(a) <==> some.insert(addr).contains(a) by {
            if all.contains(a) && a != addr {
                let i = choose|i: int| 0 <= i < entries.len() && (#[trigger] entries[i]).0 == a;
                assert(fewer[i].0 == a);
            }
            if some.contains(a) {
                let i = choose|i: int| 0 <= i < fewer.len() && (#[trigger] fewer[i]).0 == a;
                assert(entries[i].0 == a);
            }
            assert(entries[n].0 == addr);
        }
        assert(all =~= some.insert(addr));
    } else {
        assert(all =~= Set::<Address>::empty());
    }
}

/// The steps of a keyword-index rebuild do not overlap: where the clock tells the
/// time and time does not run backwards in the calls, they add up to no more than
/// the whole took, and collecting the addresses was over before the directory was
/// rebuilt.
pub proof fn law_keyword_rebuild_steps_are_disjoint<
    C: RecordCodec,
    W,
    D,
    Q,
    R,
    X,
    E,
    P,
    I,
    Clock,
>(
    now: spec_fn(W) -> int,
    before: ServerView,
    entries: Seq<(Address, C::Value)>,
    world: W,
    rebuild: R,
    index_all: X,
    encode: E,
    precompute: P,
    install: I,
    clock: Clock,
    left: W,
    timings: KeywordRebuildTimings,
    directory: D,
    after: ServerView,
) where
    R: FnOnce(W, &Vec<Address>) -> (W, Result<(u64, D), KeywordError>),
    X: FnOnce(&D, &Vec<Address>) -> Vec<usize>,
    E: FnOnce(W, &Vec<Record>) -> (W, Result<(), PirError>),
    P: FnOnce(W) -> (W, Option<Q>),
    I: FnOnce(W, Q) -> (W, bool),
    Clock: Fn(W) -> (W, Duration),

    requires
        rebuild::keyword_rebuild_ends::<C, W, D, Q, R, X, E, P, I, Clock>(
            before,
            entries,
            world,
            rebuild,
            index_all,
            encode,
            precompute,
            install,
            clock,
            (left, Ok((timings, directory))),
            after,
        ),
        report::tells(clock, now),
        forall|w: W, keys: Vec<Address>, rebuilt: (W, Result<(u64, D), KeywordError>)| #[trigger]
            call_ensures(rebuild, (w, &keys), rebuilt) ==> now(w) <= now(rebuilt.0),
        forall|w: W, d: Vec<Record>, encoded: (W, Result<(), PirError>)| #[trigger]
            call_ensures(encode, (w, &d), encoded) ==> now(w) <= now(encoded.0),
        forall|w: W, made: (W, Option<Q>)| #[trigger]
            call_ensures(precompute, (w,), made) ==> now(w) <= now(made.0),
        forall|w: W, made: Q, placed: (W, bool)| #[trigger]
            call_ensures(install, (w, made), placed) ==> now(w) <= now(placed.0),
    ensures
        timings.spent() <= now(left) - now(world),
        exists|w: W, keys: Vec<Address>, rebuilt: (W, Result<(u64, D), KeywordError>)| #[trigger]
            call_ensures(rebuild, (w, &keys), rebuilt) && timings.collect_keys@ <= now(w) - now(
                world,
            ),
{
    let r = relocation::<C, W, D, Q, R, X, E, P, I, Clock>(
        before,
        entries,
        world,
        rebuild,
        index_all,
        encode,
        precompute,
        install,
        clock,
        left,
        timings,
        directory,
        after,
    );
    law_refresh_steps_are_disjoint(
        now,
        after.records,
        r.6.0,
        encode,
        precompute,
        install,
        clock,
        left,
        timings.refresh,
    );
    let rebuilt = (
        r.3,
        Ok::<(u64, D), KeywordError>((after.directory.version, directory)),
    );
    assert(call_ensures(rebuild, (r.1.0, &r.2), rebuilt));
}

/// A client that holds the server's directory needs no more of it than the tail
/// that grows from there, and so it stays over any number of updates and database
/// rebuilds; a server whose directory has another generation sends it the whole.
pub proof fn law_synced_client_needs_the_tail_only(
    client: DirectoryState,
    server: DirectoryState,
    later: DirectoryState,
)
    requires
        client == server,
    ensures
        later.version == server.version ==> keyword::sync_mode_for(
            later.version,
            client.version,
            client.delta_len,
        ) == (KeywordSyncMode::Tail { from: server.delta_len }),
        later.version != server.version ==> keyword::sync_mode_for(
            later.version,
            client.version,
            client.delta_len,
        ) == KeywordSyncMode::Full,
{
}

} // verus!
