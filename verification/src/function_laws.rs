//! What the functions on plain values do, stated over their arguments and results.

use vstd::prelude::*;

use std::io::ErrorKind;

use crate::address_map;
use crate::address_map::AddressMap;
use crate::error;
use crate::error::{EthIoError, EthPirError};
use crate::record;
use crate::record::{Address, Balance, Record, RecordCodec, U256Balance};
use crate::server::records;
use crate::server::report::{
    Duration, InitTimings, KeywordRebuildTimings, MemoryReport, RefreshTimings,
};
use crate::text;

verus! {

/// A record is the address followed by the encoded value, and is taken apart at the
/// same place.
pub proof fn law_records_are_made_and_taken_apart<C: RecordCodec>(
    addr: Address,
    other: Address,
    value: C::Value,
    record: Record,
    payload: &[u8; 44],
    belongs: bool,
    same: bool,
    vacant: bool,
)
    ensures
        call_ensures(record::record_of::<C>, (&addr, &value), record) ==> record@ == addr@
            + C::encoded(value)@,
        call_ensures(record::payload_of, (&record,), payload) ==> payload@ == record@.skip(20),
        call_ensures(record::address_of, (&record,), addr) ==> addr@ == record@.take(20),
        call_ensures(record::same_address, (&addr, &other), same) ==> (same <==> addr@ == other@),
        call_ensures(record::belongs_to, (&record, &addr), belongs) ==> (belongs
            <==> record@.take(20) == addr@),
        call_ensures(record::is_vacant_address, (&addr,), vacant) ==> (vacant <==> forall|i: int|
            0 <= i < 20 ==> #[trigger] addr@[i] == 0),
{
    record::lemma_record_parts(record);
    record::lemma_vacant();
    if addr@ == other@ {
        crate::bytes::lemma_same_bytes(addr, other);
    }
    if record@.take(20) == addr@ {
        crate::bytes::lemma_same_bytes(record::address_in(record), addr);
    }
    if forall|i: int| 0 <= i < 20 ==> #[trigger] addr@[i] == 0 {
        assert(addr@ =~= record::vacant_address()@);
        crate::bytes::lemma_same_bytes(addr, record::vacant_address());
    }
    assert(forall|i: int| 0 <= i < 20 ==> #[trigger] record::vacant_address()@[i] == 0);
}

/// A balance is written behind as many zeros as fill the payload, and read back from
/// there.
pub proof fn law_balances_are_padded_with_zeros(
    balance: Balance,
    payload: [u8; 44],
    read: Balance,
)
    ensures
        call_ensures(<U256Balance as RecordCodec>::encode, (&balance,), payload) ==> (forall|
            i: int,
        |
            0 <= i < 12 ==> #[trigger] payload@[i] == 0) && payload@.skip(12) == balance@,
        call_ensures(<U256Balance as RecordCodec>::decode, (&payload,), read) ==> read@
            == payload@.skip(12),
{
    crate::bytes::lemma_array_of::<44>(record::zeros(12) + balance@);
    crate::bytes::lemma_array_of::<32>(payload@.skip(12));
    assert((record::zeros(12) + balance@).skip(12) =~= balance@);
}

/// A map tells what it holds under an address, what came in at which place, and how
/// many addresses it holds; a new one holds nothing.
pub proof fn law_map_tells_what_it_holds<V: Copy>(
    map: AddressMap<V>,
    fresh: AddressMap<V>,
    addr: Address,
    i: usize,
    len: usize,
    got: Option<V>,
    entry: (Address, V),
)
    ensures
        call_ensures(AddressMap::<V>::new, (), fresh) ==> fresh.wf() && fresh.entries().len() == 0
            && forall|any: Address| !#[trigger] fresh@.contains_key(any),
        call_ensures(AddressMap::<V>::len, (&map,), len) ==> len == map.entries().len(),
        call_ensures(AddressMap::<V>::get, (&map, &addr), got) ==> match got {
            Some(v) => map@.contains_key(addr) && v == map@[addr],
            None => !map@.contains_key(addr),
        },
        call_ensures(AddressMap::<V>::entry, (&map, i), entry) ==> entry == map.entries()[i as int],
{
}

/// After a value was put under an address the map holds that value there and everything
/// else as before, with every address at the place at which it came in.
pub proof fn law_map_holds_what_was_put_into_it<V: Copy>(
    map: &mut AddressMap<V>,
    addr: Address,
    value: V,
)
    requires
        old(map).wf(),
        call_ensures(AddressMap::<V>::insert, (map, addr, value), ()),
    ensures
        final(map).wf(),
        final(map)@.contains_key(addr),
        final(map)@[addr] == value,
        forall|other: Address|
            other != addr ==> (#[trigger] final(map)@.contains_key(other) <==> old(
                map,
            )@.contains_key(other)) && (old(map)@.contains_key(other) ==> final(map)@[other]
                == old(map)@[other]),
        forall|k: int|
            0 <= k < old(map).entries().len() ==> (#[trigger] final(map).entries()[k]).0 == old(
                map,
            ).entries()[k].0,
        final(map).entries().len() == old(map).entries().len() + if old(map)@.contains_key(addr) {
            0nat
        } else {
            1
        },
{
    old(map).lemma_distinct();
    address_map::law_insert_keeps_the_order(old(map).entries(), addr, value);
    assert(old(map)@.contains_key(addr) <==> address_map::holds_address(
        old(map).entries(),
        addr,
    ));
}

/// An error is shown with its layer in front of what the layer said, and is reported
/// with the kind of a wire failure, as bad data, or as another failure.
pub proof fn law_errors_are_shown_and_reported(
    e: EthPirError,
    shown: String,
    io: EthIoError,
    shown_io: String,
)
    ensures
        call_ensures(EthPirError::to_text, (&e,), shown) ==> shown@ == match e {
            EthPirError::NotInSet => "address not in the served set"@,
            EthPirError::ServerPoisoned => "serving server mutex was poisoned"@,
            EthPirError::Keyword(k) => "keyword layer: "@ + k.message@,
            EthPirError::Pir(p) => "PIR layer: "@ + p.message@,
            EthPirError::Io { kind: _, message } => "keyword wire I/O: "@ + message@,
        },
        call_ensures(EthIoError::to_text, (&io,), shown_io) && call_ensures(
            EthPirError::to_text,
            (&io.error,),
            shown,
        ) ==> shown_io@ == shown@,
        call_ensures(error::eth_error_to_io, (e,), io) ==> io.error == e && match e {
            EthPirError::NotInSet => io.kind == ErrorKind::InvalidData,
            EthPirError::Keyword(_) => io.kind == ErrorKind::InvalidData,
            EthPirError::Pir(_) => io.kind == ErrorKind::Other,
            EthPirError::ServerPoisoned => io.kind == ErrorKind::Other,
            EthPirError::Io { kind, message: _ } => io.kind == kind,
        },
{
}

/// A span is counted in whole seconds and the nanoseconds beyond them; the span between
/// two readings is their difference, and none where the later one is not later.
pub proof fn law_spans_are_counted_in_nanoseconds(
    secs: u64,
    nanos: u32,
    a: Duration,
    b: Duration,
    span: Duration,
    whole: u64,
    rest: u32,
)
    ensures
        call_ensures(Duration::new, (secs, nanos), span) ==> span@ == secs * 1_000_000_000 + nanos,
        call_ensures(Duration::zero, (), span) ==> span@ == 0,
        call_ensures(Duration::as_secs, (&a,), whole) && call_ensures(
            Duration::subsec_nanos,
            (&a,),
            rest,
        ) ==> whole * 1_000_000_000 + rest == a@ && rest < 1_000_000_000,
        call_ensures(Duration::since, (a, b), span) ==> span@ == if a@ >= b@ {
            a@ - b@
        } else {
            0
        },
        call_ensures(Duration::plus, (a, b), span) ==> span@ == a@ + b@,
{
    assert(a@ == (a@ / 1_000_000_000) * 1_000_000_000 + a@ % 1_000_000_000) by (nonlinear_arith);
}

/// A total is the sum of its parts, and the memory at the peak of a rebuild has room for
/// a second precomputation.
pub proof fn law_totals_are_sums_of_their_parts(
    init: InitTimings,
    refresh: RefreshTimings,
    keyword: KeywordRebuildTimings,
    memory: MemoryReport,
    span: Duration,
    bytes: usize,
)
    ensures
        call_ensures(InitTimings::total, (&init,), span) ==> span@ == init.keyword_index@
            + init.records_scatter@ + init.server_alloc@ + init.database_encode@ + init.query_mask@
            + init.offline@ + init.staging_alloc@,
        call_ensures(RefreshTimings::total, (&refresh,), span) ==> span@ == refresh.database_encode@
            + refresh.precompute@ + refresh.install@,
        call_ensures(KeywordRebuildTimings::total, (&keyword,), span) ==> span@
            == keyword.collect_keys@ + keyword.mphf_rebuild@ + keyword.permute@
            + keyword.refresh.database_encode@ + keyword.refresh.precompute@
            + keyword.refresh.install@,
        call_ensures(MemoryReport::total, (&memory,), bytes) ==> bytes == memory.serving_database
            + memory.staging_database + memory.precomputation + memory.online_scratch_pool
            + memory.records + memory.keyword_directory,
        call_ensures(MemoryReport::refresh_peak, (&memory,), bytes) ==> bytes
            == memory.serving_database + memory.staging_database + 2 * memory.precomputation
            + memory.online_scratch_pool + memory.records + memory.keyword_directory,
{
}

/// A number is written in decimal behind what stands there.
pub proof fn law_numbers_are_appended_in_decimal(shown: &mut String, n: usize)
    requires
        call_ensures(text::append_decimal, (shown, n), ()),
    ensures
        final(shown)@.len() > old(shown)@.len(),
        final(shown)@.take(old(shown)@.len() as int) == old(shown)@,
        text::number(final(shown)@.skip(old(shown)@.len() as int)) == n,
{
    text::law_decimal_reads_back(n as nat);
    assert(final(shown)@.take(old(shown)@.len() as int) =~= old(shown)@);
    assert(final(shown)@.skip(old(shown)@.len() as int) =~= text::decimal(n as nat));
}

/// The workers of a bulk loop share its items without gap or overlap, each taking no
/// more than its share.
pub proof fn law_workers_share_the_items(
    items: usize,
    requested: Option<usize>,
    detected: usize,
    workers: usize,
    per: usize,
    w: usize,
    range: (usize, usize),
)
    ensures
        call_ensures(records::worker_count, (items, requested, detected), workers) ==> {
            &&& 1 <= workers
            &&& items >= 1 ==> workers <= items
            &&& requested matches Some(n) ==> (1 <= n <= items ==> workers == n)
            &&& requested matches Some(n) ==> (1 <= items <= n ==> workers == items)
            &&& items == 0 ==> workers == 1
            &&& (requested is None || requested == Some(0usize)) ==> {
                &&& workers <= 64
                &&& detected == 0 ==> workers == 1
                &&& 1 <= detected <= items && detected <= 64 ==> workers == detected
                &&& 1 <= items <= detected && items <= 64 ==> workers == items
                &&& 64 <= items && 64 <= detected ==> workers == 64
            }
        },
        call_ensures(records::share_of, (items, workers), per) && workers >= 1 ==> if items == 0 {
            per == 0
        } else {
            (per - 1) * workers < items <= per * workers
        },
        call_ensures(records::worker_range, (w, per, items), range) ==> {
            &&& range.0 == w * per
            &&& w * per + per <= items ==> range.1 == per
            &&& w * per <= items < w * per + per ==> range.0 + range.1 == items
            &&& items < w * per ==> range.1 == 0
        },
{
    records::law_workers_follow_the_request(items as nat, requested, detected as nat);
    if workers >= 1 {
        records::law_shares_are_no_larger_than_needed(items as nat, workers as nat);
    }
}

/// The keys of a map are its addresses in their order; its records stand at the slots
/// that are named for them; and records give back the map that they spell out.
pub proof fn law_maps_are_laid_out_and_read_back<C: RecordCodec>(
    map: AddressMap<C::Value>,
    slots: &[usize],
    n: usize,
    empty: Vec<Record>,
    keys: Vec<Address>,
    laid: Vec<Record>,
    from: &[Record],
    read: AddressMap<C::Value>,
)
    ensures
        call_ensures(records::zeroed_records, (n,), empty) ==> empty@.len() == n && forall|
            s: int,
            i: int,
        |
            0 <= s < n && 0 <= i < 64 ==> #[trigger] empty@[s]@[i] == 0,
        call_ensures(records::collect_keys::<C::Value>, (&map,), keys) ==> keys@.len()
            == map.entries().len() && forall|i: int|
            0 <= i < keys@.len() ==> #[trigger] keys@[i] == map.entries()[i].0,
        call_ensures(records::scatter_map_records::<C>, (&map, slots), laid)
            && records::one_slot_each(slots@, map.entries().len()) ==> laid@.len()
            == map.entries().len() && forall|i: int|
            0 <= i < map.entries().len() ==> laid@[#[trigger] slots@[i] as int]@
                == map.entries()[i].0@ + C::encoded(map.entries()[i].1)@,
        call_ensures(records::records_to_map::<C>, (from,), read) ==> {
            &&& read.wf()
            &&& forall|addr: Address| #[trigger]
                read@.contains_key(addr) ==> exists|s: int|
                    0 <= s < from@.len() && record::address_in(#[trigger] from@[s]) == addr
            &&& forall|s: int|
                0 <= s < from@.len() && (forall|t: int|
                    s < t < from@.len() ==> record::address_in(#[trigger] from@[t])
                        != record::address_in(from@[s])) ==> read@.contains_key(
                    record::address_in(#[trigger] from@[s]),
                ) && read@[record::address_in(from@[s])] == C::decoded(
                    record::payload_in(from@[s]),
                )
        },
{
    record::lemma_vacant();
    assert forall|i: int| 0 <= i < 64 implies #[trigger] record::vacant_record()@[i] == 0 by {}
    if records::one_slot_each(slots@, map.entries().len()) {
        records::law_scatter_places_every_record::<C>(map.entries(), slots@);
        assert forall|i: int| 0 <= i < map.entries().len() implies record::record_for::<C>(
            (#[trigger] map.entries()[i]).0,
            map.entries()[i].1,
        )@ == map.entries()[i].0@ + C::encoded(map.entries()[i].1)@ by {
            record::lemma_record_for::<C>(map.entries()[i].0, map.entries()[i].1);
        }
    }
    records::law_records_say_what_the_last_one_says::<C>(from@);
}

} // verus!
