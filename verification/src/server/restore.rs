//! Restarting a server without moving any address: checkpoints, and what is
//! restored from them.

use vstd::prelude::*;

use std::io::ErrorKind;

use crate::address_map::AddressMap;
use crate::error::{EthPirError, KeywordError, WireError};
use crate::record;
use crate::record::{
    address_of, belongs_to, is_vacant_address, record_of, Address, Record, RecordCodec,
};
use crate::server::keyword;
use crate::server::keyword::{DirectoryState, KeywordCheckpoint, RestoreReport};
use crate::server::records;
use crate::server::records::zeroed_records;
use crate::server::report::ServingTimings;
use crate::server::service::Service;
use crate::server::EthPirServer;
use crate::server::ServerView;
use crate::shape;
use crate::shape::{default_shape, Config, DatabaseLayout};
use crate::text;

verus! {

/// How many of the numbers below `n` have property `p`.
pub open spec fn count(n: nat, p: spec_fn(int) -> bool) -> nat
    decreases n,
{
    if n == 0 {
        0
    } else {
        count((n - 1) as nat, p) + if p(n - 1) {
            1nat
        } else {
            0
        }
    }
}

/// Two properties that no number tells apart are counted alike.
pub proof fn lemma_count_same(n: nat, p: spec_fn(int) -> bool, q: spec_fn(int) -> bool)
    requires
        forall|i: int| 0 <= i < n ==> #[trigger] p(i) == q(i),
    ensures
        count(n, p) == count(n, q),
    decreases n,
{
    if n > 0 {
        lemma_count_same((n - 1) as nat, p, q);
        assert(p(n - 1) == q(n - 1));
    }
}

/// Two properties of which every number has exactly one share the numbers.
pub proof fn lemma_count_split(n: nat, p: spec_fn(int) -> bool, q: spec_fn(int) -> bool)
    requires
        forall|i: int| 0 <= i < n ==> #[trigger] p(i) != q(i),
    ensures
        count(n, p) + count(n, q) == n,
    decreases n,
{
    if n > 0 {
        lemma_count_split((n - 1) as nat, p, q);
        assert(p(n - 1) != q(n - 1));
    }
}

/// The addresses of the records, slot by slot.
pub open spec fn addresses_in(records: Seq<Record>) -> Seq<Address> {
    Seq::new(records.len(), |s: int| record::address_in(records[s]))
}

/// The address in each slot of a server's directory base.
pub open spec fn base_keys(server: ServerView) -> Seq<Address> {
    addresses_in(server.records.take(server.directory.mphf_len as int))
}

pub fn checkpoint_keys(records: &[Record]) -> (keys: Vec<Address>)
    ensures
        keys@ == addresses_in(records@),
        keys@.len() == records@.len(),
        forall|s: int|
            0 <= s < records@.len() ==> #[trigger] keys@[s] == record::address_in(records@[s]),
{
    let mut keys: Vec<Address> = Vec::with_capacity(records.len());
    for s in 0..records.len()
        invariant
            keys@ =~= addresses_in(records@).take(s as int),
    {
        keys.push(address_of(&records[s]));
    }
    assert(keys@ =~= addresses_in(records@));
    keys
}

/// Whether a slot that a checkpoint assigns to `addr` gets its record back: the
/// slot was not empty, and the map still has the address.
pub open spec fn comes_back<V>(addr: Address, map: Map<Address, V>) -> bool {
    map.contains_key(addr) && addr != record::vacant_address()
}

/// The records after each slot that `keys` assigns to an address got the record of
/// that address from `map`, where it comes back.
pub open spec fn checkpoint_placed<C: RecordCodec>(
    records: Seq<Record>,
    keys: Seq<Address>,
    map: Map<Address, C::Value>,
) -> Seq<Record> {
    Seq::new(
        records.len(),
        |s: int|
            if s < keys.len() && comes_back(keys[s], map) {
                record::record_for::<C>(keys[s], map[keys[s]])
            } else {
                records[s]
            },
    )
}

/// Whether slot `s` holds the record of the address that `keys` assigns to it, an
/// empty slot's assignment aside.
pub open spec fn slot_placed(records: Seq<Record>, keys: Seq<Address>, s: int) -> bool {
    record::address_in(records[s]) == keys[s] && keys[s] != record::vacant_address()
}

/// Puts the records of a directory's base back: `keys` names the address of each
/// slot.
pub fn place_checkpoint_slots<C: RecordCodec>(
    keys: &[Address],
    map: &AddressMap<C::Value>,
    records: &mut Vec<Record>,
    report: &mut RestoreReport,
)
    requires
        map.wf(),
        keys@.len() <= old(records)@.len(),
        old(report).placed + keys@.len() <= usize::MAX,
        old(report).vacant + keys@.len() <= usize::MAX,
    ensures
        final(records)@ == checkpoint_placed::<C>(old(records)@, keys@, map@),
        final(records)@.len() == old(records)@.len(),
        forall|s: int|
            0 <= s < old(records)@.len() ==> #[trigger] final(records)@[s] == if s < keys@.len()
                && map@.contains_key(keys@[s]) && keys@[s] != record::vacant_address() {
                record::record_for::<C>(keys@[s], map@[keys@[s]])
            } else {
                old(records)@[s]
            },
        *final(report) == (RestoreReport {
            placed: (old(report).placed + count(
                keys@.len(),
                |s: int| slot_placed(final(records)@, keys@, s),
            )) as usize,
            vacant: (old(report).vacant + count(
                keys@.len(),
                |s: int| !comes_back(keys@[s], map@),
            )) as usize,
            ..*old(report)
        }),
{
    let ghost before = records@;
    let ghost after = checkpoint_placed::<C>(before, keys@, map@);
    let ghost placed = |s: int| slot_placed(after, keys@, s);
    let ghost vacant = |s: int| !comes_back(keys@[s], map@);
    for s in 0..keys.len()
        invariant
            map.wf(),
            keys@.len() <= before.len(),
            records@.len() == before.len(),
            after == checkpoint_placed::<C>(before, keys@, map@),
            placed == (|s: int| slot_placed(after, keys@, s)),
            vacant == (|s: int| !comes_back(keys@[s], map@)),
            forall|i: int| 0 <= i < s ==> records@[i] == after[i],
            forall|i: int| s <= i < records@.len() ==> records@[i] == before[i],
            old(report).placed + keys@.len() <= usize::MAX,
            old(report).vacant + keys@.len() <= usize::MAX,
            count(s as nat, placed) <= s,
            count(s as nat, vacant) <= s,
            report.placed == old(report).placed + count(s as nat, placed),
            report.vacant == old(report).vacant + count(s as nat, vacant),
            report.appended == old(report).appended,
    {
        let addr = keys[s];
        let empty = is_vacant_address(&addr);
        match map.get(&addr) {
            Some(value) if !empty => {
                place_record::<C>(records, s, &addr, &value);
            },
            _ => {
                report.vacant += 1;
            },
        }
        if belongs_to(&records[s], &addr) && !empty {
            report.placed += 1;
        }
    }
    proof {
        assert(records@ =~= after);
    }
}

/// Whether asking `directory` for the slot of each entry's address, in order, may
/// have given `slots`.
pub open spec fn indexed_by<D, V, X: Fn(&D, &Address) -> usize>(
    index: X,
    directory: D,
    entries: Seq<(Address, V)>,
    slots: Seq<usize>,
) -> bool {
    &&& slots.len() == entries.len()
    &&& forall|i: int|
        0 <= i < entries.len() ==> call_ensures(
            index,
            (&directory, &entries[i].0),
            #[trigger] slots[i],
        )
}

/// The records of those `entries` whose slot is at least `low` and below `high`,
/// each with its slot.
pub open spec fn placements_between<C: RecordCodec>(
    entries: Seq<(Address, C::Value)>,
    slots: Seq<usize>,
    low: nat,
    high: nat,
) -> Seq<(usize, Record)>
    decreases entries.len(),
{
    if entries.len() == 0 {
        Seq::empty()
    } else {
        let earlier = placements_between::<C>(entries.drop_last(), slots.drop_last(), low, high);
        let (addr, value) = entries.last();
        let slot = slots.last();
        if low <= slot < high {
            earlier.push((slot, record::record_for::<C>(addr, value)))
        } else {
            earlier
        }
    }
}

/// No more placements than entries, and each within the bounds.
pub proof fn lemma_placements_between<C: RecordCodec>(
    entries: Seq<(Address, C::Value)>,
    slots: Seq<usize>,
    low: nat,
    high: nat,
)
    requires
        slots.len() == entries.len(),
    ensures
        placements_between::<C>(entries, slots, low, high).len() <= entries.len(),
        forall|k: int|
            0 <= k < placements_between::<C>(entries, slots, low, high).len() ==> low <= (
            #[trigger] placements_between::<C>(entries, slots, low, high)[k]).0 < high,
    decreases entries.len(),
{
    if entries.len() > 0 {
        lemma_placements_between::<C>(entries.drop_last(), slots.drop_last(), low, high);
    }
}

/// Puts the records of a directory's tail back: those of the addresses in `map`
/// whose slot lies past the base of `mphf_len` slots.
pub fn place_delta_slots<C: RecordCodec, D, X: Fn(&D, &Address) -> usize>(
    directory: &D,
    mphf_len: usize,
    map: &AddressMap<C::Value>,
    records: &mut Vec<Record>,
    report: &mut RestoreReport,
    index: &X,
)
    requires
        map.wf(),
        old(report).placed + map.entries().len() <= usize::MAX,
        forall|addr: Address| #[trigger] call_requires(*index, (directory, &addr)),
    ensures
        exists|slots: Seq<usize>|
            #![trigger indexed_by(*index, *directory, map.entries(), slots)]
            {
                let placements = placements_between::<C>(
                    map.entries(),
                    slots,
                    mphf_len as nat,
                    old(records)@.len(),
                );
                &&& indexed_by(*index, *directory, map.entries(), slots)
                &&& final(records)@ == records::scattered(old(records)@, placements)
                &&& *final(report) == (RestoreReport {
                    placed: (old(report).placed + placements.len()) as usize,
                    ..*old(report)
                })
            },
        final(records)@.len() == old(records)@.len(),
{
    let ghost before = records@;
    let ghost entries = map.entries();
    let ghost mut slots = Seq::<usize>::empty();
    let n = map.len();
    for i in 0..n
        invariant
            n == map.entries().len(),
            entries == map.entries(),
            old(report).placed + entries.len() <= usize::MAX,
            forall|addr: Address| #[trigger] call_requires(*index, (directory, &addr)),
            records@.len() == before.len(),
            slots.len() == i,
            forall|j: int|
                0 <= j < i ==> call_ensures(
                    *index,
                    (directory, &entries[j].0),
                    #[trigger] slots[j],
                ),
            records@ == records::scattered(
                before,
                placements_between::<C>(
                    entries.take(i as int),
                    slots,
                    mphf_len as nat,
                    before.len(),
                ),
            ),
            *report == (RestoreReport {
                placed: (old(report).placed + placements_between::<C>(
                    entries.take(i as int),
                    slots,
                    mphf_len as nat,
                    before.len(),
                ).len()) as usize,
                ..*old(report)
            }),
    {
        let (addr, value) = map.entry(i);
        let slot = index(directory, &addr);
        let ghost earlier = slots;
        proof {
            lemma_placements_between::<C>(
                entries.take(i as int),
                earlier,
                mphf_len as nat,
                before.len(),
            );
            slots = slots.push(slot);
            assert(slots.drop_last() =~= earlier);
            assert(entries.take(i + 1).drop_last() =~= entries.take(i as int));
            assert(entries.take(i + 1).last() == entries[i as int]);
        }
        if slot >= mphf_len && slot < records.len() {
            place_record::<C>(records, slot, &addr, &value);
            report.placed += 1;
            proof {
                let placements = placements_between::<C>(
                    entries.take(i + 1),
                    slots,
                    mphf_len as nat,
                    before.len(),
                );
                assert(placements.drop_last() =~= placements_between::<C>(
                    entries.take(i as int),
                    earlier,
                    mphf_len as nat,
                    before.len(),
                ));
            }
        }
    }
    proof {
        assert(entries.take(n as int) =~= entries);
        assert(indexed_by(*index, *directory, entries, slots));
    }
}

/// Whether slot `slot` of `records` holds the record of `addr`.
pub open spec fn stands_at(records: Seq<Record>, slot: int, addr: Address) -> bool {
    0 <= slot < records.len() && record::address_in(records[slot]) == addr
}

fn is_restored_record(slot: usize, records: &Vec<Record>, addr: &Address) -> (restored: bool)
    ensures
        restored == stands_at(records@, slot as int, *addr),
{
    slot < records.len() && belongs_to(&records[slot], addr)
}

/// Whether, from a directory and records `before`, seeing to one entry may lead to
/// `after`: nothing to do where the slot that the directory names holds the
/// address's record; else the address goes into the directory's tail and its
/// record to the end.
pub open spec fn append_step<C: RecordCodec, D, X, P>(
    index: X,
    push: P,
    entry: (Address, C::Value),
    before: (D, Seq<Record>),
    after: (D, Seq<Record>),
) -> bool where
    X: Fn(&D, &Address) -> usize,
    P: Fn(D, &Address) -> (D, Result<usize, KeywordError>),
 {
    exists|slot: usize| #[trigger]
        call_ensures(index, (&before.0, &entry.0), slot) && if stands_at(
            before.1,
            slot as int,
            entry.0,
        ) {
            after == before
        } else {
            exists|pushed: (D, Result<usize, KeywordError>)| #[trigger]
                call_ensures(push, (before.0, &entry.0), pushed) && pushed.1 is Ok && after == (
                    pushed.0,
                    before.1.push(record::record_for::<C>(entry.0, entry.1)),
                )
        }
}

/// Whether, from a directory and records `before`, seeing to one entry may fail
/// with `error`: the directory refused the address, and was left as `after`.
pub open spec fn append_fails<D, V, X, P>(
    index: X,
    push: P,
    entry: (Address, V),
    before: (D, Seq<Record>),
    after: D,
    error: EthPirError,
) -> bool where
    X: Fn(&D, &Address) -> usize,
    P: Fn(D, &Address) -> (D, Result<usize, KeywordError>),
 {
    exists|slot: usize, pushed: (D, Result<usize, KeywordError>)|
        #![trigger call_ensures(index, (&before.0, &entry.0), slot), call_ensures(
            push,
            (before.0, &entry.0),
            pushed,
        )]
        {
            &&& call_ensures(index, (&before.0, &entry.0), slot)
            &&& !stands_at(before.1, slot as int, entry.0)
            &&& call_ensures(push, (before.0, &entry.0), pushed)
            &&& pushed.0 == after
            &&& pushed.1 matches Err(e) && error == EthPirError::Keyword(e)
        }
}

/// Whether seeing to `entries`, one after the other, may lead from `start` to
/// `end`.
pub open spec fn append_runs<C: RecordCodec, D, X, P>(
    index: X,
    push: P,
    entries: Seq<(Address, C::Value)>,
    start: (D, Seq<Record>),
    end: (D, Seq<Record>),
) -> bool where
    X: Fn(&D, &Address) -> usize,
    P: Fn(D, &Address) -> (D, Result<usize, KeywordError>),

    decreases entries.len(),
{
    if entries.len() == 0 {
        end == start
    } else {
        exists|middle: (D, Seq<Record>)|
            #![trigger append_step::<C, D, X, P>(index, push, entries.last(), middle, end)]
            {
                &&& append_runs::<C, D, X, P>(index, push, entries.drop_last(), start, middle)
                &&& append_step::<C, D, X, P>(index, push, entries.last(), middle, end)
            }
    }
}

/// How seeing to `entries` may end: with the directory and the records it leads
/// to; or with the failure of the first entry that the directory refuses, the
/// directory as it was left then, and the records that the entries before led to.
pub open spec fn append_ends<C: RecordCodec, D, X, P>(
    index: X,
    push: P,
    entries: Seq<(Address, C::Value)>,
    start: (D, Seq<Record>),
    end: (D, Seq<Record>),
    outcome: Result<(), EthPirError>,
) -> bool where
    X: Fn(&D, &Address) -> usize,
    P: Fn(D, &Address) -> (D, Result<usize, KeywordError>),
 {
    match outcome {
        Ok(()) => append_runs::<C, D, X, P>(index, push, entries, start, end),
        Err(e) => exists|n: int, middle: (D, Seq<Record>)|
            #![trigger append_runs::<C, D, X, P>(index, push, entries.take(n), start, middle)]
            {
                &&& 0 <= n < entries.len()
                &&& append_runs::<C, D, X, P>(index, push, entries.take(n), start, middle)
                &&& append_fails(index, push, entries[n], middle, end.0, e)
                &&& end.1 == middle.1
            },
    }
}

/// Appends the records of those addresses in `map` whose slot does not hold them.
/// The directory is handed back, also where it refused an address; that address
/// has no record then.
pub fn append_new_slots<C: RecordCodec, D, X, P>(
    directory: D,
    map: &AddressMap<C::Value>,
    records: &mut Vec<Record>,
    report: &mut RestoreReport,
    index: &X,
    push: &P,
) -> (result: (D, Result<(), EthPirError>)) where
    X: Fn(&D, &Address) -> usize,
    P: Fn(D, &Address) -> (D, Result<usize, KeywordError>),

    requires
        map.wf(),
        old(report).appended + map.entries().len() <= usize::MAX,
        forall|d: D, addr: Address| #[trigger] call_requires(*index, (&d, &addr)),
        forall|d: D, addr: Address| #[trigger] call_requires(*push, (d, &addr)),
    ensures
        append_ends::<C, D, X, P>(
            *index,
            *push,
            map.entries(),
            (directory, old(records)@),
            (result.0, final(records)@),
            result.1,
        ),
        old(records)@.len() <= final(records)@.len() <= old(records)@.len() + map.entries().len(),
        final(records)@.take(old(records)@.len() as int) == old(records)@,
        *final(report) == (RestoreReport {
            appended: (old(report).appended + final(records)@.len()
                - old(records)@.len()) as usize,
            ..*old(report)
        }),
{
    let ghost entries = map.entries();
    let ghost start = (directory, records@);
    let mut current = directory;
    let n = map.len();
    assert(records@.take(start.1.len() as int) =~= start.1);
    for i in 0..n
        invariant
            n == map.entries().len(),
            entries == map.entries(),
            start == (directory, old(records)@),
            old(report).appended + entries.len() <= usize::MAX,
            forall|d: D, addr: Address| #[trigger] call_requires(*index, (&d, &addr)),
            forall|d: D, addr: Address| #[trigger] call_requires(*push, (d, &addr)),
            append_runs::<C, D, X, P>(
                *index,
                *push,
                entries.take(i as int),
                start,
                (current, records@),
            ),
            start.1.len() <= records@.len() <= start.1.len() + i,
            records@.take(start.1.len() as int) == start.1,
            *report == (RestoreReport {
                appended: (old(report).appended + records@.len() - start.1.len()) as usize,
                ..*old(report)
            }),
    {
        let (addr, value) = map.entry(i);
        let ghost before = (current, records@);
        let slot = index(&current, &addr);
        proof {
            assert(entries.take(i + 1).drop_last() =~= entries.take(i as int));
            assert(entries.take(i + 1).last() == entries[i as int]);
        }
        if !is_restored_record(slot, records, &addr) {
            let pushed = push(current, &addr);
            current = pushed.0;
            match pushed.1 {
                Ok(_) => {
                    records.push(record_of::<C>(&addr, &value));
                    report.appended += 1;
                    assert(records@.take(start.1.len() as int) =~= start.1);
                },
                Err(e) => {
                    let error = EthPirError::from(e);
                    assert(append_fails(
                        *index,
                        *push,
                        entries[i as int],
                        before,
                        current,
                        error,
                    ));
                    return (current, Err(error));
                },
            }
        }
        proof {
            assert(append_step::<C, D, X, P>(
                *index,
                *push,
                entries[i as int],
                before,
                (current, records@),
            ));
        }
    }
    assert(entries.take(n as int) =~= entries);
    (current, Ok(()))
}

fn place_record<C: RecordCodec>(
    records: &mut Vec<Record>,
    slot: usize,
    addr: &Address,
    value: &C::Value,
)
    requires
        slot < old(records)@.len(),
    ensures
        final(records)@ == old(records)@.update(
            slot as int,
            record::record_for::<C>(*addr, *value),
        ),
{
    records[slot] = record_of::<C>(addr, value);
}

/// The message about a checkpoint with `held` keys whose hash function addresses
/// `addressed`.
pub open spec fn key_count_message(held: nat, addressed: nat) -> Seq<char> {
    "checkpoint holds "@ + text::decimal(held) + " keys but its MPHF addresses "@ + text::decimal(
        addressed,
    )
}

fn describe_key_count(held: usize, addressed: usize) -> (message: String)
    ensures
        message@ == key_count_message(held as nat, addressed as nat),
{
    let mut message = String::from_str("checkpoint holds ");
    text::append_decimal(&mut message, held);
    message.append(" keys but its MPHF addresses ");
    text::append_decimal(&mut message, addressed);
    message
}

/// Takes a directory that was read back from a checkpoint, or the failure to read
/// it, and holds the checkpoint's keys against it.
pub fn check_checkpoint_directory<D>(
    found: Result<(D, DirectoryState), WireError>,
    keys: &[Address],
) -> (result: Result<(D, DirectoryState), EthPirError>)
    ensures
        checked_gives(found, keys@.len(), result),
        result matches Ok(checked) ==> found == Ok::<_, WireError>(checked) && checked.1.mphf_len
            == keys@.len(),
        found matches Err(w) ==> result == Err::<(D, DirectoryState), _>(
            EthPirError::Io { kind: w.kind, message: w.message },
        ),
        found matches Ok(checked) ==> {
            if checked.1.mphf_len == keys@.len() {
                result is Ok
            } else {
                result matches Err(EthPirError::Io { kind, message }) && kind
                    == ErrorKind::InvalidData && message@ == "checkpoint holds "@ + text::decimal(
                    keys@.len(),
                ) + " keys but its MPHF addresses "@ + text::decimal(checked.1.mphf_len as nat)
            }
        },
{
    let (directory, state) = match found {
        Ok(found) => found,
        Err(e) => {
            return Err(EthPirError::from(e));
        },
    };
    if keys.len() == state.mphf_len {
        return Ok((directory, state));
    }
    Err(
        EthPirError::Io {
            kind: ErrorKind::InvalidData,
            message: describe_key_count(keys.len(), state.mphf_len),
        },
    )
}

/// Whether holding `keys` keys against a directory that was read, or against the
/// failure to read it, gives `outcome`.
pub open spec fn checked_gives<D>(
    found: Result<(D, DirectoryState), WireError>,
    keys: nat,
    outcome: Result<(D, DirectoryState), EthPirError>,
) -> bool {
    match found {
        Err(e) => outcome == Err::<(D, DirectoryState), _>(
            EthPirError::Io { kind: e.kind, message: e.message },
        ),
        Ok((directory, state)) => if keys == state.mphf_len {
            outcome == Ok::<_, EthPirError>((directory, state))
        } else {
            &&& outcome matches Err(EthPirError::Io { kind, message })
            &&& kind == ErrorKind::InvalidData
            &&& message@ == key_count_message(keys, state.mphf_len as nat)
        },
    }
}

/// The records that a checkpoint's keys and a map give back to the slots of a
/// directory, base and tail, and how many of the tail were among them.
pub open spec fn placed_back<C: RecordCodec>(
    state: DirectoryState,
    keys: Seq<Address>,
    entries: Seq<(Address, C::Value)>,
    map: Map<Address, C::Value>,
    slots: Seq<usize>,
) -> (Seq<Record>, nat) {
    let base = checkpoint_placed::<C>(records::vacant_records(state.addressed()), keys, map);
    let tail = placements_between::<C>(
        entries,
        slots,
        state.mphf_len as nat,
        state.addressed(),
    );
    (records::scattered(base, tail), tail.len())
}

/// The state of a directory of which nothing changed but that its tail now makes
/// it address `n` slots.
pub open spec fn grown_to(state: DirectoryState, n: nat) -> DirectoryState {
    DirectoryState { delta_len: (n - state.mphf_len) as usize, ..state }
}

/// Where every slot starts out empty, the slots of the base that were filled are
/// those whose address comes back; those and the ones that stay empty are all.
proof fn lemma_base_counts<C: RecordCodec>(n: nat, keys: Seq<Address>, map: Map<Address, C::Value>)
    requires
        keys.len() <= n,
    ensures
        count(
            keys.len(),
            |s: int|
                slot_placed(
                    checkpoint_placed::<C>(records::vacant_records(n), keys, map),
                    keys,
                    s,
                ),
        ) == count(keys.len(), |s: int| comes_back(keys[s], map)),
        count(keys.len(), |s: int| comes_back(keys[s], map)) + count(
            keys.len(),
            |s: int| !comes_back(keys[s], map),
        ) == keys.len(),
{
    let base = checkpoint_placed::<C>(records::vacant_records(n), keys, map);
    let placed = |s: int| slot_placed(base, keys, s);
    let filled = |s: int| comes_back(keys[s], map);
    let vacant = |s: int| !comes_back(keys[s], map);
    assert forall|s: int| 0 <= s < keys.len() implies #[trigger] placed(s) == filled(s) by {
        record::lemma_vacant();
        if filled(s) {
            record::lemma_record_for::<C>(keys[s], map[keys[s]]);
        }
    }
    lemma_count_same(keys.len(), placed, filled);
    assert forall|s: int| 0 <= s < keys.len() implies #[trigger] filled(s) != vacant(s) by {}
    lemma_count_split(keys.len(), filled, vacant);
}

/// What restoring reports: which slots of the base were filled and which stayed
/// empty, how many records went to the tail, and how many were appended.
pub open spec fn restore_report<V>(
    keys: Seq<Address>,
    map: Map<Address, V>,
    tail: nat,
    appended: nat,
) -> RestoreReport {
    RestoreReport {
        placed: (count(keys.len(), |s: int| comes_back(keys[s], map)) + tail) as usize,
        appended: appended as usize,
        vacant: count(keys.len(), |s: int| !comes_back(keys[s], map)) as usize,
    }
}

/// Whether a server can be restored with these calls: each may be made where it is
/// due, and a directory that is read back has a state whose slots can be counted.
pub open spec fn restore_callable<C: RecordCodec, W, D, R, X, P, S>(
    config: Config,
    layout: DatabaseLayout,
    blob: &[u8],
    entries: Seq<(Address, C::Value)>,
    read: R,
    index: X,
    push: P,
    build_server: S,
) -> bool where
    R: FnOnce(&[u8]) -> Result<(D, DirectoryState), WireError>,
    X: Fn(&D, &Address) -> usize,
    P: Fn(D, &Address) -> (D, Result<usize, KeywordError>),
    S: FnOnce(W, Config, DatabaseLayout, &Vec<Record>) -> (W, Result<ServingTimings, EthPirError>),
 {
    &&& call_requires(read, (blob,))
    &&& forall|d: D, addr: Address| #[trigger] call_requires(index, (&d, &addr))
    &&& forall|d: D, addr: Address| #[trigger] call_requires(push, (d, &addr))
    &&& forall|found: Result<(D, DirectoryState), WireError>| #[trigger]
        call_ensures(read, (blob,), found) ==> (found matches Ok((d, state)) ==> {
            &&& state.wf()
            &&& forall|world: W, records: Vec<Record>|
                state.addressed() <= records@.len() <= state.addressed() + entries.len()
                    ==> #[trigger] call_requires(build_server, (world, config, layout, &records))
        })
}

/// What restoring a server may give: the state of the server, its directory, the
/// outside world as it is then, and the report; or the failure.
///
/// The directory is what reading `blob` gave; a failure to read it, or keys that
/// do not match it, end the restart. Each address goes back to its slot, base
/// first, and those that the directory does not place are appended. The PIR layer
/// is handed exactly the records that come of it.
pub open spec fn restore_gives<C: RecordCodec, W, D, R, X, P, S>(
    world: W,
    config: Config,
    layout: DatabaseLayout,
    blob: &[u8],
    keys: Seq<Address>,
    entries: Seq<(Address, C::Value)>,
    map: Map<Address, C::Value>,
    read: R,
    index: X,
    push: P,
    build_server: S,
    outcome: Result<(ServerView, D, W, RestoreReport), EthPirError>,
) -> bool where
    R: FnOnce(&[u8]) -> Result<(D, DirectoryState), WireError>,
    X: Fn(&D, &Address) -> usize,
    P: Fn(D, &Address) -> (D, Result<usize, KeywordError>),
    S: FnOnce(W, Config, DatabaseLayout, &Vec<Record>) -> (W, Result<ServingTimings, EthPirError>),
 {
    exists|
        found: Result<(D, DirectoryState), WireError>,
        checked: Result<(D, DirectoryState), EthPirError>,
    |
        #![trigger call_ensures(read, (blob,), found), checked_gives(found, keys.len(), checked)]
        call_ensures(read, (blob,), found) && checked_gives(found, keys.len(), checked)
            && match checked {
            Err(e) => outcome == Err::<(ServerView, D, W, RestoreReport), _>(e),
            Ok((directory, state)) => exists|slots: Seq<usize>| #[trigger]
                indexed_by(index, directory, entries, slots) && restart_gives::<C, W, D, X, P, S>(
                    world,
                    config,
                    layout,
                    keys,
                    entries,
                    map,
                    directory,
                    state,
                    placed_back::<C>(state, keys, entries, map, slots),
                    index,
                    push,
                    build_server,
                    outcome,
                ),
        }
}

/// What restoring a server may give once the records that the directory knows are
/// back in their slots.
pub open spec fn restart_gives<C: RecordCodec, W, D, X, P, S>(
    world: W,
    config: Config,
    layout: DatabaseLayout,
    keys: Seq<Address>,
    entries: Seq<(Address, C::Value)>,
    map: Map<Address, C::Value>,
    directory: D,
    state: DirectoryState,
    placed: (Seq<Record>, nat),
    index: X,
    push: P,
    build_server: S,
    outcome: Result<(ServerView, D, W, RestoreReport), EthPirError>,
) -> bool where
    X: Fn(&D, &Address) -> usize,
    P: Fn(D, &Address) -> (D, Result<usize, KeywordError>),
    S: FnOnce(W, Config, DatabaseLayout, &Vec<Record>) -> (W, Result<ServingTimings, EthPirError>),
 {
    exists|grown: (D, Seq<Record>), appended: Result<(), EthPirError>| #[trigger]
        append_ends::<C, D, X, P>(index, push, entries, (directory, placed.0), grown, appended)
            && match appended {
            Err(e) => outcome == Err::<(ServerView, D, W, RestoreReport), _>(e),
            Ok(()) => exists|
                handed: Vec<Record>,
                ready: (W, Result<ServingTimings, EthPirError>),
            |
                handed@ == grown.1 && #[trigger] call_ensures(
                    build_server,
                    (world, config, layout, &handed),
                    ready,
                ) && match ready.1 {
                    Err(e) => outcome == Err::<(ServerView, D, W, RestoreReport), _>(e),
                    Ok(_) => outcome == Ok::<_, EthPirError>(
                        (
                            ServerView {
                                directory: grown_to(state, grown.1.len()),
                                records: grown.1,
                                served: grown.1,
                                pending: 0,
                            },
                            grown.0,
                            ready.0,
                            restore_report(
                                keys,
                                map,
                                placed.1,
                                (grown.1.len() - placed.0.len()) as nat,
                            ),
                        ),
                    ),
                },
        }
}

impl<C: RecordCodec> EthPirServer<C> {
    /// The index state from which a server restarts with every address where it is.
    ///
    /// `write` writes the directory at the end of a buffer, in wire form.
    pub fn checkpoint<W>(&self, write: W) -> (result: Result<KeywordCheckpoint, EthPirError>) where
        W: FnOnce(Vec<u8>) -> (Vec<u8>, Result<(), WireError>),

        requires
            self@.wf(),
            forall|buffer: Vec<u8>| #[trigger] call_requires(write, (buffer,)),
        ensures
            exists|written: Result<Vec<u8>, WireError>| #[trigger]
                keyword::blob_gives(write, written) && match written {
                    Err(e) => result == Err::<KeywordCheckpoint, _>(
                        EthPirError::Io { kind: e.kind, message: e.message },
                    ),
                    Ok(directory) => {
                        &&& result matches Ok(checkpoint)
                        &&& checkpoint.directory == directory
                        &&& checkpoint.version == self@.directory.version
                        &&& checkpoint.keys@ == base_keys(self@)
                        &&& checkpoint.keys@.len() == self@.directory.mphf_len
                        &&& forall|s: int|
                            0 <= s < checkpoint.keys@.len() ==> #[trigger] checkpoint.keys@[s]
                                == record::address_in(self@.records[s])
                    },
                },
    {
        let mphf_len = self.directory_state().mphf_len;
        let written = self.keyword().try_full(write);
        let ghost was_written = written;
        assert(keyword::blob_gives(write, was_written));
        match written {
            Ok(directory) => {
                let base = vstd::slice::slice_subrange(self.records().as_slice(), 0, mphf_len);
                assert(base@ =~= self@.records.take(mphf_len as int));
                Ok(
                    KeywordCheckpoint {
                        directory,
                        version: self.directory_state().version,
                        keys: checkpoint_keys(base),
                    },
                )
            },
            Err(e) => Err(EthPirError::from(e)),
        }
    }

    /// Restarts a server from a checkpoint, at the fixed deployment shape.
    pub fn restore<W, D, R, X, P, S>(
        world: W,
        directory: &[u8],
        keys: &[Address],
        map: &AddressMap<C::Value>,
        read: R,
        index: X,
        push: P,
        build_server: S,
    ) -> (result: Result<(Service<C, D, W>, RestoreReport), EthPirError>) where
        R: FnOnce(&[u8]) -> Result<(D, DirectoryState), WireError>,
        X: Fn(&D, &Address) -> usize,
        P: Fn(D, &Address) -> (D, Result<usize, KeywordError>),
        S: FnOnce(W, Config, DatabaseLayout, &Vec<Record>) -> (
            W,
            Result<ServingTimings, EthPirError>,
        ),

        requires
            map.wf(),
            keys@.len() + map.entries().len() <= usize::MAX,
            restore_callable::<C, W, D, R, X, P, S>(
                shape::default_config(),
                shape::default_layout(),
                directory,
                map.entries(),
                read,
                index,
                push,
                build_server,
            ),
        ensures
            result matches Ok((service, _)) ==> service.server@.wf(),
            restore_gives::<C, W, D, R, X, P, S>(
                world,
                shape::default_config(),
                shape::default_layout(),
                directory,
                keys@,
                map.entries(),
                map@,
                read,
                index,
                push,
                build_server,
                match result {
                    Ok((service, report)) => Ok(
                        (service.server@, service.directory, service.serving, report),
                    ),
                    Err(e) => Err(e),
                },
            ),
    {
        let (config, layout) = default_shape();
        Self::restore_with(
            world,
            config,
            layout,
            directory,
            keys,
            map,
            read,
            index,
            push,
            build_server,
        )
    }

    /// Restarts a server from a checkpoint: its directory in wire form, the address
    /// of each slot of the directory's base, and the values to serve.
    ///
    /// `read` gives the directory and its state from its wire form, `index` the slot
    /// that it names for an address, known to it or not; `push` adds an address to
    /// its tail; and `build_server` gets the PIR layer, in the outside world `world`,
    /// ready to serve the given records.
    pub fn restore_with<W, D, R, X, P, S>(
        world: W,
        config: Config,
        layout: DatabaseLayout,
        directory: &[u8],
        keys: &[Address],
        map: &AddressMap<C::Value>,
        read: R,
        index: X,
        push: P,
        build_server: S,
    ) -> (result: Result<(Service<C, D, W>, RestoreReport), EthPirError>) where
        R: FnOnce(&[u8]) -> Result<(D, DirectoryState), WireError>,
        X: Fn(&D, &Address) -> usize,
        P: Fn(D, &Address) -> (D, Result<usize, KeywordError>),
        S: FnOnce(W, Config, DatabaseLayout, &Vec<Record>) -> (
            W,
            Result<ServingTimings, EthPirError>,
        ),

        requires
            map.wf(),
            keys@.len() + map.entries().len() <= usize::MAX,
            restore_callable::<C, W, D, R, X, P, S>(
                config,
                layout,
                directory,
                map.entries(),
                read,
                index,
                push,
                build_server,
            ),
        ensures
            result matches Ok((service, _)) ==> service.server@.wf(),
            restore_gives::<C, W, D, R, X, P, S>(
                world,
                config,
                layout,
                directory,
                keys@,
                map.entries(),
                map@,
                read,
                index,
                push,
                build_server,
                match result {
                    Ok((service, report)) => Ok(
                        (service.server@, service.directory, service.serving, report),
                    ),
                    Err(e) => Err(e),
                },
            ),
    {
        let found = read(directory);
        let ghost was_found = found;
        let checked = check_checkpoint_directory(found, keys);
        assert(checked_gives(was_found, keys@.len(), checked));
        let (directory, state) = match checked {
            Ok(checked) => checked,
            Err(e) => {
                return Err(e);
            },
        };
        let mut report = RestoreReport::default();
        let mut records = zeroed_records(state.len());
        proof {
            lemma_base_counts::<C>(records@.len(), keys@, map@);
        }
        place_checkpoint_slots::<C>(keys, map, &mut records, &mut report);
        place_delta_slots::<C, D, X>(
            &directory,
            state.mphf_len,
            map,
            &mut records,
            &mut report,
            &index,
        );
        let (directory, appended) = append_new_slots::<C, D, X, P>(
            directory,
            map,
            &mut records,
            &mut report,
            &index,
            &push,
        );
        match appended {
            Ok(()) => {},
            Err(e) => {
                return Err(e);
            },
        }
        let (world, ready) = build_server(world, config, layout, &records);
        match ready {
            Ok(_) => {
                let state = DirectoryState {
                    delta_len: records.len() - state.mphf_len,
                    ..state
                };
                let server = Self::assemble(state, records);
                Ok((Service { server, directory, serving: world }, report))
            },
            Err(e) => Err(e),
        }
    }
}

} // verus!
