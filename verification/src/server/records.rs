//! The plaintext records: laying them out by slot, and reading them back.

use vstd::prelude::*;

use crate::address_map;
use crate::address_map::AddressMap;
use crate::bytes;
use crate::record;
use crate::record::{address_of, payload_of, Address, Record, RecordCodec};

verus! {

/// The most workers a bulk loop gets where nobody asked for a number.
pub const DEFAULT_MAX_THREADS: usize = 64;

/// How many workers a bulk loop over `items` items gets: the `requested` number
/// where one of at least one was asked for, else the `detected` processors up to
/// [`DEFAULT_MAX_THREADS`]; at least one, and no more than there are items.
pub open spec fn workers_for(items: nat, requested: Option<usize>, detected: nat) -> nat {
    if items <= 1 {
        1
    } else {
        let base: nat = match requested {
            Some(n) if n >= 1 => n as nat,
            _ => if detected < DEFAULT_MAX_THREADS {
                detected
            } else {
                DEFAULT_MAX_THREADS as nat
            },
        };
        if base < 1 {
            1
        } else if base > items {
            items
        } else {
            base
        }
    }
}

pub fn worker_count(items: usize, requested: Option<usize>, detected: usize) -> (workers: usize)
    ensures
        workers == workers_for(items as nat, requested, detected as nat),
        1 <= workers,
        items >= 1 ==> workers <= items,
{
    if items <= 1 {
        return 1;
    }
    let base: usize = match requested {
        Some(n) if n >= 1 => n,
        _ => if detected < DEFAULT_MAX_THREADS {
            detected
        } else {
            DEFAULT_MAX_THREADS
        },
    };
    if base < 1 {
        1
    } else if base > items {
        items
    } else {
        base
    }
}

/// The items that one of `workers` workers gets, out of `len`.
pub open spec fn share(len: nat, workers: nat) -> nat {
    if workers == 0 {
        len
    } else {
        (len + workers - 1) as nat / workers
    }
}

/// The size of a worker's share, rounded up so that the shares cover everything.
pub fn share_of(len: usize, workers: usize) -> (per: usize)
    requires
        workers >= 1,
    ensures
        per == share(len as nat, workers as nat),
{
    let whole: usize = len / workers;
    let rest: usize = len % workers;
    proof {
        lemma_ceiling(len as int, workers as int);
    }
    if rest == 0 {
        whole
    } else {
        whole + 1
    }
}

proof fn lemma_ceiling(len: int, workers: int)
    requires
        len >= 0,
        workers >= 1,
    ensures
        (len + workers - 1) / workers == len / workers + (if len % workers == 0 {
            0int
        } else {
            1
        }),
        len % workers != 0 ==> len / workers < len,
{
    let q = len / workers;
    let r = len % workers;
    vstd::arithmetic::div_mod::lemma_fundamental_div_mod(len, workers);
    if r == 0 {
        vstd::arithmetic::div_mod::lemma_fundamental_div_mod_converse(
            len + workers - 1,
            workers,
            q,
            workers - 1,
        );
    } else {
        assert(workers * (q + 1) == workers * q + workers) by (nonlinear_arith);
        vstd::arithmetic::div_mod::lemma_fundamental_div_mod_converse(
            len + workers - 1,
            workers,
            q + 1,
            r - 1,
        );
        assert(q < len) by (nonlinear_arith)
            requires
                len == workers * q + r,
                r > 0,
                workers >= 1,
                q >= 0 || len >= 0,
                r < workers,
        ;
    }
}

/// Whether item `i` of `len` falls into the share of worker `w`, where a share is
/// `per` items.
pub open spec fn in_share(i: int, w: int, per: int, len: int) -> bool {
    w * per <= i < w * per + per && i < len
}

/// Where the share of worker `w` starts, and how many of the `len` items it has.
pub fn worker_range(w: usize, per: usize, len: usize) -> (range: (usize, usize))
    requires
        w * per <= usize::MAX,
    ensures
        range.0 == w * per,
        forall|i: int| #[trigger]
            in_share(i, w as int, per as int, len as int) <==> range.0 <= i < range.0 + range.1,
        range.1 <= per,
        range.1 == if w * per + per <= len {
            per as int
        } else if w * per < len {
            len - w * per
        } else {
            0
        },
{
    let start: usize = w * per;
    let left: usize = if start < len {
        len - start
    } else {
        0
    };
    if per < left {
        (start, per)
    } else {
        (start, left)
    }
}

/// The shares cover all items, and no item is in two of them.
pub proof fn law_shares_partition(len: nat, workers: nat, i: int)
    requires
        workers >= 1,
        0 <= i < len,
    ensures
        ({
            let per = share(len, workers) as int;
            let w = i / per;
            &&& per >= 1
            &&& 0 <= w < workers
            &&& in_share(i, w, per, len as int)
            &&& forall|v: int| #[trigger] in_share(i, v, per, len as int) ==> v == w
        }),
{
    let per = share(len, workers) as int;
    lemma_ceiling(len as int, workers as int);
    vstd::arithmetic::div_mod::lemma_fundamental_div_mod(
        (len + workers - 1) as int,
        workers as int,
    );
    assert(per >= 1 && len <= workers * per) by (nonlinear_arith)
        requires
            len + workers - 1 == workers * per + (len + workers - 1) as int % (workers as int),
            0 <= (len + workers - 1) as int % (workers as int) < workers,
            len >= 1,
            workers >= 1,
    ;
    let w = i / per;
    vstd::arithmetic::div_mod::lemma_fundamental_div_mod(i, per);
    assert(w * per == per * w) by (nonlinear_arith);
    assert(0 <= w < workers) by (nonlinear_arith)
        requires
            i == per * w + i % per,
            0 <= i % per < per,
            0 <= i < len,
            len <= workers * per,
            per >= 1,
    ;
    assert forall|v: int| #[trigger] in_share(i, v, per, len as int) implies v == w by {
        assert(v == w) by (nonlinear_arith)
            requires
                v * per <= i < v * per + per,
                w * per <= i < w * per + per,
                per >= 1,
        ;
    }
}

/// `n` slots that nothing was written to.
pub open spec fn vacant_records(n: nat) -> Seq<Record> {
    Seq::new(n, |i: int| record::vacant_record())
}

pub fn zeroed_records(len: usize) -> (records: Vec<Record>)
    ensures
        records@ == vacant_records(len as nat),
        records@.len() == len,
{
    let zero: Record = [0u8; 64];
    proof {
        record::lemma_vacant();
        assert(zero@ =~= record::zeros(64));
        bytes::lemma_same_bytes(zero, record::vacant_record());
    }
    let mut records: Vec<Record> = Vec::with_capacity(len);
    for i in 0..len
        invariant
            zero == record::vacant_record(),
            records@ =~= vacant_records(i as nat),
    {
        records.push(zero);
    }
    records
}

/// What stands in the slots after each of `placements` was written, in order: a
/// slot number and the record that goes there.
pub open spec fn scattered(records: Seq<Record>, placements: Seq<(usize, Record)>) -> Seq<Record>
    decreases placements.len(),
{
    if placements.len() == 0 {
        records
    } else {
        let last = placements.last();
        scattered(records, placements.drop_last()).update(last.0 as int, last.1)
    }
}

/// Whether calling `place` on each of `keys` may have given `placements`.
pub open spec fn placed_by<F: Fn(usize, &Address) -> (usize, Record)>(
    place: F,
    keys: Seq<Address>,
    placements: Seq<(usize, Record)>,
) -> bool {
    &&& placements.len() == keys.len()
    &&& forall|i: int|
        0 <= i < keys.len() ==> call_ensures(
            place,
            (i as usize, &keys[i]),
            #[trigger] placements[i],
        )
}

/// Writes one record per key, where `place` says which slot it goes to.
pub fn scatter_records<F: Fn(usize, &Address) -> (usize, Record)>(
    dst: &mut Vec<Record>,
    keys: &[Address],
    place: F,
)
    requires
        old(dst)@.len() == keys@.len(),
        forall|i: usize|
            i < keys@.len() ==> #[trigger] call_requires(place, (i, &keys@[i as int])),
        forall|i: usize, to: (usize, Record)|
            i < keys@.len() && #[trigger] call_ensures(place, (i, &keys@[i as int]), to) ==> to.0
                < keys@.len(),
    ensures
        exists|placements: Seq<(usize, Record)>|
            placed_by(place, keys@, placements) && final(dst)@ == #[trigger] scattered(
                old(dst)@,
                placements,
            ),
{
    scatter_serial(dst, keys, &place);
}

fn scatter_serial<F: Fn(usize, &Address) -> (usize, Record)>(
    dst: &mut Vec<Record>,
    keys: &[Address],
    place: &F,
)
    requires
        old(dst)@.len() == keys@.len(),
        forall|i: usize|
            i < keys@.len() ==> #[trigger] call_requires(*place, (i, &keys@[i as int])),
        forall|i: usize, to: (usize, Record)|
            i < keys@.len() && #[trigger] call_ensures(*place, (i, &keys@[i as int]), to) ==> to.0
                < keys@.len(),
    ensures
        exists|placements: Seq<(usize, Record)>|
            placed_by(*place, keys@, placements) && final(dst)@ == #[trigger] scattered(
                old(dst)@,
                placements,
            ),
{
    let ghost mut placements = Seq::<(usize, Record)>::empty();
    let ghost before = dst@;
    for i in 0..keys.len()
        invariant
            before.len() == keys@.len(),
            dst@.len() == keys@.len(),
            forall|i: usize|
                i < keys@.len() ==> #[trigger] call_requires(*place, (i, &keys@[i as int])),
            forall|i: usize, to: (usize, Record)|
                i < keys@.len() && #[trigger] call_ensures(*place, (i, &keys@[i as int]), to)
                    ==> to.0 < keys@.len(),
            placements.len() == i,
            forall|j: int|
                0 <= j < i ==> call_ensures(
                    *place,
                    (j as usize, &keys@[j]),
                    #[trigger] placements[j],
                ),
            dst@ == scattered(before, placements),
    {
        let (slot, record) = place(i, &keys[i]);
        let ghost earlier = placements;
        proof {
            placements = placements.push((slot, record));
            assert(placements.drop_last() =~= earlier);
        }
        dst[slot] = record;
    }
    proof {
        assert(placed_by(*place, keys@, placements));
    }
}

/// The addresses of a map, in the order of its entries.
pub open spec fn addresses_of<V>(entries: Seq<(Address, V)>) -> Seq<Address> {
    Seq::new(entries.len(), |i: int| entries[i].0)
}

/// The addresses a map holds, each once.
pub fn collect_keys<V: Copy>(map: &AddressMap<V>) -> (keys: Vec<Address>)
    requires
        map.wf(),
    ensures
        keys@ == addresses_of(map.entries()),
        keys@.len() == map.entries().len(),
        keys@.no_duplicates(),
        forall|addr: Address| keys@.contains(addr) <==> map@.contains_key(addr),
{
    let mut keys: Vec<Address> = Vec::with_capacity(map.len());
    let n = map.len();
    for i in 0..n
        invariant
            n == map.entries().len(),
            keys@ =~= addresses_of(map.entries()).take(i as int),
    {
        keys.push(map.entry(i).0);
    }
    proof {
        let entries = map.entries();
        map.lemma_distinct();
        assert(keys@ =~= addresses_of(entries));
        assert forall|i: int, j: int| 0 <= i < keys@.len() && 0 <= j < keys@.len() && i
            != j implies keys@[i] != keys@[j] by {
            assert(entries[i].0 != entries[j].0) by {
                if i < j {
                    assert(entries[i].0 != entries[j].0);
                } else {
                    assert(entries[j].0 != entries[i].0);
                }
            }
        }
        assert forall|addr: Address| keys@.contains(addr) <==> map@.contains_key(addr) by {
            if keys@.contains(addr) {
                let i = choose|i: int| 0 <= i < keys@.len() && keys@[i] == addr;
                assert(entries[i].0 == addr);
            }
            if map@.contains_key(addr) {
                let i = address_map::position_of(entries, addr);
                assert(entries[i].0 == addr);
                assert(keys@[i] == addr);
            }
        }
    }
    keys
}

/// The records of `entries`, each with the slot it goes to.
pub open spec fn placements_for<C: RecordCodec>(
    entries: Seq<(Address, C::Value)>,
    slots: Seq<usize>,
) -> Seq<(usize, Record)> {
    Seq::new(
        entries.len(),
        |i: int| (slots[i], record::record_for::<C>(entries[i].0, entries[i].1)),
    )
}

/// One record per address of `map`, each in the slot that `slots` names for it:
/// `slots` has one slot per entry, in the order of the entries.
pub fn scatter_map_records<C: RecordCodec>(map: &AddressMap<C::Value>, slots: &[usize]) -> (records:
    Vec<Record>)
    requires
        map.wf(),
        slots@.len() == map.entries().len(),
        forall|i: int| 0 <= i < slots@.len() ==> #[trigger] slots@[i] < slots@.len(),
    ensures
        records@ == scattered(
            vacant_records(slots@.len()),
            placements_for::<C>(map.entries(), slots@),
        ),
        records@.len() == slots@.len(),
{
    let keys = collect_keys(map);
    let mut records = zeroed_records(keys.len());
    let ghost entries = map.entries();
    let place = |i: usize, addr: &Address| -> (to: (usize, Record))
        requires
            i < map.entries().len(),
            slots@.len() == map.entries().len(),
            *addr == map.entries()[i as int].0,
        ensures
            to == placements_for::<C>(map.entries(), slots@)[i as int],
        {
            let value = map.entry(i).1;
            (slots[i], record::record_of::<C>(addr, &value))
        };
    scatter_records(&mut records, keys.as_slice(), place);
    proof {
        let before = vacant_records(slots@.len());
        let placements = choose|placements: Seq<(usize, Record)>|
            placed_by(place, keys@, placements) && records@ == #[trigger] scattered(
                before,
                placements,
            );
        assert(placements =~= placements_for::<C>(entries, slots@)) by {
            assert forall|i: int| 0 <= i < placements.len() implies placements[i]
                == placements_for::<C>(entries, slots@)[i] by {
                assert(call_ensures(place, (i as usize, &keys@[i]), placements[i]));
            }
        }
        lemma_scattered_len(before, placements);
    }
    records
}

/// Writing to slots leaves their number as it is.
pub proof fn lemma_scattered_len(records: Seq<Record>, placements: Seq<(usize, Record)>)
    requires
        forall|i: int| 0 <= i < placements.len() ==> (#[trigger] placements[i]).0 < records.len(),
    ensures
        scattered(records, placements).len() == records.len(),
    decreases placements.len(),
{
    if placements.len() > 0 {
        let fewer = placements.drop_last();
        assert forall|i: int| 0 <= i < fewer.len() implies (#[trigger] fewer[i]).0
            < records.len() by {
            assert(fewer[i] == placements[i]);
        }
        lemma_scattered_len(records, fewer);
        assert(placements.last() == placements[placements.len() - 1]);
    }
}

/// Whether `slots` gives each of `n` things a slot of its own among `n` slots.
pub open spec fn one_slot_each(slots: Seq<usize>, n: nat) -> bool {
    &&& slots.len() == n
    &&& slots.no_duplicates()
    &&& forall|i: int| 0 <= i < n ==> #[trigger] slots[i] < n
}

/// Where no two placements share a slot, each record ends up in its slot, and
/// every other slot keeps what it had.
pub proof fn lemma_scattered_at(records: Seq<Record>, placements: Seq<(usize, Record)>)
    requires
        forall|i: int| 0 <= i < placements.len() ==> (#[trigger] placements[i]).0 < records.len(),
        forall|i: int, j: int|
            0 <= i < j < placements.len() ==> (#[trigger] placements[i]).0 != (
            #[trigger] placements[j]).0,
    ensures
        scattered(records, placements).len() == records.len(),
        forall|i: int|
            0 <= i < placements.len() ==> scattered(records, placements)[(
            #[trigger] placements[i]).0 as int] == placements[i].1,
        forall|s: int|
            0 <= s < records.len() && (forall|i: int|
                0 <= i < placements.len() ==> (#[trigger] placements[i]).0 != s)
                ==> #[trigger] scattered(records, placements)[s] == records[s],
    decreases placements.len(),
{
    lemma_scattered_len(records, placements);
    if placements.len() > 0 {
        let fewer = placements.drop_last();
        assert forall|i: int| 0 <= i < fewer.len() implies #[trigger] fewer[i]
            == placements[i] by {}
        lemma_scattered_at(records, fewer);
        let n = placements.len() - 1;
        assert(placements.last() == placements[n]);
        let result = scattered(records, placements);
        assert forall|i: int| 0 <= i < placements.len() implies result[(
        #[trigger] placements[i]).0 as int] == placements[i].1 by {
            if i < n {
                assert(fewer[i] == placements[i]);
                assert(placements[i].0 != placements[n].0);
            }
        }
        assert forall|s: int|
            0 <= s < records.len() && (forall|i: int|
                0 <= i < placements.len() ==> (#[trigger] placements[i]).0
                    != s) implies #[trigger] result[s] == records[s] by {
            assert(placements[n].0 != s);
            assert forall|i: int| 0 <= i < fewer.len() implies (#[trigger] fewer[i]).0 != s by {
                assert(fewer[i] == placements[i]);
            }
            assert(scattered(records, fewer)[s] == records[s]);
        }
    }
}

/// Where no two records go to one slot, the order in which they are written does
/// not matter, so that the work can be shared out.
pub proof fn law_scatter_order_is_free(
    records: Seq<Record>,
    one: Seq<(usize, Record)>,
    other: Seq<(usize, Record)>,
)
    requires
        forall|i: int| 0 <= i < one.len() ==> (#[trigger] one[i]).0 < records.len(),
        forall|i: int, j: int|
            0 <= i < j < one.len() ==> (#[trigger] one[i]).0 != (#[trigger] one[j]).0,
        forall|i: int, j: int|
            0 <= i < j < other.len() ==> (#[trigger] other[i]).0 != (#[trigger] other[j]).0,
        forall|to: (usize, Record)| one.contains(to) <==> #[trigger] other.contains(to),
    ensures
        scattered(records, one) == scattered(records, other),
{
    assert forall|i: int| 0 <= i < other.len() implies (#[trigger] other[i]).0
        < records.len() by {
        assert(other.contains(other[i]));
        let j = choose|j: int| 0 <= j < one.len() && one[j] == other[i];
        assert(one[j].0 < records.len());
    }
    lemma_scattered_at(records, one);
    lemma_scattered_at(records, other);
    assert forall|s: int| 0 <= s < records.len() implies #[trigger] scattered(records, one)[s]
        == scattered(records, other)[s] by {
        if exists|i: int| 0 <= i < one.len() && (#[trigger] one[i]).0 == s {
            let i = choose|i: int| 0 <= i < one.len() && (#[trigger] one[i]).0 == s;
            assert(one.contains(one[i]));
            assert(other.contains(one[i]));
            let j = choose|j: int| 0 <= j < other.len() && other[j] == one[i];
            assert(scattered(records, other)[other[j].0 as int] == other[j].1);
        } else {
            assert forall|j: int| 0 <= j < other.len() implies (#[trigger] other[j]).0 != s by {
                assert(other.contains(other[j]));
                let i = choose|i: int| 0 <= i < one.len() && one[i] == other[j];
                assert(one[i].0 != s);
            }
        }
    }
    assert(scattered(records, one) =~= scattered(records, other));
}

/// With one slot for each address, every address's record stands in its slot.
pub proof fn law_scatter_places_every_record<C: RecordCodec>(
    entries: Seq<(Address, C::Value)>,
    slots: Seq<usize>,
)
    requires
        one_slot_each(slots, entries.len()),
    ensures
        forall|i: int|
            0 <= i < entries.len() ==> scattered(
                vacant_records(entries.len()),
                placements_for::<C>(entries, slots),
            )[#[trigger] slots[i] as int] == record::record_for::<C>(entries[i].0, entries[i].1),
{
    let placements = placements_for::<C>(entries, slots);
    let start = vacant_records(entries.len());
    assert forall|i: int, j: int| 0 <= i < j < placements.len() implies (
    #[trigger] placements[i]).0 != (#[trigger] placements[j]).0 by {
        assert(slots[i] != slots[j]);
    }
    assert forall|i: int| 0 <= i < placements.len() implies (#[trigger] placements[i]).0
        < start.len() by {
        assert(slots[i] < entries.len());
    }
    lemma_scattered_at(start, placements);
    assert forall|i: int| 0 <= i < entries.len() implies scattered(start, placements)[
        #[trigger] slots[i] as int
    ] == record::record_for::<C>(entries[i].0, entries[i].1) by {
        assert(placements[i].0 == slots[i]);
    }
}

/// With one slot for each of `n` things, no slot is left over.
pub proof fn lemma_no_slot_left(slots: Seq<usize>, n: nat, s: int) -> (i: int)
    requires
        one_slot_each(slots, n),
        0 <= s < n,
    ensures
        0 <= i < n,
        slots[i] == s,
{
    let numbers = slots.map_values(|u: usize| u as int);
    let used = numbers.to_set();
    let all = vstd::set_lib::set_int_range(0, n as int);
    assert(numbers.no_duplicates()) by {
        assert forall|i: int, j: int| 0 <= i < numbers.len() && 0 <= j < numbers.len() && i
            != j implies numbers[i] != numbers[j] by {
            assert(slots[i] != slots[j]);
        }
    }
    numbers.unique_seq_to_set();
    vstd::set_lib::lemma_int_range(0, n as int);
    assert(used.subset_of(all)) by {
        assert forall|u: int| used.contains(u) implies all.contains(u) by {
            let k = choose|k: int| 0 <= k < numbers.len() && numbers[k] == u;
            assert(slots[k] < n);
        }
    }
    vstd::set_lib::lemma_subset_equality(used, all);
    assert(all.contains(s));
    assert(numbers.contains(s));
    choose|i: int| 0 <= i < numbers.len() && numbers[i] == s
}

/// What a list of records spells out: each record's value under its address, the
/// later record winning where two share an address.
pub open spec fn records_map<C: RecordCodec>(records: Seq<Record>) -> Map<Address, C::Value>
    decreases records.len(),
{
    if records.len() == 0 {
        Map::empty()
    } else {
        records_map::<C>(records.drop_last()).insert(
            record::address_in(records.last()),
            record::value_in::<C>(records.last()),
        )
    }
}

/// An address is in the map of `records` where some record has it; where no two
/// records share an address, it maps to that record's value.
pub proof fn lemma_records_map<C: RecordCodec>(records: Seq<Record>)
    ensures
        forall|addr: Address| #[trigger]
            records_map::<C>(records).contains_key(addr) <==> exists|s: int|
                0 <= s < records.len() && record::address_in(#[trigger] records[s]) == addr,
        (forall|s: int, t: int|
            0 <= s < t < records.len() ==> record::address_in(#[trigger] records[s])
                != record::address_in(#[trigger] records[t])) ==> forall|s: int|
            0 <= s < records.len() ==> records_map::<C>(records)[record::address_in(
                #[trigger] records[s],
            )] == record::value_in::<C>(records[s]),
    decreases records.len(),
{
    if records.len() > 0 {
        let fewer = records.drop_last();
        let n = records.len() - 1;
        lemma_records_map::<C>(fewer);
        assert forall|s: int| 0 <= s < fewer.len() implies #[trigger] fewer[s] == records[s] by {}
        assert(records.last() == records[n]);
        let map = records_map::<C>(records);
        assert forall|addr: Address| #[trigger] map.contains_key(addr) <==> exists|s: int|
            0 <= s < records.len() && record::address_in(#[trigger] records[s]) == addr by {
            if map.contains_key(addr) {
                if addr == record::address_in(records[n]) {
                } else {
                    assert(records_map::<C>(fewer).contains_key(addr));
                    let s = choose|s: int|
                        0 <= s < fewer.len() && record::address_in(#[trigger] fewer[s]) == addr;
                    assert(record::address_in(records[s]) == addr);
                }
            }
            if exists|s: int|
                0 <= s < records.len() && record::address_in(#[trigger] records[s]) == addr {
                let s = choose|s: int|
                    0 <= s < records.len() && record::address_in(#[trigger] records[s]) == addr;
                if s < n {
                    assert(record::address_in(fewer[s]) == addr);
                    assert(records_map::<C>(fewer).contains_key(addr));
                }
            }
        }
        if forall|s: int, t: int|
            0 <= s < t < records.len() ==> record::address_in(#[trigger] records[s])
                != record::address_in(#[trigger] records[t]) {
            assert forall|s: int, t: int| 0 <= s < t < fewer.len() implies record::address_in(
                #[trigger] fewer[s],
            ) != record::address_in(#[trigger] fewer[t]) by {
                assert(record::address_in(records[s]) != record::address_in(records[t]));
            }
            assert forall|s: int| 0 <= s < records.len() implies map[record::address_in(
                #[trigger] records[s],
            )] == record::value_in::<C>(records[s]) by {
                if s < n {
                    assert(fewer[s] == records[s]);
                    assert(record::address_in(records[s]) != record::address_in(records[n]));
                }
            }
        }
    }
}

/// Laying out a map by slot and reading the records back gives the same map,
/// where the codec reads back what it wrote: a rebuild of the keyword index loses
/// no address and changes no value.
pub proof fn law_rebuild_keeps_the_map<C: RecordCodec>(
    entries: Seq<(Address, C::Value)>,
    slots: Seq<usize>,
)
    requires
        address_map::distinct_addresses(entries),
        one_slot_each(slots, entries.len()),
        forall|i: int|
            0 <= i < entries.len() ==> C::decoded(C::encoded((#[trigger] entries[i]).1))
                == entries[i].1,
    ensures
        records_map::<C>(
            scattered(vacant_records(entries.len()), placements_for::<C>(entries, slots)),
        ) == address_map::entries_as_map(entries),
{
    let records = scattered(vacant_records(entries.len()), placements_for::<C>(entries, slots));
    let n = entries.len();
    law_scatter_places_every_record::<C>(entries, slots);
    assert(records.len() == n) by {
        let placements = placements_for::<C>(entries, slots);
        assert forall|i: int| 0 <= i < placements.len() implies (#[trigger] placements[i]).0
            < n by {
            assert(slots[i] < n);
        }
        lemma_scattered_len(vacant_records(n), placements);
    }
    assert forall|i: int| 0 <= i < n implies record::address_in(
        records[#[trigger] slots[i] as int],
    ) == entries[i].0 && record::value_in::<C>(records[slots[i] as int]) == entries[i].1 by {
        record::lemma_record_for::<C>(entries[i].0, entries[i].1);
        assert(C::decoded(C::encoded(entries[i].1)) == entries[i].1);
    }
    lemma_records_map::<C>(records);
    assert forall|s: int, t: int| 0 <= s < t < records.len() implies record::address_in(
        #[trigger] records[s],
    ) != record::address_in(#[trigger] records[t]) by {
        let i = lemma_no_slot_left(slots, n, s);
        let j = lemma_no_slot_left(slots, n, t);
        assert(slots[i] != slots[j]);
        if i < j {
            assert(entries[i].0 != entries[j].0);
        } else {
            assert(entries[j].0 != entries[i].0);
        }
    }
    let left = records_map::<C>(records);
    let right = address_map::entries_as_map(entries);
    assert forall|addr: Address| left.contains_key(addr) <==> right.contains_key(addr) by {
        if left.contains_key(addr) {
            let s = choose|s: int|
                0 <= s < records.len() && record::address_in(#[trigger] records[s]) == addr;
            let i = lemma_no_slot_left(slots, n, s);
            assert(entries[i].0 == addr);
        }
        if right.contains_key(addr) {
            let i = address_map::position_of(entries, addr);
            assert(entries[i].0 == addr);
            assert(record::address_in(records[slots[i] as int]) == addr);
        }
    }
    assert forall|addr: Address| left.contains_key(addr) implies left[addr] == right[addr] by {
        let i = address_map::position_of(entries, addr);
        assert(right.contains_key(addr));
        assert(entries[i].0 == addr);
        address_map::lemma_entry_maps(entries, i);
        let r = records[slots[i] as int];
        assert(left[record::address_in(r)] == record::value_in::<C>(r));
    }
    assert(left =~= right);
}

/// Reads the records back into a map.
pub fn records_to_map<C: RecordCodec>(records: &[Record]) -> (map: AddressMap<C::Value>)
    ensures
        map.wf(),
        map@ == records_map::<C>(records@),
{
    let mut map = AddressMap::<C::Value>::new();
    for i in 0..records.len()
        invariant
            map.wf(),
            map@ == records_map::<C>(records@.take(i as int)),
    {
        let addr = address_of(&records[i]);
        let value = C::decode(payload_of(&records[i]));
        map.insert(addr, value);
        assert(records@.take(i + 1).drop_last() =~= records@.take(i as int));
    }
    assert(records@.take(records@.len() as int) =~= records@);
    map
}

/// A number of workers that was asked for is given, as far as there are items, and
/// is not capped; where none was asked for, or zero, there are as many as there are
/// processors, as far as there are items, but never more than 64.
pub proof fn law_workers_follow_the_request(
    items: nat,
    requested: Option<usize>,
    detected: nat,
)
    ensures
        ({
            let workers = workers_for(items, requested, detected);
            &&& 1 <= workers
            &&& items >= 1 ==> workers <= items
            &&& requested matches Some(n) ==> (1 <= n <= items ==> workers == n)
            &&& requested matches Some(n) ==> (1 <= items <= n ==> workers == items)
            &&& items == 0 ==> workers == 1
            &&& (requested is None || requested == Some(0usize)) ==> {
                &&& workers <= 64
                &&& detected == 0 ==> workers == 1
                &&& 1 <= detected <= items && detected <= 64 ==> workers == detected
                &&& 1 <= items <= detected && items <= 64 ==> workers == items
                &&& 64 <= items && 64 <= detected ==> workers == 64
            }
        }),
{
}

/// No worker gets more than its share: with one item less each, the workers would
/// not get through.
pub proof fn law_shares_are_no_larger_than_needed(len: nat, workers: nat)
    requires
        workers >= 1,
    ensures
        len >= 1 ==> (share(len, workers) - 1) * workers < len <= share(len, workers) * workers,
        len == 0 ==> share(len, workers) == 0,
{
    let per = share(len, workers) as int;
    lemma_ceiling(len as int, workers as int);
    vstd::arithmetic::div_mod::lemma_fundamental_div_mod(
        (len + workers - 1) as int,
        workers as int,
    );
    assert((per - 1) * workers < len <= per * workers) by (nonlinear_arith)
        requires
            len + workers - 1 == workers * per + (len + workers - 1) as int % (workers as int),
            0 <= (len + workers - 1) as int % (workers as int) < workers,
            workers >= 1,
    ;
}

/// A worker's items are those of its number times the share, up to the next worker's
/// and to the end.
pub proof fn law_shares_follow_each_other(i: int, w: int, per: int, len: int)
    ensures
        in_share(i, w, per, len) <==> w * per <= i < (w + 1) * per && i < len,
{
    assert((w + 1) * per == w * per + per) by (nonlinear_arith);
}

/// A slot that no record was written to keeps what it had.
proof fn unwritten_stays(records: Seq<Record>, placements: Seq<(usize, Record)>, s: int)
    requires
        0 <= s < records.len(),
        forall|i: int| 0 <= i < placements.len() ==> (#[trigger] placements[i]).0 < records.len(),
        forall|i: int| 0 <= i < placements.len() ==> (#[trigger] placements[i]).0 != s,
    ensures
        scattered(records, placements)[s] == records[s],
    decreases placements.len(),
{
    if placements.len() > 0 {
        let fewer = placements.drop_last();
        assert forall|i: int| 0 <= i < fewer.len() implies (#[trigger] fewer[i]).0 != s
            && fewer[i].0 < records.len() by {
            assert(fewer[i] == placements[i]);
        }
        lemma_scattered_len(records, fewer);
        unwritten_stays(records, fewer, s);
        assert(placements[placements.len() - 1].0 != s);
    }
}

/// A slot holds record `i` where that is the last one written to it.
proof fn last_write_stays(records: Seq<Record>, placements: Seq<(usize, Record)>, i: int)
    requires
        0 <= i < placements.len(),
        forall|j: int| 0 <= j < placements.len() ==> (#[trigger] placements[j]).0 < records.len(),
        forall|j: int|
            i < j < placements.len() ==> (#[trigger] placements[j]).0 != placements[i].0,
    ensures
        scattered(records, placements)[placements[i].0 as int] == placements[i].1,
    decreases placements.len(),
{
    let fewer = placements.drop_last();
    let n = placements.len() - 1;
    assert forall|j: int| 0 <= j < fewer.len() implies (#[trigger] fewer[j]).0 < records.len() by {
        assert(fewer[j] == placements[j]);
    }
    lemma_scattered_len(records, fewer);
    assert(placements.last() == placements[n]);
    if i < n {
        assert(fewer[i] == placements[i]);
        assert forall|j: int| i < j < fewer.len() implies (#[trigger] fewer[j]).0 != fewer[i].0 by {
            assert(fewer[j] == placements[j]);
        }
        last_write_stays(records, fewer, i);
        assert(placements[n].0 != placements[i].0);
    }
}

/// Of the records written to one slot the last one stays; a slot that none was
/// written to keeps what it had.
pub proof fn law_scatter_keeps_the_last(records: Seq<Record>, placements: Seq<(usize, Record)>, s: int)
    requires
        forall|i: int| 0 <= i < placements.len() ==> (#[trigger] placements[i]).0 < records.len(),
        0 <= s < records.len(),
    ensures
        scattered(records, placements).len() == records.len(),
        (forall|i: int| 0 <= i < placements.len() ==> (#[trigger] placements[i]).0 != s)
            ==> scattered(records, placements)[s] == records[s],
        forall|i: int|
            0 <= i < placements.len() && (#[trigger] placements[i]).0 == s && (forall|j: int|
                i < j < placements.len() ==> (#[trigger] placements[j]).0 != s) ==> scattered(
                records,
                placements,
            )[s] == placements[i].1,
{
    lemma_scattered_len(records, placements);
    if forall|i: int| 0 <= i < placements.len() ==> (#[trigger] placements[i]).0 != s {
        unwritten_stays(records, placements, s);
    }
    assert forall|i: int|
        0 <= i < placements.len() && (#[trigger] placements[i]).0 == s && (forall|j: int|
            i < j < placements.len() ==> (#[trigger] placements[j]).0 != s) implies scattered(
        records,
        placements,
    )[s] == placements[i].1 by {
        last_write_stays(records, placements, i);
    }
}

/// The addresses of a map are those of its entries, one by one.
pub proof fn law_addresses_are_those_of_the_entries<V>(entries: Seq<(Address, V)>)
    ensures
        addresses_of(entries).len() == entries.len(),
        forall|i: int| 0 <= i < entries.len() ==> #[trigger] addresses_of(entries)[i] == entries[i].0,
{
}

/// Slots that nothing was written to are as many as were asked for, and zero in
/// every byte.
pub proof fn law_new_slots_are_empty(n: nat)
    ensures
        vacant_records(n).len() == n,
        forall|s: int, i: int|
            0 <= s < n && 0 <= i < 64 ==> #[trigger] vacant_records(n)[s]@[i] == 0,
{
    record::law_vacant_is_zero();
}

/// What the records say of the address in slot `s`, where no later slot has it.
proof fn said_by_the_last<C: RecordCodec>(records: Seq<Record>, s: int)
    requires
        0 <= s < records.len(),
        forall|t: int|
            s < t < records.len() ==> record::address_in(#[trigger] records[t])
                != record::address_in(records[s]),
    ensures
        records_map::<C>(records).contains_key(record::address_in(records[s])),
        records_map::<C>(records)[record::address_in(records[s])] == C::decoded(
            record::payload_in(records[s]),
        ),
    decreases records.len(),
{
    let fewer = records.drop_last();
    let n = records.len() - 1;
    assert(records.last() == records[n]);
    if s < n {
        assert(fewer[s] == records[s]);
        assert forall|t: int| s < t < fewer.len() implies record::address_in(#[trigger] fewer[t])
            != record::address_in(fewer[s]) by {
            assert(fewer[t] == records[t]);
        }
        said_by_the_last::<C>(fewer, s);
        assert(record::address_in(records[n]) != record::address_in(records[s]));
    }
}

/// A slot that has an address of which the records say something.
proof fn slot_that_says<C: RecordCodec>(records: Seq<Record>, addr: Address) -> (s: int)
    requires
        records_map::<C>(records).contains_key(addr),
    ensures
        0 <= s < records.len(),
        record::address_in(records[s]) == addr,
    decreases records.len(),
{
    if records.len() == 0 {
        0
    } else if record::address_in(records.last()) == addr {
        records.len() - 1
    } else {
        let s = slot_that_says::<C>(records.drop_last(), addr);
        assert(records.drop_last()[s] == records[s]);
        s
    }
}

/// What a list of records says of an address is what the last record with that
/// address says, in its bytes; of an address that no record has, it says nothing.
pub proof fn law_records_say_what_the_last_one_says<C: RecordCodec>(records: Seq<Record>)
    ensures
        forall|s: int|
            0 <= s < records.len() && (forall|t: int|
                s < t < records.len() ==> record::address_in(#[trigger] records[t])
                    != record::address_in(records[s])) ==> records_map::<C>(records).contains_key(
                record::address_in(#[trigger] records[s]),
            ) && records_map::<C>(records)[record::address_in(records[s])] == C::decoded(
                record::payload_in(records[s]),
            ),
        forall|addr: Address| #[trigger]
            records_map::<C>(records).contains_key(addr) ==> exists|s: int|
                0 <= s < records.len() && record::address_in(#[trigger] records[s]) == addr,
{
    assert forall|s: int|
        0 <= s < records.len() && (forall|t: int|
            s < t < records.len() ==> record::address_in(#[trigger] records[t])
                != record::address_in(records[s])) implies records_map::<C>(records).contains_key(
        record::address_in(#[trigger] records[s]),
    ) && records_map::<C>(records)[record::address_in(records[s])] == C::decoded(
        record::payload_in(records[s]),
    ) by {
        said_by_the_last::<C>(records, s);
    }
    assert forall|addr: Address| #[trigger]
        records_map::<C>(records).contains_key(addr) implies exists|s: int|
        0 <= s < records.len() && record::address_in(#[trigger] records[s]) == addr by {
        let s = slot_that_says::<C>(records, addr);
        assert(record::address_in(records[s]) == addr);
    }
}

/// Each key is placed once, at its own position, by a call that is given that key.
pub proof fn law_every_key_is_placed<F: Fn(usize, &Address) -> (usize, Record)>(
    place: F,
    keys: Seq<Address>,
    placements: Seq<(usize, Record)>,
)
    requires
        placed_by(place, keys, placements),
    ensures
        placements.len() == keys.len(),
        forall|i: int|
            0 <= i < keys.len() ==> call_ensures(
                place,
                (i as usize, &keys[i]),
                #[trigger] placements[i],
            ),
{
}

} // verus!
