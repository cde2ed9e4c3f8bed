//! An address -> value map that remembers the order its addresses came in.

use vstd::prelude::*;

use std::collections::HashMap;

use crate::record::{same_address, Address};

verus! {

broadcast use vstd::std_specs::hash::group_hash_axioms;

/// Whether no address stands in `entries` twice.
pub open spec fn distinct_addresses<V>(entries: Seq<(Address, V)>) -> bool {
    forall|i: int, j: int|
        0 <= i < j < entries.len() ==> (#[trigger] entries[i]).0 != (#[trigger] entries[j]).0
}

/// Whether `entries` holds something under `addr`.
pub open spec fn holds_address<V>(entries: Seq<(Address, V)>, addr: Address) -> bool {
    exists|i: int| 0 <= i < entries.len() && (#[trigger] entries[i]).0 == addr
}

/// A position at which `entries` holds `addr`.
pub open spec fn position_of<V>(entries: Seq<(Address, V)>, addr: Address) -> int {
    choose|i: int| 0 <= i < entries.len() && (#[trigger] entries[i]).0 == addr
}

/// The map that a list of entries spells out.
pub open spec fn entries_as_map<V>(entries: Seq<(Address, V)>) -> Map<Address, V> {
    Map::new(
        |addr: Address| holds_address(entries, addr),
        |addr: Address| entries[position_of(entries, addr)].1,
    )
}

/// The entries after `value` was put under `addr`: in place of what was there, or
/// else at the end.
pub open spec fn upserted<V>(entries: Seq<(Address, V)>, addr: Address, value: V) -> Seq<
    (Address, V),
> {
    if holds_address(entries, addr) {
        entries.update(position_of(entries, addr), (addr, value))
    } else {
        entries.push((addr, value))
    }
}

/// With no address twice, each entry's address maps to that entry's value.
pub proof fn lemma_entry_maps<V>(entries: Seq<(Address, V)>, i: int)
    requires
        distinct_addresses(entries),
        0 <= i < entries.len(),
    ensures
        entries_as_map(entries).contains_key(entries[i].0),
        entries_as_map(entries)[entries[i].0] == entries[i].1,
        position_of(entries, entries[i].0) == i,
{
    let addr = entries[i].0;
    assert(holds_address(entries, addr));
    let p = position_of(entries, addr);
    assert(0 <= p < entries.len() && entries[p].0 == addr);
    if p < i {
        assert(entries[p].0 != entries[i].0);
    } else if i < p {
        assert(entries[i].0 != entries[p].0);
    }
}

/// Replacing the value of an entry replaces it in the map.
proof fn lemma_replace<V>(entries: Seq<(Address, V)>, i: int, value: V)
    requires
        distinct_addresses(entries),
        0 <= i < entries.len(),
    ensures
        distinct_addresses(entries.update(i, (entries[i].0, value))),
        entries_as_map(entries.update(i, (entries[i].0, value))) == entries_as_map(entries).insert(
            entries[i].0,
            value,
        ),
{
    let after = entries.update(i, (entries[i].0, value));
    assert forall|k: int| 0 <= k < after.len() implies (#[trigger] after[k]).0 == entries[k].0 by {}
    assert(distinct_addresses(after));
    let left = entries_as_map(after);
    let right = entries_as_map(entries).insert(entries[i].0, value);
    assert forall|addr: Address| left.contains_key(addr) <==> right.contains_key(addr) by {
        if left.contains_key(addr) {
            let p = position_of(after, addr);
            assert(after[p].0 == entries[p].0);
            lemma_entry_maps(entries, p);
        }
        if right.contains_key(addr) {
            if addr == entries[i].0 {
                lemma_entry_maps(after, i);
            } else {
                let p = position_of(entries, addr);
                assert(entries[p].0 == addr);
                lemma_entry_maps(after, p);
            }
        }
    }
    assert forall|addr: Address| left.contains_key(addr) implies left[addr] == right[addr] by {
        let p = position_of(after, addr);
        assert(after[p].0 == entries[p].0 && after[p].0 == addr);
        lemma_entry_maps(after, p);
        lemma_entry_maps(entries, p);
        if p != i {
            assert(entries[i].0 != entries[p].0) by {
                if p < i {
                    assert(entries[p].0 != entries[i].0);
                } else {
                    assert(entries[i].0 != entries[p].0);
                }
            }
        }
    }
    assert(left =~= right);
}

/// Appending an entry under a new address inserts it into the map.
pub proof fn lemma_append<V>(entries: Seq<(Address, V)>, addr: Address, value: V)
    requires
        distinct_addresses(entries),
        !holds_address(entries, addr),
    ensures
        distinct_addresses(entries.push((addr, value))),
        entries_as_map(entries.push((addr, value))) == entries_as_map(entries).insert(addr, value),
{
    let after = entries.push((addr, value));
    assert(distinct_addresses(after)) by {
        assert forall|i: int, j: int| 0 <= i < j < after.len() implies (#[trigger] after[i]).0 != (
        #[trigger] after[j]).0 by {
            assert(after[i] == entries[i]);
            if j < entries.len() {
                assert(after[j] == entries[j]);
            } else {
                assert(!(entries[i].0 == addr));
            }
        }
    }
    let left = entries_as_map(after);
    let right = entries_as_map(entries).insert(addr, value);
    assert forall|a: Address| left.contains_key(a) <==> right.contains_key(a) by {
        if left.contains_key(a) {
            let p = position_of(after, a);
            assert(after[p].0 == a);
            if p < entries.len() {
                assert(entries[p].0 == a);
            }
        }
        if right.contains_key(a) {
            if a == addr {
                assert(after[entries.len() as int].0 == a);
            } else {
                let p = position_of(entries, a);
                assert(entries[p].0 == a);
                assert(after[p].0 == a);
            }
        }
    }
    assert forall|a: Address| left.contains_key(a) implies left[a] == right[a] by {
        let p = position_of(after, a);
        assert(after[p].0 == a);
        lemma_entry_maps(after, p);
        if p < entries.len() {
            assert(after[p] == entries[p]);
            lemma_entry_maps(entries, p);
            assert(a != addr);
        }
    }
    assert(left =~= right);
}

/// A short number that equal addresses share: their first eight bytes.
spec fn tag_of(addr: Address) -> u64 {
    (addr[0] + 0x100 * addr[1] + 0x1_0000 * addr[2] + 0x100_0000 * addr[3] + 0x1_0000_0000 * addr[4]
        + 0x100_0000_0000 * addr[5] + 0x1_0000_0000_0000 * addr[6] + 0x100_0000_0000_0000
        * addr[7]) as u64
}

fn tag(addr: &Address) -> (t: u64)
    ensures
        t == tag_of(*addr),
{
    addr[0] as u64 + 0x100 * (addr[1] as u64) + 0x1_0000 * (addr[2] as u64) + 0x100_0000 * (
    addr[3] as u64) + 0x1_0000_0000 * (addr[4] as u64) + 0x100_0000_0000 * (addr[5] as u64)
        + 0x1_0000_0000_0000 * (addr[6] as u64) + 0x100_0000_0000_0000 * (addr[7] as u64)
}

/// Whether `link` is the last position before `end` whose address has tag `t`.
spec fn is_last_with_tag<V>(
    entries: Seq<(Address, V)>,
    t: u64,
    end: int,
    link: Option<usize>,
) -> bool {
    match link {
        Some(p) => {
            &&& p < end
            &&& tag_of(entries[p as int].0) == t
            &&& forall|k: int| p < k < end ==> tag_of((#[trigger] entries[k]).0) != t
        },
        None => forall|k: int| 0 <= k < end ==> tag_of((#[trigger] entries[k]).0) != t,
    }
}

/// Chains depend on the addresses alone.
proof fn lemma_same_chains<V>(before: Seq<(Address, V)>, after: Seq<(Address, V)>)
    requires
        before.len() == after.len(),
        forall|k: int| 0 <= k < after.len() ==> (#[trigger] after[k]).0 == before[k].0,
    ensures
        forall|t: u64, end: int, link: Option<usize>|
            end <= before.len() && #[trigger] is_last_with_tag(before, t, end, link)
                ==> is_last_with_tag(after, t, end, link),
{
    assert forall|t: u64, end: int, link: Option<usize>|
        end <= before.len() && #[trigger] is_last_with_tag(before, t, end, link) implies is_last_with_tag(after, t, end, link) by {
        assert forall|k: int| 0 <= k < after.len() implies tag_of((#[trigger] after[k]).0) == tag_of(before[k].0) by {}
    }
}

/// An entry appended at the end leaves the chains before it as they are.
proof fn lemma_longer_chain<V>(
    entries: Seq<(Address, V)>,
    entry: (Address, V),
    t: u64,
    end: int,
    link: Option<usize>,
)
    requires
        end <= entries.len(),
        is_last_with_tag(entries, t, end, link),
    ensures
        is_last_with_tag(entries.push(entry), t, end, link),
        end == entries.len() && tag_of(entry.0) != t ==> is_last_with_tag(
            entries.push(entry),
            t,
            end + 1,
            link,
        ),
{
    let after = entries.push(entry);
    assert forall|k: int| 0 <= k < entries.len() implies #[trigger] after[k] == entries[k] by {}
}

/// A map from addresses to values.
///
/// Entries keep the order in which their addresses were first inserted, and are
/// found by a hash of the address's first eight bytes; addresses that share those
/// bytes are chained.
pub struct AddressMap<V> {
    entries: Vec<(Address, V)>,
    /// For each entry, the one before it with the same tag.
    earlier: Vec<Option<usize>>,
    /// For each tag, the last entry that has it.
    newest: HashMap<u64, usize>,
}

impl<V> View for AddressMap<V> {
    type V = Map<Address, V>;

    open spec fn view(&self) -> Map<Address, V> {
        entries_as_map(self.entries())
    }
}

impl<V> AddressMap<V> {
    /// The entries, in the order in which their addresses came in.
    pub closed spec fn entries(&self) -> Seq<(Address, V)> {
        self.entries@
    }

    /// Validity: no address twice, and the chains reach every entry.
    pub closed spec fn wf(&self) -> bool {
        &&& distinct_addresses(self.entries@)
        &&& self.earlier@.len() == self.entries@.len()
        &&& forall|i: int|
            #![trigger self.earlier@[i]]
            0 <= i < self.entries@.len() ==> is_last_with_tag(
                self.entries@,
                tag_of(self.entries@[i].0),
                i,
                self.earlier@[i],
            )
        &&& forall|t: u64| #[trigger]
            self.newest@.contains_key(t) ==> is_last_with_tag(
                self.entries@,
                t,
                self.entries@.len() as int,
                Some(self.newest@[t]),
            )
        &&& forall|t: u64|
            !#[trigger] self.newest@.contains_key(t) ==> is_last_with_tag(
                self.entries@,
                t,
                self.entries@.len() as int,
                None,
            )
    }

    /// A valid map holds no address twice.
    pub proof fn lemma_distinct(&self)
        requires
            self.wf(),
        ensures
            distinct_addresses(self.entries()),
    {
    }

    /// A map holds no more addresses than fit in memory.
    pub proof fn lemma_len(&self)
        ensures
            self.entries().len() <= usize::MAX,
    {
        assert(self.entries@.len() == self.entries.len());
    }

    /// The empty map.
    pub fn new() -> (map: Self)
        ensures
            map.wf(),
            map.entries() == Seq::<(Address, V)>::empty(),
            map@ == Map::<Address, V>::empty(),
    {
        let map = AddressMap { entries: Vec::new(), earlier: Vec::new(), newest: HashMap::new() };
        assert(map@ =~= Map::<Address, V>::empty());
        map
    }

    /// How many addresses the map holds.
    pub fn len(&self) -> (n: usize)
        ensures
            n == self.entries().len(),
    {
        self.entries.len()
    }

    /// Where `addr` stands among the entries.
    fn find(&self, addr: &Address) -> (found: Option<usize>)
        requires
            self.wf(),
        ensures
            match found {
                Some(i) => i < self.entries@.len() && self.entries@[i as int].0 == *addr,
                None => !holds_address(self.entries@, *addr),
            },
    {
        let t = tag(addr);
        let mut at: Option<usize> = match self.newest.get(&t) {
            Some(i) => Some(*i),
            None => None,
        };
        let mut end: usize = self.entries.len();
        loop
            invariant
                self.wf(),
                t == tag_of(*addr),
                end <= self.entries@.len(),
                is_last_with_tag(self.entries@, t, end as int, at),
                forall|k: int| end <= k < self.entries@.len() ==> (#[trigger] self.entries@[k]).0 != *addr,
            decreases end,
        {
            match at {
                None => {
                    return None;
                },
                Some(i) => {
                    if same_address(&self.entries[i].0, addr) {
                        return Some(i);
                    }
                    assert(is_last_with_tag(
                        self.entries@,
                        tag_of(self.entries@[i as int].0),
                        i as int,
                        self.earlier@[i as int],
                    ));
                    at = self.earlier[i];
                    end = i;
                },
            }
        }
    }
}

impl<V: Copy> AddressMap<V> {
    /// The value under `addr`, if the map holds one.
    pub fn get(&self, addr: &Address) -> (value: Option<V>)
        requires
            self.wf(),
        ensures
            value == (if self@.contains_key(*addr) {
                Some(self@[*addr])
            } else {
                None
            }),
    {
        match self.find(addr) {
            Some(i) => {
                assert(self.entries@[i as int].0 == *addr);
                Some(self.entries[i].1)
            },
            None => None,
        }
    }

    /// The `i`-th entry.
    pub fn entry(&self, i: usize) -> (entry: (Address, V))
        requires
            i < self.entries().len(),
        ensures
            entry == self.entries()[i as int],
    {
        self.entries[i]
    }

    /// Puts `value` under `addr`, in place of what was there.
    pub fn insert(&mut self, addr: Address, value: V)
        requires
            old(self).wf(),
        ensures
            final(self).wf(),
            final(self)@ == old(self)@.insert(addr, value),
            final(self).entries() == upserted(old(self).entries(), addr, value),
    {
        let ghost before = self.entries@;
        match self.find(&addr) {
            Some(i) => {
                self.entries[i] = (addr, value);
                proof {
                    let after = self.entries@;
                    assert(after =~= before.update(i as int, (before[i as int].0, value)));
                    assert(forall|k: int|
                        0 <= k < after.len() ==> (#[trigger] after[k]).0 == before[k].0);
                    lemma_replace(before, i as int, value);
                    lemma_entry_maps(before, i as int);
                    lemma_same_chains(before, after);
                }
            },
            None => {
                let n = self.entries.len();
                let t = tag(&addr);
                let link: Option<usize> = match self.newest.get(&t) {
                    Some(i) => Some(*i),
                    None => None,
                };
                self.entries.push((addr, value));
                self.earlier.push(link);
                self.newest.insert(t, n);
                proof {
                    assert(self.entries@ =~= before.push((addr, value)));
                    lemma_append(before, addr, value);
                    assert forall|i: int| #![trigger self.earlier@[i]] 0 <= i < self.entries@.len() implies is_last_with_tag(
                        self.entries@,
                        tag_of(self.entries@[i].0),
                        i,
                        self.earlier@[i],
                    ) by {
                        if i < n {
                            assert(self.earlier@[i] == old(self).earlier@[i]);
                            lemma_longer_chain(before, (addr, value), tag_of(before[i].0), i, self.earlier@[i]);
                        } else {
                            lemma_longer_chain(before, (addr, value), t, i, link);
                        }
                    }
                    assert forall|u: u64| #[trigger] self.newest@.contains_key(u) implies is_last_with_tag(
                        self.entries@, u, self.entries@.len() as int, Some(self.newest@[u])) by {
                        if u != t {
                            assert(old(self).newest@.contains_key(u));
                            lemma_longer_chain(before, (addr, value), u, n as int, Some(self.newest@[u]));
                        }
                    }
                    assert forall|u: u64| !#[trigger] self.newest@.contains_key(u) implies is_last_with_tag(
                        self.entries@, u, self.entries@.len() as int, None) by {
                        assert(!old(self).newest@.contains_key(u));
                        lemma_longer_chain(before, (addr, value), u, n as int, None);
                    }
                }
            },
        }
    }
}

/// Putting a value under an address leaves every other entry where it was, and the
/// order in which the addresses came in: an address that is there keeps its place, and
/// a new one comes last.
pub proof fn law_insert_keeps_the_order<V>(entries: Seq<(Address, V)>, addr: Address, value: V)
    requires
        distinct_addresses(entries),
    ensures
        ({
            let after = upserted(entries, addr, value);
            &&& entries.len() <= after.len() <= entries.len() + 1
            &&& forall|i: int|
                0 <= i < entries.len() ==> (#[trigger] after[i]).0 == entries[i].0 && after[i].1
                    == if entries[i].0 == addr {
                    value
                } else {
                    entries[i].1
                }
            &&& after.len() == entries.len() + 1 ==> after.last() == (addr, value)
            &&& after.len() == entries.len() <==> exists|i: int|
                0 <= i < entries.len() && (#[trigger] entries[i]).0 == addr
        }),
{
    if holds_address(entries, addr) {
        let p = position_of(entries, addr);
        assert(entries[p].0 == addr);
        assert forall|i: int| 0 <= i < entries.len() && i != p implies (#[trigger] entries[i]).0
            != addr by {
            if i < p {
                assert(entries[i].0 != entries[p].0);
            } else {
                assert(entries[p].0 != entries[i].0);
            }
        }
    }
}

} // verus!
