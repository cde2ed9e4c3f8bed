//! The record format: a 20-byte address followed by a payload that belongs to
//! the application's codec.

use vstd::prelude::*;

use crate::bytes;
use crate::error::EthPirError;

verus! {

/// The keyword: a 20-byte ETH address.
pub type Address = [u8; 20];

/// A token balance: little-endian `u256` (byte 0 is least significant).
pub type Balance = [u8; 32];

/// One 64-byte payload of the database: `[address || codec payload]`.
pub type Record = [u8; 64];

/// Bytes a record leaves to the application, after the address prefix.
///
/// The prefix is not a layout choice the application gets to make: it is what a
/// client compares against to prove that the retrieved record really is the one
/// queried. A minimal perfect hash maps an *unknown* key to some arbitrary
/// occupied slot, so without that comparison a lookup for an address the server
/// does not hold would return another address's value with no indication that
/// anything was wrong.
pub const PAYLOAD_BYTES: usize = 64 - 20;

/// Bytes of one record.
pub const RECORD_BYTES: usize = 64;

/// How an application turns its value into the bytes of a record.
///
/// A codec never sees the address prefix. That keeps the not-in-set proof an
/// invariant of the crate rather than a rule implementors have to remember: the
/// worst a wrong codec can do is misread its own payload. In particular nothing
/// here asks that `decoded` undo `encoded`; where a statement needs that, it says
/// so.
pub trait RecordCodec: Send + Sync + 'static {
    /// The value one record carries.
    type Value: Copy + Send + Sync;

    /// The payload that stands for `value`. A codec that proofs speak of defines
    /// it; the default says nothing of it.
    open spec fn encoded(value: Self::Value) -> [u8; PAYLOAD_BYTES] {
        arbitrary()
    }

    /// The value that the payload `bytes` stands for, likewise.
    open spec fn decoded(bytes: [u8; PAYLOAD_BYTES]) -> Self::Value {
        arbitrary()
    }

    fn encode(value: &Self::Value) -> (payload: [u8; PAYLOAD_BYTES])
        ensures
            payload == Self::encoded(*value),
    ;

    fn decode(bytes: &[u8; PAYLOAD_BYTES]) -> (value: Self::Value)
        ensures
            value == Self::decoded(*bytes),
    ;
}

/// A sequence of `n` zero bytes.
pub open spec fn zeros(n: nat) -> Seq<u8> {
    Seq::new(n, |i: int| 0u8)
}

/// A single little-endian `u256` balance, after 12 bytes of zero padding: at
/// payload offset 12, record offset 32.
#[derive(Clone, Copy, Debug, Default, PartialEq, Eq)]
pub struct U256Balance;

impl RecordCodec for U256Balance {
    type Value = Balance;

    open spec fn encoded(value: Balance) -> [u8; PAYLOAD_BYTES] {
        bytes::array_of(zeros(12) + value@)
    }

    open spec fn decoded(bytes: [u8; PAYLOAD_BYTES]) -> Balance {
        bytes::array_of(bytes@.skip(12))
    }

    fn encode(value: &Balance) -> (payload: [u8; PAYLOAD_BYTES]) {
        let mut payload = [0u8; PAYLOAD_BYTES];
        for i in 0..32usize
            invariant
                payload@ =~= zeros(12) + value@.take(i as int) + zeros((32 - i) as nat),
        {
            payload[12 + i] = value[i];
        }
        proof {
            bytes::lemma_array_of::<PAYLOAD_BYTES>(zeros(12) + value@);
            assert(payload@ =~= zeros(12) + value@);
            bytes::lemma_same_bytes(payload, Self::encoded(*value));
        }
        payload
    }

    fn decode(bytes: &[u8; PAYLOAD_BYTES]) -> (value: Balance) {
        let mut value = [0u8; 32];
        for i in 0..32usize
            invariant
                forall|j: int| 0 <= j < i ==> value@[j] == bytes@[12 + j],
        {
            value[i] = bytes[12 + i];
        }
        proof {
            bytes::lemma_array_of::<32>(bytes@.skip(12));
            assert(value@ =~= bytes@.skip(12));
            bytes::lemma_same_bytes(value, Self::decoded(*bytes));
        }
        value
    }
}

/// The record that carries `value` under `addr`.
pub open spec fn record_for<C: RecordCodec>(addr: Address, value: C::Value) -> Record {
    bytes::array_of(addr@ + C::encoded(value)@)
}

/// The address a record belongs to: its first 20 bytes.
pub open spec fn address_in(record: Record) -> Address {
    bytes::array_of(record@.take(20))
}

/// The codec's half of a record: everything after the address.
pub open spec fn payload_in(record: Record) -> [u8; PAYLOAD_BYTES] {
    bytes::array_of(record@.skip(20))
}

/// The value a record carries.
pub open spec fn value_in<C: RecordCodec>(record: Record) -> C::Value {
    C::decoded(payload_in(record))
}

/// The record of a slot that nothing was written to.
pub open spec fn vacant_record() -> Record {
    bytes::array_of(zeros(64))
}

/// The address prefix of a slot that nothing was written to.
pub open spec fn vacant_address() -> Address {
    bytes::array_of(zeros(20))
}

/// What a client that queried `addr` makes of the record it retrieved.
pub open spec fn verified<C: RecordCodec>(record: Record, addr: Address) -> Result<
    C::Value,
    EthPirError,
> {
    if address_in(record) == addr {
        Ok(value_in::<C>(record))
    } else {
        Err(EthPirError::NotInSet)
    }
}

/// A record is the concatenation of its address and its payload, and nothing
/// else: the bytes of each part.
pub proof fn lemma_record_parts(record: Record)
    ensures
        address_in(record)@ == record@.take(20),
        payload_in(record)@ == record@.skip(20),
        record@ == address_in(record)@ + payload_in(record)@,
{
    bytes::lemma_array_of::<20>(record@.take(20));
    bytes::lemma_array_of::<PAYLOAD_BYTES>(record@.skip(20));
    assert(record@ =~= record@.take(20) + record@.skip(20));
}

/// The parts of a record that was put together from an address and a value are
/// that address and that value's payload, whatever the codec writes.
pub proof fn lemma_record_for<C: RecordCodec>(addr: Address, value: C::Value)
    ensures
        record_for::<C>(addr, value)@ == addr@ + C::encoded(value)@,
        address_in(record_for::<C>(addr, value)) == addr,
        payload_in(record_for::<C>(addr, value)) == C::encoded(value),
{
    let record = record_for::<C>(addr, value);
    bytes::lemma_array_of::<64>(addr@ + C::encoded(value)@);
    lemma_record_parts(record);
    assert(record@.take(20) =~= addr@);
    assert(record@.skip(20) =~= C::encoded(value)@);
    bytes::lemma_same_bytes(address_in(record), addr);
    bytes::lemma_same_bytes(payload_in(record), C::encoded(value));
}

/// A vacant record's address is the vacant address.
pub proof fn lemma_vacant()
    ensures
        vacant_record()@ == zeros(64),
        vacant_address()@ == zeros(20),
        address_in(vacant_record()) == vacant_address(),
{
    bytes::lemma_array_of::<64>(zeros(64));
    bytes::lemma_array_of::<20>(zeros(20));
    lemma_record_parts(vacant_record());
    assert(vacant_record()@.take(20) =~= zeros(20));
    bytes::lemma_same_bytes(address_in(vacant_record()), vacant_address());
}

/// The record that carries `value` under `addr`.
pub fn record_of<C: RecordCodec>(addr: &Address, value: &C::Value) -> (record: Record)
    ensures
        record == record_for::<C>(*addr, *value),
        record@ == addr@ + C::encoded(*value)@,
{
    let payload = C::encode(value);
    let mut record = [0u8; 64];
    for i in 0..20usize
        invariant
            forall|j: int| 0 <= j < i ==> record@[j] == addr@[j],
    {
        record[i] = addr[i];
    }
    for i in 0..PAYLOAD_BYTES
        invariant
            forall|j: int| 0 <= j < 20 ==> record@[j] == addr@[j],
            forall|j: int| 20 <= j < 20 + i ==> record@[j] == payload@[j - 20],
    {
        record[20 + i] = payload[i];
    }
    proof {
        assert(record@ =~= addr@ + payload@);
        lemma_record_for::<C>(*addr, *value);
        bytes::lemma_same_bytes(record, record_for::<C>(*addr, *value));
    }
    record
}

/// `<[T]>::last_chunk`: the last `N` items of the slice as an array, or `None`
/// where the slice is shorter than that.
pub assume_specification<T, const N: usize>[ <[T]>::last_chunk::<N> ](slice: &[T]) -> (chunk:
    Option<&[T; N]>)
    ensures
        match chunk {
            Some(c) => N <= slice@.len() && c@ == slice@.skip(slice@.len() - N),
            None => slice@.len() < N,
        },
;

/// The codec's half of a record.
pub fn payload_of(record: &Record) -> (payload: &[u8; PAYLOAD_BYTES])
    ensures
        *payload == payload_in(*record),
        payload@ == record@.skip(20),
{
    let payload = record.as_slice().last_chunk::<PAYLOAD_BYTES>().unwrap();
    proof {
        lemma_record_parts(*record);
        bytes::lemma_same_bytes(*payload, payload_in(*record));
    }
    payload
}

/// The address a record belongs to.
pub fn address_of(record: &Record) -> (addr: Address)
    ensures
        addr == address_in(*record),
        addr@ == record@.take(20),
{
    let mut addr = [0u8; 20];
    for i in 0..20usize
        invariant
            addr@.take(i as int) =~= record@.take(i as int),
    {
        addr[i] = record[i];
    }
    proof {
        assert(addr@ =~= addr@.take(20));
        lemma_record_parts(*record);
        bytes::lemma_same_bytes(addr, address_in(*record));
    }
    addr
}

/// Whether two addresses are the same.
pub fn same_address(a: &Address, b: &Address) -> (same: bool)
    ensures
        same == (*a == *b),
{
    for i in 0..20usize
        invariant
            forall|j: int| 0 <= j < i ==> a@[j] == b@[j],
    {
        if a[i] != b[i] {
            assert(a@[i as int] != b@[i as int]);
            return false;
        }
    }
    proof {
        assert(a@ =~= b@);
        bytes::lemma_same_bytes(*a, *b);
    }
    true
}

/// Whether `addr` is the prefix of a slot that nothing was written to.
pub fn is_vacant_address(addr: &Address) -> (vacant: bool)
    ensures
        vacant == (*addr == vacant_address()),
{
    let zero = [0u8; 20];
    proof {
        lemma_vacant();
        assert(zero@ =~= zeros(20));
        bytes::lemma_same_bytes(zero, vacant_address());
    }
    same_address(addr, &zero)
}

/// Whether `record` belongs to `addr`: the comparison that turns a hash of an
/// unknown address into "not in the set" instead of a wrong value.
pub fn belongs_to(record: &Record, addr: &Address) -> (belongs: bool)
    ensures
        belongs == (address_in(*record) == *addr),
{
    let prefix = address_of(record);
    same_address(&prefix, addr)
}

/// Every codec owns bytes 20..64 of a record and nothing else: two values under
/// one address differ at most in the payload, and the prefix is the address
/// however the codec behaves.
pub proof fn law_codec_cannot_reach_prefix<C: RecordCodec>(addr: Address, value: C::Value)
    ensures
        record_for::<C>(addr, value)@.take(20) == addr@,
        record_for::<C>(addr, value)@.skip(20) == C::encoded(value)@,
{
    lemma_record_for::<C>(addr, value);
    lemma_record_parts(record_for::<C>(addr, value));
}

/// A client that queried `queried` and retrieved the record of `stored` gets the
/// value stored there if the addresses agree, and `NotInSet` if they do not: never
/// the value of another address.
pub proof fn law_lookup_is_verified<C: RecordCodec>(
    stored: Address,
    value: C::Value,
    queried: Address,
)
    ensures
        verified::<C>(record_for::<C>(stored, value), queried) == (if stored == queried {
            Ok(C::decoded(C::encoded(value)))
        } else {
            Err(EthPirError::NotInSet)
        }),
{
    lemma_record_for::<C>(stored, value);
}

/// The balance codec loses nothing: decoding undoes encoding.
pub proof fn law_balance_round_trips(balance: Balance)
    ensures
        U256Balance::decoded(U256Balance::encoded(balance)) == balance,
{
    bytes::lemma_array_of::<PAYLOAD_BYTES>(zeros(12) + balance@);
    let payload = U256Balance::encoded(balance);
    assert(payload@.skip(12) =~= balance@);
    bytes::lemma_array_of::<32>(payload@.skip(12));
    bytes::lemma_same_bytes(U256Balance::decoded(payload), balance);
}

/// The byte layout of a balance record: the address, twelve zero bytes, the
/// balance.
pub proof fn law_balance_record_layout(addr: Address, balance: Balance)
    ensures
        record_for::<U256Balance>(addr, balance)@ == addr@ + zeros(12) + balance@,
{
    lemma_record_for::<U256Balance>(addr, balance);
    bytes::lemma_array_of::<PAYLOAD_BYTES>(zeros(12) + balance@);
    assert(record_for::<U256Balance>(addr, balance)@ =~= addr@ + zeros(12) + balance@);
}

/// A record that starts with an address and the balance layout's padding belongs to
/// that address: comparing the address alone refuses no record that comparing the
/// padding too would accept.
pub proof fn law_padded_prefix_belongs(record: Record, addr: Address)
    requires
        record@.take(32) == addr@ + zeros(12),
    ensures
        address_in(record) == addr,
{
    lemma_record_parts(record);
    assert(record@.take(20) =~= record@.take(32).take(20));
    assert((addr@ + zeros(12)).take(20) =~= addr@);
    bytes::lemma_same_bytes(address_in(record), addr);
}

/// Byte by byte, a record is the address and then the codec's payload.
pub proof fn law_record_bytes<C: RecordCodec>(addr: Address, value: C::Value)
    ensures
        forall|i: int| 0 <= i < 20 ==> #[trigger] record_for::<C>(addr, value)@[i] == addr@[i],
        forall|i: int|
            20 <= i < 64 ==> #[trigger] record_for::<C>(addr, value)@[i] == C::encoded(
                value,
            )@[i - 20],
{
    lemma_record_for::<C>(addr, value);
}

/// Byte by byte, a balance's record is the address, twelve zeros, and the balance.
pub proof fn law_balance_record_bytes(addr: Address, balance: Balance)
    ensures
        forall|i: int|
            0 <= i < 20 ==> #[trigger] record_for::<U256Balance>(addr, balance)@[i] == addr@[i],
        forall|i: int|
            20 <= i < 32 ==> #[trigger] record_for::<U256Balance>(addr, balance)@[i] == 0,
        forall|i: int|
            32 <= i < 64 ==> #[trigger] record_for::<U256Balance>(addr, balance)@[i]
                == balance@[i - 32],
{
    law_balance_record_layout(addr, balance);
}

/// A balance is read from the last 32 bytes of a payload, whatever stands before.
pub proof fn law_balance_is_read_from_the_end(payload: [u8; PAYLOAD_BYTES])
    ensures
        forall|i: int|
            0 <= i < 32 ==> #[trigger] U256Balance::decoded(payload)@[i] == payload@[12 + i],
{
    bytes::lemma_array_of::<32>(payload@.skip(12));
}

/// The address in a record is its first twenty bytes, and the payload the others.
pub proof fn law_parts_are_bytes_of_the_record(record: Record)
    ensures
        forall|i: int| 0 <= i < 20 ==> #[trigger] address_in(record)@[i] == record@[i],
        forall|j: int|
            0 <= j < PAYLOAD_BYTES ==> #[trigger] payload_in(record)@[j] == record@[20 + j],
{
    lemma_record_parts(record);
}

/// Whoever asked for `addr` gets a value exactly where the record's first twenty
/// bytes are those of `addr`, and then what the codec reads from the other bytes.
pub proof fn law_prefix_decides_a_lookup<C: RecordCodec>(
    record: Record,
    addr: Address,
    payload: [u8; PAYLOAD_BYTES],
)
    requires
        forall|j: int| 0 <= j < PAYLOAD_BYTES ==> #[trigger] payload@[j] == record@[20 + j],
    ensures
        (forall|i: int| 0 <= i < 20 ==> #[trigger] record@[i] == addr@[i]) ==> verified::<C>(
            record,
            addr,
        ) == Ok::<C::Value, EthPirError>(C::decoded(payload)),
        (exists|i: int| 0 <= i < 20 && #[trigger] record@[i] != addr@[i]) ==> verified::<C>(
            record,
            addr,
        ) == Err::<C::Value, EthPirError>(EthPirError::NotInSet),
{
    lemma_record_parts(record);
    assert(payload@ =~= record@.skip(20));
    bytes::lemma_same_bytes(payload, payload_in(record));
    if forall|i: int| 0 <= i < 20 ==> #[trigger] record@[i] == addr@[i] {
        assert(record@.take(20) =~= addr@);
        bytes::lemma_same_bytes(address_in(record), addr);
    } else {
        let i = choose|i: int| 0 <= i < 20 && #[trigger] record@[i] != addr@[i];
        assert(record@.take(20)[i] == record@[i]);
        assert(address_in(record)@[i] != addr@[i]);
    }
}

/// An empty slot is zero in every byte, and so is the address that it seems to have.
pub proof fn law_vacant_is_zero()
    ensures
        forall|i: int| 0 <= i < 64 ==> #[trigger] vacant_record()@[i] == 0,
        forall|i: int| 0 <= i < 20 ==> #[trigger] vacant_address()@[i] == 0,
{
    lemma_vacant();
}

} // verus!
