use eth_pir::address_map::AddressMap;
use eth_pir::client::verify_record;
use eth_pir::record::{address_of, belongs_to, is_vacant_address, same_address};
use eth_pir::{
    payload_of, record_of, EthPirError, Record, RecordCodec, U256Balance, PAYLOAD_BYTES,
};

/// The `U256Balance` codec keeps a fixed layout byte for byte. Pin the exact
/// offsets rather than just the round trip.
#[test]
fn u256_balance_reproduces_the_original_record_layout() {
    let addr = [7u8; 20];
    let balance = [9u8; 32];

    let record = record_of::<U256Balance>(&addr, &balance);
    assert_eq!(&record[..20], &addr);
    assert_eq!(&record[20..32], &[0u8; 12], "the historical padding");
    assert_eq!(&record[32..], &balance);
}

/// Deliberately hostile: fills its whole payload with 0xff.
struct Greedy;

impl RecordCodec for Greedy {
    type Value = ();

    fn encode(_: &()) -> [u8; PAYLOAD_BYTES] {
        [0xffu8; PAYLOAD_BYTES]
    }

    fn decode(_: &[u8; PAYLOAD_BYTES]) {}
}

/// Every codec owns bytes 20..64 and nothing else; the address prefix is the
/// crate's, so a codec cannot break the not-in-set proof however it behaves.
#[test]
fn a_codec_cannot_reach_the_address_prefix() {
    let addr = [3u8; 20];
    let record = record_of::<Greedy>(&addr, &());
    assert_eq!(&record[..20], &addr, "prefix survives a greedy codec");
    assert_eq!(&record[20..], &[0xffu8; PAYLOAD_BYTES]);
}

#[test]
fn a_codec_round_trips_through_a_record() {
    let addr = [1u8; 20];
    let balance = [0xabu8; 32];
    let record = record_of::<U256Balance>(&addr, &balance);
    assert_eq!(U256Balance::decode(payload_of(&record)), balance);
}

/// 20 address bytes plus the codec's payload must be exactly one record.
#[test]
fn payload_bytes_accounts_for_the_whole_record() {
    assert_eq!(20 + PAYLOAD_BYTES, std::mem::size_of::<Record>());
}

#[test]
fn the_payload_is_what_follows_the_address() {
    let mut record = [0u8; 64];
    for i in 0..64 {
        record[i] = i as u8;
    }
    let payload = payload_of(&record);
    assert_eq!(payload.len(), 44);
    assert_eq!(payload[0], 20);
    assert_eq!(payload[43], 63);
    let addr = address_of(&record);
    assert_eq!(addr[0], 0);
    assert_eq!(addr[19], 19);
}

#[test]
fn a_balance_keeps_every_byte_in_place() {
    let mut balance = [0u8; 32];
    for i in 0..32 {
        balance[i] = 100 + i as u8;
    }
    let payload = U256Balance::encode(&balance);
    assert_eq!(payload[11], 0);
    assert_eq!(payload[12], 100);
    assert_eq!(payload[43], 131);
    assert_eq!(U256Balance::decode(&payload), balance);
}

#[test]
fn a_record_belongs_to_the_address_in_its_prefix_only() {
    let record = record_of::<U256Balance>(&[5u8; 20], &[6u8; 32]);
    assert!(belongs_to(&record, &[5u8; 20]));
    let mut near = [5u8; 20];
    near[19] = 4;
    assert!(!belongs_to(&record, &near));
    assert!(same_address(&near, &near));
    assert!(!same_address(&near, &[5u8; 20]));
}

#[test]
fn a_record_with_padding_belongs_to_its_address() {
    let mut record = [0u8; 64];
    for i in 0..20 {
        record[i] = 8;
    }
    assert!(belongs_to(&record, &[8u8; 20]));
    record[25] = 1;
    assert!(belongs_to(&record, &[8u8; 20]));
    record[19] = 1;
    assert!(!belongs_to(&record, &[8u8; 20]));
}

#[test]
fn the_empty_slot_has_the_zero_address() {
    assert!(is_vacant_address(&[0u8; 20]));
    let mut addr = [0u8; 20];
    addr[19] = 1;
    assert!(!is_vacant_address(&addr));
}

#[test]
fn a_record_of_another_address_is_not_in_the_set() {
    let record = record_of::<U256Balance>(&[5u8; 20], &[6u8; 32]);
    assert_eq!(
        verify_record::<U256Balance>(&record, &[5u8; 20]),
        Ok([6u8; 32])
    );
    assert_eq!(
        verify_record::<U256Balance>(&record, &[7u8; 20]),
        Err(EthPirError::NotInSet)
    );
}

#[test]
fn an_address_map_keeps_the_last_value_of_an_address() {
    let mut map = AddressMap::<[u8; 32]>::new();
    assert_eq!(map.len(), 0);
    assert_eq!(map.get(&[1u8; 20]), None);
    for i in 0..50u8 {
        map.insert([i; 20], [i; 32]);
    }
    map.insert([7u8; 20], [200u8; 32]);
    assert_eq!(map.len(), 50);
    assert_eq!(map.get(&[7u8; 20]), Some([200u8; 32]));
    assert_eq!(map.get(&[8u8; 20]), Some([8u8; 32]));
    assert_eq!(map.get(&[50u8; 20]), None);
    assert_eq!(map.entry(7), ([7u8; 20], [200u8; 32]));
    assert_eq!(map.entry(49), ([49u8; 20], [49u8; 32]));
}

#[test]
fn an_address_map_tells_addresses_with_a_common_prefix_apart() {
    let mut map = AddressMap::<u8>::new();
    for i in 0..20usize {
        let mut addr = [0u8; 20];
        addr[i] = 1;
        map.insert(addr, i as u8);
    }
    assert_eq!(map.len(), 20);
    for i in 0..20usize {
        let mut addr = [0u8; 20];
        addr[i] = 1;
        assert_eq!(map.get(&addr), Some(i as u8));
    }
}
