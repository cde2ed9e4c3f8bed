use eth_pir::address_map::AddressMap;
use eth_pir::record_of;
use eth_pir::server::records::{
    collect_keys, records_to_map, scatter_map_records, scatter_records, share_of, worker_count,
    worker_range, zeroed_records,
};
use eth_pir::server::restore::checkpoint_keys;
use eth_pir::text::append_decimal;
use eth_pir::{Address, U256Balance};

#[test]
fn workers_are_the_processors_up_to_sixty_four() {
    assert_eq!(worker_count(1_000_000, None, 8), 8);
    assert_eq!(worker_count(1_000_000, None, 64), 64);
    assert_eq!(worker_count(1_000_000, None, 128), 64);
}

#[test]
fn a_requested_number_of_workers_is_not_capped() {
    assert_eq!(worker_count(1_000_000, Some(32), 8), 32);
    assert_eq!(worker_count(1_000_000, Some(200), 8), 200);
    assert_eq!(worker_count(1_000_000, Some(0), 8), 8);
}

#[test]
fn there_are_no_more_workers_than_items_and_at_least_one() {
    assert_eq!(worker_count(3, Some(32), 8), 3);
    assert_eq!(worker_count(3, None, 8), 3);
    assert_eq!(worker_count(1, Some(32), 8), 1);
    assert_eq!(worker_count(0, Some(32), 8), 1);
    assert_eq!(worker_count(10, None, 0), 1);
}

#[test]
fn shares_cover_every_item_once() {
    for len in 0..40usize {
        for workers in 1..12usize {
            let per = share_of(len, workers);
            let mut covered = vec![0usize; len];
            for w in 0..workers {
                let (start, count) = worker_range(w, per, len);
                for i in start..start + count {
                    covered[i] += 1;
                }
            }
            for i in 0..len {
                assert_eq!(covered[i], 1);
            }
        }
    }
    assert_eq!(share_of(10, 4), 3);
    assert_eq!(share_of(12, 4), 3);
    assert_eq!(worker_range(3, 3, 10), (9, 1));
    assert_eq!(worker_range(1, 3, 10), (3, 3));
}

#[test]
fn empty_slots_are_zero() {
    let records = zeroed_records(5);
    assert_eq!(records.len(), 5);
    for record in &records {
        assert_eq!(record, &[0u8; 64]);
    }
    assert!(zeroed_records(0).is_empty());
}

#[test]
fn records_go_to_the_slots_they_are_placed_in() {
    let keys: Vec<Address> = vec![[1u8; 20], [2u8; 20], [3u8; 20]];
    let mut records = zeroed_records(3);
    scatter_records(&mut records, &keys, |i, addr| {
        (2 - i, record_of::<U256Balance>(addr, &[i as u8; 32]))
    });
    assert_eq!(records[0], record_of::<U256Balance>(&[3u8; 20], &[2u8; 32]));
    assert_eq!(records[1], record_of::<U256Balance>(&[2u8; 20], &[1u8; 32]));
    assert_eq!(records[2], record_of::<U256Balance>(&[1u8; 20], &[0u8; 32]));
}

#[test]
fn the_order_of_writing_does_not_matter_where_slots_differ() {
    let slot = |addr: &Address| (addr[0] as usize * 3) % 5;
    let forwards: Vec<Address> = vec![[0u8; 20], [1u8; 20], [2u8; 20], [3u8; 20], [4u8; 20]];
    let mut backwards = forwards.clone();
    backwards.reverse();
    let mut one = zeroed_records(5);
    scatter_records(&mut one, &forwards, |_, addr| {
        (slot(addr), record_of::<U256Balance>(addr, &[addr[0]; 32]))
    });
    let mut other = zeroed_records(5);
    scatter_records(&mut other, &backwards, |_, addr| {
        (slot(addr), record_of::<U256Balance>(addr, &[addr[0]; 32]))
    });
    assert_eq!(one, other);
    assert_eq!(one[3], record_of::<U256Balance>(&[1u8; 20], &[1u8; 32]));
}

#[test]
fn of_two_records_in_one_slot_the_later_stays() {
    let keys: Vec<Address> = vec![[1u8; 20], [2u8; 20]];
    let mut records = zeroed_records(2);
    scatter_records(&mut records, &keys, |_, addr| {
        (1, record_of::<U256Balance>(addr, &[9u8; 32]))
    });
    assert_eq!(records[0], [0u8; 64]);
    assert_eq!(records[1], record_of::<U256Balance>(&[2u8; 20], &[9u8; 32]));
}

#[test]
fn a_map_survives_being_laid_out_as_records() {
    let mut map = AddressMap::<[u8; 32]>::new();
    for i in 1..6u8 {
        map.insert([i; 20], [10 * i; 32]);
    }
    let keys = collect_keys(&map);
    assert_eq!(keys, vec![[1u8; 20], [2u8; 20], [3u8; 20], [4u8; 20], [5u8; 20]]);
    let records = scatter_map_records::<U256Balance>(&map, &[3, 0, 4, 1, 2]);
    assert_eq!(records[3], record_of::<U256Balance>(&[1u8; 20], &[10u8; 32]));
    assert_eq!(records[2], record_of::<U256Balance>(&[5u8; 20], &[50u8; 32]));
    let back = records_to_map::<U256Balance>(&records);
    assert_eq!(back.len(), 5);
    for i in 1..6u8 {
        assert_eq!(back.get(&[i; 20]), Some([10 * i; 32]));
    }
}

#[test]
fn reading_records_back_keeps_the_later_of_two() {
    let records = vec![
        record_of::<U256Balance>(&[1u8; 20], &[1u8; 32]),
        record_of::<U256Balance>(&[2u8; 20], &[2u8; 32]),
        record_of::<U256Balance>(&[1u8; 20], &[3u8; 32]),
    ];
    let map = records_to_map::<U256Balance>(&records);
    assert_eq!(map.len(), 2);
    assert_eq!(map.get(&[1u8; 20]), Some([3u8; 32]));
    assert_eq!(map.get(&[2u8; 20]), Some([2u8; 32]));
}

#[test]
fn checkpoint_keys_are_the_addresses_slot_by_slot() {
    let records = vec![
        record_of::<U256Balance>(&[4u8; 20], &[1u8; 32]),
        [0u8; 64],
        record_of::<U256Balance>(&[2u8; 20], &[1u8; 32]),
    ];
    assert_eq!(checkpoint_keys(&records), vec![[4u8; 20], [0u8; 20], [2u8; 20]]);
}

#[test]
fn numbers_are_written_in_decimal() {
    let mut text = String::from("n=");
    append_decimal(&mut text, 0);
    append_decimal(&mut text, 7);
    append_decimal(&mut text, 10);
    append_decimal(&mut text, 33_554_432);
    assert_eq!(text, "n=071033554432");
    let mut longest = String::new();
    append_decimal(&mut longest, usize::MAX);
    assert_eq!(longest, format!("{}", usize::MAX));
}
