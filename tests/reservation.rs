use nft_metadata::error::MetadataError;
use nft_metadata::key::Key;
use nft_metadata::pubkey::{sentinel_address, Pubkey};
use nft_metadata::reservation::{
    sum_total_spots, Reservation, ReservationList, ReservationListV1, ReservationListV2,
    ReservationV1,
};

fn addr(b: u8) -> Pubkey {
    Pubkey { bytes: [b; 32] }
}

fn entry(b: u8, spots: u64) -> Reservation {
    Reservation { address: addr(b), spots_remaining: spots, total_spots: spots }
}

fn empty_v2() -> ReservationListV2 {
    ReservationListV2 {
        key: Key::ReservationListV2,
        master_edition: addr(9),
        supply_snapshot: None,
        reservations: vec![],
        total_reservation_spots: 0,
        current_reservation_spots: 0,
    }
}

fn sum(l: &ReservationListV2) -> u64 {
    l.reservations.iter().map(|r| r.total_spots).sum()
}

#[test]
fn legacy_resubmission_updates_in_place() {
    let mut list = ReservationList::V1(ReservationListV1 {
        key: Key::ReservationListV1,
        master_edition: addr(9),
        supply_snapshot: Some(0),
        reservations: vec![ReservationV1 { address: addr(1), spots_remaining: 5, total_spots: 5 }],
    });
    let r = list.add_reservation(
        Reservation { address: addr(1), spots_remaining: 3, total_spots: 3 },
        0,
        3,
    );
    assert_eq!(r, Ok(()));
    assert_eq!(list.reservations(), vec![entry(1, 3)]);
    assert_eq!(list.total_reservation_spots(), 3);
    assert_eq!(list.current_reservation_spots(), 3);
}

#[test]
fn legacy_counts_are_cut_to_a_byte() {
    let mut list = ReservationListV1 {
        key: Key::ReservationListV1,
        master_edition: addr(9),
        supply_snapshot: None,
        reservations: vec![],
    };
    list.set_reservations(vec![Reservation { address: addr(2), spots_remaining: 300, total_spots: 257 }])
        .unwrap();
    assert_eq!(list.reservations[0].spots_remaining, 44);
    assert_eq!(list.reservations[0].total_spots, 1);
    assert_eq!(list.reservations(), vec![Reservation { address: addr(2), spots_remaining: 44, total_spots: 1 }]);
}

#[test]
fn legacy_list_takes_one_entry() {
    let mut list = ReservationList::V1(ReservationListV1 {
        key: Key::ReservationListV1,
        master_edition: addr(9),
        supply_snapshot: None,
        reservations: vec![],
    });
    let before = list.clone();
    assert_eq!(
        list.set_reservations(vec![entry(1, 1), entry(2, 1)]),
        Err(MetadataError::ReservationArrayShouldBeSizeOne)
    );
    assert_eq!(list, before);
    list.set_total_reservation_spots(99);
    list.set_current_reservation_spots(99);
    assert_eq!(list, before);
}

#[test]
fn append_counts_spots() {
    let mut list = empty_v2();
    list.add_reservation(entry(1, 4), 0, 0).unwrap();
    list.add_reservation(entry(2, 6), 1, 4).unwrap();
    assert_eq!(list.reservations, vec![entry(1, 4), entry(2, 6)]);
    assert_eq!(list.total_reservation_spots, 10);
    assert_eq!(list.current_reservation_spots, 10);
}

#[test]
fn gap_is_padded_and_backfilled() {
    let mut list = empty_v2();
    list.add_reservation(entry(3, 2), 3, 7).unwrap();
    let sentinel = sentinel_address();
    assert_eq!(sentinel, Pubkey { bytes: [0; 32] });
    assert_eq!(list.reservations.len(), 4);
    assert_eq!(list.reservations[0], Reservation { address: sentinel, spots_remaining: 0, total_spots: 0 });
    assert_eq!(list.reservations[1], Reservation { address: sentinel, spots_remaining: 0, total_spots: 0 });
    assert_eq!(list.reservations[2], Reservation { address: sentinel, spots_remaining: 7, total_spots: 7 });
    assert_eq!(list.reservations[3], entry(3, 2));
    assert_eq!(list.total_reservation_spots, 9);
    assert_eq!(list.total_reservation_spots, sum(&list));
    assert_eq!(list.current_reservation_spots, 2);
}

#[test]
fn placeholder_can_be_filled() {
    let mut list = empty_v2();
    list.add_reservation(entry(3, 2), 1, 5).unwrap();
    list.add_reservation(entry(1, 5), 0, 0).unwrap();
    assert_eq!(list.reservations, vec![entry(1, 5), entry(3, 2)]);
    assert_eq!(list.total_reservation_spots, 7);
    assert_eq!(list.current_reservation_spots, 7);
}

#[test]
fn resubmission_is_idempotent() {
    let mut list = empty_v2();
    list.add_reservation(entry(1, 4), 0, 0).unwrap();
    list.add_reservation(entry(2, 6), 2, 3).unwrap();
    let after_first = list.clone();
    list.add_reservation(entry(2, 6), 2, 3).unwrap();
    assert_eq!(list, after_first);
    assert_eq!(list.current_reservation_spots, 10);
    assert_eq!(list.total_reservation_spots, 13);
}

#[test]
fn resubmission_with_new_count_replaces_it() {
    let mut list = empty_v2();
    list.add_reservation(entry(1, 4), 0, 0).unwrap();
    list.add_reservation(entry(1, 9), 0, 0).unwrap();
    assert_eq!(list.reservations, vec![entry(1, 9)]);
    assert_eq!(list.current_reservation_spots, 9);
    assert_eq!(list.total_reservation_spots, 9);
}

#[test]
fn foreign_slot_is_refused() {
    let mut list = empty_v2();
    list.add_reservation(entry(1, 4), 0, 0).unwrap();
    let before = list.clone();
    assert_eq!(
        list.add_reservation(entry(2, 4), 0, 0),
        Err(MetadataError::TriedToReplaceAnExistingReservation)
    );
    assert_eq!(list, before);
}

#[test]
fn overflowing_counts_are_refused() {
    let mut list = empty_v2();
    list.add_reservation(entry(1, u64::MAX), 0, 0).unwrap();
    let before = list.clone();
    assert_eq!(list.add_reservation(entry(2, 1), 1, 0), Err(MetadataError::NumericalOverflowError));
    assert_eq!(list, before);
    let mut drifted = empty_v2();
    drifted.reservations = vec![entry(1, 5)];
    drifted.current_reservation_spots = 2;
    drifted.total_reservation_spots = 5;
    assert_eq!(drifted.add_reservation(entry(1, 5), 0, 0), Err(MetadataError::NumericalOverflowError));
}

#[test]
fn aggregate_stays_consistent() {
    let mut list = ReservationList::V2(empty_v2());
    list.add_reservation(entry(1, 3), 0, 0).unwrap();
    list.add_reservation(entry(4, 8), 4, 11).unwrap();
    list.add_reservation(entry(2, 5), 1, 0).unwrap();
    list.add_reservation(entry(4, 8), 4, 11).unwrap();
    let entries = list.reservations();
    let total: u64 = entries.iter().map(|r| r.total_spots).sum();
    assert_eq!(list.total_reservation_spots(), total);
    list.set_reservations(vec![entry(7, 2), entry(8, 40)]).unwrap();
    assert_eq!(list.total_reservation_spots(), 42);
    assert_eq!(list.reservations(), vec![entry(7, 2), entry(8, 40)]);
}

#[test]
fn whole_list_that_overflows_is_refused() {
    let mut list = empty_v2();
    let before = list.clone();
    assert_eq!(
        list.set_reservations(vec![entry(1, u64::MAX), entry(2, 1)]),
        Err(MetadataError::NumericalOverflowError)
    );
    assert_eq!(list, before);
    assert_eq!(sum_total_spots(&vec![entry(1, 2), entry(2, 3)]), Ok(5));
}

#[test]
fn counters_of_current_format_can_be_set() {
    let mut list = ReservationList::V2(empty_v2());
    list.set_total_reservation_spots(12);
    list.set_current_reservation_spots(4);
    assert_eq!(list.total_reservation_spots(), 12);
    assert_eq!(list.current_reservation_spots(), 4);
    list.set_master_edition(addr(5));
    list.set_supply_snapshot(Some(8));
    assert_eq!(list.master_edition(), addr(5));
    assert_eq!(list.supply_snapshot(), Some(8));
}

#[test]
fn spot_consumption() {
    let mut list = ReservationList::V1(ReservationListV1 {
        key: Key::ReservationListV1,
        master_edition: addr(9),
        supply_snapshot: Some(0),
        reservations: vec![ReservationV1 { address: addr(1), spots_remaining: 2, total_spots: 2 }],
    });
    list.consume_spot(0);
    assert_eq!(list.reservations(), vec![Reservation { address: addr(1), spots_remaining: 1, total_spots: 2 }]);
    assert_eq!(list.total_reservation_spots(), 2);
}

#[test]
fn legacy_foreign_entry_is_kept() {
    let mut list = ReservationList::V1(ReservationListV1 {
        key: Key::ReservationListV1,
        master_edition: addr(9),
        supply_snapshot: Some(0),
        reservations: vec![ReservationV1 { address: addr(1), spots_remaining: 5, total_spots: 5 }],
    });
    let before = list.clone();
    assert_eq!(
        list.add_reservation(entry(2, 3), 0, 3),
        Err(MetadataError::TriedToReplaceAnExistingReservation)
    );
    assert_eq!(list, before);
    let mut unset = ReservationList::V1(ReservationListV1 {
        key: Key::ReservationListV1,
        master_edition: addr(9),
        supply_snapshot: None,
        reservations: vec![ReservationV1 { address: sentinel_address(), spots_remaining: 0, total_spots: 0 }],
    });
    assert_eq!(unset.add_reservation(entry(2, 3), 0, 0), Ok(()));
    assert_eq!(unset.reservations(), vec![entry(2, 3)]);
}
