use nft_metadata::edition_marker::EditionMarker;
use nft_metadata::error::MetadataError;
use nft_metadata::instruction::{
    CreateMasterEditionArgs, MintEditionProxyArgs, MintNewEditionFromMasterEditionViaTokenArgs,
};
use nft_metadata::key::Key;
use nft_metadata::master_edition::{Edition, MasterEdition, MasterEditionV2};
use nft_metadata::mint::{find_reservation, mint_edition};
use nft_metadata::pubkey::Pubkey;
use nft_metadata::reservation::{Reservation, ReservationList, ReservationListV2};

fn addr(b: u8) -> Pubkey {
    Pubkey { bytes: [b; 32] }
}

fn master(supply: u64, max_supply: Option<u64>) -> MasterEdition {
    MasterEdition::V2(MasterEditionV2 { key: Key::MasterEditionV2, supply, max_supply })
}

fn reserved_list(snapshot: u64) -> ReservationList {
    ReservationList::V2(ReservationListV2 {
        key: Key::ReservationListV2,
        master_edition: addr(9),
        supply_snapshot: Some(snapshot),
        reservations: vec![
            Reservation { address: addr(1), spots_remaining: 2, total_spots: 2 },
            Reservation { address: addr(2), spots_remaining: 3, total_spots: 3 },
        ],
        total_reservation_spots: 5,
        current_reservation_spots: 5,
    })
}

#[test]
fn open_print_marks_and_counts() {
    let mut m = master(0, Some(10));
    let mut page = EditionMarker::new();
    let mut list = None;
    let args = MintNewEditionFromMasterEditionViaTokenArgs { edition: 1 };
    let e = mint_edition(&mut m, addr(9), &mut page, &mut list, args.edition, addr(4)).unwrap();
    assert_eq!(e, Edition { key: Key::EditionV1, parent: addr(9), edition: 1 });
    assert_eq!(m.supply(), 1);
    assert_eq!(page.edition_taken(1), Ok(true));
}

#[test]
fn supply_never_passes_cap() {
    let mut m = master(0, Some(2));
    let mut page = EditionMarker::new();
    let mut list = None;
    mint_edition(&mut m, addr(9), &mut page, &mut list, 1, addr(4)).unwrap();
    mint_edition(&mut m, addr(9), &mut page, &mut list, 2, addr(4)).unwrap();
    assert_eq!(m.supply(), 2);
    let page_before = page;
    assert_eq!(
        mint_edition(&mut m, addr(9), &mut page, &mut list, 3, addr(4)),
        Err(MetadataError::MaxEditionsMintedAlready)
    );
    assert_eq!(m.supply(), 2);
    assert_eq!(page, page_before);
}

#[test]
fn uncapped_supply_stops_at_the_integer_limit() {
    let mut m = master(u64::MAX, None);
    let mut page = EditionMarker::new();
    let mut list = None;
    assert_eq!(
        mint_edition(&mut m, addr(9), &mut page, &mut list, 5, addr(4)),
        Err(MetadataError::NumericalOverflowError)
    );
    assert_eq!(m.supply(), u64::MAX);
}

#[test]
fn second_print_of_an_edition_fails() {
    let mut m = master(0, None);
    let mut page = EditionMarker::new();
    let mut list = None;
    let proxy = MintEditionProxyArgs { edition: 17 };
    mint_edition(&mut m, addr(9), &mut page, &mut list, proxy.edition, addr(4)).unwrap();
    let page_after = page;
    assert_eq!(
        mint_edition(&mut m, addr(9), &mut page, &mut list, 17, addr(5)),
        Err(MetadataError::EditionAlreadyMinted)
    );
    assert_eq!(page, page_after);
    assert_eq!(m.supply(), 1);
}

#[test]
fn reserved_print_uses_a_spot() {
    let mut m = master(10, Some(100));
    let mut page = EditionMarker::new();
    let mut list = Some(reserved_list(10));
    // editions 11 and 12 belong to the first entry, 13 to 15 to the second
    mint_edition(&mut m, addr(9), &mut page, &mut list, 13, addr(2)).unwrap();
    let l = list.as_ref().unwrap();
    assert_eq!(l.reservations()[1].spots_remaining, 2);
    assert_eq!(l.reservations()[0].spots_remaining, 2);
    assert_eq!(m.supply(), 11);
    let spots_after = l.reservations();
    assert_eq!(
        mint_edition(&mut m, addr(9), &mut page, &mut list, 13, addr(2)),
        Err(MetadataError::EditionAlreadyMinted)
    );
    assert_eq!(list.as_ref().unwrap().reservations(), spots_after);
}

#[test]
fn reserved_edition_refuses_other_addresses() {
    let mut m = master(10, Some(100));
    let mut page = EditionMarker::new();
    let mut list = Some(reserved_list(10));
    let before = list.clone();
    assert_eq!(
        mint_edition(&mut m, addr(9), &mut page, &mut list, 11, addr(2)),
        Err(MetadataError::AddressNotInReservation)
    );
    assert_eq!(list, before);
    assert_eq!(m.supply(), 10);
    // past the reserved block the print is open to anyone
    mint_edition(&mut m, addr(9), &mut page, &mut list, 16, addr(7)).unwrap();
    // at or before the snapshot too
    mint_edition(&mut m, addr(9), &mut page, &mut list, 10, addr(7)).unwrap();
    assert_eq!(list, before);
}

#[test]
fn exhausted_reservation_is_refused() {
    let mut m = master(10, None);
    let mut page = EditionMarker::new();
    let mut list = Some(reserved_list(10));
    mint_edition(&mut m, addr(9), &mut page, &mut list, 11, addr(1)).unwrap();
    mint_edition(&mut m, addr(9), &mut page, &mut list, 12, addr(1)).unwrap();
    assert_eq!(list.as_ref().unwrap().reservations()[0].spots_remaining, 0);
    let mut other_page = EditionMarker::new();
    assert_eq!(
        mint_edition(&mut m, addr(9), &mut other_page, &mut list, 11, addr(1)),
        Err(MetadataError::AddressNotInReservation)
    );
}

#[test]
fn blocks_follow_entry_order() {
    let entries = vec![
        Reservation { address: addr(1), spots_remaining: 2, total_spots: 2 },
        Reservation { address: addr(2), spots_remaining: 0, total_spots: 0 },
        Reservation { address: addr(3), spots_remaining: 3, total_spots: 3 },
    ];
    assert_eq!(find_reservation(&entries, 0), Some(0));
    assert_eq!(find_reservation(&entries, 1), Some(0));
    assert_eq!(find_reservation(&entries, 2), Some(2));
    assert_eq!(find_reservation(&entries, 4), Some(2));
    assert_eq!(find_reservation(&entries, 5), None);
}

#[test]
fn new_master_edition_starts_empty() {
    let args = CreateMasterEditionArgs { max_supply: Some(50) };
    let m = args.new_master_edition();
    assert_eq!(m, MasterEditionV2 { key: Key::MasterEditionV2, supply: 0, max_supply: Some(50) });
}
