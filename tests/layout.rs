use nft_metadata::error::MetadataError;
use nft_metadata::key::Key;
use nft_metadata::master_edition::{
    get_master_edition, Edition, MasterEdition, MasterEditionV1, MasterEditionV2, MAX_EDITION_LEN,
    MAX_MASTER_EDITION_LEN,
};
use nft_metadata::pubkey::Pubkey;
use nft_metadata::reservation::{
    Reservation, ReservationList, ReservationListV1, ReservationListV2, ReservationV1,
    MAX_RESERVATION_LIST_SIZE, MAX_RESERVATION_LIST_V1_SIZE,
};
use nft_metadata::reservation_layout::get_reservation_list;

fn addr(b: u8) -> Pubkey {
    Pubkey { bytes: [b; 32] }
}

#[test]
fn current_master_edition_layout() {
    let m = MasterEditionV2 { key: Key::MasterEditionV2, supply: 0x0102, max_supply: Some(7) };
    let mut data = vec![0u8; MAX_MASTER_EDITION_LEN];
    m.save(&mut data).unwrap();
    assert_eq!(&data[..18], &[6, 2, 1, 0, 0, 0, 0, 0, 0, 1, 7, 0, 0, 0, 0, 0, 0, 0]);
    assert_eq!(get_master_edition(&data), Ok(MasterEdition::V2(m)));
}

#[test]
fn legacy_master_edition_layout() {
    let m = MasterEditionV1 {
        key: Key::MasterEditionV1,
        supply: 3,
        max_supply: None,
        printing_mint: addr(4),
        one_time_printing_authorization_mint: addr(5),
    };
    let mut data = vec![0u8; MAX_MASTER_EDITION_LEN];
    MasterEdition::V1(m).save(&mut data).unwrap();
    assert_eq!(data[0], 2);
    assert_eq!(data[9], 0);
    assert_eq!(data[18], 4);
    assert_eq!(data[50], 5);
    let back = get_master_edition(&data).unwrap();
    assert_eq!(back, MasterEdition::V1(m));
    assert_eq!(back.supply(), 3);
    assert_eq!(back.max_supply(), None);
    assert_eq!(back.key(), Key::MasterEditionV1);
}

#[test]
fn unknown_version_is_refused() {
    let mut data = vec![0u8; MAX_MASTER_EDITION_LEN];
    data[0] = 9;
    assert_eq!(get_master_edition(&data), Err(MetadataError::DataTypeMismatch));
    assert_eq!(get_master_edition(&[4]), Err(MetadataError::DataTypeMismatch));
    assert_eq!(get_master_edition(&[]), Err(MetadataError::DataTypeMismatch));
    assert_eq!(get_reservation_list(&[6, 1, 2]), Err(MetadataError::DataTypeMismatch));
    assert_eq!(get_reservation_list(&[]), Err(MetadataError::DataTypeMismatch));
}

#[test]
fn known_version_with_wrong_size_is_refused() {
    assert_eq!(get_master_edition(&[6, 0, 0]), Err(MetadataError::DataTypeMismatch));
    let mut bad_option = vec![0u8; MAX_MASTER_EDITION_LEN];
    bad_option[0] = 6;
    bad_option[9] = 2;
    assert_eq!(get_master_edition(&bad_option), Err(MetadataError::DataTypeMismatch));
    assert_eq!(get_reservation_list(&[5, 0, 0]), Err(MetadataError::DataTypeMismatch));
}

#[test]
fn master_edition_supply_update() {
    let mut m = MasterEdition::V2(MasterEditionV2 { key: Key::MasterEditionV2, supply: 1, max_supply: None });
    m.set_supply(8);
    assert_eq!(m.supply(), 8);
    let mut small = vec![0u8; 5];
    assert_eq!(m.save(&mut small), Err(MetadataError::DataTypeMismatch));
}

#[test]
fn edition_layout() {
    let e = Edition { key: Key::EditionV1, parent: addr(3), edition: 300 };
    let mut data = vec![0u8; MAX_EDITION_LEN];
    e.save(&mut data).unwrap();
    assert_eq!(data[0], 1);
    assert_eq!(data[1], 3);
    assert_eq!(&data[33..35], &[44, 1]);
    assert_eq!(Edition::from_account_info(&data), Ok(e));
    data[0] = 2;
    assert_eq!(Edition::from_account_info(&data), Err(MetadataError::DataTypeMismatch));
}

#[test]
fn current_reservation_list_layout() {
    let l = ReservationListV2 {
        key: Key::ReservationListV2,
        master_edition: addr(7),
        supply_snapshot: Some(2),
        reservations: vec![
            Reservation { address: addr(1), spots_remaining: 1, total_spots: 4 },
            Reservation { address: addr(2), spots_remaining: 6, total_spots: 6 },
        ],
        total_reservation_spots: 10,
        current_reservation_spots: 10,
    };
    let mut data = vec![0u8; MAX_RESERVATION_LIST_SIZE];
    l.save(&mut data).unwrap();
    assert_eq!(data[0], 5);
    assert_eq!(&data[33..35], &[1, 2]);
    assert_eq!(&data[42..46], &[2, 0, 0, 0]);
    assert_eq!(data[46], 1);
    assert_eq!(data[46 + 32], 1);
    assert_eq!(data[46 + 40], 4);
    assert_eq!(data[46 + 48 + 40], 6);
    assert_eq!(data[46 + 96], 10);
    let back = get_reservation_list(&data).unwrap();
    assert_eq!(back, ReservationList::V2(l));
    assert_eq!(back.total_reservation_spots(), 10);
}

#[test]
fn legacy_reservation_list_layout() {
    let l = ReservationListV1 {
        key: Key::ReservationListV1,
        master_edition: addr(7),
        supply_snapshot: None,
        reservations: vec![ReservationV1 { address: addr(1), spots_remaining: 2, total_spots: 5 }],
    };
    let mut data = vec![0u8; MAX_RESERVATION_LIST_V1_SIZE];
    ReservationList::V1(l.clone()).save(&mut data).unwrap();
    assert_eq!(data[0], 3);
    assert_eq!(&data[42..46], &[1, 0, 0, 0]);
    assert_eq!(&data[46 + 32..46 + 34], &[2, 5]);
    let back = get_reservation_list(&data).unwrap();
    assert_eq!(back, ReservationList::V1(l));
    assert_eq!(back.total_reservation_spots(), 5);
    assert_eq!(back.current_reservation_spots(), 5);
}

#[test]
fn entry_count_past_buffer_is_refused() {
    let mut data = vec![0u8; MAX_RESERVATION_LIST_V1_SIZE];
    data[0] = 3;
    data[42] = 0xff;
    data[43] = 0xff;
    assert_eq!(get_reservation_list(&data), Err(MetadataError::DataTypeMismatch));
}
