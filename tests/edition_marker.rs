use nft_metadata::edition_marker::{EditionMarker, EDITION_MARKER_BIT_SIZE, MAX_EDITION_MARKER_SIZE};
use nft_metadata::error::MetadataError;
use nft_metadata::key::Key;

#[test]
fn first_and_last_edition_of_page_zero() {
    let mut page = EditionMarker::new();
    page.insert_edition(0).unwrap();
    page.insert_edition(247).unwrap();
    assert_eq!(page.ledger[0], 0b1000_0000);
    assert_eq!(page.ledger[30], 0b0000_0001);
    assert_eq!(page.edition_taken(1), Ok(false));
    assert_eq!(page.edition_taken(0), Ok(true));
    assert_eq!(page.edition_taken(247), Ok(true));
}

#[test]
fn insert_claims_only_that_edition() {
    for n in 0..EDITION_MARKER_BIT_SIZE {
        let mut page = EditionMarker::new();
        page.insert_edition(n).unwrap();
        for m in 0..EDITION_MARKER_BIT_SIZE {
            assert_eq!(page.edition_taken(m), Ok(m == n), "inserted {} read {}", n, m);
        }
    }
}

#[test]
fn insert_keeps_earlier_claims() {
    let mut page = EditionMarker::new();
    page.insert_edition(9).unwrap();
    page.insert_edition(10).unwrap();
    assert_eq!(page.ledger[1], 0b0110_0000);
    page.insert_edition(10).unwrap();
    assert_eq!(page.ledger[1], 0b0110_0000);
}

#[test]
fn editions_on_later_pages_use_their_offset() {
    let mut page = EditionMarker::new();
    page.insert_edition(248 * 3 + 8).unwrap();
    assert_eq!(page.ledger[1], 0b1000_0000);
    assert_eq!(page.edition_taken(8), Ok(true));
    assert_eq!(EditionMarker::page_index(248 * 3 + 8), 3);
    assert_eq!(EditionMarker::page_index(247), 0);
    assert_eq!(EditionMarker::page_index(248), 1);
}

#[test]
fn index_and_mask_formula() {
    assert_eq!(EditionMarker::get_index_and_mask(10), Ok((1, 0b0010_0000)));
    assert_eq!(EditionMarker::get_index_and_mask(0), Ok((0, 0b1000_0000)));
    assert_eq!(EditionMarker::get_index_and_mask(247), Ok((30, 1)));
    assert_eq!(EditionMarker::get_index_and_mask(248 + 7), Ok((0, 1)));
    assert_eq!(EditionMarker::get_edition_offset_from_starting_index(500), Ok(4));
    assert_eq!(EditionMarker::get_offset_from_right(13), Ok(2));
    assert_eq!(EditionMarker::get_index(247), Ok(30));
}

#[test]
fn index_past_page_is_refused() {
    assert_eq!(EditionMarker::get_index(248), Err(MetadataError::InvalidEditionIndex));
    assert_eq!(EditionMarker::get_index(1000), Err(MetadataError::InvalidEditionIndex));
}

#[test]
fn marker_round_trip() {
    let mut page = EditionMarker::new();
    page.insert_edition(5).unwrap();
    page.insert_edition(200).unwrap();
    let mut data = vec![0u8; MAX_EDITION_MARKER_SIZE];
    page.save(&mut data).unwrap();
    assert_eq!(data[0], 7);
    assert_eq!(data[1], 0b0000_0100);
    let back = EditionMarker::from_account_info(&data).unwrap();
    assert_eq!(back, page);
}

#[test]
fn marker_decoding_checks_key_and_size() {
    let zeros = vec![0u8; MAX_EDITION_MARKER_SIZE];
    assert_eq!(EditionMarker::from_account_info(&zeros).unwrap().key, Key::Uninitialized);
    let mut wrong_key = vec![0u8; MAX_EDITION_MARKER_SIZE];
    wrong_key[0] = 6;
    assert_eq!(EditionMarker::from_account_info(&wrong_key), Err(MetadataError::DataTypeMismatch));
    let short = vec![7u8; 31];
    assert_eq!(EditionMarker::from_account_info(&short), Err(MetadataError::DataTypeMismatch));
    assert_eq!(EditionMarker::from_account_info(&[]), Err(MetadataError::DataTypeMismatch));
    let mut small = vec![0u8; 10];
    assert_eq!(EditionMarker::new().save(&mut small), Err(MetadataError::DataTypeMismatch));
    assert_eq!(small, vec![0u8; 10]);
}
