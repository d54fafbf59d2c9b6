use vstd::prelude::*;

verus! {

/// The discriminant stored in the first byte of every record.
#[derive(Clone, Copy, Debug, PartialEq, Eq, Structural)]
pub enum Key {
    Uninitialized,
    EditionV1,
    MasterEditionV1,
    ReservationListV1,
    MetadataV1,
    ReservationListV2,
    MasterEditionV2,
    EditionMarker,
}

/// The byte that stands for each key on disk.
pub open spec fn key_byte(k: Key) -> u8 {
    match k {
        Key::Uninitialized => 0,
        Key::EditionV1 => 1,
        Key::MasterEditionV1 => 2,
        Key::ReservationListV1 => 3,
        Key::MetadataV1 => 4,
        Key::ReservationListV2 => 5,
        Key::MasterEditionV2 => 6,
        Key::EditionMarker => 7,
    }
}

/// The key that a byte below 8 stands for.
pub open spec fn key_of_byte(b: u8) -> Key
    recommends
        b < 8,
{
    if b == 0 {
        Key::Uninitialized
    } else if b == 1 {
        Key::EditionV1
    } else if b == 2 {
        Key::MasterEditionV1
    } else if b == 3 {
        Key::ReservationListV1
    } else if b == 4 {
        Key::MetadataV1
    } else if b == 5 {
        Key::ReservationListV2
    } else if b == 6 {
        Key::MasterEditionV2
    } else {
        Key::EditionMarker
    }
}

impl Key {
    pub fn to_byte(self) -> (r: u8)
        ensures
            r == key_byte(self),
            key_of_byte(r) == self,
    {
        match self {
            Key::Uninitialized => 0,
            Key::EditionV1 => 1,
            Key::MasterEditionV1 => 2,
            Key::ReservationListV1 => 3,
            Key::MetadataV1 => 4,
            Key::ReservationListV2 => 5,
            Key::MasterEditionV2 => 6,
            Key::EditionMarker => 7,
        }
    }
}

} // verus!
