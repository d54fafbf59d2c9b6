//! Master edition records, in the legacy and the current layout, and the
//! edition records that each print leaves.
use vstd::prelude::*;

use crate::codec::{
    address_at, le_option_u64, le_u64, lemma_option_u64_bytes, lemma_u64_bytes, option_u64_bytes,
    overwritten, push_option_u64, push_pubkey, push_u64, read_option_u64, read_pubkey, read_u64,
    save_bytes, saved, tagged, u64_bytes,
};
use crate::error::MetadataError;
use crate::key::{key_byte, key_of_byte, Key};
use crate::pubkey::Pubkey;

verus! {

/// Size of a master edition record, in either layout.
pub const MAX_MASTER_EDITION_LEN: usize = 1 + 9 + 8 + 264;

/// Size of an edition record.
pub const MAX_EDITION_LEN: usize = 1 + 32 + 8 + 200;

/// The current master edition layout.
#[derive(Clone, Copy, Debug, PartialEq, Eq)]
pub struct MasterEditionV2 {
    pub key: Key,
    pub supply: u64,
    pub max_supply: Option<u64>,
}

/// The legacy master edition layout, which also names the two mints of the
/// retired printing scheme.
#[derive(Clone, Copy, Debug, PartialEq, Eq)]
pub struct MasterEditionV1 {
    pub key: Key,
    pub supply: u64,
    pub max_supply: Option<u64>,
    pub printing_mint: Pubkey,
    pub one_time_printing_authorization_mint: Pubkey,
}

/// One printed copy of a master edition.
#[derive(Clone, Copy, Debug, PartialEq, Eq)]
pub struct Edition {
    pub key: Key,
    pub parent: Pubkey,
    pub edition: u64,
}

pub open spec fn master_edition_v2_readable(data: Seq<u8>) -> bool {
    tagged(data, 6, MAX_MASTER_EDITION_LEN) && data[9] <= 1
}

pub open spec fn reads_master_edition_v2(data: Seq<u8>, m: MasterEditionV2) -> bool {
    &&& m.key == key_of_byte(data[0])
    &&& m.supply == le_u64(data, 1)
    &&& m.max_supply == le_option_u64(data, 9)
}

pub open spec fn master_edition_v1_readable(data: Seq<u8>) -> bool {
    tagged(data, 2, MAX_MASTER_EDITION_LEN) && data[9] <= 1
}

pub open spec fn reads_master_edition_v1(data: Seq<u8>, m: MasterEditionV1) -> bool {
    &&& m.key == key_of_byte(data[0])
    &&& m.supply == le_u64(data, 1)
    &&& m.max_supply == le_option_u64(data, 9)
    &&& m.printing_mint@ == address_at(data, 18)
    &&& m.one_time_printing_authorization_mint@ == address_at(data, 50)
}

pub open spec fn edition_readable(data: Seq<u8>) -> bool {
    tagged(data, 1, MAX_EDITION_LEN)
}

pub open spec fn reads_edition(data: Seq<u8>, e: Edition) -> bool {
    &&& e.key == key_of_byte(data[0])
    &&& e.parent@ == address_at(data, 1)
    &&& e.edition == le_u64(data, 33)
}

proof fn lemma_option_at(data: Seq<u8>, at: int, o: Option<u64>)
    requires
        0 <= at,
        at + 9 <= data.len(),
        data.subrange(at, at + 9) == option_u64_bytes(o),
    ensures
        data[at] <= 1,
        le_option_u64(data, at) == o,
{
    lemma_option_u64_bytes(o);
    let b = option_u64_bytes(o);
    assert(data[at] == b[0]);
    assert(data.subrange(at + 1, at + 9) =~= b.subrange(1, 9));
    assert(le_option_u64(b, 0) == o);
}

/// A master edition in the current layout, saved into a record-sized
/// buffer, reads back as itself.
pub proof fn lemma_master_edition_v2_round_trip(m: MasterEditionV2, before: Seq<u8>)
    requires
        before.len() == MAX_MASTER_EDITION_LEN,
        m.key == Key::MasterEditionV2 || m.key == Key::Uninitialized,
    ensures
        master_edition_v2_readable(overwritten(before, m.encoded())),
        reads_master_edition_v2(overwritten(before, m.encoded()), m),
{
    let data = overwritten(before, m.encoded());
    lemma_u64_bytes(m.supply);
    lemma_option_u64_bytes(m.max_supply);
    assert(data.subrange(1, 9) =~= u64_bytes(m.supply));
    assert(data.subrange(9, 18) =~= option_u64_bytes(m.max_supply));
    lemma_option_at(data, 9, m.max_supply);
}

/// A master edition in the legacy layout, saved into a record-sized
/// buffer, reads back as itself.
pub proof fn lemma_master_edition_v1_round_trip(m: MasterEditionV1, before: Seq<u8>)
    requires
        before.len() == MAX_MASTER_EDITION_LEN,
        m.key == Key::MasterEditionV1 || m.key == Key::Uninitialized,
    ensures
        master_edition_v1_readable(overwritten(before, m.encoded())),
        reads_master_edition_v1(overwritten(before, m.encoded()), m),
{
    let data = overwritten(before, m.encoded());
    lemma_u64_bytes(m.supply);
    lemma_option_u64_bytes(m.max_supply);
    assert(data.subrange(1, 9) =~= u64_bytes(m.supply));
    assert(data.subrange(9, 18) =~= option_u64_bytes(m.max_supply));
    lemma_option_at(data, 9, m.max_supply);
    assert(address_at(data, 18) =~= m.printing_mint@);
    assert(address_at(data, 50) =~= m.one_time_printing_authorization_mint@);
}

/// An edition record, saved into a record-sized buffer, reads back as itself.
pub proof fn lemma_edition_round_trip(e: Edition, before: Seq<u8>)
    requires
        before.len() == MAX_EDITION_LEN,
        e.key == Key::EditionV1 || e.key == Key::Uninitialized,
    ensures
        edition_readable(overwritten(before, e.encoded())),
        reads_edition(overwritten(before, e.encoded()), e),
{
    let data = overwritten(before, e.encoded());
    lemma_u64_bytes(e.edition);
    assert(address_at(data, 1) =~= e.parent@);
    assert(data.subrange(33, 41) =~= u64_bytes(e.edition));
}

impl MasterEditionV2 {
    pub open spec fn encoded(&self) -> Seq<u8> {
        seq![key_byte(self.key)] + u64_bytes(self.supply) + option_u64_bytes(self.max_supply)
    }

    /// Decodes a master edition in the current layout from its account data.
    pub fn from_account_info(data: &[u8]) -> (r: Result<MasterEditionV2, MetadataError>)
        ensures
            master_edition_v2_readable(data@) <==> r is Ok,
            r is Err ==> r == Err::<MasterEditionV2, MetadataError>(MetadataError::DataTypeMismatch),
            r matches Ok(m) ==> reads_master_edition_v2(data@, m),
    {
        if data.len() != MAX_MASTER_EDITION_LEN || (data[0] != 6 && data[0] != 0) {
            return Err(MetadataError::DataTypeMismatch);
        }
        let max_supply = match read_option_u64(data, 9) {
            Ok(v) => v,
            Err(e) => return Err(e),
        };
        let key = if data[0] == 6 {
            Key::MasterEditionV2
        } else {
            Key::Uninitialized
        };
        Ok(MasterEditionV2 { key, supply: read_u64(data, 1), max_supply })
    }

    pub fn to_bytes(&self) -> (r: Vec<u8>)
        ensures
            r@ == self.encoded(),
    {
        let mut out: Vec<u8> = Vec::new();
        out.push(self.key.to_byte());
        push_u64(&mut out, self.supply);
        push_option_u64(&mut out, self.max_supply);
        out
    }

    /// Writes the record over the start of `data`.
    pub fn save(&self, data: &mut [u8]) -> (r: Result<(), MetadataError>)
        ensures
            saved(old(data)@, final(data)@, self.encoded(), r),
    {
        let bytes = self.to_bytes();
        save_bytes(data, &bytes)
    }
}

impl MasterEditionV1 {
    pub open spec fn encoded(&self) -> Seq<u8> {
        seq![key_byte(self.key)] + u64_bytes(self.supply) + option_u64_bytes(self.max_supply)
            + self.printing_mint@ + self.one_time_printing_authorization_mint@
    }

    /// Decodes a master edition in the legacy layout from its account data.
    pub fn from_account_info(data: &[u8]) -> (r: Result<MasterEditionV1, MetadataError>)
        ensures
            master_edition_v1_readable(data@) <==> r is Ok,
            r is Err ==> r == Err::<MasterEditionV1, MetadataError>(MetadataError::DataTypeMismatch),
            r matches Ok(m) ==> reads_master_edition_v1(data@, m),
    {
        if data.len() != MAX_MASTER_EDITION_LEN || (data[0] != 2 && data[0] != 0) {
            return Err(MetadataError::DataTypeMismatch);
        }
        let max_supply = match read_option_u64(data, 9) {
            Ok(v) => v,
            Err(e) => return Err(e),
        };
        let key = if data[0] == 2 {
            Key::MasterEditionV1
        } else {
            Key::Uninitialized
        };
        Ok(
            MasterEditionV1 {
                key,
                supply: read_u64(data, 1),
                max_supply,
                printing_mint: read_pubkey(data, 18),
                one_time_printing_authorization_mint: read_pubkey(data, 50),
            },
        )
    }

    pub fn to_bytes(&self) -> (r: Vec<u8>)
        ensures
            r@ == self.encoded(),
    {
        let mut out: Vec<u8> = Vec::new();
        out.push(self.key.to_byte());
        push_u64(&mut out, self.supply);
        push_option_u64(&mut out, self.max_supply);
        push_pubkey(&mut out, &self.printing_mint);
        push_pubkey(&mut out, &self.one_time_printing_authorization_mint);
        out
    }

    /// Writes the record over the start of `data`.
    pub fn save(&self, data: &mut [u8]) -> (r: Result<(), MetadataError>)
        ensures
            saved(old(data)@, final(data)@, self.encoded(), r),
    {
        let bytes = self.to_bytes();
        save_bytes(data, &bytes)
    }
}

impl Edition {
    pub open spec fn encoded(&self) -> Seq<u8> {
        seq![key_byte(self.key)] + self.parent@ + u64_bytes(self.edition)
    }

    /// Decodes an edition record from its account data.
    pub fn from_account_info(data: &[u8]) -> (r: Result<Edition, MetadataError>)
        ensures
            edition_readable(data@) <==> r is Ok,
            r is Err ==> r == Err::<Edition, MetadataError>(MetadataError::DataTypeMismatch),
            r matches Ok(e) ==> reads_edition(data@, e),
    {
        if data.len() != MAX_EDITION_LEN || (data[0] != 1 && data[0] != 0) {
            return Err(MetadataError::DataTypeMismatch);
        }
        let key = if data[0] == 1 {
            Key::EditionV1
        } else {
            Key::Uninitialized
        };
        Ok(Edition { key, parent: read_pubkey(data, 1), edition: read_u64(data, 33) })
    }

    pub fn to_bytes(&self) -> (r: Vec<u8>)
        ensures
            r@ == self.encoded(),
    {
        let mut out: Vec<u8> = Vec::new();
        out.push(self.key.to_byte());
        push_pubkey(&mut out, &self.parent);
        push_u64(&mut out, self.edition);
        out
    }

    /// Writes the record over the start of `data`.
    pub fn save(&self, data: &mut [u8]) -> (r: Result<(), MetadataError>)
        ensures
            saved(old(data)@, final(data)@, self.encoded(), r),
    {
        let bytes = self.to_bytes();
        save_bytes(data, &bytes)
    }
}

/// A master edition in either layout, behind one interface.
#[derive(Clone, Copy, Debug, PartialEq, Eq)]
pub enum MasterEdition {
    V1(MasterEditionV1),
    V2(MasterEditionV2),
}

impl MasterEdition {
    pub open spec fn spec_key(&self) -> Key {
        match self {
            MasterEdition::V1(m) => m.key,
            MasterEdition::V2(m) => m.key,
        }
    }

    pub open spec fn spec_supply(&self) -> u64 {
        match self {
            MasterEdition::V1(m) => m.supply,
            MasterEdition::V2(m) => m.supply,
        }
    }

    pub open spec fn spec_max_supply(&self) -> Option<u64> {
        match self {
            MasterEdition::V1(m) => m.max_supply,
            MasterEdition::V2(m) => m.max_supply,
        }
    }

    /// The supply has not passed the cap, if there is one.
    pub open spec fn within_cap(&self) -> bool {
        match self.spec_max_supply() {
            Some(max) => self.spec_supply() <= max,
            None => true,
        }
    }

    /// The same record with another supply.
    pub open spec fn with_supply(self, supply: u64) -> MasterEdition {
        match self {
            MasterEdition::V1(m) => MasterEdition::V1(MasterEditionV1 { supply, ..m }),
            MasterEdition::V2(m) => MasterEdition::V2(MasterEditionV2 { supply, ..m }),
        }
    }

    pub open spec fn encoded(&self) -> Seq<u8> {
        match self {
            MasterEdition::V1(m) => m.encoded(),
            MasterEdition::V2(m) => m.encoded(),
        }
    }

    pub fn key(&self) -> (r: Key)
        ensures
            r == self.spec_key(),
    {
        match self {
            MasterEdition::V1(m) => m.key,
            MasterEdition::V2(m) => m.key,
        }
    }

    pub fn supply(&self) -> (r: u64)
        ensures
            r == self.spec_supply(),
    {
        match self {
            MasterEdition::V1(m) => m.supply,
            MasterEdition::V2(m) => m.supply,
        }
    }

    pub fn max_supply(&self) -> (r: Option<u64>)
        ensures
            r == self.spec_max_supply(),
    {
        match self {
            MasterEdition::V1(m) => m.max_supply,
            MasterEdition::V2(m) => m.max_supply,
        }
    }

    pub fn set_supply(&mut self, supply: u64)
        ensures
            *final(self) == old(self).with_supply(supply),
    {
        match self {
            MasterEdition::V1(m) => m.supply = supply,
            MasterEdition::V2(m) => m.supply = supply,
        }
    }

    /// Writes the record, in its own layout, over the start of `data`.
    pub fn save(&self, data: &mut [u8]) -> (r: Result<(), MetadataError>)
        ensures
            saved(old(data)@, final(data)@, self.encoded(), r),
    {
        match self {
            MasterEdition::V1(m) => m.save(data),
            MasterEdition::V2(m) => m.save(data),
        }
    }
}

/// Reads a master edition record, choosing the layout by its first byte:
/// 2 is the legacy layout, 6 the current one. Any other first byte, or an
/// empty buffer, is refused without reading further.
pub fn get_master_edition(data: &[u8]) -> (r: Result<MasterEdition, MetadataError>)
    ensures
        r is Err ==> r == Err::<MasterEdition, MetadataError>(MetadataError::DataTypeMismatch),
        data@.len() == 0 || (data@[0] != 2 && data@[0] != 6) ==> r is Err,
        data@.len() > 0 && data@[0] == 2 ==> {
            &&& master_edition_v1_readable(data@) <==> r is Ok
            &&& r matches Ok(m) ==> m matches MasterEdition::V1(v1) && reads_master_edition_v1(
                data@,
                v1,
            )
        },
        data@.len() > 0 && data@[0] == 6 ==> {
            &&& master_edition_v2_readable(data@) <==> r is Ok
            &&& r matches Ok(m) ==> m matches MasterEdition::V2(v2) && reads_master_edition_v2(
                data@,
                v2,
            )
        },
{
    if data.len() == 0 {
        return Err(MetadataError::DataTypeMismatch);
    }
    let version = data[0];
    if version == 2 {
        match MasterEditionV1::from_account_info(data) {
            Ok(m) => Ok(MasterEdition::V1(m)),
            Err(e) => Err(e),
        }
    } else if version == 6 {
        match MasterEditionV2::from_account_info(data) {
            Ok(m) => Ok(MasterEdition::V2(m)),
            Err(e) => Err(e),
        }
    } else {
        Err(MetadataError::DataTypeMismatch)
    }
}

} // verus!
