//! The edition marker: a page of 248 bits, one for each edition number in a
//! contiguous range, set once that edition has been printed.
use vstd::prelude::*;

use crate::codec::{save_bytes, saved};
use crate::error::MetadataError;
use crate::key::{key_byte, key_of_byte, Key};

verus! {

/// Number of edition numbers that one marker page covers.
pub const EDITION_MARKER_BIT_SIZE: u64 = 248;

/// Size of a marker record: the key byte and the 31-byte ledger.
pub const MAX_EDITION_MARKER_SIZE: usize = 32;

/// The page that holds an edition's bit.
pub open spec fn marker_page(edition: u64) -> u64 {
    edition / 248
}

/// The position of an edition's bit within its page.
pub open spec fn marker_offset(edition: u64) -> int {
    (edition % 248) as int
}

/// Bits are packed most significant first: position 0 of a byte is its top bit.
pub open spec fn bit_mask(offset: int) -> u8 {
    1u8 << ((7 - offset % 8) as u8)
}

pub open spec fn offset_claimed(ledger: Seq<u8>, offset: int) -> bool {
    ledger[offset / 8] & bit_mask(offset) != 0
}

/// Whether the page `ledger` records `edition` as printed.
pub open spec fn edition_claimed(ledger: Seq<u8>, edition: u64) -> bool {
    offset_claimed(ledger, marker_offset(edition))
}

/// The page `ledger` with the bit of `edition` set.
pub open spec fn ledger_with_edition(ledger: Seq<u8>, edition: u64) -> Seq<u8> {
    let o = marker_offset(edition);
    ledger.update(o / 8, ledger[o / 8] | bit_mask(o))
}

proof fn lemma_bits_of_or(b: u8, k: u8, j: u8)
    by (bit_vector)
    requires
        k < 8,
        j < 8,
    ensures
        ((b | (1u8 << k)) & (1u8 << j) != 0) == (j == k || b & (1u8 << j) != 0),
{
}

/// Inserting an edition claims it, and every other edition of the same page
/// keeps the state it had.
pub proof fn lemma_insert_then_taken(ledger: Seq<u8>, n: u64, m: u64)
    requires
        ledger.len() == 31,
        marker_page(m) == marker_page(n),
    ensures
        edition_claimed(ledger_with_edition(ledger, n), n),
        m != n ==> edition_claimed(ledger_with_edition(ledger, n), m) == edition_claimed(ledger, m),
{
    let on = marker_offset(n);
    let om = marker_offset(m);
    let after = ledger_with_edition(ledger, n);
    let kn = (7 - on % 8) as u8;
    let km = (7 - om % 8) as u8;
    lemma_bits_of_or(ledger[on / 8], kn, kn);
    if m != n {
        assert(om != on);
        if om / 8 == on / 8 {
            assert(km != kn);
            lemma_bits_of_or(ledger[on / 8], kn, km);
        }
    }
}

/// A page saved into a record-sized buffer reads back as itself.
pub proof fn lemma_marker_round_trip(m: EditionMarker)
    requires
        m.key == Key::EditionMarker || m.key == Key::Uninitialized,
    ensures
        m.encoded().len() == MAX_EDITION_MARKER_SIZE,
        m.encoded()[0] == 7 || m.encoded()[0] == 0,
        key_of_byte(m.encoded()[0]) == m.key,
        m.encoded().subrange(1, 32) == m.ledger@,
{
    assert(m.encoded().subrange(1, 32) =~= m.ledger@);
}

/// One page of the edition bitmap.
#[derive(Clone, Copy, Debug, PartialEq, Eq)]
pub struct EditionMarker {
    pub key: Key,
    pub ledger: [u8; 31],
}

impl EditionMarker {
    /// The record as stored: the key byte, then the ledger.
    pub open spec fn encoded(&self) -> Seq<u8> {
        seq![key_byte(self.key)] + self.ledger@
    }

    /// Decodes a marker page from its account data, which must be exactly
    /// one record long and tagged as a marker or as uninitialized.
    pub fn from_account_info(data: &[u8]) -> (r: Result<EditionMarker, MetadataError>)
        ensures
            (data@.len() == MAX_EDITION_MARKER_SIZE && (data@[0] == 7 || data@[0] == 0)) <==> r is Ok,
            r is Err ==> r == Err::<EditionMarker, MetadataError>(MetadataError::DataTypeMismatch),
            r matches Ok(m) ==> m.key == key_of_byte(data@[0]) && m.ledger@ == data@.subrange(1, 32),
    {
        if data.len() != MAX_EDITION_MARKER_SIZE || (data[0] != 7 && data[0] != 0) {
            return Err(MetadataError::DataTypeMismatch);
        }
        let key = if data[0] == 7 {
            Key::EditionMarker
        } else {
            Key::Uninitialized
        };
        let mut ledger = [0u8; 31];
        let mut i: usize = 0;
        while i < 31
            invariant
                data@.len() == 32,
                0 <= i <= 31,
                ledger@.len() == 31,
                forall|j: int| 0 <= j < i ==> ledger@[j] == data@[j + 1],
            decreases 31 - i,
        {
            ledger[i] = data[i + 1];
            i = i + 1;
        }
        assert(ledger@ =~= data@.subrange(1, 32));
        Ok(EditionMarker { key, ledger })
    }

    pub fn to_bytes(&self) -> (r: Vec<u8>)
        ensures
            r@ == self.encoded(),
    {
        let mut out: Vec<u8> = Vec::new();
        out.push(self.key.to_byte());
        let mut i: usize = 0;
        while i < 31
            invariant
                0 <= i <= 31,
                self.ledger@.len() == 31,
                out@ =~= seq![key_byte(self.key)] + self.ledger@.subrange(0, i as int),
            decreases 31 - i,
        {
            out.push(self.ledger[i]);
            i = i + 1;
        }
        assert(self.ledger@.subrange(0, 31) =~= self.ledger@);
        out
    }

    /// Writes the record over the start of `data`; a buffer too short to
    /// hold it is refused and left as it was.
    pub fn save(&self, data: &mut [u8]) -> (r: Result<(), MetadataError>)
        ensures
            saved(old(data)@, final(data)@, self.encoded(), r),
    {
        let bytes = self.to_bytes();
        save_bytes(data, &bytes)
    }

    /// A fresh page, with no edition claimed.
    pub fn new() -> (r: EditionMarker)
        ensures
            r.key == Key::EditionMarker,
            forall|i: int| 0 <= i < 31 ==> r.ledger@[i] == 0u8,
    {
        EditionMarker { key: Key::EditionMarker, ledger: [0u8; 31] }
    }

    /// The page that holds an edition's bit.
    pub fn page_index(edition: u64) -> (r: u64)
        ensures
            r == marker_page(edition),
    {
        edition / EDITION_MARKER_BIT_SIZE
    }

    /// The position of an edition within its page.
    pub fn get_edition_offset_from_starting_index(edition: u64) -> (r: Result<
        usize,
        MetadataError,
    >)
        ensures
            r == Ok::<usize, MetadataError>((edition % EDITION_MARKER_BIT_SIZE) as usize),
    {
        Ok((edition % EDITION_MARKER_BIT_SIZE) as usize)
    }

    /// The ledger byte that holds a position; past the 31 bytes of a page
    /// the position is refused.
    pub fn get_index(offset_from_start: usize) -> (r: Result<usize, MetadataError>)
        ensures
            offset_from_start / 8 <= 30 ==> r == Ok::<usize, MetadataError>(offset_from_start / 8),
            offset_from_start / 8 > 30 ==> r == Err::<usize, MetadataError>(
                MetadataError::InvalidEditionIndex,
            ),
    {
        let index = offset_from_start / 8;
        if index > 30 {
            return Err(MetadataError::InvalidEditionIndex);
        }
        Ok(index)
    }

    /// How far from the low end of its byte a position's bit lies.
    pub fn get_offset_from_right(offset_from_start: usize) -> (r: Result<u32, MetadataError>)
        ensures
            r == Ok::<u32, MetadataError>((7 - offset_from_start % 8) as u32),
    {
        Ok(7 - (offset_from_start % 8) as u32)
    }

    /// The ledger byte and the one-bit mask that address an edition.
    pub fn get_index_and_mask(edition: u64) -> (r: Result<(usize, u8), MetadataError>)
        ensures
            r == Ok::<(usize, u8), MetadataError>(
                ((marker_offset(edition) / 8) as usize, bit_mask(marker_offset(edition))),
            ),
            marker_offset(edition) / 8 < 31,
    {
        let offset_from_start = EditionMarker::get_edition_offset_from_starting_index(edition)?;
        let index = EditionMarker::get_index(offset_from_start)?;
        let shift = EditionMarker::get_offset_from_right(offset_from_start)?;
        Ok((index, 1u8 << (shift as u8)))
    }

    /// Whether this page records `edition` as printed.
    pub fn edition_taken(&self, edition: u64) -> (r: Result<bool, MetadataError>)
        ensures
            r == Ok::<bool, MetadataError>(edition_claimed(self.ledger@, edition)),
    {
        let (index, mask) = EditionMarker::get_index_and_mask(edition)?;
        let applied_mask = self.ledger[index] & mask;
        Ok(applied_mask != 0)
    }

    /// Sets the bit of `edition`. It does not look at the bit first: callers
    /// that must not count an edition twice test `edition_taken` before.
    pub fn insert_edition(&mut self, edition: u64) -> (r: Result<(), MetadataError>)
        ensures
            r == Ok::<(), MetadataError>(()),
            final(self).key == old(self).key,
            final(self).ledger@ == ledger_with_edition(old(self).ledger@, edition),
            edition_claimed(final(self).ledger@, edition),
            forall|m: u64|
                marker_page(m) == marker_page(edition) && m != edition ==> (edition_claimed(
                    final(self).ledger@,
                    m,
                ) == #[trigger] edition_claimed(old(self).ledger@, m)),
    {
        let (index, mask) = EditionMarker::get_index_and_mask(edition)?;
        self.ledger[index] = self.ledger[index] | mask;
        proof {
            assert(self.ledger@ =~= ledger_with_edition(old(self).ledger@, edition));
            assert forall|m: u64|
                marker_page(m) == marker_page(edition) && m != edition implies (edition_claimed(
                    self.ledger@,
                    m,
                ) == #[trigger] edition_claimed(old(self).ledger@, m)) by {
                lemma_insert_then_taken(old(self).ledger@, edition, m);
            }
            lemma_insert_then_taken(old(self).ledger@, edition, edition);
        }
        Ok(())
    }
}

} // verus!
