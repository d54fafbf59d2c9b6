//! The on-disk layouts of the two reservation list formats.
//!
//! Both start with the key byte, the master edition's address, the optional
//! supply snapshot and a 4-byte entry count. A legacy entry is an address
//! and two count bytes (34 bytes); a current entry is an address and two
//! `u64` counts (48 bytes), and the current format ends with its two
//! running totals.
use vstd::prelude::*;

use crate::codec::{
    address_at, le_option_u64, le_u32, le_u64, option_u64_bytes, push_option_u64, push_pubkey,
    push_u32, push_u64, read_option_u64, read_pubkey, read_u32, read_u64, u32_bytes, u64_bytes,
};
use crate::error::MetadataError;
use crate::key::{key_byte, key_of_byte, Key};
use crate::codec::{
    lemma_option_u64_bytes, lemma_u32_bytes, lemma_u64_bytes, overwritten, save_bytes, saved,
    tagged,
};
use crate::reservation::{
    Reservation, ReservationList, ReservationListV1, ReservationListV2, ReservationV1,
    MAX_RESERVATION_LIST_SIZE, MAX_RESERVATION_LIST_V1_SIZE,
};

verus! {

/// Offset of the first entry in both formats.
pub const ENTRIES_START: usize = 46;

pub open spec fn reads_reservation(data: Seq<u8>, at: int, r: Reservation) -> bool {
    &&& r.address@ == address_at(data, at)
    &&& r.spots_remaining == le_u64(data, at + 32)
    &&& r.total_spots == le_u64(data, at + 40)
}

pub open spec fn reads_reservation_v1(data: Seq<u8>, at: int, r: ReservationV1) -> bool {
    &&& r.address@ == address_at(data, at)
    &&& r.spots_remaining == data[at + 32]
    &&& r.total_spots == data[at + 33]
}

/// The entry count that a reservation list record states.
pub open spec fn entry_count(data: Seq<u8>) -> int {
    le_u32(data, 42) as int
}

pub open spec fn reservation_list_v2_readable(data: Seq<u8>) -> bool {
    &&& tagged(data, 5, MAX_RESERVATION_LIST_SIZE)
    &&& data[33] <= 1
    &&& 62 + 48 * entry_count(data) <= data.len()
}

pub open spec fn reads_reservation_list_v2(data: Seq<u8>, l: ReservationListV2) -> bool {
    let n = entry_count(data);
    &&& l.key == key_of_byte(data[0])
    &&& l.master_edition@ == address_at(data, 1)
    &&& l.supply_snapshot == le_option_u64(data, 33)
    &&& l.reservations@.len() == n
    &&& forall|i: int|
        0 <= i < n ==> reads_reservation(data, 46 + 48 * i, #[trigger] l.reservations@[i])
    &&& l.total_reservation_spots == le_u64(data, 46 + 48 * n)
    &&& l.current_reservation_spots == le_u64(data, 54 + 48 * n)
}

pub open spec fn reservation_list_v1_readable(data: Seq<u8>) -> bool {
    &&& tagged(data, 3, MAX_RESERVATION_LIST_V1_SIZE)
    &&& data[33] <= 1
    &&& 46 + 34 * entry_count(data) <= data.len()
}

pub open spec fn reads_reservation_list_v1(data: Seq<u8>, l: ReservationListV1) -> bool {
    let n = entry_count(data);
    &&& l.key == key_of_byte(data[0])
    &&& l.master_edition@ == address_at(data, 1)
    &&& l.supply_snapshot == le_option_u64(data, 33)
    &&& l.reservations@.len() == n
    &&& forall|i: int|
        0 <= i < n ==> reads_reservation_v1(data, 46 + 34 * i, #[trigger] l.reservations@[i])
}

pub open spec fn reservation_bytes(r: Reservation) -> Seq<u8> {
    r.address@ + u64_bytes(r.spots_remaining) + u64_bytes(r.total_spots)
}

pub open spec fn reservation_v1_bytes(r: ReservationV1) -> Seq<u8> {
    r.address@ + seq![r.spots_remaining, r.total_spots]
}

pub open spec fn reservations_bytes(s: Seq<Reservation>) -> Seq<u8>
    decreases s.len(),
{
    if s.len() == 0 {
        Seq::empty()
    } else {
        reservations_bytes(s.drop_last()) + reservation_bytes(s.last())
    }
}

pub open spec fn reservations_v1_bytes(s: Seq<ReservationV1>) -> Seq<u8>
    decreases s.len(),
{
    if s.len() == 0 {
        Seq::empty()
    } else {
        reservations_v1_bytes(s.drop_last()) + reservation_v1_bytes(s.last())
    }
}

/// The fields that both formats start with.
pub open spec fn list_header_bytes(
    key: Key,
    master_edition: Seq<u8>,
    snapshot: Option<u64>,
    count: nat,
) -> Seq<u8> {
    seq![key_byte(key)] + master_edition + option_u64_bytes(snapshot) + u32_bytes(count as u32)
}

impl ReservationListV2 {
    /// The record as stored; meaningful while the entry count fits in four bytes.
    pub open spec fn encoded(&self) -> Seq<u8> {
        list_header_bytes(
            self.key,
            self.master_edition@,
            self.supply_snapshot,
            self.reservations@.len(),
        ) + reservations_bytes(self.reservations@) + u64_bytes(self.total_reservation_spots)
            + u64_bytes(self.current_reservation_spots)
    }

    /// Decodes a reservation list in the current format from its account data.
    pub fn from_account_info(data: &[u8]) -> (r: Result<ReservationListV2, MetadataError>)
        ensures
            reservation_list_v2_readable(data@) <==> r is Ok,
            r is Err ==> r == Err::<ReservationListV2, MetadataError>(
                MetadataError::DataTypeMismatch,
            ),
            r matches Ok(l) ==> reads_reservation_list_v2(data@, l),
    {
        let len = data.len();
        if len != MAX_RESERVATION_LIST_SIZE || (data[0] != 5 && data[0] != 0) {
            return Err(MetadataError::DataTypeMismatch);
        }
        let supply_snapshot = match read_option_u64(data, 33) {
            Ok(v) => v,
            Err(e) => return Err(e),
        };
        let count = read_u32(data, 42) as usize;
        if count > (len - 62) / 48 {
            return Err(MetadataError::DataTypeMismatch);
        }
        let mut reservations: Vec<Reservation> = Vec::new();
        let mut i: usize = 0;
        let mut at: usize = ENTRIES_START;
        while i < count
            invariant
                len == data@.len(),
                count == entry_count(data@),
                62 + 48 * count <= len,
                0 <= i <= count,
                at == 46 + 48 * i,
                reservations@.len() == i,
                forall|j: int|
                    0 <= j < i ==> reads_reservation(data@, 46 + 48 * j, #[trigger] reservations@[j]),
            decreases count - i,
        {
            reservations.push(
                Reservation {
                    address: read_pubkey(data, at),
                    spots_remaining: read_u64(data, at + 32),
                    total_spots: read_u64(data, at + 40),
                },
            );
            i = i + 1;
            at = at + 48;
        }
        let key = if data[0] == 5 {
            Key::ReservationListV2
        } else {
            Key::Uninitialized
        };
        Ok(
            ReservationListV2 {
                key,
                master_edition: read_pubkey(data, 1),
                supply_snapshot,
                reservations,
                total_reservation_spots: read_u64(data, at),
                current_reservation_spots: read_u64(data, at + 8),
            },
        )
    }

    pub fn to_bytes(&self) -> (r: Vec<u8>)
        requires
            self.reservations@.len() <= u32::MAX,
        ensures
            r@ == self.encoded(),
    {
        let n = self.reservations.len();
        let mut out: Vec<u8> = Vec::new();
        out.push(self.key.to_byte());
        push_pubkey(&mut out, &self.master_edition);
        push_option_u64(&mut out, self.supply_snapshot);
        push_u32(&mut out, n as u32);
        let ghost header = out@;
        let mut i: usize = 0;
        while i < n
            invariant
                n == self.reservations@.len(),
                0 <= i <= n,
                out@ == header + reservations_bytes(self.reservations@.subrange(0, i as int)),
            decreases n - i,
        {
            let e = self.reservations[i];
            let ghost before = out@;
            push_pubkey(&mut out, &e.address);
            push_u64(&mut out, e.spots_remaining);
            push_u64(&mut out, e.total_spots);
            proof {
                let s = self.reservations@.subrange(0, i + 1);
                assert(s.drop_last() =~= self.reservations@.subrange(0, i as int));
                assert(out@ =~= before + reservation_bytes(e));
            }
            i = i + 1;
        }
        assert(self.reservations@.subrange(0, n as int) =~= self.reservations@);
        push_u64(&mut out, self.total_reservation_spots);
        push_u64(&mut out, self.current_reservation_spots);
        out
    }

    /// Writes the record over the start of `data`; a list whose entry count
    /// does not fit in four bytes is refused like one that does not fit.
    pub fn save(&self, data: &mut [u8]) -> (r: Result<(), MetadataError>)
        ensures
            self.reservations@.len() > u32::MAX ==> r == Err::<(), MetadataError>(
                MetadataError::DataTypeMismatch,
            ) && final(data)@ == old(data)@,
            self.reservations@.len() <= u32::MAX ==> saved(
                old(data)@,
                final(data)@,
                self.encoded(),
                r,
            ),
    {
        let n = self.reservations.len();
        let len = data.len();
        if n > u32::MAX as usize || len < 62 || n > (len - 62) / 48 {
            proof {
                if self.reservations@.len() <= u32::MAX {
                    self.lemma_encoded_len();
                }
            }
            return Err(MetadataError::DataTypeMismatch);
        }
        let bytes = self.to_bytes();
        save_bytes(data, &bytes)
    }

    proof fn lemma_encoded_len(&self)
        ensures
            self.encoded().len() == 62 + 48 * self.reservations@.len(),
    {
        lemma_reservations_bytes_len(self.reservations@);
        crate::codec::lemma_u64_bytes(self.total_reservation_spots);
        crate::codec::lemma_u64_bytes(self.current_reservation_spots);
        crate::codec::lemma_u32_bytes(self.reservations@.len() as u32);
        crate::codec::lemma_option_u64_bytes(self.supply_snapshot);
    }
}

proof fn lemma_reservations_bytes_len(s: Seq<Reservation>)
    ensures
        reservations_bytes(s).len() == 48 * s.len(),
    decreases s.len(),
{
    if s.len() > 0 {
        lemma_reservations_bytes_len(s.drop_last());
        crate::codec::lemma_u64_bytes(s.last().spots_remaining);
        crate::codec::lemma_u64_bytes(s.last().total_spots);
    }
}

proof fn lemma_reservations_v1_bytes_len(s: Seq<ReservationV1>)
    ensures
        reservations_v1_bytes(s).len() == 34 * s.len(),
    decreases s.len(),
{
    if s.len() > 0 {
        lemma_reservations_v1_bytes_len(s.drop_last());
    }
}

impl ReservationListV1 {
    /// The record as stored; meaningful while the entry count fits in four bytes.
    pub open spec fn encoded(&self) -> Seq<u8> {
        list_header_bytes(
            self.key,
            self.master_edition@,
            self.supply_snapshot,
            self.reservations@.len(),
        ) + reservations_v1_bytes(self.reservations@)
    }

    /// Decodes a reservation list in the legacy format from its account data.
    pub fn from_account_info(data: &[u8]) -> (r: Result<ReservationListV1, MetadataError>)
        ensures
            reservation_list_v1_readable(data@) <==> r is Ok,
            r is Err ==> r == Err::<ReservationListV1, MetadataError>(
                MetadataError::DataTypeMismatch,
            ),
            r matches Ok(l) ==> reads_reservation_list_v1(data@, l) && l.reservations@.len()
                <= u32::MAX,
    {
        let len = data.len();
        if len != MAX_RESERVATION_LIST_V1_SIZE || (data[0] != 3 && data[0] != 0) {
            return Err(MetadataError::DataTypeMismatch);
        }
        let supply_snapshot = match read_option_u64(data, 33) {
            Ok(v) => v,
            Err(e) => return Err(e),
        };
        let count = read_u32(data, 42) as usize;
        if count > (len - 46) / 34 {
            return Err(MetadataError::DataTypeMismatch);
        }
        let mut reservations: Vec<ReservationV1> = Vec::new();
        let mut i: usize = 0;
        let mut at: usize = ENTRIES_START;
        while i < count
            invariant
                len == data@.len(),
                count == entry_count(data@),
                46 + 34 * count <= len,
                0 <= i <= count,
                at == 46 + 34 * i,
                reservations@.len() == i,
                forall|j: int|
                    0 <= j < i ==> reads_reservation_v1(
                        data@,
                        46 + 34 * j,
                        #[trigger] reservations@[j],
                    ),
            decreases count - i,
        {
            reservations.push(
                ReservationV1 {
                    address: read_pubkey(data, at),
                    spots_remaining: data[at + 32],
                    total_spots: data[at + 33],
                },
            );
            i = i + 1;
            at = at + 34;
        }
        let key = if data[0] == 3 {
            Key::ReservationListV1
        } else {
            Key::Uninitialized
        };
        Ok(
            ReservationListV1 {
                key,
                master_edition: read_pubkey(data, 1),
                supply_snapshot,
                reservations,
            },
        )
    }

    pub fn to_bytes(&self) -> (r: Vec<u8>)
        requires
            self.reservations@.len() <= u32::MAX,
        ensures
            r@ == self.encoded(),
    {
        let n = self.reservations.len();
        let mut out: Vec<u8> = Vec::new();
        out.push(self.key.to_byte());
        push_pubkey(&mut out, &self.master_edition);
        push_option_u64(&mut out, self.supply_snapshot);
        push_u32(&mut out, n as u32);
        let ghost header = out@;
        let mut i: usize = 0;
        while i < n
            invariant
                n == self.reservations@.len(),
                0 <= i <= n,
                out@ == header + reservations_v1_bytes(self.reservations@.subrange(0, i as int)),
            decreases n - i,
        {
            let e = self.reservations[i];
            let ghost before = out@;
            push_pubkey(&mut out, &e.address);
            out.push(e.spots_remaining);
            out.push(e.total_spots);
            proof {
                let s = self.reservations@.subrange(0, i + 1);
                assert(s.drop_last() =~= self.reservations@.subrange(0, i as int));
                assert(out@ =~= before + reservation_v1_bytes(e));
            }
            i = i + 1;
        }
        assert(self.reservations@.subrange(0, n as int) =~= self.reservations@);
        out
    }

    /// Writes the record over the start of `data`; a list whose entry count
    /// does not fit in four bytes is refused like one that does not fit.
    pub fn save(&self, data: &mut [u8]) -> (r: Result<(), MetadataError>)
        ensures
            self.reservations@.len() > u32::MAX ==> r == Err::<(), MetadataError>(
                MetadataError::DataTypeMismatch,
            ) && final(data)@ == old(data)@,
            self.reservations@.len() <= u32::MAX ==> saved(
                old(data)@,
                final(data)@,
                self.encoded(),
                r,
            ),
    {
        let n = self.reservations.len();
        let len = data.len();
        if n > u32::MAX as usize || len < 46 || n > (len - 46) / 34 {
            proof {
                if self.reservations@.len() <= u32::MAX {
                    self.lemma_encoded_len();
                }
            }
            return Err(MetadataError::DataTypeMismatch);
        }
        let bytes = self.to_bytes();
        save_bytes(data, &bytes)
    }

    proof fn lemma_encoded_len(&self)
        ensures
            self.encoded().len() == 46 + 34 * self.reservations@.len(),
    {
        lemma_reservations_v1_bytes_len(self.reservations@);
        crate::codec::lemma_u32_bytes(self.reservations@.len() as u32);
        crate::codec::lemma_option_u64_bytes(self.supply_snapshot);
    }
}

impl ReservationList {
    pub open spec fn encoded(&self) -> Seq<u8> {
        match self {
            ReservationList::V1(l) => l.encoded(),
            ReservationList::V2(l) => l.encoded(),
        }
    }

    pub open spec fn entry_count(&self) -> nat {
        match self {
            ReservationList::V1(l) => l.reservations@.len(),
            ReservationList::V2(l) => l.reservations@.len(),
        }
    }

    /// Writes the record, in its own format, over the start of `data`.
    pub fn save(&self, data: &mut [u8]) -> (r: Result<(), MetadataError>)
        ensures
            self.entry_count() > u32::MAX ==> r == Err::<(), MetadataError>(
                MetadataError::DataTypeMismatch,
            ) && final(data)@ == old(data)@,
            self.entry_count() <= u32::MAX ==> saved(old(data)@, final(data)@, self.encoded(), r),
    {
        match self {
            ReservationList::V1(l) => l.save(data),
            ReservationList::V2(l) => l.save(data),
        }
    }
}

/// Reads a reservation list record, choosing the format by its first byte:
/// 3 is the legacy format, 5 the current one. Any other first byte, or an
/// empty buffer, is refused without reading further.
pub fn get_reservation_list(data: &[u8]) -> (r: Result<ReservationList, MetadataError>)
    ensures
        r is Err ==> r == Err::<ReservationList, MetadataError>(MetadataError::DataTypeMismatch),
        data@.len() == 0 || (data@[0] != 3 && data@[0] != 5) ==> r is Err,
        data@.len() > 0 && data@[0] == 3 ==> {
            &&& reservation_list_v1_readable(data@) <==> r is Ok
            &&& r matches Ok(l) ==> l matches ReservationList::V1(v1)
                && reads_reservation_list_v1(data@, v1)
        },
        data@.len() > 0 && data@[0] == 5 ==> {
            &&& reservation_list_v2_readable(data@) <==> r is Ok
            &&& r matches Ok(l) ==> l matches ReservationList::V2(v2)
                && reads_reservation_list_v2(data@, v2)
        },
        r matches Ok(l) ==> l.wf(),
{
    if data.len() == 0 {
        return Err(MetadataError::DataTypeMismatch);
    }
    let version = data[0];
    if version == 3 {
        match ReservationListV1::from_account_info(data) {
            Ok(l) => Ok(ReservationList::V1(l)),
            Err(e) => Err(e),
        }
    } else if version == 5 {
        match ReservationListV2::from_account_info(data) {
            Ok(l) => Ok(ReservationList::V2(l)),
            Err(e) => Err(e),
        }
    } else {
        Err(MetadataError::DataTypeMismatch)
    }
}

proof fn lemma_reservation_bytes_len(r: Reservation)
    ensures
        reservation_bytes(r).len() == 48,
{
    lemma_u64_bytes(r.spots_remaining);
    lemma_u64_bytes(r.total_spots);
}

/// Entry `i` is stored in bytes `48 * i` to `48 * i + 48` of the entries.
proof fn lemma_reservations_bytes_at(s: Seq<Reservation>, i: int)
    requires
        0 <= i < s.len(),
    ensures
        reservations_bytes(s).subrange(48 * i, 48 * i + 48) == reservation_bytes(s[i]),
    decreases s.len(),
{
    let p = s.drop_last();
    lemma_reservations_bytes_len(p);
    lemma_reservation_bytes_len(s.last());
    if i < s.len() - 1 {
        lemma_reservations_bytes_at(p, i);
        assert(reservations_bytes(s).subrange(48 * i, 48 * i + 48) =~= reservations_bytes(
            p,
        ).subrange(48 * i, 48 * i + 48));
    } else {
        assert(reservations_bytes(s).subrange(48 * i, 48 * i + 48) =~= reservation_bytes(
            s.last(),
        ));
    }
}

proof fn lemma_reservations_v1_bytes_at(s: Seq<ReservationV1>, i: int)
    requires
        0 <= i < s.len(),
    ensures
        reservations_v1_bytes(s).subrange(34 * i, 34 * i + 34) == reservation_v1_bytes(s[i]),
    decreases s.len(),
{
    let p = s.drop_last();
    lemma_reservations_v1_bytes_len(p);
    if i < s.len() - 1 {
        lemma_reservations_v1_bytes_at(p, i);
        assert(reservations_v1_bytes(s).subrange(34 * i, 34 * i + 34) =~= reservations_v1_bytes(
            p,
        ).subrange(34 * i, 34 * i + 34));
    } else {
        assert(reservations_v1_bytes(s).subrange(34 * i, 34 * i + 34) =~= reservation_v1_bytes(
            s.last(),
        ));
    }
}

proof fn lemma_reads_entry(data: Seq<u8>, s: Seq<Reservation>, i: int)
    requires
        0 <= i < s.len(),
        46 + 48 * s.len() <= data.len(),
        data.subrange(46, 46 + 48 * (s.len() as int)) == reservations_bytes(s),
    ensures
        reads_reservation(data, 46 + 48 * i, s[i]),
{
    lemma_reservations_bytes_at(s, i);
    lemma_reservation_bytes_len(s[i]);
    let at = 46 + 48 * i;
    let e = reservation_bytes(s[i]);
    assert(data.subrange(at, at + 48) =~= e);
    lemma_u64_bytes(s[i].spots_remaining);
    lemma_u64_bytes(s[i].total_spots);
    assert(s[i].address@.len() == 32);
    assert(e.subrange(0, 32) =~= s[i].address@);
    assert(e.subrange(32, 40) =~= u64_bytes(s[i].spots_remaining));
    assert(e.subrange(40, 48) =~= u64_bytes(s[i].total_spots));
    assert(address_at(data, at) =~= e.subrange(0, 32));
    assert(data.subrange(at + 32, at + 40) =~= e.subrange(32, 40));
    assert(data.subrange(at + 40, at + 48) =~= e.subrange(40, 48));
}

proof fn lemma_reads_entry_v1(data: Seq<u8>, s: Seq<ReservationV1>, i: int)
    requires
        0 <= i < s.len(),
        46 + 34 * s.len() <= data.len(),
        data.subrange(46, 46 + 34 * (s.len() as int)) == reservations_v1_bytes(s),
    ensures
        reads_reservation_v1(data, 46 + 34 * i, s[i]),
{
    lemma_reservations_v1_bytes_at(s, i);
    let at = 46 + 34 * i;
    let e = reservation_v1_bytes(s[i]);
    assert(data.subrange(at, at + 34) =~= e);
    assert(s[i].address@.len() == 32);
    assert(e.subrange(0, 32) =~= s[i].address@);
    assert(address_at(data, at) =~= e.subrange(0, 32));
    assert(data[at + 32] == e[32]);
    assert(data[at + 33] == e[33]);
}

proof fn lemma_list_header(
    data: Seq<u8>,
    key: Key,
    master_edition: Seq<u8>,
    snapshot: Option<u64>,
    count: nat,
)
    requires
        master_edition.len() == 32,
        count <= u32::MAX,
        46 <= data.len(),
        data.subrange(0, 46) == list_header_bytes(key, master_edition, snapshot, count),
    ensures
        data[0] == key_byte(key),
        address_at(data, 1) == master_edition,
        data[33] <= 1,
        le_option_u64(data, 33) == snapshot,
        entry_count(data) == count,
{
    let h = list_header_bytes(key, master_edition, snapshot, count);
    lemma_option_u64_bytes(snapshot);
    lemma_u32_bytes(count as u32);
    assert(data[0] == h[0]);
    assert(h.subrange(1, 33) =~= master_edition);
    assert(address_at(data, 1) =~= h.subrange(1, 33));
    let o = option_u64_bytes(snapshot);
    assert(h.subrange(33, 42) =~= o);
    assert(h.subrange(42, 46) =~= u32_bytes(count as u32));
    assert(data.subrange(33, 42) =~= h.subrange(33, 42));
    assert(data[33] == o[0]);
    assert(data.subrange(34, 42) =~= o.subrange(1, 9));
    assert(le_option_u64(o, 0) == snapshot);
    assert(data.subrange(42, 46) =~= h.subrange(42, 46));
}

/// A reservation list in the current format, saved into a record-sized
/// buffer that it fits, reads back as itself.
pub proof fn lemma_reservation_list_v2_round_trip(l: ReservationListV2, before: Seq<u8>)
    requires
        before.len() == MAX_RESERVATION_LIST_SIZE,
        l.key == Key::ReservationListV2 || l.key == Key::Uninitialized,
        62 + 48 * l.reservations@.len() <= before.len(),
    ensures
        reservation_list_v2_readable(overwritten(before, l.encoded())),
        reads_reservation_list_v2(overwritten(before, l.encoded()), l),
{
    let s = l.reservations@;
    let n = s.len() as int;
    let data = overwritten(before, l.encoded());
    l.lemma_encoded_len();
    lemma_reservations_bytes_len(s);
    lemma_option_u64_bytes(l.supply_snapshot);
    lemma_u32_bytes(n as u32);
    lemma_u64_bytes(l.total_reservation_spots);
    lemma_u64_bytes(l.current_reservation_spots);
    let h = list_header_bytes(l.key, l.master_edition@, l.supply_snapshot, n as nat);
    assert(data.subrange(0, 46) =~= h);
    lemma_list_header(data, l.key, l.master_edition@, l.supply_snapshot, n as nat);
    assert(data.subrange(46, 46 + 48 * n) =~= reservations_bytes(s));
    assert forall|i: int| 0 <= i < n implies reads_reservation(
        data,
        46 + 48 * i,
        #[trigger] l.reservations@[i],
    ) by {
        lemma_reads_entry(data, s, i);
    }
    assert(data.subrange(46 + 48 * n, 54 + 48 * n) =~= u64_bytes(l.total_reservation_spots));
    assert(data.subrange(54 + 48 * n, 62 + 48 * n) =~= u64_bytes(l.current_reservation_spots));
}

/// A reservation list in the legacy format, saved into a record-sized
/// buffer that it fits, reads back as itself.
pub proof fn lemma_reservation_list_v1_round_trip(l: ReservationListV1, before: Seq<u8>)
    requires
        before.len() == MAX_RESERVATION_LIST_V1_SIZE,
        l.key == Key::ReservationListV1 || l.key == Key::Uninitialized,
        46 + 34 * l.reservations@.len() <= before.len(),
    ensures
        reservation_list_v1_readable(overwritten(before, l.encoded())),
        reads_reservation_list_v1(overwritten(before, l.encoded()), l),
{
    let s = l.reservations@;
    let n = s.len() as int;
    let data = overwritten(before, l.encoded());
    l.lemma_encoded_len();
    lemma_reservations_v1_bytes_len(s);
    lemma_option_u64_bytes(l.supply_snapshot);
    lemma_u32_bytes(n as u32);
    let h = list_header_bytes(l.key, l.master_edition@, l.supply_snapshot, n as nat);
    assert(data.subrange(0, 46) =~= h);
    lemma_list_header(data, l.key, l.master_edition@, l.supply_snapshot, n as nat);
    assert(data.subrange(46, 46 + 34 * n) =~= reservations_v1_bytes(s));
    assert forall|i: int| 0 <= i < n implies reads_reservation_v1(
        data,
        46 + 34 * i,
        #[trigger] l.reservations@[i],
    ) by {
        lemma_reads_entry_v1(data, s, i);
    }
}

} // verus!
