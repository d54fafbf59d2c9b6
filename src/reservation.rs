//! Reservation lists: which addresses may print how many editions before
//! public printing opens, in the legacy one-byte format and in the current
//! eight-byte format with running totals.
use vstd::prelude::*;

use crate::error::MetadataError;
use crate::key::Key;
use crate::pubkey::{is_sentinel, lemma_sentinel_eq, lemma_sentinel_unique, sentinel_address, sentinel_key, Pubkey};

verus! {

/// Most entries that a reservation list record is sized for.
pub const MAX_RESERVATIONS: usize = 200;

/// Size of a legacy reservation list record.
pub const MAX_RESERVATION_LIST_V1_SIZE: usize = 1 + 32 + 8 + 8 + MAX_RESERVATIONS * 34 + 100;

/// Size of a current reservation list record.
pub const MAX_RESERVATION_LIST_SIZE: usize = 1 + 32 + 8 + 8 + MAX_RESERVATIONS * 48 + 8 + 8 + 84;

/// One address's share of a reservation list.
#[derive(Clone, Copy, Debug, PartialEq, Eq)]
pub struct Reservation {
    pub address: Pubkey,
    pub spots_remaining: u64,
    pub total_spots: u64,
}

/// An unfilled slot: the sentinel address with no spots.
pub open spec fn placeholder() -> Reservation {
    Reservation { address: sentinel_key(), spots_remaining: 0, total_spots: 0 }
}

/// The entry with one spot fewer left.
pub open spec fn spot_used(r: Reservation) -> Reservation {
    Reservation { spots_remaining: (r.spots_remaining - 1) as u64, ..r }
}

/// The spot counts of a list, entry by entry.
pub open spec fn totals(s: Seq<Reservation>) -> Seq<u64> {
    s.map_values(|r: Reservation| r.total_spots)
}

/// The sum of the first `i` counts.
pub open spec fn prefix_sum(t: Seq<u64>, i: int) -> int
    decreases i,
{
    if i <= 0 {
        0
    } else {
        prefix_sum(t, i - 1) + t[i - 1]
    }
}

/// The spots that a list reserves in all.
pub open spec fn spots_sum(s: Seq<Reservation>) -> int {
    prefix_sum(totals(s), s.len() as int)
}

pub proof fn lemma_prefix_sum_nonneg(t: Seq<u64>, i: int)
    ensures
        prefix_sum(t, i) >= 0,
    decreases i,
{
    if i > 0 {
        lemma_prefix_sum_nonneg(t, i - 1);
    }
}

pub proof fn lemma_prefix_sum_monotone(t: Seq<u64>, i: int, j: int)
    requires
        i <= j,
    ensures
        prefix_sum(t, i) <= prefix_sum(t, j),
    decreases j - i,
{
    if i < j {
        lemma_prefix_sum_monotone(t, i, j - 1);
        if j > 0 {
            assert(prefix_sum(t, j) == prefix_sum(t, j - 1) + t[j - 1]);
        }
    }
}

/// A prefix sum reads only the counts before its end.
pub proof fn lemma_prefix_sum_agree(t: Seq<u64>, u: Seq<u64>, i: int)
    requires
        0 <= i <= t.len(),
        i <= u.len(),
        forall|j: int| 0 <= j < i ==> t[j] == u[j],
    ensures
        prefix_sum(t, i) == prefix_sum(u, i),
    decreases i,
{
    if i > 0 {
        lemma_prefix_sum_agree(t, u, i - 1);
    }
}

pub proof fn lemma_prefix_sum_update(t: Seq<u64>, k: int, v: u64, i: int)
    requires
        0 <= k < t.len(),
        0 <= i <= t.len(),
    ensures
        prefix_sum(t.update(k, v), i) == prefix_sum(t, i) + (if k < i {
            v - t[k]
        } else {
            0
        }),
    decreases i,
{
    if i > 0 {
        lemma_prefix_sum_update(t, k, v, i - 1);
    }
}

pub proof fn lemma_prefix_sum_push(t: Seq<u64>, v: u64)
    ensures
        prefix_sum(t.push(v), t.len() + 1int) == prefix_sum(t, t.len() as int) + v,
{
    lemma_prefix_sum_agree(t.push(v), t, t.len() as int);
}

pub proof fn lemma_prefix_sum_zeros(t: Seq<u64>, n: nat)
    ensures
        prefix_sum(t + Seq::new(n, |_i: int| 0u64), (t.len() + n) as int) == prefix_sum(t, t.len() as int),
    decreases n,
{
    let z = Seq::new(n, |_i: int| 0u64);
    if n == 0 {
        assert(t + z =~= t);
    } else {
        let shorter = Seq::new((n - 1) as nat, |_i: int| 0u64);
        lemma_prefix_sum_zeros(t, (n - 1) as nat);
        lemma_prefix_sum_agree(t + z, t + shorter, t.len() + n - 1);
    }
}

/// The list extended with placeholders up to length `off`.
pub open spec fn padded(s: Seq<Reservation>, off: int) -> Seq<Reservation> {
    if s.len() < off {
        s + Seq::new((off - s.len()) as nat, |_i: int| placeholder())
    } else {
        s
    }
}

/// The padded list with `r` written at `off`.
pub open spec fn placed(s: Seq<Reservation>, r: Reservation, off: int) -> Seq<Reservation> {
    let p = padded(s, off);
    if off < p.len() {
        p.update(off, r)
    } else {
        p.push(r)
    }
}

/// Whether the slot before `off` is still a placeholder once `r` is placed.
pub open spec fn backfills(s: Seq<Reservation>, r: Reservation, off: int) -> bool {
    off > 0 && is_sentinel(placed(s, r, off)[off - 1].address)
}

/// The list after `add_reservation`: `r` at `off`, and a placeholder just
/// before it given `tso` spots, which stand for the entries not yet written.
pub open spec fn with_reservation(s: Seq<Reservation>, r: Reservation, off: int, tso: u64) -> Seq<
    Reservation,
> {
    let q = placed(s, r, off);
    if backfills(s, r, off) {
        q.update(off - 1, Reservation { address: q[off - 1].address, spots_remaining: tso, total_spots: tso })
    } else {
        q
    }
}

/// Whether `r` resubmits the entry already at `off`.
pub open spec fn resubmits(s: Seq<Reservation>, r: Reservation, off: int) -> bool {
    off < s.len() && s[off].address@ == r.address@
}

/// Spots of the entry that `r` overwrites.
pub open spec fn overwritten_spots(s: Seq<Reservation>, off: int) -> int {
    if off < s.len() {
        s[off].total_spots as int
    } else {
        0
    }
}

/// Spots that the running count of written entries gives back for a resubmission.
pub open spec fn refunded_spots(s: Seq<Reservation>, r: Reservation, off: int) -> int {
    if resubmits(s, r, off) {
        s[off].total_spots as int
    } else {
        0
    }
}

/// Spots of the placeholder that the backfill overwrites.
pub open spec fn backfilled_old_spots(s: Seq<Reservation>, r: Reservation, off: int) -> int {
    if backfills(s, r, off) {
        placed(s, r, off)[off - 1].total_spots as int
    } else {
        0
    }
}

pub open spec fn backfilled_new_spots(s: Seq<Reservation>, r: Reservation, off: int, tso: u64) -> int {
    if backfills(s, r, off) {
        tso as int
    } else {
        0
    }
}

/// The running count of written spots after `add_reservation`.
pub open spec fn current_after(s: Seq<Reservation>, current: u64, r: Reservation, off: int) -> int {
    current - refunded_spots(s, r, off) + r.total_spots
}

/// The running count of all reserved spots after `add_reservation`.
pub open spec fn total_after(s: Seq<Reservation>, total: u64, r: Reservation, off: int, tso: u64) -> int {
    total - overwritten_spots(s, off) - backfilled_old_spots(s, r, off) + r.total_spots
        + backfilled_new_spots(s, r, off, tso)
}

/// Why `add_reservation` refuses, if it does.
pub open spec fn add_reservation_error(
    s: Seq<Reservation>,
    total: u64,
    current: u64,
    r: Reservation,
    off: int,
    tso: u64,
) -> Option<MetadataError> {
    if off < s.len() && !resubmits(s, r, off) && !is_sentinel(s[off].address) {
        Some(MetadataError::TriedToReplaceAnExistingReservation)
    } else if current < refunded_spots(s, r, off) || current_after(s, current, r, off) > u64::MAX {
        Some(MetadataError::NumericalOverflowError)
    } else if total < overwritten_spots(s, off) + backfilled_old_spots(s, r, off) || total_after(
        s,
        total,
        r,
        off,
        tso,
    ) > u64::MAX {
        Some(MetadataError::NumericalOverflowError)
    } else {
        None
    }
}

proof fn lemma_totals_update(s: Seq<Reservation>, k: int, r: Reservation)
    requires
        0 <= k < s.len(),
    ensures
        totals(s.update(k, r)) == totals(s).update(k, r.total_spots),
{
    assert(totals(s.update(k, r)) =~= totals(s).update(k, r.total_spots));
}

/// How the sum of spots moves when `add_reservation` rewrites the list.
pub proof fn lemma_spots_sum_with_reservation(s: Seq<Reservation>, r: Reservation, off: int, tso: u64)
    requires
        0 <= off,
    ensures
        spots_sum(with_reservation(s, r, off, tso)) == spots_sum(s) - overwritten_spots(s, off)
            - backfilled_old_spots(s, r, off) + r.total_spots + backfilled_new_spots(s, r, off, tso),
{
    let p = padded(s, off);
    if s.len() < off {
        let k = (off - s.len()) as nat;
        assert(totals(p) =~= totals(s) + Seq::new(k, |_i: int| 0u64));
        lemma_prefix_sum_zeros(totals(s), k);
    }
    assert(spots_sum(p) == spots_sum(s));
    let q = placed(s, r, off);
    if off < p.len() {
        lemma_totals_update(p, off, r);
        lemma_prefix_sum_update(totals(p), off, r.total_spots, p.len() as int);
    } else {
        assert(totals(q) =~= totals(p).push(r.total_spots));
        lemma_prefix_sum_push(totals(p), r.total_spots);
    }
    assert(spots_sum(q) == spots_sum(s) - overwritten_spots(s, off) + r.total_spots);
    if backfills(s, r, off) {
        let e = Reservation { address: q[off - 1].address, spots_remaining: tso, total_spots: tso };
        lemma_totals_update(q, off - 1, e);
        lemma_prefix_sum_update(totals(q), off - 1, tso, q.len() as int);
    }
}

/// Submitting the same entry at the same offset a second time is accepted
/// and changes nothing: the list and both running counts stay as the first
/// submission left them.
pub proof fn lemma_add_reservation_idempotent(
    s: Seq<Reservation>,
    total: u64,
    current: u64,
    r: Reservation,
    off: int,
    tso: u64,
)
    requires
        0 <= off,
        add_reservation_error(s, total, current, r, off, tso) is None,
    ensures
        ({
            let s1 = with_reservation(s, r, off, tso);
            let total1 = total_after(s, total, r, off, tso) as u64;
            let current1 = current_after(s, current, r, off) as u64;
            &&& add_reservation_error(s1, total1, current1, r, off, tso) is None
            &&& with_reservation(s1, r, off, tso) == s1
            &&& total_after(s1, total1, r, off, tso) == total1
            &&& current_after(s1, current1, r, off) == current1
        }),
{
    let s1 = with_reservation(s, r, off, tso);
    let q = placed(s, r, off);
    assert(q.len() > off);
    assert(s1.len() == q.len());
    assert(s1[off] == r);
    assert(padded(s1, off) == s1);
    assert(placed(s1, r, off) =~= s1);
    assert(resubmits(s1, r, off));
    if off > 0 {
        assert(s1[off - 1].address == q[off - 1].address);
    }
    assert(backfills(s1, r, off) == backfills(s, r, off));
    assert(with_reservation(s1, r, off, tso) =~= s1);
}

/// A reservation list in the current format: eight-byte spot counts, any
/// number of entries, and running totals kept up to date on every write.
#[derive(Clone, Debug, PartialEq, Eq)]
pub struct ReservationListV2 {
    pub key: Key,
    pub master_edition: Pubkey,
    pub supply_snapshot: Option<u64>,
    pub reservations: Vec<Reservation>,
    pub total_reservation_spots: u64,
    pub current_reservation_spots: u64,
}

impl ReservationListV2 {
    /// The running total equals the sum of the entries' spots.
    pub open spec fn spots_consistent(&self) -> bool {
        self.total_reservation_spots == spots_sum(self.reservations@)
    }

    /// What `add_reservation` leaves behind, from `self` to `after`.
    pub open spec fn added(
        self,
        after: Self,
        reservation: Reservation,
        off: int,
        tso: u64,
        r: Result<(), MetadataError>,
    ) -> bool {
        let s = self.reservations@;
        match add_reservation_error(
            s,
            self.total_reservation_spots,
            self.current_reservation_spots,
            reservation,
            off,
            tso,
        ) {
            Some(e) => r == Err::<(), MetadataError>(e) && after == self,
            None => {
                &&& r == Ok::<(), MetadataError>(())
                &&& after.reservations@ == with_reservation(s, reservation, off, tso)
                &&& after.total_reservation_spots == total_after(
                    s,
                    self.total_reservation_spots,
                    reservation,
                    off,
                    tso,
                )
                &&& after.current_reservation_spots == current_after(
                    s,
                    self.current_reservation_spots,
                    reservation,
                    off,
                )
                &&& after.key == self.key
                &&& after.master_edition == self.master_edition
                &&& after.supply_snapshot == self.supply_snapshot
                &&& (self.spots_consistent() ==> after.spots_consistent())
            },
        }
    }

    /// Writes `reservation` at position `offset`, padding the list with
    /// placeholders up to it. A slot held by the same address is a
    /// resubmission: its spots leave the running count before the new ones
    /// enter it. A slot held by another real address is refused. A
    /// placeholder just before `offset` takes `total_spot_offset` spots.
    /// On an error nothing changes.
    pub fn add_reservation(&mut self, reservation: Reservation, offset: u64, total_spot_offset: u64)
        -> (r: Result<(), MetadataError>)
        requires
            offset < usize::MAX,
        ensures
            old(self).added(*final(self), reservation, offset as int, total_spot_offset, r),
    {
        let ghost s = self.reservations@;
        let ghost off_i = offset as int;
        let off = offset as usize;
        let len = self.reservations.len();
        let sentinel = sentinel_address();
        proof {
            lemma_sentinel_unique(sentinel);
        }
        // Decide everything before the first write.
        let mut refund: u64 = 0;
        let mut overwritten: u64 = 0;
        if off < len {
            let existing = self.reservations[off];
            proof {
                lemma_sentinel_eq(existing.address, sentinel);
            }
            if existing.address == reservation.address {
                refund = existing.total_spots;
            } else if existing.address != sentinel {
                return Err(MetadataError::TriedToReplaceAnExistingReservation);
            }
            overwritten = existing.total_spots;
        }
        let backfill = off > 0 && (off - 1 >= len || self.reservations[off - 1].address == sentinel);
        let backfill_old: u64 = if backfill && off - 1 < len {
            self.reservations[off - 1].total_spots
        } else {
            0
        };
        let backfill_new: u64 = if backfill {
            total_spot_offset
        } else {
            0
        };
        proof {
            if off_i > 0 && off_i - 1 >= s.len() {
                assert(padded(s, off_i)[off_i - 1] == placeholder());
            }
            if off_i > 0 {
                assert(placed(s, reservation, off_i)[off_i - 1] == padded(s, off_i)[off_i - 1]);
                if off_i - 1 < s.len() {
                    lemma_sentinel_eq(s[off_i - 1].address, sentinel);
                } else {
                    lemma_sentinel_eq(sentinel_key(), sentinel);
                }
            }
            assert(backfill == backfills(s, reservation, off_i));
        }
        let current = self.current_reservation_spots;
        if current < refund {
            return Err(MetadataError::NumericalOverflowError);
        }
        let kept_current = current - refund;
        if kept_current > u64::MAX - reservation.total_spots {
            return Err(MetadataError::NumericalOverflowError);
        }
        let new_current = kept_current + reservation.total_spots;
        let total = self.total_reservation_spots;
        if total < overwritten || total - overwritten < backfill_old {
            return Err(MetadataError::NumericalOverflowError);
        }
        let kept_total = total - overwritten - backfill_old;
        if kept_total > u64::MAX - reservation.total_spots || kept_total + reservation.total_spots
            > u64::MAX - backfill_new {
            return Err(MetadataError::NumericalOverflowError);
        }
        let new_total = kept_total + reservation.total_spots + backfill_new;

        while self.reservations.len() < off
            invariant
                s == old(self).reservations@,
                len == s.len(),
                is_sentinel(sentinel),
                sentinel == sentinel_key(),
                self.reservations@.len() <= off || self.reservations@.len() == len,
                self.reservations@ =~= s + Seq::new(
                    (self.reservations@.len() - len) as nat,
                    |_i: int| placeholder(),
                ),
                self.key == old(self).key,
                self.master_edition == old(self).master_edition,
                self.supply_snapshot == old(self).supply_snapshot,
                self.total_reservation_spots == old(self).total_reservation_spots,
                self.current_reservation_spots == old(self).current_reservation_spots,
            decreases off - self.reservations@.len(),
        {
            self.reservations.push(Reservation { address: sentinel, spots_remaining: 0, total_spots: 0 });
        }
        assert(self.reservations@ =~= padded(s, off_i));
        if off < self.reservations.len() {
            self.reservations.set(off, reservation);
        } else {
            self.reservations.push(reservation);
        }
        assert(self.reservations@ =~= placed(s, reservation, off_i));
        if backfill {
            let prev = self.reservations[off - 1].address;
            self.reservations.set(
                off - 1,
                Reservation { address: prev, spots_remaining: total_spot_offset, total_spots: total_spot_offset },
            );
        }
        assert(self.reservations@ =~= with_reservation(s, reservation, off_i, total_spot_offset));
        self.current_reservation_spots = new_current;
        self.total_reservation_spots = new_total;
        proof {
            lemma_spots_sum_with_reservation(s, reservation, off_i, total_spot_offset);
        }
        Ok(())
    }

    /// Replaces all entries at once and recounts the running total; the
    /// count of written spots is left to the caller. A list whose spots do
    /// not fit in a `u64` is refused and nothing changes.
    pub fn set_reservations(&mut self, reservations: Vec<Reservation>) -> (r: Result<(), MetadataError>)
        ensures
            spots_sum(reservations@) > u64::MAX ==> r == Err::<(), MetadataError>(
                MetadataError::NumericalOverflowError,
            ) && *final(self) == *old(self),
            spots_sum(reservations@) <= u64::MAX ==> {
                &&& r == Ok::<(), MetadataError>(())
                &&& final(self).reservations@ == reservations@
                &&& final(self).total_reservation_spots == spots_sum(reservations@)
                &&& final(self).current_reservation_spots == old(self).current_reservation_spots
                &&& final(self).key == old(self).key
                &&& final(self).master_edition == old(self).master_edition
                &&& final(self).supply_snapshot == old(self).supply_snapshot
            },
            r is Ok ==> final(self).spots_consistent(),
    {
        proof {
            lemma_prefix_sum_nonneg(totals(reservations@), reservations@.len() as int);
        }
        let total = match sum_total_spots(&reservations) {
            Ok(total) => total,
            Err(e) => return Err(e),
        };
        self.reservations = reservations;
        self.total_reservation_spots = total;
        Ok(())
    }
}

/// The sum of the entries' spots, or an overflow error when it does not fit.
pub fn sum_total_spots(reservations: &Vec<Reservation>) -> (r: Result<u64, MetadataError>)
    ensures
        spots_sum(reservations@) <= u64::MAX ==> r == Ok::<u64, MetadataError>(
            spots_sum(reservations@) as u64,
        ),
        spots_sum(reservations@) > u64::MAX ==> r == Err::<u64, MetadataError>(
            MetadataError::NumericalOverflowError,
        ),
{
    let ghost t = totals(reservations@);
    let n = reservations.len();
    let mut sum: u64 = 0;
    let mut i: usize = 0;
    while i < n
        invariant
            n == reservations@.len(),
            t == totals(reservations@),
            0 <= i <= n,
            sum == prefix_sum(t, i as int),
        decreases n - i,
    {
        let spots = reservations[i].total_spots;
        if sum > u64::MAX - spots {
            proof {
                lemma_prefix_sum_monotone(t, i + 1, n as int);
            }
            return Err(MetadataError::NumericalOverflowError);
        }
        sum = sum + spots;
        i = i + 1;
    }
    Ok(sum)
}

/// An entry of the legacy format, whose spot counts are single bytes.
#[derive(Clone, Copy, Debug, PartialEq, Eq)]
pub struct ReservationV1 {
    pub address: Pubkey,
    pub spots_remaining: u8,
    pub total_spots: u8,
}

/// A legacy entry read in the current shape.
pub open spec fn widened(r: ReservationV1) -> Reservation {
    Reservation {
        address: r.address,
        spots_remaining: r.spots_remaining as u64,
        total_spots: r.total_spots as u64,
    }
}

/// An entry cut down to the legacy shape: counts keep their low byte.
pub open spec fn narrowed(r: Reservation) -> ReservationV1 {
    ReservationV1 {
        address: r.address,
        spots_remaining: r.spots_remaining as u8,
        total_spots: r.total_spots as u8,
    }
}

pub open spec fn widened_all(s: Seq<ReservationV1>) -> Seq<Reservation> {
    s.map_values(|r: ReservationV1| widened(r))
}

pub open spec fn narrowed_all(s: Seq<Reservation>) -> Seq<ReservationV1> {
    s.map_values(|r: Reservation| narrowed(r))
}

/// Some entry of a legacy list belongs to a real address other than `a`.
pub open spec fn legacy_conflict(s: Seq<ReservationV1>, a: Pubkey) -> bool {
    exists|i: int| 0 <= i < s.len() && s[i].address@ != a@ && !is_sentinel(s[i].address)
}

proof fn lemma_legacy_sum_bound(s: Seq<ReservationV1>, i: int)
    requires
        0 <= i <= s.len(),
    ensures
        0 <= prefix_sum(totals(widened_all(s)), i) <= 255 * i,
    decreases i,
{
    if i > 0 {
        lemma_legacy_sum_bound(s, i - 1);
    }
}

/// A reservation list in the legacy format: one-byte spot counts, a single
/// entry, and totals that are summed whenever they are read.
#[derive(Clone, Debug, PartialEq, Eq)]
pub struct ReservationListV1 {
    pub key: Key,
    pub master_edition: Pubkey,
    pub supply_snapshot: Option<u64>,
    pub reservations: Vec<ReservationV1>,
}

impl ReservationListV1 {
    /// The entries in the current shape.
    pub fn reservations(&self) -> (r: Vec<Reservation>)
        ensures
            r@ == widened_all(self.reservations@),
    {
        let n = self.reservations.len();
        let mut out: Vec<Reservation> = Vec::new();
        let mut i: usize = 0;
        while i < n
            invariant
                n == self.reservations@.len(),
                0 <= i <= n,
                out@ =~= widened_all(self.reservations@.subrange(0, i as int)),
            decreases n - i,
        {
            let e = self.reservations[i];
            out.push(
                Reservation {
                    address: e.address,
                    spots_remaining: e.spots_remaining as u64,
                    total_spots: e.total_spots as u64,
                },
            );
            i = i + 1;
            assert(out@ =~= widened_all(self.reservations@.subrange(0, i as int)));
        }
        assert(self.reservations@.subrange(0, n as int) =~= self.reservations@);
        out
    }

    /// The legacy list holds one entry: adding one replaces the list with
    /// it, whatever the offsets. An entry of another real address is not
    /// replaced: that is refused and nothing changes.
    pub fn add_reservation(&mut self, reservation: Reservation, _offset: u64, _total_spot_offset: u64)
        -> (r: Result<(), MetadataError>)
        ensures
            legacy_conflict(old(self).reservations@, reservation.address) ==> r == Err::<
                (),
                MetadataError,
            >(MetadataError::TriedToReplaceAnExistingReservation) && *final(self) == *old(self),
            !legacy_conflict(old(self).reservations@, reservation.address) ==> {
                &&& r == Ok::<(), MetadataError>(())
                &&& final(self).reservations@ == seq![narrowed(reservation)]
                &&& final(self).key == old(self).key
                &&& final(self).master_edition == old(self).master_edition
                &&& final(self).supply_snapshot == old(self).supply_snapshot
            },
    {
        let sentinel = sentinel_address();
        let n = self.reservations.len();
        let mut i: usize = 0;
        while i < n
            invariant
                n == self.reservations@.len(),
                0 <= i <= n,
                is_sentinel(sentinel),
                forall|j: int|
                    0 <= j < i ==> !(#[trigger] self.reservations@[j].address@
                        != reservation.address@ && !is_sentinel(self.reservations@[j].address)),
            decreases n - i,
        {
            let held = self.reservations[i].address;
            proof {
                lemma_sentinel_eq(held, sentinel);
            }
            if held != reservation.address && held != sentinel {
                return Err(MetadataError::TriedToReplaceAnExistingReservation);
            }
            i = i + 1;
        }
        let mut v: Vec<ReservationV1> = Vec::new();
        v.push(
            ReservationV1 {
                address: reservation.address,
                spots_remaining: reservation.spots_remaining as u8,
                total_spots: reservation.total_spots as u8,
            },
        );
        self.reservations = v;
        assert(self.reservations@ =~= seq![narrowed(reservation)]);
        Ok(())
    }

    /// Replaces the entries, cutting each count to a byte; more than one
    /// entry does not fit the legacy format and is refused.
    pub fn set_reservations(&mut self, reservations: Vec<Reservation>) -> (r: Result<(), MetadataError>)
        ensures
            reservations@.len() > 1 ==> r == Err::<(), MetadataError>(
                MetadataError::ReservationArrayShouldBeSizeOne,
            ) && *final(self) == *old(self),
            reservations@.len() <= 1 ==> {
                &&& r == Ok::<(), MetadataError>(())
                &&& final(self).reservations@ == narrowed_all(reservations@)
                &&& final(self).key == old(self).key
                &&& final(self).master_edition == old(self).master_edition
                &&& final(self).supply_snapshot == old(self).supply_snapshot
            },
    {
        if reservations.len() > 1 {
            return Err(MetadataError::ReservationArrayShouldBeSizeOne);
        }
        let mut v: Vec<ReservationV1> = Vec::new();
        if reservations.len() == 1 {
            let e = reservations[0];
            v.push(
                ReservationV1 {
                    address: e.address,
                    spots_remaining: e.spots_remaining as u8,
                    total_spots: e.total_spots as u8,
                },
            );
        }
        self.reservations = v;
        assert(self.reservations@ =~= narrowed_all(reservations@));
        Ok(())
    }

    /// The sum of the entries' spots; the legacy format keeps no running
    /// total, so the written and the reserved counts are both this sum.
    pub fn total_reservation_spots(&self) -> (r: u64)
        requires
            self.reservations@.len() <= u32::MAX,
        ensures
            r == spots_sum(widened_all(self.reservations@)),
    {
        let ghost t = totals(widened_all(self.reservations@));
        let n = self.reservations.len();
        let mut sum: u64 = 0;
        let mut i: usize = 0;
        while i < n
            invariant
                n == self.reservations@.len(),
                n <= u32::MAX,
                t == totals(widened_all(self.reservations@)),
                0 <= i <= n,
                sum == prefix_sum(t, i as int),
            decreases n - i,
        {
            proof {
                lemma_legacy_sum_bound(self.reservations@, i + 1);
            }
            sum = sum + self.reservations[i].total_spots as u64;
            i = i + 1;
        }
        sum
    }

    pub fn current_reservation_spots(&self) -> (r: u64)
        requires
            self.reservations@.len() <= u32::MAX,
        ensures
            r == spots_sum(widened_all(self.reservations@)),
    {
        self.total_reservation_spots()
    }
}

/// A reservation list in either on-disk format, behind one interface.
#[derive(Clone, Debug, PartialEq, Eq)]
pub enum ReservationList {
    V1(ReservationListV1),
    V2(ReservationListV2),
}

impl ReservationList {
    /// The entries in the current shape, whatever the format.
    pub open spec fn entries(&self) -> Seq<Reservation> {
        match self {
            ReservationList::V1(l) => widened_all(l.reservations@),
            ReservationList::V2(l) => l.reservations@,
        }
    }

    /// A legacy list has no more entries than its 4-byte count can give.
    pub open spec fn wf(&self) -> bool {
        match self {
            ReservationList::V1(l) => l.reservations@.len() <= u32::MAX,
            ReservationList::V2(_) => true,
        }
    }

    pub open spec fn spec_master_edition(&self) -> Pubkey {
        match self {
            ReservationList::V1(l) => l.master_edition,
            ReservationList::V2(l) => l.master_edition,
        }
    }

    pub open spec fn spec_supply_snapshot(&self) -> Option<u64> {
        match self {
            ReservationList::V1(l) => l.supply_snapshot,
            ReservationList::V2(l) => l.supply_snapshot,
        }
    }

    /// All reserved spots: summed in the legacy format, kept in the current one.
    pub open spec fn spec_total_reservation_spots(&self) -> int {
        match self {
            ReservationList::V1(l) => spots_sum(widened_all(l.reservations@)),
            ReservationList::V2(l) => l.total_reservation_spots as int,
        }
    }

    /// Spots of the entries written so far: summed in the legacy format,
    /// kept in the current one.
    pub open spec fn spec_current_reservation_spots(&self) -> int {
        match self {
            ReservationList::V1(l) => spots_sum(widened_all(l.reservations@)),
            ReservationList::V2(l) => l.current_reservation_spots as int,
        }
    }

    /// The total of reserved spots is the sum over the entries.
    pub open spec fn spots_consistent(&self) -> bool {
        self.spec_total_reservation_spots() == spots_sum(self.entries())
    }

    pub fn master_edition(&self) -> (r: Pubkey)
        ensures
            r == self.spec_master_edition(),
    {
        match self {
            ReservationList::V1(l) => l.master_edition,
            ReservationList::V2(l) => l.master_edition,
        }
    }

    pub fn supply_snapshot(&self) -> (r: Option<u64>)
        ensures
            r == self.spec_supply_snapshot(),
    {
        match self {
            ReservationList::V1(l) => l.supply_snapshot,
            ReservationList::V2(l) => l.supply_snapshot,
        }
    }

    pub fn reservations(&self) -> (r: Vec<Reservation>)
        ensures
            r@ == self.entries(),
    {
        match self {
            ReservationList::V1(l) => l.reservations(),
            ReservationList::V2(l) => l.reservations.clone(),
        }
    }

    pub fn total_reservation_spots(&self) -> (r: u64)
        requires
            self.wf(),
        ensures
            r == self.spec_total_reservation_spots(),
    {
        match self {
            ReservationList::V1(l) => l.total_reservation_spots(),
            ReservationList::V2(l) => l.total_reservation_spots,
        }
    }

    pub fn current_reservation_spots(&self) -> (r: u64)
        requires
            self.wf(),
        ensures
            r == self.spec_current_reservation_spots(),
    {
        match self {
            ReservationList::V1(l) => l.current_reservation_spots(),
            ReservationList::V2(l) => l.current_reservation_spots,
        }
    }

    pub fn set_master_edition(&mut self, key: Pubkey)
        ensures
            final(self).spec_master_edition() == key,
            final(self).spec_supply_snapshot() == old(self).spec_supply_snapshot(),
            final(self).entries() == old(self).entries(),
            final(self).spec_total_reservation_spots() == old(self).spec_total_reservation_spots(),
            final(self).spec_current_reservation_spots() == old(self).spec_current_reservation_spots(),
            final(self).wf() == old(self).wf(),
            (*final(self) is V1) == (*old(self) is V1),
    {
        match self {
            ReservationList::V1(l) => l.master_edition = key,
            ReservationList::V2(l) => l.master_edition = key,
        }
    }

    pub fn set_supply_snapshot(&mut self, supply: Option<u64>)
        ensures
            final(self).spec_supply_snapshot() == supply,
            final(self).spec_master_edition() == old(self).spec_master_edition(),
            final(self).entries() == old(self).entries(),
            final(self).spec_total_reservation_spots() == old(self).spec_total_reservation_spots(),
            final(self).spec_current_reservation_spots() == old(self).spec_current_reservation_spots(),
            final(self).wf() == old(self).wf(),
            (*final(self) is V1) == (*old(self) is V1),
    {
        match self {
            ReservationList::V1(l) => l.supply_snapshot = supply,
            ReservationList::V2(l) => l.supply_snapshot = supply,
        }
    }

    /// Sets the running total of reserved spots; the legacy format keeps
    /// none and ignores the call.
    pub fn set_total_reservation_spots(&mut self, total_reservation_spots: u64)
        ensures
            *old(self) is V1 ==> *final(self) == *old(self),
            *old(self) is V2 ==> *final(self) == ReservationList::V2(
                ReservationListV2 { total_reservation_spots, ..(*old(self))->V2_0 },
            ),
    {
        match self {
            ReservationList::V1(_) => {},
            ReservationList::V2(l) => l.total_reservation_spots = total_reservation_spots,
        }
    }

    /// Sets the running count of written spots; the legacy format keeps
    /// none and ignores the call.
    pub fn set_current_reservation_spots(&mut self, current_reservation_spots: u64)
        ensures
            *old(self) is V1 ==> *final(self) == *old(self),
            *old(self) is V2 ==> *final(self) == ReservationList::V2(
                ReservationListV2 { current_reservation_spots, ..(*old(self))->V2_0 },
            ),
    {
        match self {
            ReservationList::V1(_) => {},
            ReservationList::V2(l) => l.current_reservation_spots = current_reservation_spots,
        }
    }

    /// Replaces all entries: the legacy format takes at most one and cuts
    /// counts to a byte; the current format recounts its running total.
    pub fn set_reservations(&mut self, reservations: Vec<Reservation>) -> (r: Result<(), MetadataError>)
        ensures
            *old(self) is V1 ==> {
                &&& *final(self) is V1
                &&& reservations@.len() > 1 ==> r == Err::<(), MetadataError>(
                    MetadataError::ReservationArrayShouldBeSizeOne,
                )
                &&& reservations@.len() <= 1 ==> r == Ok::<(), MetadataError>(())
                    && final(self).entries() == widened_all(narrowed_all(reservations@))
            },
            *old(self) is V2 ==> {
                &&& *final(self) is V2
                &&& spots_sum(reservations@) > u64::MAX ==> r == Err::<(), MetadataError>(
                    MetadataError::NumericalOverflowError,
                )
                &&& spots_sum(reservations@) <= u64::MAX ==> r == Ok::<(), MetadataError>(())
                    && final(self).entries() == reservations@
                    && final(self).spec_current_reservation_spots()
                    == old(self).spec_current_reservation_spots()
            },
            r is Err ==> *final(self) == *old(self),
            r is Ok ==> {
                &&& final(self).spots_consistent()
                &&& final(self).wf()
                &&& final(self).spec_master_edition() == old(self).spec_master_edition()
                &&& final(self).spec_supply_snapshot() == old(self).spec_supply_snapshot()
            },
    {
        match self {
            ReservationList::V1(l) => l.set_reservations(reservations),
            ReservationList::V2(l) => l.set_reservations(reservations),
        }
    }

    /// Adds or resubmits one entry; see the two formats' own
    /// `add_reservation` for what each does.
    pub fn add_reservation(&mut self, reservation: Reservation, offset: u64, total_spot_offset: u64)
        -> (r: Result<(), MetadataError>)
        requires
            offset < usize::MAX,
        ensures
            *old(self) is V1 ==> {
                &&& *final(self) is V1
                &&& legacy_conflict((*old(self))->V1_0.reservations@, reservation.address)
                    ==> r == Err::<(), MetadataError>(
                    MetadataError::TriedToReplaceAnExistingReservation,
                )
                &&& !legacy_conflict((*old(self))->V1_0.reservations@, reservation.address)
                    ==> r == Ok::<(), MetadataError>(()) && final(self).entries()
                    == seq![widened(narrowed(reservation))]
            },
            *old(self) is V2 ==> {
                &&& *final(self) is V2
                &&& (*old(self))->V2_0.added(
                    (*final(self))->V2_0,
                    reservation,
                    offset as int,
                    total_spot_offset,
                    r,
                )
            },
            r is Err ==> *final(self) == *old(self),
            r is Ok ==> {
                &&& (old(self).spots_consistent() ==> final(self).spots_consistent())
                &&& final(self).wf()
                &&& final(self).spec_master_edition() == old(self).spec_master_edition()
                &&& final(self).spec_supply_snapshot() == old(self).spec_supply_snapshot()
            },
    {
        match self {
            ReservationList::V1(l) => {
                let r = l.add_reservation(reservation, offset, total_spot_offset);
                if r.is_ok() {
                    assert(widened_all(l.reservations@) =~= seq![widened(narrowed(reservation))]);
                }
                r
            },
            ReservationList::V2(l) => l.add_reservation(reservation, offset, total_spot_offset),
        }
    }

    /// Uses one of the spots that entry `index` has left.
    pub fn consume_spot(&mut self, index: usize)
        requires
            index < old(self).entries().len(),
            old(self).entries()[index as int].spots_remaining > 0,
        ensures
            final(self).entries() == old(self).entries().update(
                index as int,
                spot_used(old(self).entries()[index as int]),
            ),
            totals(final(self).entries()) == totals(old(self).entries()),
            final(self).spec_master_edition() == old(self).spec_master_edition(),
            final(self).spec_supply_snapshot() == old(self).spec_supply_snapshot(),
            final(self).spec_total_reservation_spots() == old(self).spec_total_reservation_spots(),
            final(self).spec_current_reservation_spots() == old(self).spec_current_reservation_spots(),
            final(self).wf() == old(self).wf(),
            (*final(self) is V1) == (*old(self) is V1),
    {
        match self {
            ReservationList::V1(l) => {
                let ghost before = l.reservations@;
                let mut e = l.reservations[index];
                e.spots_remaining = e.spots_remaining - 1;
                l.reservations.set(index, e);
                assert(widened_all(l.reservations@) =~= widened_all(before).update(
                    index as int,
                    spot_used(widened_all(before)[index as int]),
                ));
                assert(totals(widened_all(l.reservations@)) =~= totals(widened_all(before)));
            },
            ReservationList::V2(l) => {
                let ghost before = l.reservations@;
                let mut e = l.reservations[index];
                e.spots_remaining = e.spots_remaining - 1;
                l.reservations.set(index, e);
                assert(l.reservations@ =~= before.update(index as int, spot_used(before[index as int])));
                assert(totals(l.reservations@) =~= totals(before));
            },
        }
    }
}

} // verus!
