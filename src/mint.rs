//! The supply coordinator: the one place that raises a master edition's
//! supply, approving a print only when the cap, the reservations and the
//! edition bitmap all allow it.
use vstd::prelude::*;

use crate::edition_marker::{
    edition_claimed, lemma_insert_then_taken, ledger_with_edition, EditionMarker,
};
use crate::error::MetadataError;
use crate::key::Key;
use crate::master_edition::{Edition, MasterEdition};
use crate::pubkey::Pubkey;
use crate::reservation::{
    lemma_prefix_sum_monotone, prefix_sum, spot_used, totals, Reservation, ReservationList,
};

verus! {

/// Entry `i` holds position `pos` of the reserved range: the entries split
/// that range into consecutive blocks, one per entry, of its spot count.
pub open spec fn covers(t: Seq<u64>, i: int, pos: int) -> bool {
    0 <= i < t.len() && prefix_sum(t, i) <= pos < prefix_sum(t, i) + t[i]
}

/// The entry whose block holds `pos`, if any.
pub open spec fn covering_entry(t: Seq<u64>, pos: int) -> Option<int> {
    if exists|i: int| covers(t, i, pos) {
        Some(choose|i: int| covers(t, i, pos))
    } else {
        None
    }
}

/// No two entries hold the same position.
pub proof fn lemma_covers_unique(t: Seq<u64>, i: int, j: int, pos: int)
    requires
        covers(t, i, pos),
        covers(t, j, pos),
    ensures
        i == j,
{
    if i < j {
        lemma_prefix_sum_monotone(t, i + 1, j);
    } else if j < i {
        lemma_prefix_sum_monotone(t, j + 1, i);
    }
}

/// The entry whose block holds `pos`.
pub fn find_reservation(reservations: &Vec<Reservation>, pos: u64) -> (r: Option<usize>)
    ensures
        match r {
            Some(i) => covering_entry(totals(reservations@), pos as int) == Some(i as int),
            None => covering_entry(totals(reservations@), pos as int) is None,
        },
{
    let ghost t = totals(reservations@);
    let n = reservations.len();
    let mut rem: u64 = pos;
    let mut i: usize = 0;
    while i < n
        invariant
            n == reservations@.len(),
            t == totals(reservations@),
            0 <= i <= n,
            rem == pos - prefix_sum(t, i as int),
            forall|j: int| 0 <= j < i ==> !covers(t, j, pos as int),
        decreases n - i,
    {
        let spots = reservations[i].total_spots;
        if rem < spots {
            proof {
                assert(covers(t, i as int, pos as int));
                let c = choose|k: int| covers(t, k, pos as int);
                lemma_covers_unique(t, c, i as int, pos as int);
            }
            return Some(i);
        }
        rem = rem - spots;
        i = i + 1;
    }
    proof {
        assert forall|j: int| !covers(t, j, pos as int) by {
            if 0 <= j < n {
                assert(!covers(t, j, pos as int));
            }
        }
    }
    None
}

/// The entry that governs a print of `edition`: editions after the list's
/// supply snapshot are reserved, in the order of the entries' blocks.
pub open spec fn reserved_entry(list: Option<ReservationList>, edition: u64) -> Option<int> {
    match list {
        Some(l) => match l.spec_supply_snapshot() {
            Some(snapshot) => if edition > snapshot {
                covering_entry(totals(l.entries()), edition - snapshot - 1)
            } else {
                None
            },
            None => None,
        },
        None => None,
    }
}

/// The supply has reached the cap.
pub open spec fn cap_reached(master: MasterEdition) -> bool {
    match master.spec_max_supply() {
        Some(max) => master.spec_supply() >= max,
        None => false,
    }
}

/// Why a print of `edition` for `requester` is refused, if it is.
pub open spec fn mint_error(
    master: MasterEdition,
    ledger: Seq<u8>,
    list: Option<ReservationList>,
    edition: u64,
    requester: Pubkey,
) -> Option<MetadataError> {
    if cap_reached(master) {
        Some(MetadataError::MaxEditionsMintedAlready)
    } else if reserved_entry(list, edition) is Some && ({
        let e = list->Some_0.entries()[reserved_entry(list, edition)->Some_0];
        e.address@ != requester@ || e.spots_remaining == 0
    }) {
        Some(MetadataError::AddressNotInReservation)
    } else if edition_claimed(ledger, edition) {
        Some(MetadataError::EditionAlreadyMinted)
    } else if master.spec_supply() == u64::MAX {
        Some(MetadataError::NumericalOverflowError)
    } else {
        None
    }
}

/// Prints edition `edition` of `master` for `requester`. `marker` is the
/// bitmap page that holds the edition, and `reservation_list` the master's
/// reservations, if it has any. The print is refused when the cap is
/// reached, when the edition is reserved for another address or for one
/// with no spots left, or when the edition was printed already. Otherwise
/// the edition is marked, a reserved spot is used if the edition is
/// reserved, and the supply grows by one. A refusal changes nothing.
pub fn mint_edition(
    master: &mut MasterEdition,
    parent: Pubkey,
    marker: &mut EditionMarker,
    reservation_list: &mut Option<ReservationList>,
    edition: u64,
    requester: Pubkey,
) -> (r: Result<Edition, MetadataError>)
    ensures
        match mint_error(
            *old(master),
            old(marker).ledger@,
            *old(reservation_list),
            edition,
            requester,
        ) {
            Some(e) => {
                &&& r == Err::<Edition, MetadataError>(e)
                &&& *final(master) == *old(master)
                &&& *final(marker) == *old(marker)
                &&& *final(reservation_list) == *old(reservation_list)
            },
            None => {
                &&& r == Ok::<Edition, MetadataError>(
                    (Edition { key: Key::EditionV1, parent, edition }),
                )
                &&& *final(master) == old(master).with_supply(
                    (old(master).spec_supply() + 1) as u64,
                )
                &&& final(marker).key == old(marker).key
                &&& final(marker).ledger@ == ledger_with_edition(old(marker).ledger@, edition)
                &&& match reserved_entry(*old(reservation_list), edition) {
                    Some(i) => {
                        let before = (*old(reservation_list))->Some_0;
                        let after = (*final(reservation_list))->Some_0;
                        &&& *final(reservation_list) is Some
                        &&& after.entries() == before.entries().update(
                            i,
                            spot_used(before.entries()[i]),
                        )
                        &&& after.spec_master_edition() == before.spec_master_edition()
                        &&& after.spec_supply_snapshot() == before.spec_supply_snapshot()
                        &&& after.spec_total_reservation_spots()
                            == before.spec_total_reservation_spots()
                        &&& after.spec_current_reservation_spots()
                            == before.spec_current_reservation_spots()
                        &&& after.wf() == before.wf()
                    },
                    None => *final(reservation_list) == *old(reservation_list),
                }
            },
        },
        old(master).within_cap() ==> final(master).within_cap(),
        cap_reached(*old(master)) ==> r == Err::<Edition, MetadataError>(
            MetadataError::MaxEditionsMintedAlready,
        ) && final(master).spec_supply() == old(master).spec_supply(),
        r is Ok ==> edition_claimed(final(marker).ledger@, edition),
{
    let supply = master.supply();
    match master.max_supply() {
        Some(max) => {
            if supply >= max {
                return Err(MetadataError::MaxEditionsMintedAlready);
            }
        },
        None => {},
    }
    let mut reserved: Option<usize> = None;
    if let Some(list) = reservation_list {
        if let Some(snapshot) = list.supply_snapshot() {
            if edition > snapshot {
                let entries = list.reservations();
                if let Some(i) = find_reservation(&entries, edition - snapshot - 1) {
                    let entry = entries[i];
                    if entry.address != requester || entry.spots_remaining == 0 {
                        return Err(MetadataError::AddressNotInReservation);
                    }
                    reserved = Some(i);
                }
            }
        }
    }
    let taken = match marker.edition_taken(edition) {
        Ok(taken) => taken,
        Err(e) => return Err(e),
    };
    if taken {
        return Err(MetadataError::EditionAlreadyMinted);
    }
    if supply == u64::MAX {
        return Err(MetadataError::NumericalOverflowError);
    }
    if let Some(i) = reserved {
        if let Some(list) = reservation_list {
            list.consume_spot(i);
        }
    }
    match marker.insert_edition(edition) {
        Ok(()) => {},
        Err(e) => return Err(e),
    }
    master.set_supply(supply + 1);
    Ok(Edition { key: Key::EditionV1, parent, edition })
}

/// A print approved under a cap keeps the supply within it, and a print
/// requested once the supply has reached the cap is refused with
/// `MaxEditionsMintedAlready`.
pub proof fn lemma_supply_cap(
    master: MasterEdition,
    ledger: Seq<u8>,
    list: Option<ReservationList>,
    edition: u64,
    requester: Pubkey,
)
    ensures
        master.within_cap() && mint_error(master, ledger, list, edition, requester) is None
            ==> master.with_supply((master.spec_supply() + 1) as u64).within_cap(),
        cap_reached(master) ==> mint_error(master, ledger, list, edition, requester) == Some(
            MetadataError::MaxEditionsMintedAlready,
        ),
{
}

/// Once a print of an edition is approved, every later request for that
/// edition against the page it marked is refused, whoever asks and
/// whatever the master and its reservations hold by then.
pub proof fn lemma_no_double_allocation(
    master: MasterEdition,
    ledger: Seq<u8>,
    list: Option<ReservationList>,
    edition: u64,
    requester: Pubkey,
    later_master: MasterEdition,
    later_list: Option<ReservationList>,
    later_requester: Pubkey,
)
    requires
        ledger.len() == 31,
        mint_error(master, ledger, list, edition, requester) is None,
    ensures
        mint_error(
            later_master,
            ledger_with_edition(ledger, edition),
            later_list,
            edition,
            later_requester,
        ) is Some,
{
    lemma_insert_then_taken(ledger, edition, edition);
}

} // verus!
