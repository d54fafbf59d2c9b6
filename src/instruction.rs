//! Arguments of the instructions that create a master edition and print
//! editions from it.
use vstd::prelude::*;

verus! {

/// Creates a master edition; `None` leaves its supply uncapped.
#[derive(Clone, Copy, Debug, PartialEq, Eq)]
pub struct CreateMasterEditionArgs {
    pub max_supply: Option<u64>,
}

/// Prints edition number `edition` of a master edition.
#[derive(Clone, Copy, Debug, PartialEq, Eq, Structural)]
pub struct MintNewEditionFromMasterEditionViaTokenArgs {
    pub edition: u64,
}

/// Prints edition number `edition` on behalf of a vault that holds the
/// master edition's token.
#[derive(Clone, Copy, Debug, PartialEq, Eq, Structural)]
pub struct MintEditionProxyArgs {
    pub edition: u64,
}

impl CreateMasterEditionArgs {
    /// The record of a new master edition: nothing printed yet, under the
    /// requested cap.
    pub fn new_master_edition(&self) -> (r: crate::master_edition::MasterEditionV2)
        ensures
            r.key == crate::key::Key::MasterEditionV2,
            r.supply == 0,
            r.max_supply == self.max_supply,
    {
        crate::master_edition::MasterEditionV2 {
            key: crate::key::Key::MasterEditionV2,
            supply: 0,
            max_supply: self.max_supply,
        }
    }
}

} // verus!
