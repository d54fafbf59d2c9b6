//! Edition and reservation accounting for limited-edition prints of a
//! non-fungible token: a paginated bitmap of claimed edition numbers, a
//! reservation ledger in two on-disk formats, and the supply coordinator
//! that approves or rejects each print.

pub mod error;
pub mod pubkey;
pub mod key;
pub mod codec;
pub mod edition_marker;
pub mod reservation;
pub mod master_edition;
pub mod mint;
pub mod reservation_layout;
pub mod instruction;
