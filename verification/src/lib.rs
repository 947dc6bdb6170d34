//! A small balance ledger whose credits are gated on a stored commitment,
//! together with the counted key/value map that holds its balances.

pub mod account;
pub mod commitment;
pub mod filemap;
pub mod keyed;
pub mod scoob;
pub mod scooby;

pub use account::AccountId;
pub use scooby::{LedgerError, Scooby};
