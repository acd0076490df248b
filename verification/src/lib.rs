//! A two-party atomic token swap escrow.
//!
//! Party A deposits an amount of asset X into a custody vault and names the
//! amount of asset Y expected in return; party B may complete the swap by
//! delivering Y to A and taking the custodied X, or A may cancel beforehand
//! and recover X. The escrow state machine lives in [`machine`], the ledger
//! model it drives in [`ledger`], and the derivation of the program authority
//! that alone controls a vault in [`authority`].

pub mod authority;
pub mod ledger;
pub mod machine;

pub use machine::Cancel;
pub use machine::cancel;
pub use machine::init_escrow;
pub use machine::process_exchange;
pub use machine::Escrow;
pub use machine::EscrowError;
pub use machine::EscrowState;
pub use machine::Exchange;
pub use machine::InitEscrow;
pub use machine::RecordEntry;

pub use ledger::AccountOwner;
pub use ledger::AuthProof;
pub use ledger::Ledger;
pub use ledger::TokenAccount;
pub use ledger::TransferError;
