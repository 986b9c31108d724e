//! A minimal escrow ledger.
//!
//! The library keeps, per job identifier, a record of the funding employer,
//! an optional beneficiary and the asset the escrow is denominated in,
//! together with a non-negative balance held in custody.  Four operations
//! mutate that state — `create`, `deposit`, `set_beneficiary` and `release` —
//! and two pure reads inspect it.  Authorization and the actual movement of
//! asset units are the business of the surrounding environment and reach the
//! ledger only through injected interfaces.

mod kvlist;

pub mod auth;
pub mod errors;
pub mod machine;
pub mod store;
pub mod token;

pub use auth::Authorizer;
pub use auth::SignerSet;
pub use errors::ErrorKind;
pub use errors::EscrowError;
pub use machine::KaziEscrow;
pub use store::EscrowData;
pub use store::EscrowStore;
pub use store::RETENTION_WINDOW;
pub use token::RecordingGateway;
pub use token::TokenGateway;
pub use token::Transfer;
