pub mod backing;
pub mod codec;
pub mod laws;
pub mod messages;
pub mod records;
pub mod service;
pub mod store;

pub use records::{Debt, DebtModel, DebtPayload, Error, Escrow, EscrowModel};
pub use service::Service;
