//! Invoicing contract: invoices are created for a designated payer and paid
//! off in one or more payments; every operation is a verified transition of
//! the contract's store.

pub mod decimal;
pub mod error;
pub mod key_order;
pub mod state;
pub mod ids;
pub mod msg;
pub mod invoice;
pub mod store;
pub mod contract;
pub mod laws;
