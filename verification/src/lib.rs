//! A fee-gated tarot draw service.
//!
//! An account pays a fee and receives a 128-bit draw derived from a snapshot
//! of its surroundings and a seed of its own choosing. Each account gathers up
//! to three draws into a reading; a fourth draw opens a fresh reading. The
//! owner account may hand ownership on and is the payee of withdrawals.

pub mod account;
pub mod entropy;
pub mod gate;
pub mod history;
pub mod model;
pub mod service;
pub mod store;

