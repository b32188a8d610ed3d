//! A local store of web logins that keeps, for every record, the state last confirmed by the
//! server beside the pending local changes, so that a later synchronisation can merge the two.
//!
//! The store is the [`db::LoginDb`]; what its operations do is said over its mathematical
//! value, the [`model::StoreView`]. The [`laws`] hold of every store. A login is made
//! canonical and validated in [`login`]; [`metrics`] holds what a bulk import reports. The
//! module [`cmd`] stands apart: it gives the command lines with which an app under test is
//! driven.

pub mod clock;
pub mod cmd;
pub mod db;
pub mod error;
pub mod guid;
pub mod interrupt;
pub mod invariants;
pub mod laws;
pub mod login;
pub mod metrics;
pub mod model;
pub mod row;
pub mod seqs;
pub mod tables;
pub mod text;
pub mod tidy;
pub mod urls;
