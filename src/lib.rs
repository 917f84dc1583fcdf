//! Core of a custodial Bitcoin inscription wallet: the inscription envelope, script and address
//! primitives, the commit/reveal transaction builder and the master-seed lifecycle.
pub mod address;
pub mod builder;
pub mod der;
pub mod error;
pub mod inscription;
pub mod keys;
pub mod script;
pub mod transaction;
