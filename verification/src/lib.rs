//! Verified core of a Solana data aggregator and its REST query service.
//!
//! The aggregator polls finalised blocks, extracts the accounts that their
//! transactions touch and records account state; the query service turns
//! request parameters into document filters. The decisions of both live
//! here with their contracts; I/O, scheduling and storage stay outside.

pub mod error;
pub mod datetime;
pub mod query;
pub mod accounts;
pub mod blocks;
pub mod poll;
