//! Wallet risk-check library: address classification, deterministic subnet
//! statistics, the risk-record store lifecycle, and the check pipeline that
//! sequences classification, record creation, prediction, and reconciliation.

pub mod db;
pub mod ipc;
pub mod models;
pub mod pipeline;
pub mod subnet;
