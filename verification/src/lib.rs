//! Accounting core of a pooled investment vault.
//!
//! Many depositors contribute value into a shared pool controlled by a single
//! owner; trade outcomes are posted against the pool as signed profit/loss
//! events. The library tracks each participant's proportional claim, applies
//! PnL to the aggregate, and computes exact, overflow-safe payouts on
//! withdrawal while never draining the escrow below a required reserve.
//!
//! The host execution environment — the layer that authenticates callers,
//! persists records at deterministic addresses, physically moves transferable
//! value, and delivers notifications — is an external collaborator: it hands
//! this library plain values (identities, amounts, timestamps, the reserve
//! floor) and receives plain values back.

pub mod errors;
pub mod state;
pub mod math;
pub mod validate;
pub mod arena;
pub mod laws;
