//! Core of a desktop companion that tracks local checkouts, supervises one
//! external agent process at a time, and republishes its commands and events
//! over an authenticated local bridge.

pub mod text;
pub mod dispatch;
pub mod supervisor;
pub mod auth;
pub mod bridge;
pub mod git;
pub mod catalog;
