//! Keeps a Hetzner Cloud firewall aligned with the public addresses of the
//! host: the rules that the firewall should carry, the address set they are
//! made from, and the decisions of one reconciliation pass. Nothing here
//! performs a request; the caller does, and reports back what it got.

pub mod config;
pub mod hcloud;
pub mod ip;
pub mod provider;
pub mod reconcile;
pub mod rules;
pub mod scheduler;
pub mod sorting;
pub mod text;
