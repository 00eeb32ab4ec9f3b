//! Juno: network monitoring library.

pub mod texto;
pub mod netflow;
pub mod nmap;
pub mod db;
pub mod auth;
pub mod alerts;
pub mod ids;
pub mod ping;
pub mod snmp;
pub mod api;
