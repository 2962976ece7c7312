//! A liveness-monitoring engine for load-balancing pools: named pools of
//! member hosts are probed via TCP connect or HTTP(S) request, a shared
//! health table records every member's latest verdict and resolved
//! address, and a query API picks the first healthy member of a pool.
//!
//! The table transitions, probe classification, resolver selection, and
//! per-cycle poller decisions are all specified and verified here; the
//! surrounding process (sleeping, network calls, the HTTP framework)
//! hands its observations in as plain values.

pub mod api;
pub mod config;
pub mod digits;
pub mod ip;
pub mod member;
pub mod poller;
pub mod probe;
pub mod resolve;
pub mod search;
pub mod table;
