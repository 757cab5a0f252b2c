//! A process-local, single-flight request cache for a gateway that fronts a
//! remote data API, together with the pure decision logic of the gateway's
//! routes.
//!
//! The cache maps a composite key — a caller-chosen string paired with a
//! value-type tag — to a slot that is either empty or holds one fully formed
//! value.  Under concurrent demand for an uncached key, exactly one caller
//! is granted the obligation to populate the slot; every other caller waits
//! and then reads the value the populator stored.  Populate failures are
//! surfaced to their own caller and never cached.
//!
//! Lock acquisition and the populate operation itself are suspension
//! points; the surrounding binary drives the protocol with its own runtime
//! and performs the outbound fetches, handing this crate plain values.

pub mod cache;
pub mod docs;
pub mod flight;
pub mod jwt;
pub mod pokemon;
pub mod remote_api;
pub mod routes;
