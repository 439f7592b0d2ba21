//! pg-starttls makes SNI routing work for clients that use PostgreSQL's
//! two-phase SSL negotiation (libpq's default, sslnegotiation=postgres).
//!
//! Such a client opens the connection in plaintext, sends an 8-byte SSLRequest
//! and then *waits* for the server's single-byte reply before it sends a TLS
//! ClientHello. The gateway therefore has no SNI to route on at the moment it
//! must pick a filter chain, and drops the connection.
//!
//! The shim is the party that answers. It replies "S", which unblocks the
//! client into sending a perfectly ordinary ClientHello -- SNI and all -- and
//! then splices that stream back into the gateway listener, where the existing
//! per-tenant TLSRoute chains route it exactly as they route a
//! sslnegotiation=direct connection. Routing stays defined solely by TLSRoutes;
//! the shim never needs to know which tenants exist.
//!
//! This library holds every decision of the shim and none of its I/O. A caller
//! performs what a [`negotiation::Step`], a [`session::Turn`] or a
//! [`service::Response`] asks for and hands back how it went.

pub mod config;
pub mod error;
pub mod negotiation;
pub mod opening;
pub mod packet;
pub mod response;
pub mod service;
pub mod session;
pub mod text;
