//! Core of a networked digital mixing console: the AES67 wire formats
//! (RTP/L24, PTP, SAP/SDP), the shared mixer state and the rules by which
//! client commands are applied and fanned out.
//!
//! Everything here is plain data and pure logic. Sockets, audio devices,
//! clocks and locks live with the caller, which hands bytes, timestamps and
//! decoded messages in and takes bytes and decisions back.

pub mod api;
pub mod backend;
pub mod channel;
pub mod config;
pub mod discovery;
pub mod engine;
pub mod eq;
pub mod ieee;
pub mod jitter;
pub mod master;
pub mod midi;
pub mod mixer;
pub mod net;
pub mod protocol;
pub mod ptp;
pub mod routing;
pub mod rtp;
pub mod sap;
pub mod scenes;
pub mod sdp;
pub mod sdp_laws;
pub mod session;
pub mod text;
