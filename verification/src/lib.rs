#![allow(nonstandard_style)]
//! Core of a serverless LAN chat and file-transfer peer.
//!
//! The crate covers the protocol and concurrency engine: PIN-based
//! secure-channel establishment and symmetric encryption, the UDP broadcast
//! wire protocol for discovery, messaging and file-offer announcement, the
//! dual-dialect TCP file-transfer protocol, the background file-bundling
//! pipeline, and the concurrency-bounded download manager.
//!
//! Network and file I/O, GUI rendering, audio cues and platform adapter
//! enumeration live outside this crate; the library exposes the decisions
//! and codecs as verified functions on plain values.

pub mod bytes;
pub mod bundler;
pub mod channel;
pub mod codec;
pub mod helpers;
pub mod dispatch;
pub mod crypto;
pub mod mobile;
pub mod offers;
pub mod slots;
pub mod text;
pub mod transfer;
pub mod zip;
