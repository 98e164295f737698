//! The rules of a peer-to-peer blob node: how it answers a peer over a tunnel, how it asks a peer
//! for a blob, how it cuts a blob into chunks, and how it keeps named collections of files.
//!
//! Nothing in this crate performs input or output. Each operation is a state machine: it hands out
//! an action, and the caller performs the action and hands back what happened.

#![allow(unused_imports)]

pub mod ask;
pub mod blobs;
pub mod buffer;
pub mod catalog;
pub mod catalog_laws;
pub mod cbor;
pub mod chunks;
pub mod collection;
pub mod download;
pub mod error;
pub mod hash;
pub mod peer_laws;
pub mod read_laws;
pub mod serve;
pub mod serve_laws;
pub mod store;
pub mod store_laws;
pub mod store_model;
pub mod tags;
pub mod text;
pub mod text_laws;
pub mod transfer_laws;
pub mod view_laws;
pub mod wire;
