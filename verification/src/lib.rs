//! Frame-accurate seek-and-decode core.
//!
//! The crate holds the decisions of a single-frame video extraction: which
//! stream to read, where to seek, which packets to feed to the decoder, which
//! decoded frame to keep and how to pack its pixels. Opening files, reading
//! packets, decoding and scaling are left to the caller, who reports their
//! outcomes as plain values.
//!
//! One extraction runs through the modules in this order: `seek` selects the
//! video stream and, with `position`, forms the seek request; `decode` is
//! the state machine that the caller drives while it reads packets;
//! `convert` settles what the scaler is set up with; `extract` checks what
//! the scaler gave and has `pack` strip the padding of its rows.
//! `resolution` states what the state machine computes and proves it.

pub mod convert;
pub mod decode;
pub mod error;
pub mod extract;
pub mod pack;
pub mod position;
pub mod request;
pub mod resolution;
pub mod seek;
