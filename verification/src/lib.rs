//! Verified core of a parallel, optionally encrypted, file-sharing tool.
pub mod ranges;
pub mod text;
pub mod display;
pub mod error;
pub mod crypto;
pub mod reassembly;
pub mod transfer;
pub mod framing;
pub mod relay;
