//! Authorization-and-mutation core of a shared, partitioned pixel canvas.
//!
//! The canvas is divided into fixed-size subsections, each holding 100 pixel
//! color values packed two to a byte (4 bits per pixel). Clients mutate
//! pixels either directly (the authority itself signed the request) or
//! through a delegated, time-bounded session credential binding the
//! authority to an ephemeral signing key.
//!
//! The surrounding platform — the persistent account store, the transaction
//! envelope that verifies signatures, and the clock — is an external
//! collaborator: it hands this core plain values (identities that have
//! already been cryptographically verified, a signer flag, one current-time
//! snapshot per draw request) and durably stores the state this core
//! computes. Everything the core itself decides — coordinate and color
//! validation, the packed-buffer read/modify/write algorithm, the
//! create-if-absent and fail-if-present store semantics, and the
//! session-validation chain with strict expiry — is verified here.

pub mod canvas;
pub mod error;
pub mod pixel;
pub mod session;
pub mod subsection;
