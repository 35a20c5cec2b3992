//! Transaction building blocks for a two-party (builder / signer) signing flow:
//! a self-describing binary envelope, the two signing digests, signature
//! assembly, batch composition, per-commitment submission results and the
//! deterministic genesis bond.
pub mod codec;
pub mod tx;
pub mod envelope;
pub mod crypto;
pub mod signing;
pub mod batch;
pub mod genesis;
pub mod arbitrary;
pub mod submit;
pub mod assembly;
