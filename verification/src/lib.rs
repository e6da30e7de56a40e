//! Iterated Keccak-256 kernel: decode a `(num_iter, data)` input blob,
//! apply the Keccak-256 hash primitive `num_iter` times in strict sequence
//! (with a floor of one application), and hand back the 32-byte digest.

pub mod codec;
pub mod engine;

pub use codec::decode;
pub use codec::encode;
pub use codec::DecodeError;
pub use engine::iterate;
pub use engine::keccak;
