//! Relay engine for an on-chain code-verification registry.
//!
//! The library covers the logic of a relay that sits between a smart
//! contract recording code-verification requests and a continuous
//! integration service that builds the submitted code: authenticating
//! webhook deliveries, assembling build artifacts into a verifiable
//! result, de-duplicating a polled change feed, and driving the
//! transaction-submission protocol that reports outcomes back on chain.

pub mod artifacts;
pub mod code_hash;
pub mod contract;
pub mod hexcode;
pub mod signature;
pub mod submit;
pub mod verification;
pub mod watch;

pub use code_hash::CodeHash;
pub use code_hash::encode_bs58;
pub use code_hash::hash_bytes;
pub use code_hash::hash_code;
pub use hexcode::hex_decode;
pub use hexcode::hex_encode;
pub use signature::extract_compatible_signature;
pub use signature::verify_signature;
pub use verification::JobCompletedWebhookPayload;
pub use verification::NetworkConfig;
pub use verification::VerificationRequest;
pub use verification::VerificationResult;
pub use verification::VerificationStatus;
pub use verification::WebhookPayloadJob;
