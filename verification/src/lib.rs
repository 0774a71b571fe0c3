//! Verified decision logic of three inferlets: cross-mode KV boundary reuse,
//! the Next Token Arena and the Probability Lens.
//!
//! Everything that talks to the inference engine (contexts, forward passes,
//! the tokenizer, the session channel) stays with the caller; this crate holds
//! the rules those calls are driven by, with their contracts.

pub mod arena;
pub mod boundary;
pub mod error;
pub mod lens;
pub mod text;
