//! A single-file, password-protected secret store.
//!
//! One master password derives a key (Argon2id); a verifier record proves the
//! password without touching real secrets; each service's credentials are an
//! independently sealed AES-256-GCM record.

pub mod assoc;
pub mod bundle;
pub mod codec;
pub mod crypto;
pub mod error;
pub mod vault;
