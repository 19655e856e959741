//! A minimal certificate-authority core: distinguished names, serial
//! allocation, validity policy, certificate assembly and signing.

pub mod errors;
pub mod name;
pub mod serial;
pub mod validity;
pub mod cert;
pub mod signer;
pub mod ca;
