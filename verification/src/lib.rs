//! Biometric unlock of SSH keys, and the decisions of the `gitway biometric`
//! commands and of `gitway-add`.

pub mod agent;
pub mod args;
pub mod attributes;
pub mod biometric;
pub mod enroll;
pub mod errors;
pub mod files;
pub mod forget;
pub mod fprintd;
pub mod keychain;
pub mod keyring;
pub mod keys;
pub mod load;
pub mod locker;
pub mod report;
pub mod secret;
pub mod text;
pub mod vault;
