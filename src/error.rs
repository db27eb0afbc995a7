use vstd::prelude::*;

verus! {

/// Failures of the credential store. Causes coming from outside libraries are
/// carried as text, never with secret contents.
#[derive(Debug, Clone, PartialEq, Eq)]
pub enum JiraError {
    Keyring(String),
    Encryption,
    Decryption,
    Serialization(String),
    Base64(String),
    Http(String),
    InvalidConfig(String),
    AuthenticationFailed,
}

} // verus!
