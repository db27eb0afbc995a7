use vstd::prelude::*;
use vstd::utf8::{decode_utf8, encode_utf8, valid_utf8};

use crate::cipher::{
    base64_standard, utf8_lossy_of,
    decrypt_data, encrypt_with_nonce, file_key_spec, generate_key, key_from_file_text,
    key_from_keyring_text, key_to_text, random_nonce, keyring_key_spec, persisted_key_text, sealed, utf8_lossy,
    CipherKey, EncryptedData, GCM_P_MAX, NONCE_LEN, TAG_LEN,
};
use crate::environment::{EnvironmentInfo, StorageBackend};
use crate::error::JiraError;

verus! {

broadcast use vstd::utf8::encode_utf8_valid_utf8, vstd::utf8::encode_utf8_decode_utf8;

pub open spec fn text_view(t: Option<String>) -> Option<Seq<char>> {
    match t {
        Some(s) => Some(s@),
        None => None,
    }
}

/// The key that earlier runs left behind, looked up only where the backend
/// keeps one: the keyring entry for the native keyring, the key file for the
/// encrypted file.
pub open spec fn recovered_key(
    env: EnvironmentInfo,
    keyring_text: Option<Seq<char>>,
    file_text: Option<Seq<char>>,
) -> Option<Seq<u8>> {
    match env.storage_backend {
        StorageBackend::NativeKeyring => match keyring_text {
            Some(t) => keyring_key_spec(t),
            None => None,
        },
        StorageBackend::EncryptedFile => match file_text {
            Some(t) => file_key_spec(t),
            None => None,
        },
        StorageBackend::InMemory => None,
    }
}

/// The message of the error that the in-memory backend gives on every store.
pub open spec fn in_memory_unsupported() -> Seq<char> {
    "Armazenamento em memória não suportado"@
}

/// Encrypted persistence of one secret, with the key held for the lifetime of
/// the value. Raw reads and writes of the backend happen outside: `store`
/// hands out the envelope to persist, `retrieve` takes the envelope found.
pub struct SecureStorage {
    environment: EnvironmentInfo,
    cipher_key: CipherKey,
}

impl SecureStorage {
    pub closed spec fn env(&self) -> EnvironmentInfo {
        self.environment
    }

    pub closed spec fn key(&self) -> Seq<u8> {
        self.cipher_key@
    }

    /// Takes a freshly drawn key: it is the key in use, and unless the backend
    /// keeps nothing, its base64 text is handed out to be persisted.
    pub fn with_new_key(environment: &EnvironmentInfo, key: CipherKey) -> (r: (
        CipherKey,
        Option<String>,
    ))
        ensures
            r.0@ == key@,
            environment.storage_backend == StorageBackend::InMemory ==> r.1 is None,
            environment.storage_backend != StorageBackend::InMemory ==> (r.1 matches Some(t) && t@
                == base64_standard(key@) && persisted_key_text(t@, key@)),
    {
        match environment.storage_backend {
            StorageBackend::InMemory => (key, None),
            _ => {
                let text = key_to_text(&key);
                (key, Some(text))
            },
        }
    }

    /// The store for an environment, holding `cipher_key`.
    pub fn from_key(environment: EnvironmentInfo, cipher_key: CipherKey) -> (r: SecureStorage)
        ensures
            r.env() == environment,
            r.key() == cipher_key@,
    {
        SecureStorage { environment, cipher_key }
    }

    /// Resolves the cipher key: a valid key already stored for the backend
    /// wins; otherwise a fresh one is drawn, together with the text the caller
    /// persists for it (best effort) unless the backend keeps nothing.
    pub fn get_or_create_cipher_key(
        environment: &EnvironmentInfo,
        keyring_text: &Option<String>,
        file_text: &Option<String>,
    ) -> (r: Result<(CipherKey, Option<String>), JiraError>)
        ensures
            r matches Ok((k, persist)) ==> match recovered_key(
                *environment,
                text_view(*keyring_text),
                text_view(*file_text),
            ) {
                Some(b) => k@ == b && persist is None,
                None => if environment.storage_backend == StorageBackend::InMemory {
                    persist is None
                } else {
                    (persist matches Some(t) && t@ == base64_standard(k@) && persisted_key_text(
                        t@,
                        k@,
                    ))
                },
            },
            r is Err ==> r == Err::<(CipherKey, Option<String>), JiraError>(JiraError::Encryption)
                && recovered_key(*environment, text_view(*keyring_text), text_view(*file_text))
                is None,
    {
        let recovered = match environment.storage_backend {
            StorageBackend::NativeKeyring => match keyring_text {
                Some(t) => key_from_keyring_text(t.as_str()),
                None => None,
            },
            StorageBackend::EncryptedFile => match file_text {
                Some(t) => key_from_file_text(t.as_str()),
                None => None,
            },
            StorageBackend::InMemory => None,
        };
        match recovered {
            Some(k) => Ok((k, None)),
            None => {
                match generate_key() {
                    Ok(key) => Ok(Self::with_new_key(environment, key)),
                    Err(e) => Err(e),
                }
            },
        }
    }

    /// Sets up the store for a classified environment and whatever key texts
    /// were found; the second part of the result is a key text to persist.
    pub fn new(
        environment: EnvironmentInfo,
        keyring_text: &Option<String>,
        file_text: &Option<String>,
    ) -> (r: Result<(SecureStorage, Option<String>), JiraError>)
        ensures
            r matches Ok((s, persist)) ==> s.env() == environment && match recovered_key(
                environment,
                text_view(*keyring_text),
                text_view(*file_text),
            ) {
                Some(b) => s.key() == b && persist is None,
                None => if environment.storage_backend == StorageBackend::InMemory {
                    persist is None
                } else {
                    (persist matches Some(t) && t@ == base64_standard(s.key()) && persisted_key_text(
                        t@,
                        s.key(),
                    ))
                },
            },
            r is Err ==> r == Err::<(SecureStorage, Option<String>), JiraError>(
                JiraError::Encryption,
            ) && recovered_key(environment, text_view(*keyring_text), text_view(*file_text))
                is None,
    {
        match Self::get_or_create_cipher_key(&environment, keyring_text, file_text) {
            Ok((cipher_key, persist)) => Ok((Self::from_key(environment, cipher_key), persist)),
            Err(e) => Err(e),
        }
    }

    pub fn get_environment_info(&self) -> (r: &EnvironmentInfo)
        ensures
            *r == self.env(),
    {
        &self.environment
    }

    /// Seals `data` under the given nonce for the active backend.
    pub fn store_with_nonce(&self, data: &str, nonce: Vec<u8>) -> (r: Result<EncryptedData, JiraError>)
        requires
            nonce@.len() == NONCE_LEN,
        ensures
            self.env().storage_backend == StorageBackend::InMemory ==> (r matches Err(
                JiraError::InvalidConfig(m),
            ) && m@ == in_memory_unsupported()),
            self.env().storage_backend != StorageBackend::InMemory ==> {
                &&& r is Ok <==> encode_utf8(data@).len() <= GCM_P_MAX
                &&& r matches Ok(e) ==> e.nonce@ == nonce@ && sealed(
                    self.key(),
                    e,
                    encode_utf8(data@),
                )
                &&& r is Err ==> r == Err::<EncryptedData, JiraError>(JiraError::Encryption)
            },
    {
        match self.environment.storage_backend {
            StorageBackend::InMemory => Err(
                JiraError::InvalidConfig(String::from_str("Armazenamento em memória não suportado")),
            ),
            _ => encrypt_with_nonce(&self.cipher_key, nonce, data.as_bytes()),
        }
    }

    /// Seals `data` under a fresh random nonce for the active backend; the
    /// caller persists the envelope.
    pub fn store(&self, data: &str) -> (r: Result<EncryptedData, JiraError>)
        ensures
            self.env().storage_backend == StorageBackend::InMemory ==> (r matches Err(
                JiraError::InvalidConfig(m),
            ) && m@ == in_memory_unsupported()),
            self.env().storage_backend != StorageBackend::InMemory ==> {
                &&& r matches Ok(e) ==> sealed(self.key(), e, encode_utf8(data@))
                &&& r matches Ok(e) ==> e.nonce@.len() == NONCE_LEN && e.ciphertext@.len()
                    == encode_utf8(data@).len() + TAG_LEN
                &&& r is Err ==> r == Err::<EncryptedData, JiraError>(JiraError::Encryption)
            },
    {
        match self.environment.storage_backend {
            StorageBackend::InMemory => Err(
                JiraError::InvalidConfig(String::from_str("Armazenamento em memória não suportado")),
            ),
            _ => {
                match random_nonce() {
                    Ok(nonce) => self.store_with_nonce(data, nonce),
                    Err(e) => Err(e),
                }
            },
        }
    }

    /// Opens what the backend held. Absence is no error; an envelope that
    /// does not authenticate under the key gives `Decryption`, and what comes
    /// back is always authenticated. What `store` sealed comes back unchanged.
    pub fn retrieve(&self, stored: &Option<EncryptedData>) -> (r: Result<Option<String>, JiraError>)
        ensures
            self.env().storage_backend == StorageBackend::InMemory || stored is None ==> r
                == Ok::<Option<String>, JiraError>(None),
            self.env().storage_backend != StorageBackend::InMemory && stored is Some ==> {
                let e = stored->0;
                &&& r matches Ok(o) ==> o is Some && exists|p: Seq<u8>| sealed(self.key(), e, p)
                &&& forall|p: Seq<u8>| #[trigger]
                    sealed(self.key(), e, p) ==> (r matches Ok(Some(t)) && t@ == utf8_lossy_of(p))
                &&& forall|p: Seq<u8>| #[trigger]
                    sealed(self.key(), e, p) && valid_utf8(p) ==> (r matches Ok(Some(t)) && t@
                        == decode_utf8(p))
                &&& forall|s: Seq<char>| #[trigger]
                    sealed(self.key(), e, encode_utf8(s)) ==> (r matches Ok(Some(t)) && t@ == s)
                &&& r is Err ==> r == Err::<Option<String>, JiraError>(JiraError::Decryption)
                    && forall|p: Seq<u8>| !sealed(self.key(), e, p)
            },
    {
        match self.environment.storage_backend {
            StorageBackend::InMemory => Ok(None),
            _ => match stored {
                None => Ok(None),
                Some(e) => {
                    let d = decrypt_data(&self.cipher_key, e);
                    proof {
                        assert forall|s: Seq<char>| #[trigger]
                            sealed(self.key(), *e, encode_utf8(s)) implies (d matches Ok(q) && q@
                            == encode_utf8(s)) by {}
                    }
                    match d {
                        Ok(plain) => {
                            assert(sealed(self.key(), *e, plain@));
                            Ok(Some(utf8_lossy(plain.as_slice())))
                        },
                        Err(err) => Err(err),
                    }
                },
            },
        }
    }
}

} // verus!
