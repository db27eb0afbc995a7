use vstd::prelude::*;
use vstd::utf8::encode_utf8;

use crate::cipher::{base64_encode, base64_standard, sealed, EncryptedData};
use crate::environment::{EnvironmentInfo, StorageBackend, occurs, occurs_in};
use crate::error::JiraError;
use crate::storage::{SecureStorage, in_memory_unsupported};
use crate::text::{has_prefix, is_blank, trim_end_spec, trim_spec, trim_start_spec};

verus! {

/// A point in time, UTC: whole seconds since the Unix epoch and the
/// nanoseconds past them.
#[derive(Debug, Clone, Copy, PartialEq, Eq, Structural)]
pub struct Timestamp {
    pub secs: i64,
    pub nanos: u32,
}

/// The credential bundle: service URL, account email, API token and usage
/// times.
#[derive(Debug, Clone)]
pub struct JiraConfig {
    pub url: String,
    pub email: String,
    pub token: String,
    pub created_at: Timestamp,
    pub last_used: Option<Timestamp>,
}

pub open spec fn url_message() -> Seq<char> {
    "URL deve começar com https://"@
}

pub open spec fn email_message() -> Seq<char> {
    "Email deve ser válido"@
}

pub open spec fn token_message() -> Seq<char> {
    "Token não pode estar vazio"@
}

pub open spec fn starts_with(s: Seq<char>, prefix: Seq<char>) -> bool {
    prefix.len() <= s.len() && s.subrange(0, prefix.len() as int) == prefix
}

/// The first invariant of the bundle that fails, as the reason given for it;
/// `None` for a valid bundle.
pub open spec fn config_problem(c: JiraConfig) -> Option<Seq<char>> {
    if trim_spec(c.url@).len() == 0 || !starts_with(c.url@, "https://"@) {
        Some(url_message())
    } else if trim_spec(c.email@).len() == 0 || !occurs(c.email@, "@"@, false) {
        Some(email_message())
    } else if trim_spec(c.token@).len() == 0 {
        Some(token_message())
    } else {
        None
    }
}

pub open spec fn auth_header_spec(email: Seq<char>, token: Seq<char>) -> Seq<char> {
    "Basic "@ + base64_standard(encode_utf8(email + ":"@ + token))
}

/// A bundle whose URL lacks the `https://` prefix, whose email has no `@`,
/// or whose token is empty never passes validation, so `save_config` turns it
/// away before anything is sealed.
pub proof fn lemma_validation_gate(c: JiraConfig)
    requires
        !starts_with(c.url@, "https://"@) || !occurs(c.email@, "@"@, false) || c.token@.len() == 0,
    ensures
        config_problem(c) is Some,
{
    if c.token@.len() == 0 {
        assert(trim_start_spec(c.token@) == c.token@);
        assert(trim_end_spec(c.token@) == c.token@);
    }
}

impl JiraConfig {
    /// Checks the invariants of the bundle: an `https://` URL, an email with
    /// an `@`, a token, none of them blank.
    pub fn validate(&self) -> (r: Result<(), JiraError>)
        ensures
            config_problem(*self) is None ==> r is Ok,
            config_problem(*self) matches Some(m) ==> (r matches Err(JiraError::InvalidConfig(t))
                && t@ == m),
    {
        if is_blank(self.url.as_str()) || !has_prefix(self.url.as_str(), "https://") {
            return Err(JiraError::InvalidConfig(String::from_str("URL deve começar com https://")));
        }
        if is_blank(self.email.as_str()) || !occurs_in(self.email.as_str(), "@", false) {
            return Err(JiraError::InvalidConfig(String::from_str("Email deve ser válido")));
        }
        if is_blank(self.token.as_str()) {
            return Err(JiraError::InvalidConfig(String::from_str("Token não pode estar vazio")));
        }
        Ok(())
    }

    /// The same bundle with its token masked, fit to be shown.
    pub fn masked(self) -> (r: JiraConfig)
        ensures
            r.url == self.url,
            r.email == self.email,
            r.token@ == token_mask(),
            r.created_at == self.created_at,
            r.last_used == self.last_used,
    {
        JiraConfig { token: String::from_str("••••••••••••••••"), ..self }
    }

    /// The same bundle, last used at `now`.
    pub fn touched(self, now: Timestamp) -> (r: JiraConfig)
        ensures
            r.url == self.url,
            r.email == self.email,
            r.token == self.token,
            r.created_at == self.created_at,
            r.last_used == Some(now),
    {
        JiraConfig { last_used: Some(now), ..self }
    }
}

/// `s` without the `/` characters at its end.
pub open spec fn without_trailing_slashes(s: Seq<char>) -> Seq<char>
    decreases s.len(),
{
    if s.len() > 0 && s.last() == '/' {
        without_trailing_slashes(s.drop_last())
    } else {
        s
    }
}

/// The service URL as kept: trailing slashes removed.
pub fn normalize_url(url: &str) -> (r: String)
    ensures
        r@ == without_trailing_slashes(url@),
{
    let n = url.unicode_len();
    let mut end: usize = n;
    assert(url@.subrange(0, n as int) =~= url@);
    while end > 0 && url.get_char(end - 1) == '/'
        invariant
            n == url@.len(),
            end <= n,
            without_trailing_slashes(url@) == without_trailing_slashes(url@.subrange(0, end as int)),
        decreases end,
    {
        assert(url@.subrange(0, end as int).drop_last() =~= url@.subrange(0, end - 1));
        end -= 1;
    }
    String::from_str(url.substring_char(0, end))
}

pub open spec fn token_mask() -> Seq<char> {
    "••••••••••••••••"@
}

/// `Basic ` followed by the base64 of `email:token`.
pub fn create_auth_header(config: &JiraConfig) -> (r: String)
    requires
        encode_utf8(config.email@ + ":"@ + config.token@).len() <= usize::MAX / 4,
    ensures
        r@ == auth_header_spec(config.email@, config.token@),
{
    let mut credentials = String::from_str(config.email.as_str());
    credentials.append(":");
    credentials.append(config.token.as_str());
    let encoded = base64_encode(credentials.as_str().as_bytes());
    String::from_str("Basic ").concat(encoded.as_str())
}

/// The identity endpoint used to check that the service accepts the
/// credentials.
pub fn identity_endpoint(url: &str) -> (r: String)
    ensures
        r@ == url@ + "/rest/api/3/myself"@,
{
    String::from_str(url).concat("/rest/api/3/myself")
}

/// The credential bundle kept through a `SecureStorage`. The bundle's text
/// form and the raw reads and writes of the backend are the caller's; this
/// decides what gets sealed and when nothing may be.
pub struct JiraConfigManager {
    pub secure_storage: SecureStorage,
}

impl JiraConfigManager {
    pub fn new(secure_storage: SecureStorage) -> (r: JiraConfigManager)
        ensures
            r.secure_storage == secure_storage,
    {
        JiraConfigManager { secure_storage }
    }

    /// Validates `config`, then seals `serialized`, its text form. An invalid
    /// bundle is rejected with the reason for it before anything is
    /// encrypted, and no envelope comes back to be written.
    pub fn save_config(&self, config: &JiraConfig, serialized: &str) -> (r: Result<
        EncryptedData,
        JiraError,
    >)
        ensures
            config_problem(*config) matches Some(m) ==> (r matches Err(
                JiraError::InvalidConfig(t),
            ) && t@ == m),
            config_problem(*config) is None ==> {
                &&& self.secure_storage.env().storage_backend == StorageBackend::InMemory ==> (
                r matches Err(JiraError::InvalidConfig(t)) && t@ == in_memory_unsupported())
                &&& self.secure_storage.env().storage_backend != StorageBackend::InMemory ==> {
                    &&& r matches Ok(e) ==> sealed(
                        self.secure_storage.key(),
                        e,
                        encode_utf8(serialized@),
                    )
                    &&& r is Err ==> r == Err::<EncryptedData, JiraError>(JiraError::Encryption)
                }
            },
    {
        match config.validate() {
            Ok(()) => self.secure_storage.store(serialized),
            Err(e) => Err(e),
        }
    }

    pub fn get_environment_info(&self) -> (r: &EnvironmentInfo)
        ensures
            *r == self.secure_storage.env(),
    {
        self.secure_storage.get_environment_info()
    }
}

} // verus!
