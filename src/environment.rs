use vstd::prelude::*;

verus! {

/// Where the encrypted credential bundle is kept.
#[derive(Debug, Clone, Copy, PartialEq, Eq, Structural)]
pub enum StorageBackend {
    NativeKeyring,
    EncryptedFile,
    /// Never chosen by detection: only for constrained test setups.
    InMemory,
}

/// Informational strength of the active backend.
#[derive(Debug, Clone, Copy, PartialEq, Eq, Structural)]
pub enum SecurityLevel {
    High,
    Medium,
    Low,
}

/// Raw observations about the host, gathered by the caller (files, environment
/// variables, executables on the search path, running processes).
#[derive(Debug, Clone)]
pub struct HostFacts {
    /// Contents of the kernel version descriptor, when it could be read.
    pub proc_version: Option<String>,
    /// `WSL_DISTRO_NAME` is set.
    pub wsl_distro_name_set: bool,
    /// `WSLENV` is set.
    pub wslenv_set: bool,
    pub has_gnome_keyring_daemon: bool,
    pub has_kwalletd5: bool,
    pub has_kwalletd: bool,
    pub has_secret_tool: bool,
    /// A session message-bus daemon process is running.
    pub dbus_daemon_running: bool,
    /// The secrets-service introspection call over the bus went through.
    pub secrets_service_answered: bool,
    pub xdg_current_desktop_set: bool,
    pub desktop_session_set: bool,
    pub gnome_desktop_session_id_set: bool,
    pub kde_full_session_set: bool,
    /// `DISPLAY` (X11) is set.
    pub display_set: bool,
    /// `WAYLAND_DISPLAY` is set.
    pub wayland_display_set: bool,
}

/// Immutable classification of the host's secret-storage facilities.
#[derive(Debug, Clone, Copy)]
pub struct EnvironmentInfo {
    pub is_wsl: bool,
    pub is_wsl2: bool,
    pub has_keyring: bool,
    pub has_desktop_environment: bool,
    pub storage_backend: StorageBackend,
    pub security_level: SecurityLevel,
}

// ---------------------------------------------------------------------------
// Text matching
// ---------------------------------------------------------------------------

/// `c` stands for the pattern character `p`; with `fold`, an upper-case ASCII
/// letter also stands for its lower-case pattern letter.
pub open spec fn char_matches(c: char, p: char, fold: bool) -> bool {
    c == p || (fold && 'a' <= p && p <= 'z' && c as u32 == (p as u32) - 32)
}

pub open spec fn occurs_at(text: Seq<char>, pat: Seq<char>, i: int, fold: bool) -> bool {
    &&& 0 <= i
    &&& i + pat.len() <= text.len()
    &&& forall|j: int| 0 <= j < pat.len() ==> char_matches(#[trigger] text[i + j], pat[j], fold)
}

/// `pat` occurs somewhere in `text` (ASCII case-insensitively when `fold`
/// holds and `pat` is lower case).
pub open spec fn occurs(text: Seq<char>, pat: Seq<char>, fold: bool) -> bool {
    exists|i: int| occurs_at(text, pat, i, fold)
}

fn chars_match(c: char, p: char, fold: bool) -> (r: bool)
    ensures
        r == char_matches(c, p, fold),
{
    c == p || (fold && 'a' <= p && p <= 'z' && c as u32 == (p as u32) - 32)
}

/// Whether `pat` occurs in `text`, optionally folding ASCII case.
pub fn occurs_in(text: &str, pat: &str, fold: bool) -> (r: bool)
    ensures
        r == occurs(text@, pat@, fold),
{
    let n = text.unicode_len();
    let m = pat.unicode_len();
    if m > n {
        assert forall|i: int| !occurs_at(text@, pat@, i, fold) by {}
        return false;
    }
    let mut i: usize = 0;
    while i <= n - m
        invariant
            n == text@.len(),
            m == pat@.len(),
            m <= n,
            i <= n - m + 1,
            forall|k: int| 0 <= k < i ==> !occurs_at(text@, pat@, k, fold),
        decreases n - m + 1 - i,
    {
        let mut j: usize = 0;
        while j < m && chars_match(text.get_char(i + j), pat.get_char(j), fold)
            invariant
                n == text@.len(),
                m == pat@.len(),
                i + m <= n,
                j <= m,
                forall|jj: int| 0 <= jj < j ==> char_matches(#[trigger] text@[i + jj], pat@[jj], fold),
            decreases m - j,
        {
            j += 1;
        }
        if j == m {
            assert(occurs_at(text@, pat@, i as int, fold));
            return true;
        }
        assert(!char_matches(text@[i + j], pat@[j as int], fold));
        i += 1;
    }
    assert forall|k: int| !occurs_at(text@, pat@, k, fold) by {
        if 0 <= k && k + m <= n {
            assert(k < i);
        }
    }
    false
}

// ---------------------------------------------------------------------------
// Classification rules
// ---------------------------------------------------------------------------

pub open spec fn is_wsl_spec(f: HostFacts) -> bool {
    match f.proc_version {
        Some(v) => occurs(v@, "wsl"@, true) || occurs(v@, "microsoft"@, true),
        None => f.wsl_distro_name_set || f.wslenv_set,
    }
}

pub open spec fn is_wsl2_spec(f: HostFacts) -> bool {
    is_wsl_spec(f) && match f.proc_version {
        Some(v) => occurs(v@, "WSL2"@, false) || (!occurs(v@, "WSL"@, false) && occurs(
            v@,
            "Microsoft"@,
            false,
        )),
        None => false,
    }
}

pub open spec fn has_keyring_spec(f: HostFacts) -> bool {
    f.has_gnome_keyring_daemon || f.has_kwalletd5 || f.has_kwalletd || f.has_secret_tool || (
    f.dbus_daemon_running && f.secrets_service_answered)
}

pub open spec fn has_desktop_spec(f: HostFacts) -> bool {
    f.xdg_current_desktop_set || f.desktop_session_set || f.gnome_desktop_session_id_set
        || f.kde_full_session_set || f.display_set || f.wayland_display_set
}

/// The native keyring is used only when one is present outside a virtualized
/// subsystem; everything else falls back to the encrypted file.
pub open spec fn backend_for(has_keyring: bool, is_wsl: bool) -> StorageBackend {
    if has_keyring && !is_wsl {
        StorageBackend::NativeKeyring
    } else {
        StorageBackend::EncryptedFile
    }
}

pub open spec fn level_for(backend: StorageBackend) -> SecurityLevel {
    match backend {
        StorageBackend::NativeKeyring => SecurityLevel::High,
        StorageBackend::EncryptedFile => SecurityLevel::Medium,
        StorageBackend::InMemory => SecurityLevel::Low,
    }
}

/// The profile that detection derives from a set of host facts.
pub open spec fn profile_of(f: HostFacts) -> EnvironmentInfo {
    let is_wsl = is_wsl_spec(f);
    let has_keyring = has_keyring_spec(f);
    let backend = backend_for(has_keyring, is_wsl);
    EnvironmentInfo {
        is_wsl,
        is_wsl2: is_wsl2_spec(f),
        has_keyring,
        has_desktop_environment: has_desktop_spec(f),
        storage_backend: backend,
        security_level: level_for(backend),
    }
}

/// Selection never yields the in-memory backend, and the security level
/// always follows from the backend.
pub proof fn lemma_detection_never_ephemeral(f: HostFacts)
    ensures
        profile_of(f).storage_backend != StorageBackend::InMemory,
        profile_of(f).security_level == level_for(profile_of(f).storage_backend),
{
}

/// Backend selection is determined by the two facts alone: a keyring outside
/// virtualization gives the native keyring at high security, a keyring inside
/// virtualization gives the encrypted file at medium security, and no keyring
/// gives the encrypted file at medium security whatever the virtualization.
pub proof fn lemma_backend_selection(has_keyring: bool, is_wsl: bool)
    ensures
        has_keyring && !is_wsl ==> backend_for(has_keyring, is_wsl) == StorageBackend::NativeKeyring
            && level_for(backend_for(has_keyring, is_wsl)) == SecurityLevel::High,
        has_keyring && is_wsl ==> backend_for(has_keyring, is_wsl) == StorageBackend::EncryptedFile
            && level_for(backend_for(has_keyring, is_wsl)) == SecurityLevel::Medium,
        !has_keyring ==> backend_for(has_keyring, is_wsl) == StorageBackend::EncryptedFile
            && level_for(backend_for(has_keyring, is_wsl)) == SecurityLevel::Medium,
{
}

pub open spec fn description_of(level: SecurityLevel, is_wsl: bool) -> Seq<char> {
    match level {
        SecurityLevel::High => "Máxima segurança: credenciais armazenadas no keyring nativo do sistema"@,
        SecurityLevel::Medium => if is_wsl {
            "Boa segurança: credenciais criptografadas em arquivo local (ambiente WSL detectado)"@
        } else {
            "Boa segurança: credenciais criptografadas em arquivo local"@
        },
        SecurityLevel::Low => "Segurança básica: armazenamento temporário"@,
    }
}

pub open spec fn wsl_suggestions() -> Seq<Seq<char>> {
    seq![
        "Para melhor segurança no WSL2, considere instalar gnome-keyring:"@,
        "sudo apt install gnome-keyring"@,
        "Depois execute: gnome-keyring-daemon --start --components=secrets"@,
    ]
}

pub open spec fn desktop_suggestions() -> Seq<Seq<char>> {
    seq![
        "Sistema sem ambiente desktop detectado. Instale um gerenciador de keyring:"@,
        "Ubuntu/Debian: sudo apt install gnome-keyring"@,
        "Fedora: sudo dnf install gnome-keyring"@,
    ]
}

pub open spec fn suggestions_of(info: EnvironmentInfo) -> Seq<Seq<char>> {
    (if info.is_wsl && !info.has_keyring {
        wsl_suggestions()
    } else {
        Seq::empty()
    }) + (if !info.has_desktop_environment && !info.is_wsl {
        desktop_suggestions()
    } else {
        Seq::empty()
    })
}

pub open spec fn strings_view(v: Seq<String>) -> Seq<Seq<char>> {
    v.map_values(|s: String| s@)
}

fn push_text(v: &mut Vec<String>, text: &str)
    ensures
        strings_view(final(v)@) == strings_view(old(v)@).push(text@),
{
    v.push(String::from_str(text));
    assert(strings_view(final(v)@) =~= strings_view(old(v)@).push(text@));
}

impl EnvironmentInfo {
    /// Classifies the host from the facts gathered about it.
    pub fn detect(facts: &HostFacts) -> (r: EnvironmentInfo)
        ensures
            r == profile_of(*facts),
    {
        let is_wsl = Self::detect_wsl(facts);
        let is_wsl2 = Self::detect_wsl2(facts);
        let has_keyring = Self::detect_keyring(facts);
        let has_desktop_environment = Self::detect_desktop_environment(facts);
        let storage_backend = Self::determine_storage_backend(has_keyring, is_wsl);
        let security_level = Self::determine_security_level(&storage_backend);
        EnvironmentInfo {
            is_wsl,
            is_wsl2,
            has_keyring,
            has_desktop_environment,
            storage_backend,
            security_level,
        }
    }

    pub fn detect_wsl(facts: &HostFacts) -> (r: bool)
        ensures
            r == is_wsl_spec(*facts),
    {
        match &facts.proc_version {
            Some(v) => occurs_in(v.as_str(), "wsl", true) || occurs_in(
                v.as_str(),
                "microsoft",
                true,
            ),
            None => facts.wsl_distro_name_set || facts.wslenv_set,
        }
    }

    pub fn detect_wsl2(facts: &HostFacts) -> (r: bool)
        ensures
            r == is_wsl2_spec(*facts),
    {
        if !Self::detect_wsl(facts) {
            return false;
        }
        match &facts.proc_version {
            Some(v) => occurs_in(v.as_str(), "WSL2", false) || (!occurs_in(v.as_str(), "WSL", false)
                && occurs_in(v.as_str(), "Microsoft", false)),
            None => false,
        }
    }

    pub fn detect_keyring(facts: &HostFacts) -> (r: bool)
        ensures
            r == has_keyring_spec(*facts),
    {
        if facts.has_gnome_keyring_daemon {
            return true;
        }
        if facts.has_kwalletd5 || facts.has_kwalletd {
            return true;
        }
        if facts.has_secret_tool {
            return true;
        }
        facts.dbus_daemon_running && facts.secrets_service_answered
    }

    pub fn detect_desktop_environment(facts: &HostFacts) -> (r: bool)
        ensures
            r == has_desktop_spec(*facts),
    {
        let desktop_vars = [
            facts.xdg_current_desktop_set,
            facts.desktop_session_set,
            facts.gnome_desktop_session_id_set,
            facts.kde_full_session_set,
        ];
        let mut k: usize = 0;
        while k < 4
            invariant
                desktop_vars@ == seq![
                    facts.xdg_current_desktop_set,
                    facts.desktop_session_set,
                    facts.gnome_desktop_session_id_set,
                    facts.kde_full_session_set,
                ],
                k <= 4,
                forall|q: int| 0 <= q < k ==> !desktop_vars@[q],
            decreases 4 - k,
        {
            if desktop_vars[k] {
                return true;
            }
            k += 1;
        }
        facts.display_set || facts.wayland_display_set
    }

    pub fn determine_storage_backend(has_keyring: bool, is_wsl: bool) -> (r: StorageBackend)
        ensures
            r == backend_for(has_keyring, is_wsl),
    {
        if has_keyring && !is_wsl {
            StorageBackend::NativeKeyring
        } else {
            StorageBackend::EncryptedFile
        }
    }

    pub fn determine_security_level(backend: &StorageBackend) -> (r: SecurityLevel)
        ensures
            r == level_for(*backend),
    {
        match backend {
            StorageBackend::NativeKeyring => SecurityLevel::High,
            StorageBackend::EncryptedFile => SecurityLevel::Medium,
            StorageBackend::InMemory => SecurityLevel::Low,
        }
    }

    /// Human-readable description of the protection in force.
    pub fn get_security_description(&self) -> (r: String)
        ensures
            r@ == description_of(self.security_level, self.is_wsl),
    {
        match self.security_level {
            SecurityLevel::High => String::from_str(
                "Máxima segurança: credenciais armazenadas no keyring nativo do sistema",
            ),
            SecurityLevel::Medium => {
                if self.is_wsl {
                    String::from_str(
                        "Boa segurança: credenciais criptografadas em arquivo local (ambiente WSL detectado)",
                    )
                } else {
                    String::from_str("Boa segurança: credenciais criptografadas em arquivo local")
                }
            },
            SecurityLevel::Low => String::from_str("Segurança básica: armazenamento temporário"),
        }
    }

    /// Steps the user could take to reach a stronger backend.
    pub fn get_improvement_suggestions(&self) -> (r: Vec<String>)
        ensures
            strings_view(r@) == suggestions_of(*self),
    {
        let mut suggestions: Vec<String> = Vec::new();
        assert(strings_view(suggestions@) =~= Seq::<Seq<char>>::empty());
        if self.is_wsl && !self.has_keyring {
            push_text(&mut suggestions, "Para melhor segurança no WSL2, considere instalar gnome-keyring:");
            push_text(&mut suggestions, "sudo apt install gnome-keyring");
            push_text(
                &mut suggestions,
                "Depois execute: gnome-keyring-daemon --start --components=secrets",
            );
        }
        let ghost first = strings_view(suggestions@);
        assert(first =~= (if self.is_wsl && !self.has_keyring {
            wsl_suggestions()
        } else {
            Seq::empty()
        }));
        if !self.has_desktop_environment && !self.is_wsl {
            push_text(
                &mut suggestions,
                "Sistema sem ambiente desktop detectado. Instale um gerenciador de keyring:",
            );
            push_text(&mut suggestions, "Ubuntu/Debian: sudo apt install gnome-keyring");
            push_text(&mut suggestions, "Fedora: sudo dnf install gnome-keyring");
        }
        assert(strings_view(suggestions@) =~= suggestions_of(*self));
        suggestions
    }

    /// A warning is due whenever the native keyring is not in use.
    pub fn should_show_security_warning(&self) -> (r: bool)
        ensures
            r == (self.security_level != SecurityLevel::High),
    {
        match self.security_level {
            SecurityLevel::High => false,
            _ => true,
        }
    }
}

} // verus!
