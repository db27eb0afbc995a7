use goji::environment::{
    occurs_in, EnvironmentInfo, HostFacts, SecurityLevel, StorageBackend,
};

fn bare_facts() -> HostFacts {
    HostFacts {
        proc_version: None,
        wsl_distro_name_set: false,
        wslenv_set: false,
        has_gnome_keyring_daemon: false,
        has_kwalletd5: false,
        has_kwalletd: false,
        has_secret_tool: false,
        dbus_daemon_running: false,
        secrets_service_answered: false,
        xdg_current_desktop_set: false,
        desktop_session_set: false,
        gnome_desktop_session_id_set: false,
        kde_full_session_set: false,
        display_set: false,
        wayland_display_set: false,
    }
}

fn profile(is_wsl: bool, has_keyring: bool, has_desktop: bool, level: SecurityLevel) -> EnvironmentInfo {
    EnvironmentInfo {
        is_wsl,
        is_wsl2: false,
        has_keyring,
        has_desktop_environment: has_desktop,
        storage_backend: StorageBackend::EncryptedFile,
        security_level: level,
    }
}

#[test]
fn selection_keyring_outside_virtualization_is_native_high() {
    let b = EnvironmentInfo::determine_storage_backend(true, false);
    assert_eq!(b, StorageBackend::NativeKeyring);
    assert_eq!(EnvironmentInfo::determine_security_level(&b), SecurityLevel::High);
}

#[test]
fn selection_keyring_inside_virtualization_is_file_medium() {
    let b = EnvironmentInfo::determine_storage_backend(true, true);
    assert_eq!(b, StorageBackend::EncryptedFile);
    assert_eq!(EnvironmentInfo::determine_security_level(&b), SecurityLevel::Medium);
}

#[test]
fn selection_without_keyring_is_file_medium() {
    for wsl in [false, true] {
        let b = EnvironmentInfo::determine_storage_backend(false, wsl);
        assert_eq!(b, StorageBackend::EncryptedFile);
        assert_eq!(EnvironmentInfo::determine_security_level(&b), SecurityLevel::Medium);
    }
}

#[test]
fn in_memory_level_is_low() {
    assert_eq!(
        EnvironmentInfo::determine_security_level(&StorageBackend::InMemory),
        SecurityLevel::Low
    );
}

#[test]
fn detect_native_keyring_desktop() {
    let mut f = bare_facts();
    f.proc_version = Some("Linux version 6.5.0-generic (gcc) #1 SMP".to_string());
    f.has_gnome_keyring_daemon = true;
    f.display_set = true;
    let info = EnvironmentInfo::detect(&f);
    assert!(!info.is_wsl);
    assert!(!info.is_wsl2);
    assert!(info.has_keyring);
    assert!(info.has_desktop_environment);
    assert_eq!(info.storage_backend, StorageBackend::NativeKeyring);
    assert_eq!(info.security_level, SecurityLevel::High);
    assert!(!info.should_show_security_warning());
}

#[test]
fn detect_wsl2_kernel_falls_back_to_file() {
    let mut f = bare_facts();
    f.proc_version =
        Some("Linux version 5.15.90.1-microsoft-standard-WSL2 (root@host)".to_string());
    f.has_secret_tool = true;
    let info = EnvironmentInfo::detect(&f);
    assert!(info.is_wsl);
    assert!(info.is_wsl2);
    assert!(info.has_keyring);
    assert_eq!(info.storage_backend, StorageBackend::EncryptedFile);
    assert_eq!(info.security_level, SecurityLevel::Medium);
    assert!(info.should_show_security_warning());
}

#[test]
fn detect_wsl_is_case_insensitive() {
    let mut f = bare_facts();
    f.proc_version = Some("Linux version 4.4.0-19041-MICROSOFT".to_string());
    assert!(EnvironmentInfo::detect_wsl(&f));
    f.proc_version = Some("Linux version 4.4.0-19041-Microsoft".to_string());
    assert!(EnvironmentInfo::detect_wsl(&f));
    // "Microsoft" without "WSL": counted as the second generation
    assert!(EnvironmentInfo::detect_wsl2(&f));
    f.proc_version = Some("Linux version 4.4.0-19041-Microsoft-WSL".to_string());
    assert!(!EnvironmentInfo::detect_wsl2(&f));
}

#[test]
fn detect_wsl_from_environment_when_descriptor_missing() {
    let mut f = bare_facts();
    assert!(!EnvironmentInfo::detect_wsl(&f));
    f.wslenv_set = true;
    assert!(EnvironmentInfo::detect_wsl(&f));
    // without the descriptor the second generation is never claimed
    assert!(!EnvironmentInfo::detect_wsl2(&f));
    let mut g = bare_facts();
    g.wsl_distro_name_set = true;
    assert!(EnvironmentInfo::detect_wsl(&g));
}

#[test]
fn detect_keyring_through_message_bus() {
    let mut f = bare_facts();
    f.dbus_daemon_running = true;
    assert!(!EnvironmentInfo::detect_keyring(&f));
    f.secrets_service_answered = true;
    assert!(EnvironmentInfo::detect_keyring(&f));
    let mut g = bare_facts();
    g.has_kwalletd = true;
    assert!(EnvironmentInfo::detect_keyring(&g));
}

#[test]
fn detect_desktop_variables() {
    let mut f = bare_facts();
    assert!(!EnvironmentInfo::detect_desktop_environment(&f));
    f.kde_full_session_set = true;
    assert!(EnvironmentInfo::detect_desktop_environment(&f));
    let mut g = bare_facts();
    g.wayland_display_set = true;
    assert!(EnvironmentInfo::detect_desktop_environment(&g));
}

#[test]
fn occurs_in_cases() {
    assert!(occurs_in("abcWSLdef", "wsl", true));
    assert!(!occurs_in("abcWSLdef", "wsl", false));
    assert!(occurs_in("abc", "", false));
    assert!(!occurs_in("ab", "abc", true));
    assert!(occurs_in("x@y", "@", false));
}

#[test]
fn security_descriptions() {
    let high = profile(false, true, true, SecurityLevel::High);
    assert_eq!(
        high.get_security_description(),
        "Máxima segurança: credenciais armazenadas no keyring nativo do sistema"
    );
    let wsl = profile(true, false, false, SecurityLevel::Medium);
    assert_eq!(
        wsl.get_security_description(),
        "Boa segurança: credenciais criptografadas em arquivo local (ambiente WSL detectado)"
    );
    let file = profile(false, false, true, SecurityLevel::Medium);
    assert_eq!(
        file.get_security_description(),
        "Boa segurança: credenciais criptografadas em arquivo local"
    );
    let low = profile(false, false, true, SecurityLevel::Low);
    assert_eq!(low.get_security_description(), "Segurança básica: armazenamento temporário");
}

#[test]
fn improvement_suggestions() {
    let wsl = profile(true, false, false, SecurityLevel::Medium);
    let s = wsl.get_improvement_suggestions();
    assert_eq!(s.len(), 3);
    assert_eq!(s[1], "sudo apt install gnome-keyring");
    let headless = profile(false, false, false, SecurityLevel::Medium);
    let h = headless.get_improvement_suggestions();
    assert_eq!(h.len(), 3);
    assert_eq!(h[2], "Fedora: sudo dnf install gnome-keyring");
    let desktop = profile(false, true, true, SecurityLevel::High);
    assert!(desktop.get_improvement_suggestions().is_empty());
}
