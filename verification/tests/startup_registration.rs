use gflick::startup::{
    same_path,
    is_executable_lock, launchd_domain, macos_plist_contents, parse_registry_value,
    registration_arguments, service_target, startup_command, status, xml_escape,
};

#[test]
fn macos_plist_escapes_paths_and_uses_background_policy() {
    let plist = macos_plist_contents(
        "/Users/a&b/open-hub-agent",
        "/tmp/out<1>.log",
        "/tmp/error.log",
    );
    assert!(plist.contains("/Users/a&amp;b/open-hub-agent"));
    assert!(plist.contains("/tmp/out&lt;1&gt;.log"));
    assert!(plist.contains("<string>Background</string>"));
    assert!(plist.contains("<key>KeepAlive</key>"));
}

#[test]
fn parses_quoted_startup_command_with_spaces() {
    let output = r#"
HKEY_CURRENT_USER\Software\Microsoft\Windows\CurrentVersion\Run
    OpenHubAgent    REG_SZ    "C:\Users\Test User\open-hub-agent.exe" --launch-background
"#;
    assert_eq!(
        parse_registry_value(output).as_deref(),
        Some(r#""C:\Users\Test User\open-hub-agent.exe" --launch-background"#)
    );
}

#[test]
fn retries_windows_sharing_violations() {
    for (code, locked) in [(32, true), (33, true), (2, false)] {
        let error = std::io::Error::from_raw_os_error(code);
        let denied = error.kind() == std::io::ErrorKind::PermissionDenied;
        assert_eq!(is_executable_lock(denied, error.raw_os_error()), locked);
    }
}

#[test]
fn access_denied_counts_as_a_lock() {
    assert!(is_executable_lock(true, None));
    assert!(is_executable_lock(false, Some(5)));
    assert!(!is_executable_lock(false, None));
}

#[test]
fn escapes_every_xml_special_character() {
    assert_eq!(xml_escape(r#"a&b<c>d"e'f"#), "a&amp;b&lt;c&gt;d&quot;e&apos;f");
}

#[test]
fn registry_output_without_the_value_gives_nothing() {
    assert_eq!(parse_registry_value("OpenHubAgent REG_DWORD 1\r\nOther REG_SZ x\r\n"), None);
    assert_eq!(
        parse_registry_value("OpenHubAgent\tREG_SZ\ta   b\r\n").as_deref(),
        Some("a b")
    );
}

#[test]
fn registration_matches_the_command_line_up_to_case() {
    let command = startup_command(r"C:\Agent\open-hub-agent.exe");
    assert_eq!(command, r#""C:\Agent\open-hub-agent.exe" --launch-background"#);
    let registered = status(
        r"C:\Agent\open-hub-agent.exe".to_owned(),
        true,
        Some(r#""c:\agent\OPEN-HUB-AGENT.exe" --launch-background"#.to_owned()),
    );
    assert!(registered.registered);
    assert_eq!(
        registered.registration,
        r"HKCU\Software\Microsoft\Windows\CurrentVersion\Run\OpenHubAgent"
    );
    assert_eq!(registered.running, None);
    let other = status(r"C:\Agent\open-hub-agent.exe".to_owned(), false, Some("x".to_owned()));
    assert!(!other.registered);
    assert!(!status("x".to_owned(), false, None).registered);
    let arguments = registration_arguments(&command);
    assert_eq!(arguments[0], "add");
    assert_eq!(arguments[7], command);
}

#[test]
fn launchd_targets_name_the_user_domain() {
    assert_eq!(launchd_domain("501"), "gui/501");
    assert_eq!(service_target("501"), "gui/501/io.github.r4ultv.open-hub.agent");
}

#[test]
fn windows_paths_compare_without_case() {
    assert!(same_path(r"C:\Users\Me\open-hub-agent.exe", r"c:\users\me\OPEN-HUB-AGENT.EXE", true));
    assert!(!same_path(r"C:\Users\Me\a.exe", r"C:\Users\Me\b.exe", true));
    assert!(!same_path("/usr/bin/Agent", "/usr/bin/agent", false));
    assert!(same_path("/usr/bin/agent", "/usr/bin/agent", false));
}
