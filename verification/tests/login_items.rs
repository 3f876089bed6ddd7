use gflick::services::{
    finish_login_item_change, finish_registry_change, locate_executable, registry_query_arguments,
    ExecutableSite,
    is_disabled, launch_label, registry_arguments_for, registry_name, set_startup,
    startup_status, startup_status_for, tray_generation_of, tray_pid, tray_status,
};

#[test]
fn reads_both_spellings_of_a_disabled_login_item() {
    let modern = "\tdisabled services = {\n\t\t\"io.github.r4ultv.gflick.agent\" => disabled\n\t\t\"io.github.r4ultv.gflick.tray\" => enabled\n\t}";
    assert!(is_disabled(modern, "io.github.r4ultv.gflick.agent"));
    assert!(!is_disabled(modern, "io.github.r4ultv.gflick.tray"));

    let legacy = "\t\t\"io.github.r4ultv.gflick.agent\" => true\n\t\t\"io.github.r4ultv.gflick.tray\" => false";
    assert!(is_disabled(legacy, "io.github.r4ultv.gflick.agent"));
    assert!(!is_disabled(legacy, "io.github.r4ultv.gflick.tray"));

    assert!(!is_disabled(modern, "io.github.r4ultv.gflick.missing"));
}

#[test]
fn labels_drop_the_program_prefix() {
    assert_eq!(launch_label("gflick-agent"), "io.github.r4ultv.gflick.agent");
    assert_eq!(launch_label("tray"), "io.github.r4ultv.gflick.tray");
}

#[test]
fn a_login_item_runs_when_present_and_not_disabled() {
    let listing = "\t\"io.github.r4ultv.gflick.agent\" => enabled\r\n";
    assert!(startup_status(true, listing));
    assert!(!startup_status(false, listing));
    assert!(!startup_status_for(
        "gflick-tray",
        true,
        "\"io.github.r4ultv.gflick.tray\" => disabled\r\n"
    ));
    assert!(tray_status(false, Some("42-1".to_owned())));
    assert!(tray_status(true, None));
    assert!(!tray_status(false, None));
}

#[test]
fn enabling_writes_the_launch_agent_only_when_missing() {
    let change = set_startup(true, false, "gui/501");
    assert!(change.create_launch_agent);
    assert_eq!(change.label, "io.github.r4ultv.gflick.agent");
    assert_eq!(
        change.launchctl_arguments,
        vec!["enable".to_owned(), "gui/501/io.github.r4ultv.gflick.agent".to_owned()]
    );
    let off = set_startup(false, false, "gui/501");
    assert!(!off.create_launch_agent);
    assert_eq!(off.launchctl_arguments[0], "disable");
}

#[test]
fn windows_login_items_use_their_registry_values() {
    assert_eq!(registry_name("gflick-agent"), "GFlickAgent");
    assert_eq!(registry_name("gflick-tray"), "GFlickTray");
    let add = registry_arguments_for("gflick-agent", true, r"C:\a.exe", false).unwrap();
    assert_eq!(add[7], r#""C:\a.exe" --background-worker"#);
    assert_eq!(add.len(), 9);
    assert_eq!(registry_arguments_for("gflick-tray", false, r"C:\t.exe", false), None);
    let delete = registry_arguments_for("gflick-tray", false, r"C:\t.exe", true).unwrap();
    assert_eq!(delete, vec!["delete", r"HKCU\Software\Microsoft\Windows\CurrentVersion\Run", "/v", "GFlickTray", "/f"]);
}

#[test]
fn a_changed_login_item_reads_back_as_requested() {
    let on = set_startup(true, false, "gui/501");
    assert!(on.create_launch_agent);
    assert_eq!(on.launchctl_arguments[0], "enable");
    let listed_on = "\tdisabled services = {\n\t\t\"io.github.r4ultv.gflick.tray\" => disabled\n\t\t\"io.github.r4ultv.gflick.agent\" => enabled\n\t}\n";
    assert!(startup_status(on.create_launch_agent, listed_on));

    let off = set_startup(false, true, "gui/501");
    assert!(!off.create_launch_agent);
    assert_eq!(off.launchctl_arguments[0], "disable");
    let listed_off = "\tdisabled services = {\n\t\t\"io.github.r4ultv.gflick.agent\" => disabled\n\t}\n";
    assert!(!startup_status(true, listed_off));
}

#[test]
fn the_tray_token_names_its_process_first() {
    assert_eq!(tray_pid("4242-1700000000"), Some(4242));
    assert_eq!(tray_pid("4242"), Some(4242));
    assert_eq!(tray_pid("+17-x"), Some(17));
    assert_eq!(tray_pid("tray-4242"), None);
    assert_eq!(tray_pid("-4242"), None);
    assert_eq!(tray_pid(""), None);
    assert_eq!(
        tray_generation_of("4242-1".to_owned(), Some("gflick-tray")),
        Some("4242-1".to_owned())
    );
    assert_eq!(tray_generation_of("4242-1".to_owned(), Some("Finder")), None);
    assert_eq!(tray_generation_of("4242-1".to_owned(), None), None);
}

#[test]
fn a_failed_launchctl_call_removes_the_new_launch_agent() {
    let created = set_startup(true, false, "gui/501");
    let failed = finish_login_item_change(&created, Err("Bootstrap failed: 5".to_owned()));
    assert!(failed.remove_launch_agent);
    assert_eq!(failed.result, Err("Could not update login item: Bootstrap failed: 5".to_owned()));

    let existing = set_startup(true, true, "gui/501");
    let failed = finish_login_item_change(&existing, Err("denied".to_owned()));
    assert!(!failed.remove_launch_agent);
    assert_eq!(failed.result, Err("Could not update login item: denied".to_owned()));

    let done = finish_login_item_change(&created, Ok(()));
    assert!(!done.remove_launch_agent);
    assert_eq!(done.result, Ok(()));
}

#[test]
fn a_missing_program_is_refused_before_anything_is_written() {
    assert_eq!(locate_executable("gflick-agent", true, true), Ok(ExecutableSite::BesideSettings));
    assert_eq!(locate_executable("gflick-agent", false, true), Ok(ExecutableSite::Installed));
    assert_eq!(
        locate_executable("gflick-agent", false, false),
        Err("gflick-agent is not installed beside the settings app. Build or install that component first."
            .to_owned())
    );
}

#[test]
fn windows_login_items_read_back_through_the_same_value() {
    assert_eq!(
        registry_query_arguments("gflick-agent"),
        vec![
            "query".to_owned(),
            "HKCU\\Software\\Microsoft\\Windows\\CurrentVersion\\Run".to_owned(),
            "/v".to_owned(),
            "GFlickAgent".to_owned(),
        ]
    );
    let add = registry_arguments_for("gflick-agent", true, "C:\\gflick-agent.exe", false).unwrap();
    assert_eq!(add[3], registry_query_arguments("gflick-agent")[3]);
    assert_eq!(registry_arguments_for("gflick-tray", false, "C:\\gflick-tray.exe", false), None);
    assert_eq!(finish_registry_change(Ok(())), Ok(()));
    assert_eq!(
        finish_registry_change(Err("Access is denied.".to_owned())),
        Err("Could not update login item: Access is denied.".to_owned())
    );
}
