use khushu::autostart::{autostart_command, autostart_plan, desktop_entry, AutostartAction};

#[test]
fn autostart_starts_in_background() {
    assert_eq!(autostart_command(), vec!["khushu".to_string(), "--background".to_string()]);
    let entry = desktop_entry();
    assert!(entry.starts_with("[Desktop Entry]\n"));
    assert!(entry.contains("\nExec=khushu --background\n"));
    assert!(entry.ends_with("StartupNotify=true\n"));
    assert_eq!(entry.lines().count(), 10);
}

#[test]
fn autostart_mechanisms() {
    assert_eq!(autostart_plan(true, true, true), AutostartAction::EnableSnap);
    assert_eq!(autostart_plan(true, false, false), AutostartAction::DisableSnap);
    assert_eq!(autostart_plan(false, true, false), AutostartAction::RequestPortal { enable: false });
    assert_eq!(autostart_plan(false, false, true), AutostartAction::EnableFile);
    assert_eq!(autostart_plan(false, false, false), AutostartAction::DisableFile);
}
