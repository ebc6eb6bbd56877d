use campus_autologin::autostart::{
    autostart_path_in, escape_double_quotes, install_autostart, install_launch_agent,
    launch_agent_content, launch_agent_path, platform_autostart_content,
    platform_launch_agent_path, remove_autostart, show_autostart_path, xml_escape,
    AutostartError,
};

#[test]
fn service_path_under_home() {
    assert_eq!(
        autostart_path_in("/home/alice"),
        "/home/alice/.config/systemd/user/campus-network-autologin.service"
    );
    assert_eq!(
        launch_agent_path("/Users/bob/"),
        "/Users/bob/Library/LaunchAgents/com.campus-network-autologin.plist"
    );
    if let Ok(path) = show_autostart_path() {
        assert!(path.ends_with(".config/systemd/user/campus-network-autologin.service"));
    }
}

#[test]
fn service_unit_runs_the_executable() {
    let unit = platform_autostart_content("/opt/my \"app\"/bin");
    assert_eq!(
        unit,
        "[Unit]\nDescription=Campus network auto-login\nAfter=network-online.target\nWants=network-online.target\n\n[Service]\nType=simple\nExecStart=\"/opt/my \\\"app\\\"/bin\" run\nRestart=always\nRestartSec=10\n\n[Install]\nWantedBy=default.target\n"
    );
    assert_eq!(escape_double_quotes("a\"b"), "a\\\"b");
    assert_eq!(escape_double_quotes("plain"), "plain");
}

#[test]
fn launch_agent_escapes_xml() {
    assert_eq!(xml_escape("a&b<c>d\"e'f"), "a&amp;b&lt;c&gt;d&quot;e&apos;f");
    let plist = launch_agent_content("/Apps/A&B");
    assert!(plist.contains("<string>/Apps/A&amp;B</string>"));
    assert!(plist.starts_with("<?xml version=\"1.0\" encoding=\"UTF-8\"?>\n"));
    assert!(plist.contains("<string>com.campus-network-autologin</string>"));
    assert!(plist.ends_with("</dict>\n</plist>\n"));
}

#[test]
fn install_plans_the_service_file() {
    if let Ok(file) = install_autostart("/usr/bin/campus") {
        assert!(file.path.ends_with("campus-network-autologin.service"));
        assert_eq!(file.content, platform_autostart_content("/usr/bin/campus"));
    }
}

#[test]
fn remove_needs_an_existing_file() {
    assert_eq!(remove_autostart("/p".to_owned(), true), Ok("/p".to_owned()));
    assert_eq!(
        remove_autostart("/p".to_owned(), false),
        Err(AutostartError::NotInstalled("/p".to_owned()))
    );
    assert_eq!(
        AutostartError::NotInstalled("/p".to_owned()).message(),
        "autostart file does not exist: /p"
    );
}

#[test]
fn launch_agent_plans_the_plist() {
    if let Ok(path) = platform_launch_agent_path() {
        assert!(path.ends_with("Library/LaunchAgents/com.campus-network-autologin.plist"));
    }
    if let Ok(file) = install_launch_agent("/Apps/x<y") {
        assert!(file.path.ends_with("com.campus-network-autologin.plist"));
        assert_eq!(file.content, launch_agent_content("/Apps/x<y"));
        assert!(file.content.contains("<string>/Apps/x&lt;y</string>"));
    }
}
