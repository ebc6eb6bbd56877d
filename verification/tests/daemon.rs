use campus_autologin::config::AppConfig;
use campus_autologin::daemon::{retry_delay, DaemonAction, DaemonState, LinkState, MAX_RETRY_STEP};
use campus_autologin::logging::{console_line, file_line, LogLevel};
use campus_autologin::network::CampusEnvironment;
use campus_autologin::portal::{LoginOutcome, LoginStatus, ProbeStatus};

fn state() -> DaemonState {
    let mut config = AppConfig::default();
    config.daemon.online_check_interval_secs = 300;
    DaemonState::new(&config)
}

#[test]
fn backoff_table() {
    let delays: Vec<u64> = (0..=MAX_RETRY_STEP).map(retry_delay).collect();
    assert_eq!(delays, vec![5, 15, 30, 60, 120]);
}

#[test]
fn new_state_takes_the_online_interval() {
    let mut config = AppConfig::default();
    config.daemon.online_check_interval_secs = 42;
    let s = DaemonState::new(&config);
    assert_eq!(s.retry_step, 0);
    assert_eq!(s.last_state, None);
    assert_eq!(s.online_sleep_secs, 42);
}

#[test]
fn on_campus_announces_once_then_probes() {
    let mut s = state();
    let step = s.on_environment(&CampusEnvironment::OnCampus("gw up".to_owned()));
    assert_eq!(step.action, DaemonAction::Probe);
    assert_eq!(
        step.messages,
        vec!["state changed: on-campus".to_owned(), "campus network detected: gw up".to_owned()]
    );
    let again = s.on_environment(&CampusEnvironment::OnCampus("gw up".to_owned()));
    assert_eq!(again.messages, vec!["campus network detected: gw up".to_owned()]);
    assert_eq!(s.last_state, Some(LinkState::OnCampus));
}

#[test]
fn off_campus_sleeps_and_resets_backoff() {
    let mut s = state();
    s.retry_step = 3;
    let step = s.on_environment(&CampusEnvironment::OffCampus("away".to_owned()));
    assert_eq!(step.action, DaemonAction::Sleep(300));
    assert_eq!(
        step.messages,
        vec!["state changed: off-campus".to_owned(), "campus network not detected: away".to_owned()]
    );
    assert_eq!(s.retry_step, 0);
}

#[test]
fn probe_results_drive_the_next_action() {
    let mut s = state();
    let online = s.on_probe(&ProbeStatus::Online);
    assert_eq!(online.action, DaemonAction::Sleep(300));
    assert_eq!(online.messages, vec!["state changed: online".to_owned()]);
    let portal = s.on_probe(&ProbeStatus::NeedsLogin);
    assert_eq!(portal.action, DaemonAction::Login);
    assert_eq!(portal.messages, vec!["state changed: portal".to_owned()]);
}

#[test]
fn unreachable_probe_backs_off_up_to_the_cap() {
    let mut s = state();
    let mut sleeps = Vec::new();
    for i in 0..7 {
        let step = s.on_probe(&ProbeStatus::Unreachable("timeout".to_owned()));
        if i == 0 {
            assert_eq!(
                step.messages,
                vec!["state changed: unreachable".to_owned(), "probe failed: timeout".to_owned()]
            );
        } else {
            assert_eq!(step.messages, vec!["probe failed: timeout".to_owned()]);
        }
        match step.action {
            DaemonAction::Sleep(secs) => sleeps.push(secs),
            other => panic!("unexpected action {other:?}"),
        }
    }
    assert_eq!(sleeps, vec![5, 15, 30, 60, 120, 120, 120]);
    assert_eq!(s.retry_step, MAX_RETRY_STEP);
    let online = s.on_probe(&ProbeStatus::Online);
    assert_eq!(online.action, DaemonAction::Sleep(300));
    assert_eq!(s.retry_step, 0);
}

#[test]
fn login_results() {
    let mut s = state();
    s.on_probe(&ProbeStatus::NeedsLogin);
    let failed = s.on_login(&LoginOutcome { status: LoginStatus::Failed, detail: "nope".to_owned() });
    assert_eq!(failed.action, DaemonAction::Sleep(5));
    assert_eq!(failed.messages, vec!["login failed: nope".to_owned()]);
    assert_eq!(s.retry_step, 1);
    assert_eq!(s.last_state, Some(LinkState::Portal));
    let ok = s.on_login(&LoginOutcome { status: LoginStatus::Success, detail: "fine".to_owned() });
    assert_eq!(ok.action, DaemonAction::Sleep(300));
    assert_eq!(ok.messages, vec!["login successful: fine".to_owned()]);
    assert_eq!(s.retry_step, 0);
    assert_eq!(s.last_state, None);
    let portal = s.on_probe(&ProbeStatus::NeedsLogin);
    assert_eq!(portal.messages, vec!["state changed: portal".to_owned()]);
}

#[test]
fn state_names() {
    assert_eq!(LinkState::OnCampus.name(), "on-campus");
    assert_eq!(LinkState::OffCampus.name(), "off-campus");
    assert_eq!(LinkState::Online.name(), "online");
    assert_eq!(LinkState::Portal.name(), "portal");
    assert_eq!(LinkState::Unreachable.name(), "unreachable");
}

#[test]
fn log_line_formats() {
    assert_eq!(console_line(LogLevel::Info, "hello"), "[INFO] hello");
    assert_eq!(console_line(LogLevel::Warn, "w"), "[WARN] w");
    assert_eq!(console_line(LogLevel::Error, ""), "[ERROR] ");
    assert_eq!(file_line(1700000000, LogLevel::Info, "x"), "[1700000000][INFO] x");
    assert_eq!(file_line(0, LogLevel::Error, "boom"), "[0][ERROR] boom");
}
