use campus_autologin::config::{AppConfig, ConfigError};
use campus_autologin::portal::{LoginOutcome, LoginStatus};
use campus_autologin::tui::app::{
    button_hitboxes, button_labels, form_layout, key_intent, AppCommand, AutostartReport, ButtonHitbox, Focus,
    KeyCode, KeyInput, KeyIntent, KeyModifiers, MouseInput, MouseKind, Rect, SetupApp,
    BUTTON_AUTOSTART, BUTTON_QUIT, BUTTON_SAVE, FIELD_COUNT, WELCOME_MESSAGE,
};
use campus_autologin::tui::form::{build_config, parse_csv_list, FormError};
use campus_autologin::tui::input::{char_slice, InputField};
use campus_autologin::tui::status::{StatusKind, StatusMessage};

const NONE: KeyModifiers = KeyModifiers { control: false, alt: false, other: false };
const CTRL: KeyModifiers = KeyModifiers { control: true, alt: false, other: false };

fn key(code: KeyCode) -> KeyInput {
    KeyInput { code, modifiers: NONE }
}

fn ctrl(c: char) -> KeyInput {
    KeyInput { code: KeyCode::Char(c), modifiers: CTRL }
}

fn app() -> SetupApp {
    SetupApp::new(&AppConfig::default())
}

#[test]
fn field_starts_with_cursor_at_end() {
    let f = InputField::new("Username", "héllo", false);
    assert_eq!(f.label(), "Username");
    assert_eq!(f.value(), "héllo");
    assert_eq!(f.cursor(), 5);
    assert_eq!(f.value_len(), 5);
    assert_eq!(f.selection_range(), None);
}

#[test]
fn insert_and_backspace_work_by_character() {
    let mut f = InputField::new("x", "añb", false);
    f.move_left();
    f.insert('é');
    assert_eq!(f.value(), "añéb");
    assert_eq!(f.cursor(), 3);
    f.backspace();
    assert_eq!(f.value(), "añb");
    assert_eq!(f.cursor(), 2);
    f.move_home();
    f.backspace();
    assert_eq!(f.value(), "añb");
    f.delete();
    assert_eq!(f.value(), "ñb");
    assert_eq!(f.cursor(), 0);
    f.move_end();
    f.delete();
    assert_eq!(f.value(), "ñb");
    assert_eq!(f.cursor(), 2);
    f.move_right();
    assert_eq!(f.cursor(), 2);
}

#[test]
fn selection_is_replaced_by_typing() {
    let mut f = InputField::new("x", "hello world", false);
    f.set_cursor_with_anchor(6, 0);
    assert_eq!(f.selection_range(), Some((0, 6)));
    f.insert('J');
    assert_eq!(f.value(), "Jworld");
    assert_eq!(f.cursor(), 1);
    assert_eq!(f.selection_range(), None);
}

#[test]
fn selection_editing_and_movement() {
    let mut f = InputField::new("x", "abcdef", false);
    f.set_cursor_with_anchor(1, 4);
    assert!(f.delete_selection());
    assert_eq!(f.value(), "aef");
    assert_eq!(f.cursor(), 1);
    assert!(!f.delete_selection());

    let mut g = InputField::new("x", "abcdef", false);
    g.set_cursor_with_anchor(5, 2);
    g.move_left();
    assert_eq!(g.cursor(), 2);
    g.set_cursor_with_anchor(5, 2);
    g.move_right();
    assert_eq!(g.cursor(), 5);
    g.set_cursor_with_anchor(9, 9);
    assert_eq!(g.cursor(), 6);
    assert_eq!(g.selection_range(), None);
    g.set_cursor_with_anchor(0, 6);
    g.backspace();
    assert_eq!(g.value(), "");
    let mut h = InputField::new("x", "abc", false);
    h.set_cursor_with_anchor(0, 2);
    h.clear_selection();
    assert_eq!(h.selection_range(), None);
    h.set_cursor(100);
    assert_eq!(h.cursor(), 3);
}

#[test]
fn backspace_undoes_insert_on_concrete_values() {
    let mut f = InputField::new("x", "abc", false);
    f.set_cursor(1);
    f.insert('z');
    f.backspace();
    assert_eq!(f.value(), "abc");
    assert_eq!(f.cursor(), 1);
}

#[test]
fn secret_fields_are_masked() {
    let f = InputField::new("Password", "pässwd", true);
    assert_eq!(f.display_value(false), "******");
    assert_eq!(f.display_value(true), "pässwd");
    assert_eq!(f.display_char_width(false), 6);
    let mut g = InputField::new("Password", "secret", true);
    g.set_cursor_with_anchor(1, 3);
    assert_eq!(
        g.display_segments(false),
        vec![("*".to_owned(), false), ("**".to_owned(), true), ("***".to_owned(), false)]
    );
    assert_eq!(g.display_segments(true)[1], ("ec".to_owned(), true));
    let plain = InputField::new("x", "", false);
    assert_eq!(plain.display_segments(false), vec![(String::new(), false)]);
}

#[test]
fn char_slices_saturate() {
    let v: Vec<char> = "abcdef".chars().collect();
    assert_eq!(char_slice(&v, 1, 3), vec!['b', 'c']);
    assert_eq!(char_slice(&v, 4, 100), vec!['e', 'f']);
    assert_eq!(char_slice(&v, 5, 2), Vec::<char>::new());
    assert_eq!(char_slice(&v, 10, 12), Vec::<char>::new());
}

#[test]
fn csv_lists_trim_and_drop_blanks() {
    assert_eq!(
        parse_csv_list(" 172.18.3.3 , ,172.18.2.2,"),
        vec!["172.18.3.3".to_owned(), "172.18.2.2".to_owned()]
    );
    assert_eq!(parse_csv_list("   "), Vec::<String>::new());
    assert_eq!(parse_csv_list("a"), vec!["a".to_owned()]);
}

fn texts(values: [&str; 8]) -> Vec<String> {
    values.iter().map(|s| s.to_string()).collect()
}

#[test]
fn form_builds_a_checked_config() {
    let c = build_config(&texts([
        " alice ",
        " pw ",
        " http://172.18.3.3/0.htm ",
        "http://www.baidu.com/",
        " 120 ",
        "5",
        "10.0.0.0/8, 172.18.0.0/16",
        "172.18.3.3",
    ]), 42)
    .expect("valid form");
    assert_eq!(c.auth.username, "alice");
    assert_eq!(c.auth.password, " pw ");
    assert_eq!(c.auth.portal_url, "http://172.18.3.3/0.htm");
    assert_eq!(c.daemon.online_check_interval_secs, 120);
    assert_eq!(c.daemon.offline_check_interval_secs, 42);
    assert_eq!(c.detect.request_timeout_secs, 5);
    assert_eq!(c.campus.ipv4_cidrs, vec!["10.0.0.0/8".to_owned(), "172.18.0.0/16".to_owned()]);
    assert_eq!(c.campus.gateway_hosts, vec!["172.18.3.3".to_owned()]);
}

#[test]
fn form_errors() {
    let base = ["u", "p", "http://a/", "http://b/", "300", "8", "", "g"];
    let mut bad = base;
    bad[4] = "-1";
    assert_eq!(build_config(&texts(bad), 15).err(), Some(FormError::OnlineInterval));
    let mut bad = base;
    bad[5] = "x";
    assert_eq!(build_config(&texts(bad), 15).err(), Some(FormError::RequestTimeout));
    let mut bad = base;
    bad[5] = "0";
    assert_eq!(
        build_config(&texts(bad), 15).err(),
        Some(FormError::Invalid(ConfigError::ZeroRequestTimeout))
    );
    let mut bad = base;
    bad[7] = " , ";
    assert_eq!(build_config(&texts(bad), 15).err(), Some(FormError::Invalid(ConfigError::NoGateways)));
    assert_eq!(
        FormError::OnlineInterval.message(),
        "online check interval must be a positive integer"
    );
    assert_eq!(FormError::RequestTimeout.message(), "request timeout must be a positive integer");
    assert_eq!(
        FormError::Invalid(ConfigError::EmptyPassword).message(),
        "password must not be empty"
    );
}

#[test]
fn new_form_shows_the_config() {
    let mut config = AppConfig::default();
    config.auth.username = "bob".to_owned();
    config.campus.ipv4_cidrs = vec!["10.0.0.0/8".to_owned()];
    let a = SetupApp::new(&config);
    let t = a.texts();
    assert_eq!(t.len(), FIELD_COUNT);
    assert_eq!(t[0], "bob");
    assert_eq!(t[4], "300");
    assert_eq!(t[5], "8");
    assert_eq!(t[6], "10.0.0.0/8");
    assert_eq!(t[7], "172.18.3.3, 172.18.2.2");
    assert!(a.fields[1].secret);
    assert_eq!(a.focus, Focus::Field(0));
    assert_eq!(a.status.kind, StatusKind::Info);
    assert_eq!(a.status.message, WELCOME_MESSAGE);
}

#[test]
fn tab_cycles_through_every_field_and_button() {
    let mut a = app();
    let mut seen = Vec::new();
    for _ in 0..12 {
        seen.push(a.focus_order());
        a.handle_key(key(KeyCode::Tab));
    }
    assert_eq!(seen, (0..12).collect::<Vec<usize>>());
    assert_eq!(a.focus, Focus::Field(0));
    a.handle_key(key(KeyCode::BackTab));
    assert_eq!(a.focus, Focus::Button(BUTTON_QUIT));
    a.next_focus();
    assert_eq!(a.focus, Focus::Field(0));
    a.previous_focus();
    a.previous_focus();
    assert_eq!(a.focus, Focus::Button(2));
}

#[test]
fn keys_map_to_intents() {
    assert_eq!(key_intent(key(KeyCode::Esc), Focus::Field(0)), KeyIntent::Quit);
    assert_eq!(key_intent(ctrl('c'), Focus::Field(0)), KeyIntent::Quit);
    assert_eq!(key_intent(ctrl('s'), Focus::Field(0)), KeyIntent::Save);
    assert_eq!(key_intent(ctrl('t'), Focus::Button(0)), KeyIntent::SaveAndTest);
    assert_eq!(key_intent(ctrl('a'), Focus::Field(3)), KeyIntent::ToggleAutostart);
    assert_eq!(
        key_intent(key(KeyCode::Char(' ')), Focus::Button(BUTTON_AUTOSTART)),
        KeyIntent::ToggleAutostart
    );
    assert_eq!(key_intent(key(KeyCode::Char(' ')), Focus::Button(0)), KeyIntent::Ignore);
    assert_eq!(key_intent(key(KeyCode::Char('x')), Focus::Field(2)), KeyIntent::Insert('x'));
    assert_eq!(key_intent(ctrl('x'), Focus::Field(2)), KeyIntent::Ignore);
    assert_eq!(key_intent(key(KeyCode::F(2)), Focus::Field(2)), KeyIntent::TogglePassword);
    assert_eq!(key_intent(key(KeyCode::Char('?')), Focus::Field(2)), KeyIntent::ToggleShortcuts);
    assert_eq!(key_intent(key(KeyCode::Down), Focus::Field(2)), KeyIntent::NextFocus);
    assert_eq!(key_intent(key(KeyCode::Up), Focus::Field(2)), KeyIntent::PreviousFocus);
}

#[test]
fn typing_edits_the_focused_field() {
    let mut a = app();
    assert_eq!(a.handle_key(key(KeyCode::Char('z'))), AppCommand::Nothing);
    a.handle_key(key(KeyCode::Char('q')));
    a.handle_key(key(KeyCode::Backspace));
    assert_eq!(a.texts()[0], "z");
    assert_eq!(a.handle_key(ctrl('s')), AppCommand::Save);
    assert_eq!(a.handle_key(ctrl('t')), AppCommand::SaveAndTest);
    a.handle_key(key(KeyCode::Enter));
    assert_eq!(a.focus, Focus::Field(1));
    a.handle_key(key(KeyCode::F(2)));
    assert!(a.show_password);
    assert_eq!(a.status.message, "Password is now visible.");
    a.handle_key(key(KeyCode::F(2)));
    assert_eq!(a.status.message, "Password is now hidden.");
    a.handle_key(key(KeyCode::Char('?')));
    assert!(a.show_shortcuts);
    assert_eq!(a.status.message, "Shortcuts are now visible.");
}

#[test]
fn buttons_are_pressed_with_enter() {
    let mut a = app();
    a.set_focus(Focus::Button(BUTTON_SAVE));
    assert_eq!(a.handle_key(key(KeyCode::Enter)), AppCommand::Save);
    a.handle_key(key(KeyCode::Right));
    assert_eq!(a.focus, Focus::Button(1));
    assert_eq!(a.handle_key(key(KeyCode::Enter)), AppCommand::SaveAndTest);
    a.handle_key(key(KeyCode::Right));
    assert_eq!(a.handle_key(key(KeyCode::Enter)), AppCommand::ToggleAutostart);
    a.handle_key(key(KeyCode::Right));
    a.handle_key(key(KeyCode::Right));
    assert_eq!(a.focus, Focus::Button(BUTTON_QUIT));
    assert_eq!(a.handle_key(key(KeyCode::Enter)), AppCommand::Nothing);
    assert!(a.should_quit);
    let mut b = app();
    b.handle_key(key(KeyCode::Esc));
    assert!(b.should_quit);
}

#[test]
fn button_layout_and_labels() {
    let labels = button_labels(Some(true));
    assert_eq!(
        labels,
        vec![
            "Save".to_owned(),
            "Save & Test".to_owned(),
            "Autostart: ON".to_owned(),
            "Quit".to_owned()
        ]
    );
    assert_eq!(button_labels(Some(false))[2], "Autostart: OFF");
    assert_eq!(button_labels(None)[2], "Autostart: N/A");
    let row = Rect { x: 2, y: 20, width: 80, height: 1 };
    let boxes = button_hitboxes(&labels, row);
    assert_eq!(boxes.len(), 4);
    assert_eq!(boxes[0], ButtonHitbox { index: 0, rect: Rect { x: 2, y: 20, width: 8, height: 1 } });
    assert_eq!(boxes[1].rect.x, 12);
    assert_eq!(boxes[1].rect.width, 15);
    assert_eq!(boxes[2].rect.x, 29);
}

fn laid_out_app() -> SetupApp {
    let mut a = app();
    let rows: Vec<Rect> =
        (0..8).map(|i| Rect { x: 0, y: 2 + i as u16, width: 60, height: 1 }).collect();
    let boxes = button_hitboxes(&button_labels(Some(false)), Rect { x: 0, y: 12, width: 60, height: 1 });
    a.set_layout(rows, boxes, 26);
    a
}

#[test]
fn mouse_clicks_focus_and_place_the_cursor() {
    let mut a = laid_out_app();
    let cmd = a.handle_mouse(MouseInput { kind: MouseKind::LeftDown, column: 28, row: 4 });
    assert_eq!(cmd, AppCommand::Nothing);
    assert_eq!(a.focus, Focus::Field(2));
    assert_eq!(a.fields[2].cursor(), 2);
    assert_eq!(a.cursor_from_mouse_column(2, 10), 0);
    assert_eq!(a.cursor_from_mouse_column(2, 500), a.fields[2].value_len());
    a.handle_mouse(MouseInput { kind: MouseKind::LeftDrag, column: 31, row: 4 });
    assert_eq!(a.fields[2].selection_range(), Some((2, 5)));
    a.handle_mouse(MouseInput { kind: MouseKind::LeftUp, column: 31, row: 4 });
    assert_eq!(a.drag_state, None);
    let save = a.handle_mouse(MouseInput { kind: MouseKind::LeftDown, column: 1, row: 12 });
    assert_eq!(save, AppCommand::Save);
    assert_eq!(a.focus, Focus::Button(0));
    assert_eq!(a.fields[2].selection_range(), None);
    a.handle_mouse(MouseInput { kind: MouseKind::ScrollDown, column: 0, row: 0 });
    assert_eq!(a.focus, Focus::Button(1));
    a.handle_mouse(MouseInput { kind: MouseKind::ScrollUp, column: 0, row: 0 });
    assert_eq!(a.focus, Focus::Button(0));
}

#[test]
fn reports_set_the_status_line() {
    let mut a = app();
    a.report_saved(Ok("/c/config.toml".to_owned()));
    assert_eq!(a.status.kind, StatusKind::Success);
    assert_eq!(a.status.message, "Saved config to /c/config.toml");
    a.report_saved(Err("no dir".to_owned()));
    assert_eq!(a.status.message, "Saved config, but path lookup failed: no dir");
    a.report_error("boom".to_owned());
    assert_eq!(a.status.kind, StatusKind::Error);
    assert_eq!(a.status.message, "boom");
    a.report_form_error(&FormError::RequestTimeout);
    assert_eq!(a.status.message, "request timeout must be a positive integer");
    a.report_off_campus("away");
    assert_eq!(a.status.message, "campus network not detected: away");
    a.report_login(&LoginOutcome { status: LoginStatus::Success, detail: "ok".to_owned() });
    assert_eq!(a.status.kind, StatusKind::Success);
    assert_eq!(a.status.message, "Login successful: ok");
    a.report_login(&LoginOutcome { status: LoginStatus::Failed, detail: "no".to_owned() });
    assert_eq!(a.status.kind, StatusKind::Error);
    assert_eq!(a.status.message, "Login failed: no");
    a.report_autostart(AutostartReport::Enabled("/s".to_owned()));
    assert_eq!(a.status.message, "Autostart enabled: /s");
    a.report_autostart(AutostartReport::Disabled("/s".to_owned()));
    assert_eq!(a.status.message, "Autostart disabled: /s");
    a.report_autostart(AutostartReport::Failed("nope".to_owned()));
    assert_eq!(a.status.kind, StatusKind::Error);
    assert_eq!(a.status.message, "nope");
}

#[test]
fn status_constructors() {
    let m = StatusMessage::success("done".to_owned());
    assert_eq!(m.kind, StatusKind::Success);
    assert_eq!(m.message, "done");
    assert_eq!(StatusMessage::info("i".to_owned()).kind, StatusKind::Info);
    assert_eq!(StatusMessage::error("e".to_owned()).kind, StatusKind::Error);
}

#[test]
fn form_in_the_app_builds_config() {
    let mut a = app();
    for c in "carol".chars() {
        a.handle_key(key(KeyCode::Char(c)));
    }
    assert_eq!(a.try_build_config().err(), Some(FormError::Invalid(ConfigError::EmptyPassword)));
    a.handle_key(key(KeyCode::Tab));
    a.handle_key(key(KeyCode::Char('p')));
    let c = a.try_build_config().expect("valid");
    assert_eq!(c.auth.username, "carol");
    assert_eq!(c.auth.password, "p");
}

#[test]
fn unchanged_form_gives_the_config_back() {
    let mut config = AppConfig::default();
    config.auth.username = "2022000000".to_owned();
    config.auth.password = " spaced pw ".to_owned();
    config.campus.ipv4_cidrs = vec!["10.0.0.0/8".to_owned(), "172.18.0.0/16".to_owned()];
    config.daemon.online_check_interval_secs = 77;
    config.daemon.offline_check_interval_secs = 60;
    let built = SetupApp::new(&config).try_build_config().expect("valid");
    assert_eq!(built.auth.username, config.auth.username);
    assert_eq!(built.auth.password, config.auth.password);
    assert_eq!(built.auth.portal_url, config.auth.portal_url);
    assert_eq!(built.detect.probe_url, config.detect.probe_url);
    assert_eq!(built.detect.request_timeout_secs, config.detect.request_timeout_secs);
    assert_eq!(built.daemon.online_check_interval_secs, 77);
    assert_eq!(built.daemon.offline_check_interval_secs, 60);
    assert_eq!(built.campus.ipv4_cidrs, config.campus.ipv4_cidrs);
    assert_eq!(built.campus.gateway_hosts, config.campus.gateway_hosts);
}

#[test]
fn form_layout_places_rows_notes_and_buttons() {
    let inner = Rect { x: 1, y: 3, width: 70, height: 20 };
    let layout = form_layout(inner);
    assert_eq!(layout.value_start_x, 28);
    assert_eq!(layout.field_rows.len(), FIELD_COUNT);
    assert_eq!(layout.field_rows[0], Rect { x: 1, y: 3, width: 70, height: 1 });
    assert_eq!(layout.field_rows[7], Rect { x: 1, y: 10, width: 70, height: 1 });
    assert_eq!(layout.notes_area, Rect { x: 1, y: 11, width: 70, height: 3 });
    assert_eq!(layout.button_row, Rect { x: 1, y: 14, width: 70, height: 1 });
}

#[test]
fn cursor_cell_follows_the_focused_field() {
    let inner = Rect { x: 1, y: 3, width: 70, height: 20 };
    let mut a = app();
    a.handle_key(key(KeyCode::Char('a')));
    a.handle_key(key(KeyCode::Char('b')));
    assert_eq!(a.cursor_cell(inner), Some((30, 3)));
    a.handle_key(key(KeyCode::Left));
    assert_eq!(a.cursor_cell(inner), Some((29, 3)));
    a.handle_key(key(KeyCode::Tab));
    a.handle_key(key(KeyCode::Tab));
    assert_eq!(a.cursor_cell(inner), Some((51, 5)));
    let narrow = Rect { x: 1, y: 3, width: 40, height: 20 };
    assert_eq!(a.cursor_cell(narrow), Some((40, 5)));
    a.set_focus(Focus::Button(0));
    assert_eq!(a.cursor_cell(inner), None);
}
