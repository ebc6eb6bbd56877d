use campus_autologin::config::AppConfig;
use campus_autologin::portal::{
    classify_login_body, classify_login_reply, encode_password, extract_numeric_assignment,
    extract_single_quoted_value, login_outcome, login_request, looks_like_portal,
    parse_failure_message, portal_host, probe_reply_status, unreachable_status, BodyResult,
    LoginStatus, ProbeStatus, RequestFailure,
};

#[test]
fn encodes_password_like_the_portal_script() {
    let encoded = encode_password("password");
    assert_eq!(encoded, "919521029e7e69584d83e54a45e11a2b123456782");
}

#[test]
fn parses_invalid_credentials() {
    let body = "Msg=01;msga='userid error3';";
    assert_eq!(
        classify_login_body(body),
        BodyResult::Failure("invalid username or password".to_owned())
    );
}

#[test]
fn parses_login_success() {
    let body = "Msg=15;document.write(\"登录成功\")";
    assert_eq!(
        classify_login_body(body),
        BodyResult::Success("portal reported a successful login".to_owned())
    );
}

#[test]
fn encoded_password_has_digest_then_suffix() {
    let encoded = encode_password("");
    assert_eq!(encoded.len(), 41);
    assert!(encoded.ends_with("123456782"));
    assert!(encoded[..32].chars().all(|c| c.is_ascii_hexdigit() && !c.is_ascii_uppercase()));
    assert_ne!(encode_password("a"), encode_password("b"));
}

#[test]
fn chinese_success_marker_alone_is_success() {
    assert_eq!(
        classify_login_body("<script>登录成功</script>"),
        BodyResult::Success("portal reported a successful login".to_owned())
    );
}

#[test]
fn msg_seven_means_already_online() {
    assert_eq!(
        classify_login_body("Msg=7;"),
        BodyResult::Success("account is already online".to_owned())
    );
}

#[test]
fn message_codes_map_to_reasons() {
    let cases = [
        ("Msg=2", "the account is already in use"),
        ("Msg=3", "the account is restricted to a specific address"),
        ("Msg=4", "the account is out of quota or time"),
        ("Msg=5", "the account is suspended"),
        ("Msg=6", "the portal system buffer is full"),
        ("Msg=8", "the account is already in use and cannot be modified"),
        ("Msg=11", "the account can only be used from a bound device"),
        ("Msg=14", "portal reported logout success instead of login"),
        ("Msg=99;", "portal returned Msg=99"),
    ];
    for (body, reason) in cases {
        assert_eq!(classify_login_body(body), BodyResult::Failure(reason.to_owned()), "{body}");
    }
}

#[test]
fn failure_messages_from_msga() {
    assert_eq!(parse_failure_message("msga=''"), "invalid username or password");
    assert_eq!(parse_failure_message("msga='error0'"), "this IP does not allow web login");
    assert_eq!(parse_failure_message("msga='error1'"), "this account does not allow web login");
    assert_eq!(
        parse_failure_message("msga='error2'"),
        "this account does not allow password changes"
    );
    assert_eq!(
        parse_failure_message("msga='locked'"),
        "portal rejected the login: locked"
    );
    assert_eq!(parse_failure_message("no quote here"), "invalid username or password");
    assert_eq!(parse_failure_message("msga='unterminated"), "invalid username or password");
}

#[test]
fn unknown_pages_are_unknown() {
    assert_eq!(classify_login_body("<html>hello</html>"), BodyResult::Unknown);
    assert_eq!(classify_login_body("Msg=;"), BodyResult::Unknown);
    assert_eq!(classify_login_body("Msg=99999999999;"), BodyResult::Unknown);
}

#[test]
fn numeric_assignment_reads_leading_digits() {
    assert_eq!(extract_numeric_assignment("a Msg=012;b", "Msg="), Some(12));
    assert_eq!(extract_numeric_assignment("Msg=4294967295", "Msg="), Some(4294967295));
    assert_eq!(extract_numeric_assignment("Msg=4294967296", "Msg="), None);
    assert_eq!(extract_numeric_assignment("Msg=x1", "Msg="), None);
    assert_eq!(extract_numeric_assignment("nothing", "Msg="), None);
    assert_eq!(extract_numeric_assignment("Msg=3 Msg=5", "Msg="), Some(3));
}

#[test]
fn single_quoted_value_stops_at_quote() {
    assert_eq!(
        extract_single_quoted_value("x msga='abc' y='z'", "msga='"),
        Some("abc".to_owned())
    );
    assert_eq!(extract_single_quoted_value("msga='abc", "msga='"), None);
    assert_eq!(extract_single_quoted_value("none", "msga='"), None);
}

#[test]
fn portal_pages_are_recognised() {
    let portal = Some("172.18.3.3".to_owned());
    assert!(looks_like_portal(&Some("172.18.3.3".to_owned()), "", "", &portal));
    assert!(!looks_like_portal(&Some("www.baidu.com".to_owned()), "nginx", "<html>", &portal));
    assert!(looks_like_portal(&None, "DrcomServer1.0", "", &None));
    assert!(looks_like_portal(&None, "", "var Dr.COMWebLoginID = 1", &None));
    assert!(looks_like_portal(&None, "", "<input name=\"DDDDD\">", &None));
    assert!(looks_like_portal(&None, "", "<input name=\"upass\">", &None));
    assert!(looks_like_portal(&None, "", "function ee() {}", &None));
    assert!(!looks_like_portal(&None, "", "", &None));
}

#[test]
fn portal_host_comes_from_the_url() {
    assert_eq!(portal_host("http://172.18.3.3/0.htm"), Some("172.18.3.3".to_owned()));
    assert_eq!(portal_host("not a url"), None);
}

#[test]
fn login_request_carries_the_form() {
    let mut config = AppConfig::default();
    config.auth.username = "2022000000".to_owned();
    config.auth.password = "password".to_owned();
    config.auth.portal_url = "http://172.18.3.3:8080/0.htm".to_owned();
    let request = login_request(&config).ok().expect("valid portal URL");
    assert_eq!(request.url, "http://172.18.3.3:8080/0.htm");
    assert_eq!(request.referer, "http://172.18.3.3:8080/0.htm");
    assert_eq!(request.origin, "http://172.18.3.3:8080");
    let form: Vec<(&str, &str)> =
        request.form.iter().map(|(k, v)| (k.as_str(), v.as_str())).collect();
    assert_eq!(
        form,
        vec![
            ("DDDDD", "2022000000"),
            ("upass", "919521029e7e69584d83e54a45e11a2b123456782"),
            ("R1", "0"),
            ("R2", "1"),
            ("para", "00"),
            ("0MKKey", "123456"),
            ("v6ip", ""),
        ]
    );
    let default_port = login_request(&AppConfig::default()).ok().expect("valid default URL");
    assert_eq!(default_port.origin, "http://172.18.3.3");
}

#[test]
fn login_request_refuses_bad_url() {
    let mut config = AppConfig::default();
    config.auth.portal_url = "::".to_owned();
    let error = login_request(&config).err().expect("invalid portal URL");
    assert_eq!(error.message(), "portal_url is invalid");
}

#[test]
fn online_probe_means_success() {
    for body in [
        BodyResult::Success("s".to_owned()),
        BodyResult::Failure("f".to_owned()),
        BodyResult::Unknown,
    ] {
        let outcome = login_outcome(body, ProbeStatus::Online);
        assert_eq!(outcome.status, LoginStatus::Success);
        assert_eq!(outcome.detail, "authentication passed and the probe URL is reachable");
    }
}

#[test]
fn offline_probe_explains_failure() {
    let o = login_outcome(BodyResult::Failure("bad".to_owned()), ProbeStatus::NeedsLogin);
    assert_eq!((o.status, o.detail.as_str()), (LoginStatus::Failed, "bad"));
    let o = login_outcome(BodyResult::Success("ok".to_owned()), ProbeStatus::NeedsLogin);
    assert_eq!(o.detail, "ok, but the probe URL is still redirected to the portal");
    let o = login_outcome(
        BodyResult::Success("ok".to_owned()),
        ProbeStatus::Unreachable("dns".to_owned()),
    );
    assert_eq!(o.detail, "ok, but the connectivity check failed: dns");
    let o = login_outcome(BodyResult::Unknown, ProbeStatus::NeedsLogin);
    assert_eq!(o.detail, "portal still intercepts traffic after login");
    let o = login_outcome(BodyResult::Unknown, ProbeStatus::Unreachable("t".to_owned()));
    assert_eq!(o.status, LoginStatus::Failed);
    assert_eq!(o.detail, "login result was unclear and the probe failed: t");
}

#[test]
fn unreachable_details_name_the_failure() {
    assert_eq!(
        unreachable_status(RequestFailure::TimedOut, "e"),
        ProbeStatus::Unreachable("request timed out: e".to_owned())
    );
    assert_eq!(
        unreachable_status(RequestFailure::ConnectFailed, "e"),
        ProbeStatus::Unreachable("connection failed: e".to_owned())
    );
    assert_eq!(
        unreachable_status(RequestFailure::NotSent, "e"),
        ProbeStatus::Unreachable("request could not be sent: e".to_owned())
    );
    assert_eq!(
        unreachable_status(RequestFailure::Other, "e"),
        ProbeStatus::Unreachable("request failed: e".to_owned())
    );
}

#[test]
fn replies_are_read_from_bytes() {
    assert_eq!(
        classify_login_reply("Msg=15".as_bytes()),
        BodyResult::Success("portal reported a successful login".to_owned())
    );
    assert_eq!(
        classify_login_reply(&[0xff, b'M', b's', b'g', b'=', b'5']),
        BodyResult::Failure("the account is suspended".to_owned())
    );
    assert_eq!(
        probe_reply_status(&None, "", b"<input name=\"upass\">", "http://172.18.3.3/0.htm"),
        ProbeStatus::NeedsLogin
    );
    assert_eq!(
        probe_reply_status(
            &Some("172.18.3.3".to_owned()),
            "",
            b"",
            "http://172.18.3.3/0.htm"
        ),
        ProbeStatus::NeedsLogin
    );
    assert_eq!(
        probe_reply_status(&Some("www.baidu.com".to_owned()), "BWS", b"<html>", "http://172.18.3.3/0.htm"),
        ProbeStatus::Online
    );
}
