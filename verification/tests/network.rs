use campus_autologin::config::{AppConfig, ConfigError};
use campus_autologin::network::{
    detect_campus_environment, format_ipv4, format_ipv4_list, gateway_target,
    local_ipv4_addresses, parse_ipv4_cidrs, CampusEnvironment,
};

fn ip(a: u8, b: u8, c: u8, d: u8) -> u32 {
    u32::from_be_bytes([a, b, c, d])
}

fn config_with(gateways: &[&str], cidrs: &[&str]) -> AppConfig {
    let mut config = AppConfig::default();
    config.campus.gateway_hosts = gateways.iter().map(|s| s.to_string()).collect();
    config.campus.ipv4_cidrs = cidrs.iter().map(|s| s.to_string()).collect();
    config
}

#[test]
fn parses_multiple_ipv4_cidrs() {
    let cidrs = parse_ipv4_cidrs(&vec!["172.18.0.0/16".to_owned(), "10.0.0.0/8".to_owned()])
        .expect("CIDRs should parse");
    assert!(cidrs.iter().any(|cidr| cidr.contains(ip(172, 18, 3, 3))));
    assert!(cidrs.iter().any(|cidr| cidr.contains(ip(10, 1, 2, 3))));
}

#[test]
fn cidr_parse_reports_first_invalid_value() {
    let result = parse_ipv4_cidrs(&vec![
        "10.0.0.0/8".to_owned(),
        "not-a-cidr".to_owned(),
        "300.0.0.0/8".to_owned(),
    ]);
    assert_eq!(result, Err(ConfigError::InvalidCidr("not-a-cidr".to_owned())));
    assert_eq!(
        parse_ipv4_cidrs(&vec!["10.0.0.0/33".to_owned()]),
        Err(ConfigError::InvalidCidr("10.0.0.0/33".to_owned()))
    );
}

#[test]
fn cidr_contains_its_own_range_only() {
    let cidrs = parse_ipv4_cidrs(&vec!["172.18.0.0/16".to_owned(), "8.8.8.8/32".to_owned()])
        .expect("CIDRs should parse");
    assert_eq!(cidrs[0].addr, ip(172, 18, 0, 0));
    assert_eq!(cidrs[0].prefix_len, 16);
    assert!(cidrs[0].contains(ip(172, 18, 255, 255)));
    assert!(!cidrs[0].contains(ip(172, 19, 0, 0)));
    assert!(!cidrs[0].contains(ip(172, 17, 255, 255)));
    assert!(cidrs[1].contains(ip(8, 8, 8, 8)));
    assert!(!cidrs[1].contains(ip(8, 8, 8, 9)));
    let all = parse_ipv4_cidrs(&vec!["0.0.0.0/0".to_owned()]).expect("parses");
    assert!(all[0].contains(ip(255, 255, 255, 255)));
}

#[test]
fn local_addresses_drop_loopback_sort_and_dedup() {
    let all = vec![ip(192, 168, 1, 5), ip(127, 0, 0, 1), ip(10, 0, 0, 2), ip(192, 168, 1, 5)];
    assert_eq!(local_ipv4_addresses(&all), vec![ip(10, 0, 0, 2), ip(192, 168, 1, 5)]);
    assert_eq!(local_ipv4_addresses(&vec![ip(127, 5, 5, 5)]), Vec::<u32>::new());
}

#[test]
fn formats_dotted_decimal_lists() {
    assert_eq!(format_ipv4(ip(172, 18, 3, 3)).into_iter().collect::<String>(), "172.18.3.3");
    assert_eq!(format_ipv4(0).into_iter().collect::<String>(), "0.0.0.0");
    let list = format_ipv4_list(&vec![ip(10, 0, 0, 2), ip(255, 255, 255, 255)]);
    assert_eq!(list.into_iter().collect::<String>(), "10.0.0.2, 255.255.255.255");
    assert_eq!(format_ipv4_list(&vec![]).into_iter().collect::<String>(), "");
}

#[test]
fn gateway_targets_default_to_port_80() {
    assert_eq!(gateway_target(" 172.18.3.3 "), "172.18.3.3:80");
    assert_eq!(gateway_target("gateway:8080"), "gateway:8080");
    assert_eq!(gateway_target("172.18.3.3:8080"), "172.18.3.3:8080:80");
    assert_eq!(gateway_target("portal"), "portal:80");
}

#[test]
fn off_campus_without_local_address() {
    let config = config_with(&["172.18.3.3"], &[]);
    assert_eq!(
        detect_campus_environment(&config, &vec![], &vec![true]),
        Ok(CampusEnvironment::OffCampus("no non-loopback IPv4 addresses are active".to_owned()))
    );
}

#[test]
fn off_campus_when_no_gateway_responds() {
    let config = config_with(&["172.18.3.3", "172.18.2.2"], &["10.0.0.0/8"]);
    assert_eq!(
        detect_campus_environment(&config, &vec![ip(10, 1, 2, 3)], &vec![false, false]),
        Ok(CampusEnvironment::OffCampus(
            "local IPv4 10.1.2.3, but no configured campus gateway responded (172.18.3.3, 172.18.2.2)"
                .to_owned()
        ))
    );
}

#[test]
fn on_campus_when_a_gateway_responds() {
    let config = config_with(&["172.18.3.3", "172.18.2.2"], &[]);
    assert_eq!(
        detect_campus_environment(
            &config,
            &vec![ip(10, 1, 2, 3), ip(192, 168, 0, 9)],
            &vec![false, true]
        ),
        Ok(CampusEnvironment::OnCampus(
            "gateway(s) 172.18.2.2 responded while local IPv4 is 10.1.2.3, 192.168.0.9".to_owned()
        ))
    );
}

#[test]
fn cidrs_only_add_context() {
    let config = config_with(&["172.18.3.3"], &["172.18.0.0/16", "10.0.0.0/8"]);
    assert_eq!(
        detect_campus_environment(&config, &vec![ip(192, 168, 0, 9)], &vec![true]),
        Ok(CampusEnvironment::OnCampus(
            "gateway(s) 172.18.3.3 responded; local IPv4 192.168.0.9 did not match the optional CIDRs 172.18.0.0/16, 10.0.0.0/8"
                .to_owned()
        ))
    );
    assert_eq!(
        detect_campus_environment(
            &config,
            &vec![ip(10, 9, 9, 9), ip(172, 18, 7, 7), ip(192, 168, 0, 9)],
            &vec![true]
        ),
        Ok(CampusEnvironment::OnCampus(
            "gateway(s) 172.18.3.3 responded and local IPv4 10.9.9.9, 172.18.7.7 matched optional CIDRs 172.18.0.0/16, 10.0.0.0/8"
                .to_owned()
        ))
    );
}

#[test]
fn invalid_cidr_is_an_error_once_a_gateway_responds() {
    let config = config_with(&["172.18.3.3"], &["bogus"]);
    assert_eq!(
        detect_campus_environment(&config, &vec![ip(10, 0, 0, 1)], &vec![true]),
        Err(ConfigError::InvalidCidr("bogus".to_owned()))
    );
    assert!(matches!(
        detect_campus_environment(&config, &vec![ip(10, 0, 0, 1)], &vec![false]),
        Ok(CampusEnvironment::OffCampus(_))
    ));
}
