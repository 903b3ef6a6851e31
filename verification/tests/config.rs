use xbfisher_station::filecontrol::{parse_config_file, ConfigError};

fn lines(texts: &[&str]) -> Vec<Vec<u8>> {
    texts.iter().map(|t| t.as_bytes().to_vec()).collect()
}

#[test]
fn no_lines_resolve_to_the_defaults() {
    let c = parse_config_file(&lines(&[])).unwrap();
    assert_eq!(c.get_sock_ip(), "127.0.0.1");
    assert_eq!(c.get_port(), "2537");
}

#[test]
fn comments_and_empty_lines_are_skipped() {
    let c = parse_config_file(&lines(&[
        "# To comment on this file, use a '#' at the start of the line.",
        "",
        "# Another comment",
    ]))
    .unwrap();
    assert_eq!(c.get_sock_ip(), "127.0.0.1");
    assert_eq!(c.get_port(), "2537");
}

#[test]
fn the_address_line_sets_the_trimmed_address() {
    let c = parse_config_file(&lines(&["sock_ip_address=10.0.0.5  "])).unwrap();
    assert_eq!(c.get_sock_ip(), "10.0.0.5");
    assert_eq!(c.get_port(), "2537");
}

#[test]
fn the_port_line_sets_the_port_untrimmed() {
    let c = parse_config_file(&lines(&["server_port=8080"])).unwrap();
    assert_eq!(c.get_sock_ip(), "127.0.0.1");
    assert_eq!(c.get_port(), "8080");
}

#[test]
fn both_settings_resolve_together() {
    let c = parse_config_file(&lines(&[
        "# config",
        "server_port=9000",
        "sock_ip_address=192.168.1.7",
    ]))
    .unwrap();
    assert_eq!(c.get_sock_ip(), "192.168.1.7");
    assert_eq!(c.get_port(), "9000");
}

#[test]
fn a_later_line_overrides_an_earlier_one() {
    let c = parse_config_file(&lines(&[
        "sock_ip_address=10.0.0.1",
        "sock_ip_address=10.0.0.2",
    ]))
    .unwrap();
    assert_eq!(c.get_sock_ip(), "10.0.0.2");
}

#[test]
fn the_value_follows_the_last_occurrence_of_the_key() {
    let c = parse_config_file(&lines(&["sock_ip_address=sock_ip_address=9.9.9.9"])).unwrap();
    assert_eq!(c.get_sock_ip(), "9.9.9.9");
}

#[test]
fn the_address_key_takes_priority_when_both_keys_occur() {
    let c = parse_config_file(&lines(&["server_port=1 sock_ip_address=8.8.8.8"])).unwrap();
    assert_eq!(c.get_sock_ip(), "8.8.8.8");
    assert_eq!(c.get_port(), "2537");
}

#[test]
fn a_line_naming_neither_setting_is_misconfigured() {
    let r = parse_config_file(&lines(&["garbage line"]));
    assert_eq!(r.unwrap_err(), ConfigError::MisconfiguredLine);
}

#[test]
fn a_midline_comment_is_not_a_comment() {
    let r = parse_config_file(&lines(&["value # comment"]));
    assert_eq!(r.unwrap_err(), ConfigError::MisconfiguredLine);
}

#[test]
fn the_key_matches_anywhere_in_the_line() {
    let c = parse_config_file(&lines(&["myserver_port=1234"])).unwrap();
    assert_eq!(c.get_port(), "1234");
}

#[test]
fn a_value_that_is_not_utf8_is_invalid_text() {
    let mut line = b"sock_ip_address=".to_vec();
    line.push(0xff);
    let r = parse_config_file(&vec![line]);
    assert_eq!(r.unwrap_err(), ConfigError::InvalidText);
}
