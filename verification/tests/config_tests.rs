//! Tests of the configuration loader: parsing, merging, defaults, required
//! fields, admin users and the text round trip.

use pgmoneta_mcp::configuration::{
    load_configuration, load_user_configuration, ConfigError, PgmonetaConfiguration,
    PgmonetaMcpConfiguration,
};

#[test]
fn user_file_overrides_main_file() {
    let main_text = "[pgmoneta]\nhost=localhost\nport=5001\n[pgmoneta_mcp]\nlog_level=debug\n";
    let user_text = "[pgmoneta_mcp]\nlog_level=error\n";
    let cfg = load_configuration(main_text, user_text, "main.conf", "user.conf").unwrap();
    assert_eq!(cfg.pgmoneta_mcp.log_level, "error");
    assert_eq!(cfg.pgmoneta.host, "localhost");
    assert_eq!(cfg.pgmoneta.port, 5001);
}

#[test]
fn user_file_overrides_required_field_too() {
    let main_text = "[pgmoneta]\nhost=alpha\nport=1\n";
    let user_text = "[pgmoneta]\nhost=beta\n";
    let cfg = load_configuration(main_text, user_text, "m", "u").unwrap();
    assert_eq!(cfg.pgmoneta.host, "beta");
    assert_eq!(cfg.pgmoneta.port, 1);
}

#[test]
fn defaults_fill_every_omitted_field() {
    let main_text = "[pgmoneta]\nhost=h\nport=5001\n";
    let cfg = load_configuration(main_text, "", "m", "u").unwrap();
    assert_eq!(cfg.pgmoneta_mcp.port, 8000);
    assert_eq!(cfg.pgmoneta_mcp.log_path, "pgmoneta_mcp.log");
    assert_eq!(cfg.pgmoneta_mcp.log_level, "info");
    assert_eq!(cfg.pgmoneta_mcp.log_type, "console");
    assert_eq!(cfg.pgmoneta_mcp.log_line_prefix, "%Y-%m-%d %H:%M:%S");
    assert_eq!(cfg.pgmoneta_mcp.log_mode, "append");
    assert_eq!(cfg.pgmoneta_mcp.log_rotation_age, "0");
    assert!(cfg.admins.is_empty());
}

#[test]
fn defaults_are_per_field_not_all_or_nothing() {
    let main_text = "[pgmoneta]\nhost=h\nport=1\n[pgmoneta_mcp]\nlog_type=file\n";
    let cfg = load_configuration(main_text, "", "m", "u").unwrap();
    assert_eq!(cfg.pgmoneta_mcp.log_type, "file");
    assert_eq!(cfg.pgmoneta_mcp.port, 8000);
    assert_eq!(cfg.pgmoneta_mcp.log_mode, "append");
}

#[test]
fn load_users_only_two_sections() {
    let text = "[alice]\npassword=x\n[bob]\npassword=y\n";
    let users = load_user_configuration(text, "users.conf").unwrap();
    assert_eq!(users.entries.len(), 2);
    assert_eq!(users.entries[0].section, "alice");
    assert_eq!(users.entries[0].key, "password");
    assert_eq!(users.entries[0].value, "x");
    assert_eq!(users.entries[1].section, "bob");
    assert_eq!(users.entries[1].key, "password");
    assert_eq!(users.entries[1].value, "y");
    assert_eq!(users.get("alice", "password"), Some("x".to_string()));
    assert_eq!(users.get("bob", "password"), Some("y".to_string()));
    assert_eq!(users.get("carol", "password"), None);
}

#[test]
fn load_users_only_keeps_values_as_strings() {
    let text = "[svc]\nport=90\n";
    let users = load_user_configuration(text, "users.conf").unwrap();
    assert_eq!(users.get("svc", "port"), Some("90".to_string()));
}

#[test]
fn missing_host_names_both_paths() {
    let main_text = "[pgmoneta]\nport=5001\n";
    let err = load_configuration(main_text, "", "main.conf", "user.conf").unwrap_err();
    match err {
        ConfigError::MissingField { section, key, config_path, user_path } => {
            assert_eq!(section, "pgmoneta");
            assert_eq!(key, "host");
            assert_eq!(config_path, "main.conf");
            assert_eq!(user_path, "user.conf");
        },
        _ => panic!("expected a missing-field error"),
    }
}

#[test]
fn missing_port_is_an_error_too() {
    let main_text = "[pgmoneta]\nhost=h\n";
    let err = load_configuration(main_text, "", "m", "u").unwrap_err();
    match err {
        ConfigError::MissingField { section, key, .. } => {
            assert_eq!(section, "pgmoneta");
            assert_eq!(key, "port");
        },
        _ => panic!("expected a missing-field error"),
    }
}

#[test]
fn required_field_satisfied_by_user_file_alone() {
    let main_text = "[pgmoneta]\nport=5001\n";
    let user_text = "[pgmoneta]\nhost=remote\n";
    let cfg = load_configuration(main_text, user_text, "m", "u").unwrap();
    assert_eq!(cfg.pgmoneta.host, "remote");
}

#[test]
fn non_numeric_port_is_a_conversion_error() {
    let main_text = "[pgmoneta]\nhost=h\nport=abc\n";
    let err = load_configuration(main_text, "", "m", "u").unwrap_err();
    match err {
        ConfigError::InvalidValue { section, key, .. } => {
            assert_eq!(section, "pgmoneta");
            assert_eq!(key, "port");
        },
        _ => panic!("expected an invalid-value error"),
    }
}

#[test]
fn out_of_range_port_is_a_conversion_error() {
    let main_text = "[pgmoneta]\nhost=h\nport=99999999999\n";
    let err = load_configuration(main_text, "", "m", "u").unwrap_err();
    assert!(matches!(err, ConfigError::InvalidValue { .. }));
}

#[test]
fn any_integer_port_deserializes() {
    let main_text = "[pgmoneta]\nhost=h\nport=-7\n";
    let cfg = load_configuration(main_text, "", "m", "u").unwrap();
    assert_eq!(cfg.pgmoneta.port, -7);
}

#[test]
fn bad_mcp_port_is_a_conversion_error() {
    let main_text = "[pgmoneta]\nhost=h\nport=1\n[pgmoneta_mcp]\nport=eighty\n";
    let err = load_configuration(main_text, "", "m", "u").unwrap_err();
    match err {
        ConfigError::InvalidValue { section, key, .. } => {
            assert_eq!(section, "pgmoneta_mcp");
            assert_eq!(key, "port");
        },
        _ => panic!("expected an invalid-value error"),
    }
}

#[test]
fn unparsable_main_file_names_its_path() {
    let err = load_configuration("not a valid line", "", "main.conf", "user.conf").unwrap_err();
    match err {
        ConfigError::Parse { path } => assert_eq!(path, "main.conf"),
        _ => panic!("expected a parse error"),
    }
}

#[test]
fn unparsable_user_file_names_its_path() {
    let main_text = "[pgmoneta]\nhost=h\nport=1\n";
    let err = load_configuration(main_text, "===", "main.conf", "user.conf").unwrap_err();
    match err {
        ConfigError::Parse { path } => assert_eq!(path, "user.conf"),
        _ => panic!("expected a parse error"),
    }
}

#[test]
fn comments_blanks_and_spacing_are_tolerated() {
    let main_text = "; a comment\n\n[ pgmoneta ]\n  host = h \n\tport = 5001\n# another\n";
    let cfg = load_configuration(main_text, "", "m", "u").unwrap();
    assert_eq!(cfg.pgmoneta.host, "h");
    assert_eq!(cfg.pgmoneta.port, 5001);
}

#[test]
fn crlf_line_endings_are_tolerated() {
    let main_text = "[pgmoneta]\r\nhost=h\r\nport=2\r\n";
    let cfg = load_configuration(main_text, "", "m", "u").unwrap();
    assert_eq!(cfg.pgmoneta.host, "h");
    assert_eq!(cfg.pgmoneta.port, 2);
}

#[test]
fn unknown_fields_and_sections_are_ignored() {
    let main_text = "[pgmoneta]\nhost=h\nport=1\nextra=ignored\n[other]\nx=y\n";
    let cfg = load_configuration(main_text, "", "m", "u").unwrap();
    assert_eq!(cfg.pgmoneta.host, "h");
}

#[test]
fn admins_section_collects_users_in_order() {
    let main_text = "[pgmoneta]\nhost=h\nport=1\n[admins]\nalice=pw1\nbob=pw2\n";
    let cfg = load_configuration(main_text, "", "m", "u").unwrap();
    assert_eq!(cfg.admins.len(), 2);
    assert_eq!(cfg.admins[0].name, "alice");
    assert_eq!(cfg.admins[0].password, "pw1");
    assert_eq!(cfg.admins[1].name, "bob");
    assert_eq!(cfg.admins[1].password, "pw2");
}

#[test]
fn later_admin_entry_overrides_password_keeps_place() {
    let main_text = "[pgmoneta]\nhost=h\nport=1\n[admins]\nalice=old\nbob=pw\n";
    let user_text = "[admins]\nalice=new\n";
    let cfg = load_configuration(main_text, user_text, "m", "u").unwrap();
    assert_eq!(cfg.admins.len(), 2);
    assert_eq!(cfg.admins[0].name, "alice");
    assert_eq!(cfg.admins[0].password, "new");
    assert_eq!(cfg.admins[1].name, "bob");
    assert_eq!(cfg.admins[1].password, "pw");
}

#[test]
fn round_trip_of_both_sections() {
    let mcp = PgmonetaMcpConfiguration {
        port: 9090,
        log_path: "server.log".to_string(),
        log_level: "warn".to_string(),
        log_type: "file".to_string(),
        log_line_prefix: "%H:%M:%S".to_string(),
        log_mode: "create".to_string(),
        log_rotation_age: "h".to_string(),
    };
    let pg = PgmonetaConfiguration { host: "backup-host".to_string(), port: -5001 };
    let text = format!("{}{}", mcp.to_ini(), pg.to_ini());
    let cfg = load_configuration(&text, "", "m", "u").unwrap();
    assert_eq!(cfg.pgmoneta_mcp.port, 9090);
    assert_eq!(cfg.pgmoneta_mcp.log_path, "server.log");
    assert_eq!(cfg.pgmoneta_mcp.log_level, "warn");
    assert_eq!(cfg.pgmoneta_mcp.log_type, "file");
    assert_eq!(cfg.pgmoneta_mcp.log_line_prefix, "%H:%M:%S");
    assert_eq!(cfg.pgmoneta_mcp.log_mode, "create");
    assert_eq!(cfg.pgmoneta_mcp.log_rotation_age, "h");
    assert_eq!(cfg.pgmoneta.host, "backup-host");
    assert_eq!(cfg.pgmoneta.port, -5001);
    assert!(cfg.admins.is_empty());
}

#[test]
fn empty_user_file_is_valid_and_empty() {
    let users = load_user_configuration("", "u").unwrap();
    assert!(users.entries.is_empty());
}

#[test]
fn keys_before_any_section_fall_under_the_empty_name() {
    let users = load_user_configuration("k=v\n", "u").unwrap();
    assert_eq!(users.entries.len(), 1);
    assert_eq!(users.entries[0].section, "");
    assert_eq!(users.get("", "k"), Some("v".to_string()));
}

#[test]
fn later_key_in_same_file_wins() {
    let main_text = "[pgmoneta]\nhost=first\nhost=second\nport=1\n";
    let cfg = load_configuration(main_text, "", "m", "u").unwrap();
    assert_eq!(cfg.pgmoneta.host, "second");
}

#[test]
fn value_may_contain_equals_signs() {
    let main_text = "[pgmoneta]\nhost=h\nport=1\n[pgmoneta_mcp]\nlog_line_prefix=%Y=%m\n";
    let cfg = load_configuration(main_text, "", "m", "u").unwrap();
    assert_eq!(cfg.pgmoneta_mcp.log_line_prefix, "%Y=%m");
}

#[test]
fn malformed_header_is_a_parse_error() {
    let err = load_configuration("[pgmoneta\nhost=h\n", "", "main.conf", "u").unwrap_err();
    assert!(matches!(err, ConfigError::Parse { .. }));
}

#[test]
fn empty_key_is_a_parse_error() {
    let err = load_configuration("[pgmoneta]\n=value\n", "", "main.conf", "u").unwrap_err();
    assert!(matches!(err, ConfigError::Parse { .. }));
}
