use traefik_phpbb_basic_auth::config::{
    help_requested, Config, DEFAULT_LOGINS_FILE, DEFAULT_REALM, EXIT_HELP,
    EXIT_LOGINS_UNREADABLE, LISTEN_PORT, LOGINS_FILE_VAR, REALM_VAR,
};
use traefik_phpbb_basic_auth::logins::{invalid_entry_diagnostic, read_hashes};
use traefik_phpbb_basic_auth::text::decimal_string;

fn arguments(words: &[&str]) -> Vec<String> {
    words.iter().map(|w| w.to_string()).collect()
}

#[test]
fn settings_default_when_unset() {
    let config = Config::from_settings(None, None);
    assert_eq!(config.logins_file, "logins.txt");
    assert_eq!(config.realm, "Login");
    assert_eq!(DEFAULT_LOGINS_FILE, "logins.txt");
    assert_eq!(DEFAULT_REALM, "Login");
}

#[test]
fn settings_are_taken_as_given() {
    let config = Config::from_settings(Some("/etc/gate/users".to_string()), None);
    assert_eq!(
        config,
        Config { logins_file: "/etc/gate/users".to_string(), realm: "Login".to_string() }
    );
    let config = Config::from_settings(None, Some("Members".to_string()));
    assert_eq!(
        config,
        Config { logins_file: "logins.txt".to_string(), realm: "Members".to_string() }
    );
    let config = Config::from_settings(Some(String::new()), Some(String::new()));
    assert_eq!(config, Config { logins_file: String::new(), realm: String::new() });
}

#[test]
fn fixed_settings_have_their_values() {
    assert_eq!(LOGINS_FILE_VAR, "LOGINS_FILE");
    assert_eq!(REALM_VAR, "BASIC_AUTH_REALM");
    assert_eq!(LISTEN_PORT, 8080);
    assert_eq!(EXIT_HELP, 1);
    assert_eq!(EXIT_LOGINS_UNREADABLE, 2);
}

#[test]
fn help_is_found_among_the_arguments() {
    assert!(help_requested(&arguments(&["gate", "-h"])));
    assert!(help_requested(&arguments(&["gate", "--help"])));
    assert!(help_requested(&arguments(&["gate", "x", "y", "--help", "z"])));
    assert!(help_requested(&arguments(&["-h"])));
    assert!(!help_requested(&arguments(&["gate"])));
    assert!(!help_requested(&arguments(&[])));
    assert!(!help_requested(&arguments(&["gate", "-H", "--Help", "-help", "--h", "help", "-h "])));
    assert!(!help_requested(&arguments(&["gate", "--help=yes", "-hh", ""])));
}

#[test]
fn numerals_are_decimal() {
    assert_eq!(decimal_string(0), "0");
    assert_eq!(decimal_string(7), "7");
    assert_eq!(decimal_string(9), "9");
    assert_eq!(decimal_string(10), "10");
    assert_eq!(decimal_string(42), "42");
    assert_eq!(decimal_string(100), "100");
    assert_eq!(decimal_string(1234567890), "1234567890");
    assert_eq!(decimal_string(usize::MAX), format!("{}", usize::MAX));
}

#[test]
fn skipped_lines_are_named_by_number() {
    assert_eq!(invalid_entry_diagnostic(1), "Invalid entry: No semicolon found on line 1");
    assert_eq!(invalid_entry_diagnostic(20), "Invalid entry: No semicolon found on line 20");
    assert_eq!(invalid_entry_diagnostic(305), "Invalid entry: No semicolon found on line 305");
    let report = read_hashes(b"alice;a\nbroken\nbob;b\nbroken too\n");
    let lines: Vec<String> =
        report.invalid_lines.iter().map(|n| invalid_entry_diagnostic(*n)).collect();
    assert_eq!(
        lines,
        vec![
            "Invalid entry: No semicolon found on line 2".to_string(),
            "Invalid entry: No semicolon found on line 4".to_string(),
        ]
    );
}
