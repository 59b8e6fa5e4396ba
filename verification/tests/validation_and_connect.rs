use wiblue_lib::connect_network::{
    connect_command_args, connection_response, handle_connection_error, normalize_credential,
    str_contains,
};
use wiblue_lib::errors::{StatsError, WifiConnectionError};
use wiblue_lib::network_stats::validate_interface;

#[test]
fn failed_enumeration_is_a_validation_error() {
    let enumeration: Result<Vec<String>, ()> = Err(());
    assert_eq!(
        validate_interface("wlan0", &enumeration),
        Err(StatsError::InterfaceValidationError)
    );
}

#[test]
fn absent_name_is_an_invalid_interface_name() {
    let enumeration: Result<Vec<String>, ()> =
        Ok(vec!["lo".to_string(), "eth0".to_string(), "wlp1s0".to_string()]);
    assert_eq!(
        validate_interface("wlan0", &enumeration),
        Err(StatsError::InvalidInterfaceName)
    );
}

#[test]
fn listed_name_passes_validation() {
    let enumeration: Result<Vec<String>, ()> =
        Ok(vec!["lo".to_string(), "eth0".to_string(), "wlp1s0".to_string()]);
    assert_eq!(validate_interface("wlp1s0", &enumeration), Ok(()));
}

#[test]
fn empty_enumeration_rejects_every_name() {
    let enumeration: Result<Vec<String>, ()> = Ok(Vec::new());
    assert_eq!(
        validate_interface("lo", &enumeration),
        Err(StatsError::InvalidInterfaceName)
    );
}

#[test]
fn missing_credential_is_classified() {
    let diagnostic = "Error: Passwords or encryption keys are required to access the wireless network";
    assert_eq!(
        handle_connection_error(diagnostic, None),
        WifiConnectionError::NoPasswordProvided
    );
}

#[test]
fn missing_network_is_classified() {
    let diagnostic = "Error: No suitable network found for the requested connection";
    assert_eq!(
        handle_connection_error(diagnostic, Some("hunter2")),
        WifiConnectionError::NoSuchNetwork
    );
}

#[test]
fn wrong_credential_is_classified_only_with_a_credential() {
    let diagnostic = "Error: Connection activation failed: secrets were required";
    assert_eq!(
        handle_connection_error(diagnostic, Some("hunter2")),
        WifiConnectionError::WrongPassword
    );
    assert_eq!(
        handle_connection_error(diagnostic, None),
        WifiConnectionError::UnknownError
    );
}

#[test]
fn unrecognized_diagnostics_are_unknown() {
    assert_eq!(
        handle_connection_error("Error: something entirely new", Some("hunter2")),
        WifiConnectionError::UnknownError
    );
}

#[test]
fn empty_credential_classifies_like_no_credential() {
    let diagnostics = [
        "Error: Passwords or encryption keys are required to continue",
        "Error: No suitable network found",
        "Error: Connection activation failed",
        "Error: something entirely new",
    ];
    for diagnostic in diagnostics {
        assert_eq!(
            handle_connection_error(diagnostic, Some("")),
            handle_connection_error(diagnostic, None),
        );
    }
}

#[test]
fn credential_normalization_drops_empty_strings() {
    assert_eq!(normalize_credential(""), None);
    assert_eq!(normalize_credential("hunter2"), Some("hunter2"));
}

#[test]
fn connect_arguments_include_the_credential_exactly_when_supplied() {
    let with = connect_command_args("AA:BB:CC:DD:EE:FF", Some("hunter2"));
    assert_eq!(
        with,
        vec!["dev", "wifi", "connect", "AA:BB:CC:DD:EE:FF", "password", "hunter2"]
    );
    let without = connect_command_args("AA:BB:CC:DD:EE:FF", None);
    assert_eq!(without, vec!["dev", "wifi", "connect", "AA:BB:CC:DD:EE:FF"]);
}

#[test]
fn responses_carry_the_documented_codes() {
    assert_eq!(connection_response(&Ok(())), ("Connected Successfully", 200));
    assert_eq!(
        connection_response(&Err(WifiConnectionError::NoSuchNetwork)),
        ("No network", 404)
    );
    assert_eq!(
        connection_response(&Err(WifiConnectionError::NoPasswordProvided)),
        ("No password provided", 502)
    );
    assert_eq!(
        connection_response(&Err(WifiConnectionError::WrongPassword)),
        ("Wrong password", 401)
    );
    assert_eq!(
        connection_response(&Err(WifiConnectionError::UnknownError)),
        ("Unknown error", 500)
    );
    assert_eq!(
        connection_response(&Err(WifiConnectionError::AskingError)),
        ("Unknown error", 500)
    );
}

#[test]
fn substring_search_matches_the_standard_library() {
    let haystack = "Connection activation failed: timeout";
    assert!(str_contains(haystack, "activation failed"));
    assert!(str_contains(haystack, ""));
    assert!(!str_contains(haystack, "Activation Failed"));
    assert!(!str_contains("short", "much longer pattern"));
    assert_eq!(
        str_contains(haystack, "timeout"),
        haystack.contains("timeout")
    );
}
