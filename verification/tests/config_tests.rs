use paperless_bridge::auth::AuthError;
use paperless_bridge::auth::Credentials;
use paperless_bridge::auth::UsernamePasswordAuthenticator;
use paperless_bridge::client::JobState;
use paperless_bridge::client::PaperlessClient;
use paperless_bridge::client::job_state_from_status;
use paperless_bridge::client::job_state_of_response;
use paperless_bridge::client::parse_task_uuid;
use paperless_bridge::config::PortRange;
use paperless_bridge::config::PortRangeError;
use paperless_bridge::config::parse_port_range;
use paperless_bridge::config::parse_u16;
use paperless_bridge::config::validate_listen_addr;

#[test]
fn parse_u16_accepts_plain_decimals() {
    assert_eq!(parse_u16("0"), Some(0));
    assert_eq!(parse_u16("2121"), Some(2121));
    assert_eq!(parse_u16("65535"), Some(65535));
    assert_eq!(parse_u16("007"), Some(7));
}

#[test]
fn parse_u16_rejects_everything_else() {
    assert_eq!(parse_u16(""), None);
    assert_eq!(parse_u16("65536"), None);
    assert_eq!(parse_u16("99999"), None);
    assert_eq!(parse_u16("12a"), None);
    assert_eq!(parse_u16("-1"), None);
    assert_eq!(parse_u16("+1"), None);
    assert_eq!(parse_u16(" 1"), None);
}

#[test]
fn port_range_happy_path() {
    assert_eq!(
        parse_port_range("2222-3333"),
        Ok(PortRange { start: 2222, end: 3333 })
    );
    assert_eq!(
        parse_port_range("0-65535"),
        Ok(PortRange { start: 0, end: 65535 })
    );
}

#[test]
fn port_range_wrong_shape() {
    assert_eq!(parse_port_range("2222"), Err(PortRangeError::Format));
    assert_eq!(parse_port_range("1-2-3"), Err(PortRangeError::Format));
    assert_eq!(parse_port_range(""), Err(PortRangeError::Format));
}

#[test]
fn port_range_bad_bounds() {
    assert_eq!(parse_port_range("x-3333"), Err(PortRangeError::BadStart));
    assert_eq!(parse_port_range("-3333"), Err(PortRangeError::BadStart));
    assert_eq!(parse_port_range("70000-80000"), Err(PortRangeError::BadStart));
    assert_eq!(parse_port_range("2222-x"), Err(PortRangeError::BadEnd));
    assert_eq!(parse_port_range("2222-"), Err(PortRangeError::BadEnd));
}

#[test]
fn port_range_messages() {
    assert_eq!(
        PortRangeError::Format.message(),
        "Wrong format for port range, should be in the format 2222-3333"
    );
    assert_eq!(
        PortRangeError::BadStart.message(),
        "First number of port range can't be parsed"
    );
    assert_eq!(
        PortRangeError::BadEnd.message(),
        "Second number of port range can't be parsed"
    );
}

#[test]
fn listen_addr_accepts_ip_and_port() {
    assert_eq!(
        validate_listen_addr("0.0.0.0:2121"),
        Ok("0.0.0.0:2121".to_string())
    );
    assert_eq!(
        validate_listen_addr("127.0.0.1:2121"),
        Ok("127.0.0.1:2121".to_string())
    );
    assert_eq!(
        validate_listen_addr("255.255.255.255:65535"),
        Ok("255.255.255.255:65535".to_string())
    );
    assert_eq!(validate_listen_addr("[::]:2121"), Ok("[::]:2121".to_string()));
    assert_eq!(
        validate_listen_addr("[2001:db8::1]:8080"),
        Ok("[2001:db8::1]:8080".to_string())
    );
    assert_eq!(
        validate_listen_addr("[1:2:3:4:5:6:7:8]:80"),
        Ok("[1:2:3:4:5:6:7:8]:80".to_string())
    );
    assert_eq!(
        validate_listen_addr("[::ffff:1.2.3.4]:80"),
        Ok("[::ffff:1.2.3.4]:80".to_string())
    );
    assert_eq!(
        validate_listen_addr("[::1.2.3.4]:80"),
        Ok("[::1.2.3.4]:80".to_string())
    );
    assert_eq!(
        validate_listen_addr("[1:2:3:4:5:6:1.2.3.4]:80"),
        Ok("[1:2:3:4:5:6:1.2.3.4]:80".to_string())
    );
    assert_eq!(
        validate_listen_addr("[fe80::1%25]:2121"),
        Ok("[fe80::1%25]:2121".to_string())
    );
}

#[test]
fn listen_addr_rejects_malformed_input() {
    assert!(validate_listen_addr("").is_err());
    assert!(validate_listen_addr("1.2.3.4").is_err());
    assert!(validate_listen_addr("localhost:2121").is_err());
    assert!(validate_listen_addr("256.0.0.1:2121").is_err());
    assert!(validate_listen_addr("01.2.3.4:80").is_err());
    assert!(validate_listen_addr("1.2.3.4:99999").is_err());
    assert!(validate_listen_addr("1.2.3.4:80:90").is_err());
    assert!(validate_listen_addr("1.2.3:80").is_err());
    assert!(validate_listen_addr("[:::]:80").is_err());
    assert!(validate_listen_addr("[1:2:3:4:5:6:7:8:9]:80").is_err());
    assert!(validate_listen_addr("[1:2:3]:80").is_err());
    assert!(validate_listen_addr("[::1]").is_err());
    assert!(validate_listen_addr("[12345::1]:80").is_err());
    assert!(validate_listen_addr("[1.2.3.4]:80").is_err());
    assert!(validate_listen_addr("[::ffff:1.2.3.400]:80").is_err());
    assert!(validate_listen_addr("[1:2:3:4:5:6:7:1.2.3.4]:80").is_err());
    assert!(validate_listen_addr("[::1%]:80").is_err());
    assert!(validate_listen_addr("[%1]:80").is_err());
    assert!(validate_listen_addr("[::1%eth0]:80").is_err());
}

#[test]
fn listen_addr_error_message_names_the_address() {
    let e = validate_listen_addr("nonsense").unwrap_err();
    assert_eq!(
        e,
        "Invalid listen address 'nonsense'. Must be in format IP:PORT (e.g., 0.0.0.0:2121 or [::]:2121)"
    );
}

#[test]
fn authenticate_grants_configured_pair() {
    let a = UsernamePasswordAuthenticator::new("alice".to_string(), "secret".to_string());
    let creds = Credentials { password: Some("secret".to_string()) };
    assert!(a.authenticate("alice", &creds).is_ok());
}

#[test]
fn authenticate_rejects_wrong_username() {
    let a = UsernamePasswordAuthenticator::new("alice".to_string(), "secret".to_string());
    let creds = Credentials { password: Some("secret".to_string()) };
    assert!(matches!(a.authenticate("bob", &creds), Err(AuthError::BadUser)));
}

#[test]
fn authenticate_rejects_wrong_password() {
    let a = UsernamePasswordAuthenticator::new("alice".to_string(), "secret".to_string());
    let creds = Credentials { password: Some("wrong".to_string()) };
    assert!(matches!(
        a.authenticate("alice", &creds),
        Err(AuthError::BadPassword)
    ));
}

#[test]
fn wrong_username_dominates_wrong_password() {
    let a = UsernamePasswordAuthenticator::new("alice".to_string(), "secret".to_string());
    let creds = Credentials { password: Some("wrong".to_string()) };
    assert!(matches!(a.authenticate("bob", &creds), Err(AuthError::BadUser)));
}

#[test]
fn authenticate_with_absent_password() {
    let a = UsernamePasswordAuthenticator::new("alice".to_string(), "secret".to_string());
    let creds = Credentials { password: None };
    assert!(a.authenticate("alice", &creds).is_ok());
    assert!(matches!(a.authenticate("bob", &creds), Err(AuthError::BadUser)));
}

#[test]
fn client_trims_trailing_slashes() {
    let c = PaperlessClient::new("https://paperless.example.com///", "tok");
    assert_eq!(c.base_url, "https://paperless.example.com");
    assert_eq!(c.token, "tok");
}

#[test]
fn client_builds_request_lines() {
    let c = PaperlessClient::new("https://p.example.com/", "tok");
    assert_eq!(
        c.health_check_url(),
        "https://p.example.com/api/ui_settings/"
    );
    assert_eq!(
        c.post_document_url(),
        "https://p.example.com/api/documents/post_document/"
    );
    assert_eq!(
        c.task_status_url("abc-123"),
        "https://p.example.com/api/tasks/?task_id=abc-123"
    );
    assert_eq!(c.auth_header_value(), "Token tok");
}

#[test]
fn task_uuid_is_unquoted() {
    assert_eq!(parse_task_uuid("\"uuid-123\""), "uuid-123");
    assert_eq!(parse_task_uuid("bare"), "bare");
    assert_eq!(parse_task_uuid("\"\""), "");
    assert_eq!(parse_task_uuid(""), "");
}

#[test]
fn job_states_from_status_strings() {
    assert_eq!(job_state_from_status("SUCCESS"), JobState::Succeeded);
    assert_eq!(job_state_from_status("FAILURE"), JobState::Failed);
    assert_eq!(job_state_from_status("REVOKED"), JobState::Cancelled);
    assert_eq!(job_state_from_status("STARTED"), JobState::Running);
    assert_eq!(job_state_from_status("PENDING"), JobState::Pending);
    assert_eq!(job_state_from_status("SOMETHING_NEW"), JobState::Pending);
    assert_eq!(job_state_from_status(""), JobState::Pending);
}

#[test]
fn job_state_of_empty_response_is_pending() {
    assert_eq!(job_state_of_response(&Vec::new()), JobState::Pending);
    let statuses = vec!["FAILURE".to_string(), "SUCCESS".to_string()];
    assert_eq!(job_state_of_response(&statuses), JobState::Failed);
}
