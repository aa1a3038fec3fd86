use wallet713::config::Wallet713Config;
use wallet713::error::Wallet713Error;
use wallet713::session::{
    do_listen, ClientEvent, ClientStart, ConfigStatus, Connection, Session,
};

fn config(uri: &str, key: &str) -> Wallet713Config {
    Wallet713Config {
        wallet713_data_path: "/data".to_string(),
        grinbox_uri: uri.to_string(),
        grinbox_private_key: key.to_string(),
        grin_node_uri: "http://node".to_string(),
        grin_node_secret: None,
    }
}

#[test]
fn session_starts_without_a_client() {
    let session = Session::new();
    assert_eq!(session.connection, Connection::Absent);
    assert!(!session.is_listening());
}

#[test]
fn listen_with_empty_uri_fails_and_stays_disconnected() {
    let mut session = Session::new();
    let status = ConfigStatus::Loaded(config("", "ab"));
    assert_eq!(
        do_listen(&mut session, &status, "pw"),
        Err(Wallet713Error::ConfigMissingValue("gribox uri".to_string()))
    );
    assert_eq!(session.connection, Connection::Absent);
}

#[test]
fn listen_with_empty_uri_and_empty_key_reports_the_uri() {
    let mut session = Session::new();
    let status = ConfigStatus::Loaded(config("", ""));
    assert_eq!(
        do_listen(&mut session, &status, "pw"),
        Err(Wallet713Error::ConfigMissingValue("gribox uri".to_string()))
    );
    assert_eq!(session.connection, Connection::Absent);
}

#[test]
fn listen_without_key_fails_with_missing_keys() {
    let mut session = Session::new();
    let status = ConfigStatus::Loaded(config("ws://relay", ""));
    assert_eq!(do_listen(&mut session, &status, "pw"), Err(Wallet713Error::ConfigMissingKeys));
    assert_eq!(session.connection, Connection::Absent);
}

#[test]
fn listen_without_configuration_fails() {
    let mut session = Session::new();
    assert_eq!(
        do_listen(&mut session, &ConfigStatus::Missing, ""),
        Err(Wallet713Error::ConfigNotFound)
    );
    assert_eq!(
        do_listen(&mut session, &ConfigStatus::Unreadable, ""),
        Err(Wallet713Error::LoadConfig)
    );
    assert_eq!(session.connection, Connection::Absent);
}

#[test]
fn listen_hands_on_password_uri_and_key() {
    let mut session = Session::new();
    let status = ConfigStatus::Loaded(config("ws://relay", "ab"));
    assert_eq!(
        do_listen(&mut session, &status, "pw"),
        Ok(ClientStart {
            password: "pw".to_string(),
            uri: "ws://relay".to_string(),
            private_key: "ab".to_string(),
        })
    );
    assert_eq!(session.connection, Connection::Connecting);
    session.on_event(ClientEvent::Started);
    assert_eq!(session.connection, Connection::Listening);
    assert!(session.is_listening());
}

#[test]
fn client_that_fails_to_start_leaves_no_client() {
    let mut session = Session::new();
    let status = ConfigStatus::Loaded(config("ws://relay", "ab"));
    do_listen(&mut session, &status, "").unwrap();
    session.on_event(ClientEvent::Failed);
    assert_eq!(session.connection, Connection::Absent);
}

#[test]
fn failed_listen_leaves_a_listening_session_listening() {
    let mut session = Session { connection: Connection::Listening };
    assert_eq!(
        do_listen(&mut session, &ConfigStatus::Missing, ""),
        Err(Wallet713Error::ConfigNotFound)
    );
    assert_eq!(session.connection, Connection::Listening);
}

#[test]
fn stop_is_idempotent() {
    let mut session = Session { connection: Connection::Listening };
    session.on_event(ClientEvent::Stopped);
    assert_eq!(session.connection, Connection::Absent);
    session.on_event(ClientEvent::Stopped);
    assert_eq!(session.connection, Connection::Absent);
}

#[test]
fn start_counts_only_while_a_client_is_awaited() {
    let mut session = Session::new();
    session.on_event(ClientEvent::Started);
    assert_eq!(session.connection, Connection::Absent);
    session.on_event(ClientEvent::Failed);
    assert_eq!(session.connection, Connection::Absent);
    let mut listening = Session { connection: Connection::Listening };
    listening.on_event(ClientEvent::Failed);
    assert_eq!(listening.connection, Connection::Listening);
}
