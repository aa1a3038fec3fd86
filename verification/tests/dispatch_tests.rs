use wallet713::config::{ConfigOptions, Wallet713Config};
use wallet713::contacts::{AddressBook, Contact};
use wallet713::dispatch::{do_command, dispatch, Action, ContactsReport};
use wallet713::error::Wallet713Error;
use wallet713::session::{ClientStart, ConfigStatus, Connection, Session};

fn loaded(uri: &str, key: &str) -> ConfigStatus {
    ConfigStatus::Loaded(Wallet713Config {
        wallet713_data_path: "/data".to_string(),
        grinbox_uri: uri.to_string(),
        grinbox_private_key: key.to_string(),
        grin_node_uri: "http://node".to_string(),
        grin_node_secret: None,
    })
}

fn run(line: &str) -> Action {
    let mut session = Session::new();
    let mut book = AddressBook::new();
    let action = do_command(line, &mut session, &mut book, &ConfigStatus::Missing);
    assert_eq!(session.connection, Connection::Absent);
    assert_eq!(book.len(), 0);
    action
}

#[test]
fn empty_line_asks_for_nothing() {
    assert_eq!(run("\n"), Action::Nothing);
    assert_eq!(run(""), Action::Nothing);
}

#[test]
fn exit_ends_the_process() {
    assert_eq!(run("exit\n"), Action::Exit);
}

#[test]
fn unknown_name_is_not_implemented() {
    assert_eq!(run("help\n"), Action::NotImplemented("help".to_string()));
}

#[test]
fn failure_to_read_the_line_is_handed_on() {
    assert_eq!(
        run("repost abc\n"),
        Action::Fail(Wallet713Error::InvalidTxId("abc".to_string()))
    );
    assert_eq!(
        run("send --to bob --amount x\n"),
        Action::Fail(Wallet713Error::InvalidAmount("x".to_string()))
    );
}

#[test]
fn wallet_commands_work_on_the_default_account() {
    assert_eq!(run("init pw\n"), Action::Init { password: "pw".to_string() });
    assert_eq!(
        run("info\n"),
        Action::Info { password: String::new(), account: "default".to_string() }
    );
    assert_eq!(
        run("txs pw\n"),
        Action::Txs { password: "pw".to_string(), account: "default".to_string() }
    );
    assert_eq!(
        run("outputs pw --show-spent\n"),
        Action::Outputs {
            password: "pw".to_string(),
            account: "default".to_string(),
            show_spent: true,
        }
    );
    assert_eq!(run("restore\n"), Action::Restore { password: String::new() });
}

#[test]
fn repost_does_not_fluff() {
    assert_eq!(
        run("repost 7\n"),
        Action::Repost { password: String::new(), id: 7, fluff: false }
    );
    assert_eq!(run("cancel pw 8\n"), Action::Cancel { password: "pw".to_string(), id: 8 });
}

#[test]
fn send_carries_its_fixed_arguments() {
    assert_eq!(
        run("send --to bob --amount 5\n"),
        Action::Send {
            password: String::new(),
            account: "default".to_string(),
            to: "bob".to_string(),
            amount: 5_000_000_000,
            minimum_confirmations: 10,
            selection_strategy: "all".to_string(),
            change_outputs: 1,
            lock_height: 500,
        }
    );
}

#[test]
fn relay_commands() {
    assert_eq!(run("subscribe\n"), Action::Subscribe);
    assert_eq!(run("unsubscribe\n"), Action::Unsubscribe);
    assert_eq!(run("stop\n"), Action::StopClient);
    assert_eq!(run("challenge\n"), Action::Challenge);
}

#[test]
fn subscribe_leaves_the_connection_as_it_is() {
    for connection in [Connection::Absent, Connection::Connecting, Connection::Listening] {
        let mut session = Session { connection };
        let mut book = AddressBook::new();
        for line in ["subscribe", "unsubscribe", "stop", "info", "exit"] {
            do_command(line, &mut session, &mut book, &ConfigStatus::Missing);
            assert_eq!(session.connection, connection);
        }
    }
}

#[test]
fn config_hands_on_its_options() {
    assert_eq!(
        run("config --uri ws://r\n"),
        Action::Config(ConfigOptions {
            data_path: None,
            uri: Some("ws://r".to_string()),
            private_key: None,
            node_uri: None,
            node_secret: None,
            generate_keys: false,
        })
    );
}

#[test]
fn listen_line_without_configuration_fails() {
    assert_eq!(run("listen\n"), Action::Fail(Wallet713Error::ConfigNotFound));
}

#[test]
fn listen_with_empty_uri_fails_with_missing_value() {
    let mut session = Session::new();
    let mut book = AddressBook::new();
    let action = do_command("listen pw\n", &mut session, &mut book, &loaded("", "ab"));
    assert_eq!(
        action,
        Action::Fail(Wallet713Error::ConfigMissingValue("gribox uri".to_string()))
    );
    assert_eq!(session.connection, Connection::Absent);
}

#[test]
fn listen_starts_the_client() {
    let mut session = Session::new();
    let mut book = AddressBook::new();
    let action = do_command("listen pw\n", &mut session, &mut book, &loaded("ws://r", "ab"));
    assert_eq!(
        action,
        Action::StartClient(ClientStart {
            password: "pw".to_string(),
            uri: "ws://r".to_string(),
            private_key: "ab".to_string(),
        })
    );
    assert_eq!(session.connection, Connection::Connecting);
}

#[test]
fn contacts_on_empty_book_reports_it_empty() {
    let mut session = Session::new();
    let mut book = AddressBook::new();
    let action = do_command("contacts\n", &mut session, &mut book, &ConfigStatus::Missing);
    assert_eq!(action, Action::Contacts(ContactsReport::EmptyBook));
}

#[test]
fn contacts_through_the_dispatcher() {
    let mut session = Session::new();
    let mut book = AddressBook::new();
    let status = ConfigStatus::Missing;
    assert_eq!(
        do_command("contacts add alice K1\n", &mut session, &mut book, &status),
        Action::Contacts(ContactsReport::Added)
    );
    assert_eq!(
        do_command("contacts add alice K2\n", &mut session, &mut book, &status),
        Action::Fail(Wallet713Error::DuplicateContact("alice".to_string()))
    );
    assert_eq!(
        do_command("contacts\n", &mut session, &mut book, &status),
        Action::Contacts(ContactsReport::Listing(vec![Contact::new("K1", "alice")]))
    );
    assert_eq!(
        do_command("contacts remove bob\n", &mut session, &mut book, &status),
        Action::Fail(Wallet713Error::ContactNotFound("bob".to_string()))
    );
    assert_eq!(book.contact_iter(), vec![Contact::new("K1", "alice")]);
    assert_eq!(
        do_command("contacts remove alice\n", &mut session, &mut book, &status),
        Action::Contacts(ContactsReport::Removed)
    );
    assert_eq!(book.len(), 0);
}

#[test]
fn dispatch_of_what_was_read() {
    let mut session = Session::new();
    let mut book = AddressBook::new();
    let status = ConfigStatus::Missing;
    assert_eq!(dispatch(Ok(None), &mut session, &mut book, &status), Action::Nothing);
    assert_eq!(
        dispatch(
            Err(Wallet713Error::UnknownCommand("x".to_string())),
            &mut session,
            &mut book,
            &status
        ),
        Action::NotImplemented("x".to_string())
    );
    assert_eq!(
        dispatch(
            Err(Wallet713Error::MissingArgument("id".to_string())),
            &mut session,
            &mut book,
            &status
        ),
        Action::Fail(Wallet713Error::MissingArgument("id".to_string()))
    );
}

#[test]
fn listen_line_with_empty_uri_and_empty_key_reports_the_uri() {
    let mut session = Session::new();
    let mut book = AddressBook::new();
    let action = do_command("listen\n", &mut session, &mut book, &loaded("", ""));
    assert_eq!(
        action,
        Action::Fail(Wallet713Error::ConfigMissingValue("gribox uri".to_string()))
    );
    assert_eq!(session.connection, Connection::Absent);
}

#[test]
fn only_adding_and_removing_change_the_book() {
    assert!(Action::Contacts(ContactsReport::Added).changes_book());
    assert!(Action::Contacts(ContactsReport::Removed).changes_book());
    assert!(!Action::Contacts(ContactsReport::EmptyBook).changes_book());
    assert!(!Action::Contacts(ContactsReport::Listing(vec![Contact::new("K1", "alice")]))
        .changes_book());
    assert!(!Action::Nothing.changes_book());
    assert!(!Action::Exit.changes_book());
    assert!(!Action::Fail(Wallet713Error::DuplicateContact("alice".to_string())).changes_book());
}
