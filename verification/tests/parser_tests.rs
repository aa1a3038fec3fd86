use wallet713::command::{ContactsCommand, ParsedCommand};
use wallet713::config::ConfigOptions;
use wallet713::error::Wallet713Error;
use wallet713::parser::Parser;

fn parsed(line: &str) -> ParsedCommand {
    match Parser::parse(line) {
        Ok(Some(command)) => command,
        other => panic!("no command for {:?}: {:?}", line, other),
    }
}

fn failure(line: &str) -> Wallet713Error {
    match Parser::parse(line) {
        Err(e) => e,
        other => panic!("no failure for {:?}: {:?}", line, other),
    }
}

#[test]
fn send_without_password_defaults_to_empty_password() {
    assert_eq!(
        parsed("send --to bob --amount 5"),
        ParsedCommand::Send {
            password: String::new(),
            to: "bob".to_string(),
            amount: 5_000_000_000,
        }
    );
}

#[test]
fn send_with_password_and_fraction() {
    assert_eq!(
        parsed("send secret --amount 1.5 --to alice\n"),
        ParsedCommand::Send {
            password: "secret".to_string(),
            to: "alice".to_string(),
            amount: 1_500_000_000,
        }
    );
}

#[test]
fn repost_with_word_for_id_is_invalid() {
    assert_eq!(failure("repost abc"), Wallet713Error::InvalidTxId("abc".to_string()));
}

#[test]
fn repost_with_number_gives_id() {
    assert_eq!(
        parsed("repost 7"),
        ParsedCommand::Repost { password: String::new(), id: 7 }
    );
}

#[test]
fn cancel_takes_password_before_id() {
    assert_eq!(
        parsed("cancel hunter2 42"),
        ParsedCommand::Cancel { password: "hunter2".to_string(), id: 42 }
    );
}

#[test]
fn empty_line_gives_no_command() {
    assert_eq!(Parser::parse(""), Ok(None));
    assert_eq!(Parser::parse("\n"), Ok(None));
    assert_eq!(Parser::parse("  \t \r\n"), Ok(None));
}

#[test]
fn unknown_name_is_reported() {
    assert_eq!(failure("frobnicate now"), Wallet713Error::UnknownCommand("frobnicate".to_string()));
}

#[test]
fn contacts_alone_lists() {
    assert_eq!(parsed("contacts"), ParsedCommand::Contacts(ContactsCommand::List));
}

#[test]
fn config_reads_every_option() {
    assert_eq!(
        parsed("config --uri ws://relay --generate-keys --node-secret s3 --data-path /tmp/w"),
        ParsedCommand::Config(ConfigOptions {
            data_path: Some("/tmp/w".to_string()),
            uri: Some("ws://relay".to_string()),
            private_key: None,
            node_uri: None,
            node_secret: Some("s3".to_string()),
            generate_keys: true,
        })
    );
}

#[test]
fn commands_without_arguments() {
    assert_eq!(parsed("exit"), ParsedCommand::Exit);
    assert_eq!(parsed("subscribe"), ParsedCommand::Subscribe);
    assert_eq!(parsed("unsubscribe"), ParsedCommand::Unsubscribe);
    assert_eq!(parsed("stop"), ParsedCommand::Stop);
    assert_eq!(parsed("challenge"), ParsedCommand::Challenge);
}

#[test]
fn command_without_arguments_refuses_one() {
    assert_eq!(failure("exit now"), Wallet713Error::UnexpectedArgument("now".to_string()));
    assert_eq!(failure("stop --force"), Wallet713Error::UnexpectedArgument("--force".to_string()));
}

#[test]
fn password_is_optional() {
    assert_eq!(parsed("init"), ParsedCommand::Init { password: String::new() });
    assert_eq!(parsed("init pw"), ParsedCommand::Init { password: "pw".to_string() });
    assert_eq!(parsed("listen pw"), ParsedCommand::Listen { password: "pw".to_string() });
    assert_eq!(parsed("info"), ParsedCommand::Info { password: String::new() });
    assert_eq!(parsed("txs pw"), ParsedCommand::Txs { password: "pw".to_string() });
    assert_eq!(parsed("restore pw"), ParsedCommand::Restore { password: "pw".to_string() });
}

#[test]
fn second_password_is_refused() {
    assert_eq!(failure("init a b"), Wallet713Error::UnexpectedArgument("b".to_string()));
}

#[test]
fn outputs_reads_its_flag() {
    assert_eq!(
        parsed("outputs"),
        ParsedCommand::Outputs { password: String::new(), show_spent: false }
    );
    assert_eq!(
        parsed("outputs --show-spent pw"),
        ParsedCommand::Outputs { password: "pw".to_string(), show_spent: true }
    );
    assert_eq!(
        failure("outputs --show-spent --show-spent"),
        Wallet713Error::RepeatedArgument("--show-spent".to_string())
    );
}

#[test]
fn repost_needs_an_id() {
    assert_eq!(failure("repost"), Wallet713Error::MissingArgument("id".to_string()));
    assert_eq!(failure("cancel"), Wallet713Error::MissingArgument("id".to_string()));
}

#[test]
fn repost_refuses_a_third_argument() {
    assert_eq!(failure("repost pw 7 8"), Wallet713Error::UnexpectedArgument("8".to_string()));
}

#[test]
fn cancel_with_word_for_id_is_invalid() {
    assert_eq!(failure("cancel pw 1x"), Wallet713Error::InvalidTxId("1x".to_string()));
    assert_eq!(failure("cancel -3"), Wallet713Error::InvalidTxId("-3".to_string()));
    assert_eq!(
        failure("cancel 4294967296"),
        Wallet713Error::InvalidTxId("4294967296".to_string())
    );
}

#[test]
fn largest_id_is_read() {
    assert_eq!(
        parsed("repost 4294967295"),
        ParsedCommand::Repost { password: String::new(), id: 4294967295 }
    );
}

#[test]
fn send_needs_address_and_amount() {
    assert_eq!(failure("send --amount 5"), Wallet713Error::MissingArgument("to".to_string()));
    assert_eq!(failure("send --to bob"), Wallet713Error::MissingArgument("amount".to_string()));
    assert_eq!(failure("send"), Wallet713Error::MissingArgument("to".to_string()));
}

#[test]
fn send_with_malformed_amount_is_invalid() {
    assert_eq!(
        failure("send --to bob --amount five"),
        Wallet713Error::InvalidAmount("five".to_string())
    );
    assert_eq!(
        failure("send --to bob --amount 1,5"),
        Wallet713Error::InvalidAmount("1,5".to_string())
    );
}

#[test]
fn option_without_value_is_reported() {
    assert_eq!(failure("send --to"), Wallet713Error::MissingValue("--to".to_string()));
    assert_eq!(failure("config --uri"), Wallet713Error::MissingValue("--uri".to_string()));
}

#[test]
fn option_given_twice_is_reported() {
    assert_eq!(
        failure("send --to a --to b --amount 1"),
        Wallet713Error::RepeatedArgument("--to".to_string())
    );
}

#[test]
fn unknown_option_is_reported() {
    assert_eq!(
        failure("config --colour blue"),
        Wallet713Error::UnexpectedArgument("--colour".to_string())
    );
    assert_eq!(failure("config extra"), Wallet713Error::UnexpectedArgument("extra".to_string()));
}

#[test]
fn config_alone_names_no_option() {
    assert_eq!(
        parsed("config"),
        ParsedCommand::Config(ConfigOptions {
            data_path: None,
            uri: None,
            private_key: None,
            node_uri: None,
            node_secret: None,
            generate_keys: false,
        })
    );
}

#[test]
fn config_reads_key_and_node() {
    assert_eq!(
        parsed("config --private-key ab12 --node-uri http://node:3413"),
        ParsedCommand::Config(ConfigOptions {
            data_path: None,
            uri: None,
            private_key: Some("ab12".to_string()),
            node_uri: Some("http://node:3413".to_string()),
            node_secret: None,
            generate_keys: false,
        })
    );
}

#[test]
fn contacts_add_and_remove() {
    assert_eq!(
        parsed("contacts add alice K1"),
        ParsedCommand::Contacts(ContactsCommand::Add {
            name: "alice".to_string(),
            public_key: "K1".to_string(),
        })
    );
    assert_eq!(
        parsed("contacts remove alice"),
        ParsedCommand::Contacts(ContactsCommand::Remove { name: "alice".to_string() })
    );
}

#[test]
fn contacts_subcommands_need_their_arguments() {
    assert_eq!(failure("contacts add"), Wallet713Error::MissingArgument("name".to_string()));
    assert_eq!(
        failure("contacts add alice"),
        Wallet713Error::MissingArgument("public-key".to_string())
    );
    assert_eq!(failure("contacts remove"), Wallet713Error::MissingArgument("name".to_string()));
    assert_eq!(
        failure("contacts add alice K1 K2"),
        Wallet713Error::UnexpectedArgument("K2".to_string())
    );
    assert_eq!(
        failure("contacts remove alice bob"),
        Wallet713Error::UnexpectedArgument("bob".to_string())
    );
    assert_eq!(failure("contacts rename"), Wallet713Error::UnknownCommand("rename".to_string()));
}

#[test]
fn white_space_around_words_is_ignored() {
    assert_eq!(
        parsed("  \trepost   pw \t 9  \r\n"),
        ParsedCommand::Repost { password: "pw".to_string(), id: 9 }
    );
}

#[test]
fn names_are_case_sensitive() {
    assert_eq!(failure("EXIT"), Wallet713Error::UnknownCommand("EXIT".to_string()));
}
