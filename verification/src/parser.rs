//! The command interpreter: from a line of text to a command.
//!
//! A line is a command's name followed by its arguments, separated by white
//! space. An argument that starts with two hyphens is an option, which takes
//! the next word as its value, or a flag; the other arguments are positional.
//! A password, where a command takes one, is a positional argument that may
//! be left out, and is then empty.

use vstd::prelude::*;
use vstd::string::*;
use crate::amount::{resolve_amount, spec_amount};
use crate::command::{
    command_result_view,
    parsed_view,
    CommandView,
    ContactsCommand,
    ContactsCommandView,
    ParsedCommand,
};
use crate::config::{ConfigOptions, ConfigOptionsView};
use crate::error::{ErrorView, Wallet713Error};
use crate::number::{parse_tx_id, spec_tx_id};
use crate::scan::{copy_opt, lemma_scan_keeps_shape, scan, spec_scan};
use crate::text::{same_text, split_line, split_words, views_of};

verus! {

/// The options of `config` that take a value, in the order of the fields.
pub open spec fn config_value_names() -> Seq<Seq<char>> {
    seq!["data-path"@, "uri"@, "private-key"@, "node-uri"@, "node-secret"@]
}

/// The flag of `config`.
pub open spec fn config_flag_names() -> Seq<Seq<char>> {
    seq!["generate-keys"@]
}

/// The flag of `outputs`.
pub open spec fn outputs_flag_names() -> Seq<Seq<char>> {
    seq!["show-spent"@]
}

/// The options of `send`.
pub open spec fn send_value_names() -> Seq<Seq<char>> {
    seq!["to"@, "amount"@]
}

/// No names: for a command without options, or without flags.
pub open spec fn no_names() -> Seq<Seq<char>> {
    Seq::empty()
}

/// The password among the positional arguments: the first of them, or the
/// empty password where there is none.
pub open spec fn password_of(positionals: Seq<Seq<char>>) -> Seq<char> {
    if positionals.len() > 0 {
        positionals[0]
    } else {
        Seq::empty()
    }
}

/// A command that takes no argument: any word behind its name is refused.
pub open spec fn spec_bare(args: Seq<Seq<char>>, command: CommandView) -> Result<
    CommandView,
    ErrorView,
> {
    match spec_scan(args, no_names(), no_names()) {
        Err(e) => Err(e),
        Ok(s) => if s.positionals.len() > 0 {
            Err(ErrorView::UnexpectedArgument(s.positionals[0]))
        } else {
            Ok(command)
        },
    }
}

/// The password of a command that takes nothing else.
pub open spec fn spec_password_only(args: Seq<Seq<char>>) -> Result<Seq<char>, ErrorView> {
    match spec_scan(args, no_names(), no_names()) {
        Err(e) => Err(e),
        Ok(s) => if s.positionals.len() > 1 {
            Err(ErrorView::UnexpectedArgument(s.positionals[1]))
        } else {
            Ok(password_of(s.positionals))
        },
    }
}

/// `outputs [password] [--show-spent]`.
pub open spec fn spec_outputs(args: Seq<Seq<char>>) -> Result<CommandView, ErrorView> {
    match spec_scan(args, no_names(), outputs_flag_names()) {
        Err(e) => Err(e),
        Ok(s) => if s.positionals.len() > 1 {
            Err(ErrorView::UnexpectedArgument(s.positionals[1]))
        } else {
            Ok(CommandView::Outputs { password: password_of(s.positionals), show_spent: s.flags[0] })
        },
    }
}

/// The password and the transaction id of `repost` and `cancel`: the id is
/// the last positional argument, the password the one in front of it.
pub open spec fn spec_password_and_id(args: Seq<Seq<char>>) -> Result<(Seq<char>, u32), ErrorView> {
    match spec_scan(args, no_names(), no_names()) {
        Err(e) => Err(e),
        Ok(s) => if s.positionals.len() == 0 {
            Err(ErrorView::MissingArgument("id"@))
        } else if s.positionals.len() > 2 {
            Err(ErrorView::UnexpectedArgument(s.positionals[2]))
        } else {
            let password = if s.positionals.len() == 2 {
                s.positionals[0]
            } else {
                Seq::empty()
            };
            match spec_tx_id(s.positionals.last()) {
                Some(id) => Ok((password, id)),
                None => Err(ErrorView::InvalidTxId(s.positionals.last())),
            }
        },
    }
}

/// `send [password] --to ADDR --amount AMT`.
pub open spec fn spec_send(args: Seq<Seq<char>>) -> Result<CommandView, ErrorView> {
    match spec_scan(args, send_value_names(), no_names()) {
        Err(e) => Err(e),
        Ok(s) => if s.positionals.len() > 1 {
            Err(ErrorView::UnexpectedArgument(s.positionals[1]))
        } else if s.values[0] is None {
            Err(ErrorView::MissingArgument("to"@))
        } else if s.values[1] is None {
            Err(ErrorView::MissingArgument("amount"@))
        } else {
            match spec_amount(s.values[1]->0) {
                Ok(amount) => Ok(
                    CommandView::Send {
                        password: password_of(s.positionals),
                        to: s.values[0]->0,
                        amount,
                    },
                ),
                Err(e) => Err(e),
            }
        },
    }
}

/// `config` with its five options and its flag.
pub open spec fn spec_config(args: Seq<Seq<char>>) -> Result<CommandView, ErrorView> {
    match spec_scan(args, config_value_names(), config_flag_names()) {
        Err(e) => Err(e),
        Ok(s) => if s.positionals.len() > 0 {
            Err(ErrorView::UnexpectedArgument(s.positionals[0]))
        } else {
            Ok(
                CommandView::Config(
                    ConfigOptionsView {
                        data_path: s.values[0],
                        uri: s.values[1],
                        private_key: s.values[2],
                        node_uri: s.values[3],
                        node_secret: s.values[4],
                        generate_keys: s.flags[0],
                    },
                ),
            )
        },
    }
}

/// `contacts add NAME KEY`, without the first two words.
pub open spec fn spec_contacts_add(args: Seq<Seq<char>>) -> Result<CommandView, ErrorView> {
    match spec_scan(args, no_names(), no_names()) {
        Err(e) => Err(e),
        Ok(s) => if s.positionals.len() == 0 {
            Err(ErrorView::MissingArgument("name"@))
        } else if s.positionals.len() == 1 {
            Err(ErrorView::MissingArgument("public-key"@))
        } else if s.positionals.len() > 2 {
            Err(ErrorView::UnexpectedArgument(s.positionals[2]))
        } else {
            Ok(
                CommandView::Contacts(
                    ContactsCommandView::Add { name: s.positionals[0], public_key: s.positionals[1] },
                ),
            )
        },
    }
}

/// `contacts remove NAME`, without the first two words.
pub open spec fn spec_contacts_remove(args: Seq<Seq<char>>) -> Result<CommandView, ErrorView> {
    match spec_scan(args, no_names(), no_names()) {
        Err(e) => Err(e),
        Ok(s) => if s.positionals.len() == 0 {
            Err(ErrorView::MissingArgument("name"@))
        } else if s.positionals.len() > 1 {
            Err(ErrorView::UnexpectedArgument(s.positionals[1]))
        } else {
            Ok(CommandView::Contacts(ContactsCommandView::Remove { name: s.positionals[0] }))
        },
    }
}

/// `contacts [add NAME KEY | remove NAME]`: alone it lists the book.
pub open spec fn spec_contacts(args: Seq<Seq<char>>) -> Result<CommandView, ErrorView> {
    if args.len() == 0 {
        Ok(CommandView::Contacts(ContactsCommandView::List))
    } else if args[0] == "add"@ {
        spec_contacts_add(args.skip(1))
    } else if args[0] == "remove"@ {
        spec_contacts_remove(args.skip(1))
    } else {
        Err(ErrorView::UnknownCommand(args[0]))
    }
}

/// A command that takes a password and nothing else, made by `make`.
pub open spec fn spec_with_password(
    args: Seq<Seq<char>>,
    make: spec_fn(Seq<char>) -> CommandView,
) -> Result<CommandView, ErrorView> {
    match spec_password_only(args) {
        Ok(password) => Ok(make(password)),
        Err(e) => Err(e),
    }
}

/// The command of the given name with the given arguments.
pub open spec fn spec_command(name: Seq<char>, args: Seq<Seq<char>>) -> Result<
    CommandView,
    ErrorView,
> {
    if name == "exit"@ {
        spec_bare(args, CommandView::Exit)
    } else if name == "config"@ {
        spec_config(args)
    } else if name == "init"@ {
        spec_with_password(args, |password: Seq<char>| CommandView::Init { password })
    } else if name == "listen"@ {
        spec_with_password(args, |password: Seq<char>| CommandView::Listen { password })
    } else if name == "subscribe"@ {
        spec_bare(args, CommandView::Subscribe)
    } else if name == "unsubscribe"@ {
        spec_bare(args, CommandView::Unsubscribe)
    } else if name == "stop"@ {
        spec_bare(args, CommandView::Stop)
    } else if name == "info"@ {
        spec_with_password(args, |password: Seq<char>| CommandView::Info { password })
    } else if name == "txs"@ {
        spec_with_password(args, |password: Seq<char>| CommandView::Txs { password })
    } else if name == "contacts"@ {
        spec_contacts(args)
    } else if name == "outputs"@ {
        spec_outputs(args)
    } else if name == "repost"@ {
        match spec_password_and_id(args) {
            Ok((password, id)) => Ok(CommandView::Repost { password, id }),
            Err(e) => Err(e),
        }
    } else if name == "cancel"@ {
        match spec_password_and_id(args) {
            Ok((password, id)) => Ok(CommandView::Cancel { password, id }),
            Err(e) => Err(e),
        }
    } else if name == "send"@ {
        spec_send(args)
    } else if name == "restore"@ {
        spec_with_password(args, |password: Seq<char>| CommandView::Restore { password })
    } else if name == "challenge"@ {
        spec_bare(args, CommandView::Challenge)
    } else {
        Err(ErrorView::UnknownCommand(name))
    }
}

/// What a line is read as: no command where it holds no word, else the
/// command that its first word names, with the other words as arguments.
pub open spec fn spec_parse(line: Seq<char>) -> Result<Option<CommandView>, ErrorView> {
    let words = split_words(line);
    if words.len() == 0 {
        Ok(None)
    } else {
        match spec_command(words[0], words.skip(1)) {
            Ok(c) => Ok(Some(c)),
            Err(e) => Err(e),
        }
    }
}

/// An empty list of names.
fn names0() -> (names: Vec<String>)
    ensures
        views_of(names@) == no_names(),
{
    let names: Vec<String> = Vec::new();
    proof {
        assert(views_of(names@) =~= no_names());
    }
    names
}

/// Puts one more name at the end of a list.
fn push_name(names: &mut Vec<String>, name: &str)
    ensures
        views_of(final(names)@) == views_of(old(names)@).push(name@),
{
    names.push(name.to_owned());
    proof {
        assert(views_of(names@) =~= views_of(old(names)@).push(name@));
    }
}

/// The list of one name.
fn names1(a: &str) -> (names: Vec<String>)
    ensures
        views_of(names@) == seq![a@],
{
    let mut names = names0();
    push_name(&mut names, a);
    proof {
        assert(views_of(names@) =~= seq![a@]);
    }
    names
}

/// The password among the positional arguments.
fn password_in(positionals: &Vec<String>) -> (password: String)
    ensures
        password@ == password_of(views_of(positionals@)),
{
    if positionals.len() > 0 {
        positionals[0].clone()
    } else {
        String::new()
    }
}

/// Reads the arguments of a command that takes none.
fn parse_bare(words: &Vec<String>, from: usize, command: ParsedCommand) -> (r: Result<
    ParsedCommand,
    Wallet713Error,
>)
    requires
        from <= words.len(),
    ensures
        command_result_view(r) == spec_bare(views_of(words@).skip(from as int), command@),
{
    let none = names0();
    match scan(words, from, &none, &none) {
        Err(e) => Err(e),
        Ok(s) => {
            if s.positionals.len() > 0 {
                Err(Wallet713Error::UnexpectedArgument(s.positionals[0].clone()))
            } else {
                Ok(command)
            }
        },
    }
}

/// Reads the password of a command that takes nothing else.
fn parse_password_only(words: &Vec<String>, from: usize) -> (r: Result<String, Wallet713Error>)
    requires
        from <= words.len(),
    ensures
        match spec_password_only(views_of(words@).skip(from as int)) {
            Ok(password) => r is Ok && r->Ok_0@ == password,
            Err(e) => r is Err && r->Err_0@ == e,
        },
{
    let none = names0();
    match scan(words, from, &none, &none) {
        Err(e) => Err(e),
        Ok(s) => {
            if s.positionals.len() > 1 {
                Err(Wallet713Error::UnexpectedArgument(s.positionals[1].clone()))
            } else {
                Ok(password_in(&s.positionals))
            }
        },
    }
}

/// Reads the arguments of `outputs`.
fn parse_outputs(words: &Vec<String>, from: usize) -> (r: Result<ParsedCommand, Wallet713Error>)
    requires
        from <= words.len(),
    ensures
        command_result_view(r) == spec_outputs(views_of(words@).skip(from as int)),
{
    let none = names0();
    let flags = names1("show-spent");
    match scan(words, from, &none, &flags) {
        Err(e) => Err(e),
        Ok(s) => {
            if s.positionals.len() > 1 {
                Err(Wallet713Error::UnexpectedArgument(s.positionals[1].clone()))
            } else {
                proof {
                    assert(s.flags@.len() == 1) by {
                        lemma_scan_keeps_shape(
                            views_of(words@).skip(from as int),
                            no_names(),
                            outputs_flag_names(),
                        );
                    }
                }
                Ok(
                    ParsedCommand::Outputs {
                        password: password_in(&s.positionals),
                        show_spent: s.flags[0],
                    },
                )
            }
        },
    }
}

/// Reads the password and the transaction id of `repost` and `cancel`.
fn parse_password_and_id(words: &Vec<String>, from: usize) -> (r: Result<
    (String, u32),
    Wallet713Error,
>)
    requires
        from <= words.len(),
    ensures
        match spec_password_and_id(views_of(words@).skip(from as int)) {
            Ok(pair) => r is Ok && r->Ok_0.0@ == pair.0 && r->Ok_0.1 == pair.1,
            Err(e) => r is Err && r->Err_0@ == e,
        },
{
    let none = names0();
    match scan(words, from, &none, &none) {
        Err(e) => Err(e),
        Ok(s) => {
            let count: usize = s.positionals.len();
            if count == 0 {
                Err(Wallet713Error::MissingArgument("id".to_owned()))
            } else if count > 2 {
                Err(Wallet713Error::UnexpectedArgument(s.positionals[2].clone()))
            } else {
                let password = if count == 2 {
                    s.positionals[0].clone()
                } else {
                    String::new()
                };
                let raw = &s.positionals[count - 1];
                match parse_tx_id(raw.as_str()) {
                    Some(id) => Ok((password, id)),
                    None => Err(Wallet713Error::InvalidTxId(raw.clone())),
                }
            }
        },
    }
}

/// Reads the arguments of `send`.
fn parse_send(words: &Vec<String>, from: usize) -> (r: Result<ParsedCommand, Wallet713Error>)
    requires
        from <= words.len(),
    ensures
        command_result_view(r) == spec_send(views_of(words@).skip(from as int)),
{
    let none = names0();
    let mut names = names1("to");
    push_name(&mut names, "amount");
    proof {
        assert(views_of(names@) =~= send_value_names());
        lemma_scan_keeps_shape(views_of(words@).skip(from as int), send_value_names(), no_names());
    }
    match scan(words, from, &names, &none) {
        Err(e) => Err(e),
        Ok(s) => {
            if s.positionals.len() > 1 {
                return Err(Wallet713Error::UnexpectedArgument(s.positionals[1].clone()));
            }
            let password = password_in(&s.positionals);
            match (&s.values[0], &s.values[1]) {
                (None, _) => Err(Wallet713Error::MissingArgument("to".to_owned())),
                (Some(_), None) => Err(Wallet713Error::MissingArgument("amount".to_owned())),
                (Some(to), Some(raw)) => {
                    match resolve_amount(raw.as_str()) {
                        Ok(amount) => Ok(
                            ParsedCommand::Send { password, to: to.clone(), amount },
                        ),
                        Err(e) => Err(e),
                    }
                },
            }
        },
    }
}

/// Reads the arguments of `config`.
fn parse_config(words: &Vec<String>, from: usize) -> (r: Result<ParsedCommand, Wallet713Error>)
    requires
        from <= words.len(),
    ensures
        command_result_view(r) == spec_config(views_of(words@).skip(from as int)),
{
    let mut names = names1("data-path");
    push_name(&mut names, "uri");
    push_name(&mut names, "private-key");
    push_name(&mut names, "node-uri");
    push_name(&mut names, "node-secret");
    let flags = names1("generate-keys");
    proof {
        assert(views_of(names@) =~= config_value_names());
        lemma_scan_keeps_shape(
            views_of(words@).skip(from as int),
            config_value_names(),
            config_flag_names(),
        );
    }
    match scan(words, from, &names, &flags) {
        Err(e) => Err(e),
        Ok(s) => {
            if s.positionals.len() > 0 {
                return Err(Wallet713Error::UnexpectedArgument(s.positionals[0].clone()));
            }
            Ok(
                ParsedCommand::Config(
                    ConfigOptions {
                        data_path: copy_opt(&s.values[0]),
                        uri: copy_opt(&s.values[1]),
                        private_key: copy_opt(&s.values[2]),
                        node_uri: copy_opt(&s.values[3]),
                        node_secret: copy_opt(&s.values[4]),
                        generate_keys: s.flags[0],
                    },
                ),
            )
        },
    }
}

/// Reads the arguments of `contacts add`.
fn parse_contacts_add(words: &Vec<String>, from: usize) -> (r: Result<
    ParsedCommand,
    Wallet713Error,
>)
    requires
        from <= words.len(),
    ensures
        command_result_view(r) == spec_contacts_add(views_of(words@).skip(from as int)),
{
    let none = names0();
    match scan(words, from, &none, &none) {
        Err(e) => Err(e),
        Ok(s) => {
            let count: usize = s.positionals.len();
            if count == 0 {
                Err(Wallet713Error::MissingArgument("name".to_owned()))
            } else if count == 1 {
                Err(Wallet713Error::MissingArgument("public-key".to_owned()))
            } else if count > 2 {
                Err(Wallet713Error::UnexpectedArgument(s.positionals[2].clone()))
            } else {
                Ok(
                    ParsedCommand::Contacts(
                        ContactsCommand::Add {
                            name: s.positionals[0].clone(),
                            public_key: s.positionals[1].clone(),
                        },
                    ),
                )
            }
        },
    }
}

/// Reads the arguments of `contacts remove`.
fn parse_contacts_remove(words: &Vec<String>, from: usize) -> (r: Result<
    ParsedCommand,
    Wallet713Error,
>)
    requires
        from <= words.len(),
    ensures
        command_result_view(r) == spec_contacts_remove(views_of(words@).skip(from as int)),
{
    let none = names0();
    match scan(words, from, &none, &none) {
        Err(e) => Err(e),
        Ok(s) => {
            let count: usize = s.positionals.len();
            if count == 0 {
                Err(Wallet713Error::MissingArgument("name".to_owned()))
            } else if count > 1 {
                Err(Wallet713Error::UnexpectedArgument(s.positionals[1].clone()))
            } else {
                Ok(ParsedCommand::Contacts(ContactsCommand::Remove { name: s.positionals[0].clone() }))
            }
        },
    }
}

/// Reads the arguments of `contacts`, which start at `words[from]`.
fn parse_contacts(words: &Vec<String>, from: usize) -> (r: Result<ParsedCommand, Wallet713Error>)
    requires
        from <= words.len(),
    ensures
        command_result_view(r) == spec_contacts(views_of(words@).skip(from as int)),
{
    let ghost args = views_of(words@).skip(from as int);
    if words.len() == from {
        return Ok(ParsedCommand::Contacts(ContactsCommand::List));
    }
    proof {
        assert(args[0] == words@[from as int]@);
        assert(args.skip(1) =~= views_of(words@).skip(from + 1));
    }
    let sub = words[from].as_str();
    if same_text(sub, "add") {
        parse_contacts_add(words, from + 1)
    } else if same_text(sub, "remove") {
        parse_contacts_remove(words, from + 1)
    } else {
        Err(Wallet713Error::UnknownCommand(words[from].clone()))
    }
}

/// Reads the command whose name is `words[0]`.
fn parse_command(words: &Vec<String>) -> (r: Result<ParsedCommand, Wallet713Error>)
    requires
        words.len() > 0,
    ensures
        command_result_view(r) == spec_command(views_of(words@)[0], views_of(words@).skip(1)),
{
    let name = words[0].as_str();
    if same_text(name, "exit") {
        parse_bare(words, 1, ParsedCommand::Exit)
    } else if same_text(name, "config") {
        parse_config(words, 1)
    } else if same_text(name, "init") {
        match parse_password_only(words, 1) {
            Ok(password) => Ok(ParsedCommand::Init { password }),
            Err(e) => Err(e),
        }
    } else if same_text(name, "listen") {
        match parse_password_only(words, 1) {
            Ok(password) => Ok(ParsedCommand::Listen { password }),
            Err(e) => Err(e),
        }
    } else if same_text(name, "subscribe") {
        parse_bare(words, 1, ParsedCommand::Subscribe)
    } else if same_text(name, "unsubscribe") {
        parse_bare(words, 1, ParsedCommand::Unsubscribe)
    } else if same_text(name, "stop") {
        parse_bare(words, 1, ParsedCommand::Stop)
    } else if same_text(name, "info") {
        match parse_password_only(words, 1) {
            Ok(password) => Ok(ParsedCommand::Info { password }),
            Err(e) => Err(e),
        }
    } else if same_text(name, "txs") {
        match parse_password_only(words, 1) {
            Ok(password) => Ok(ParsedCommand::Txs { password }),
            Err(e) => Err(e),
        }
    } else if same_text(name, "contacts") {
        parse_contacts(words, 1)
    } else if same_text(name, "outputs") {
        parse_outputs(words, 1)
    } else if same_text(name, "repost") {
        match parse_password_and_id(words, 1) {
            Ok((password, id)) => Ok(ParsedCommand::Repost { password, id }),
            Err(e) => Err(e),
        }
    } else if same_text(name, "cancel") {
        match parse_password_and_id(words, 1) {
            Ok((password, id)) => Ok(ParsedCommand::Cancel { password, id }),
            Err(e) => Err(e),
        }
    } else if same_text(name, "send") {
        parse_send(words, 1)
    } else if same_text(name, "restore") {
        match parse_password_only(words, 1) {
            Ok(password) => Ok(ParsedCommand::Restore { password }),
            Err(e) => Err(e),
        }
    } else if same_text(name, "challenge") {
        parse_bare(words, 1, ParsedCommand::Challenge)
    } else {
        Err(Wallet713Error::UnknownCommand(words[0].clone()))
    }
}

/// The command interpreter.
pub struct Parser;

impl Parser {
    /// Reads one line of input. A line without a word gives no command. The
    /// first word names the command; a name that is none gives
    /// `UnknownCommand`. The other words must fit the command: each failure
    /// names the word or the argument at fault. Nothing is checked beyond
    /// the form of the arguments.
    pub fn parse(command: &str) -> (r: Result<Option<ParsedCommand>, Wallet713Error>)
        ensures
            parsed_view(r) == spec_parse(command@),
    {
        let words = split_line(command);
        if words.len() == 0 {
            return Ok(None);
        }
        match parse_command(&words) {
            Ok(c) => Ok(Some(c)),
            Err(e) => Err(e),
        }
    }
}

} // verus!
