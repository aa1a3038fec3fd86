//! The commands that a line of input can ask for.

use vstd::prelude::*;
use vstd::string::*;
use crate::config::{ConfigOptions, ConfigOptionsView};
use crate::error::{ErrorView, Wallet713Error};

verus! {

/// What the `contacts` command is asked to do.
#[derive(Debug, Clone, PartialEq, Eq)]
pub enum ContactsCommand {
    /// Show the contacts of the book.
    List,
    /// Add a contact.
    Add { name: String, public_key: String },
    /// Remove the contact of this name.
    Remove { name: String },
}

/// A `ContactsCommand` with each text as a sequence of characters.
pub ghost enum ContactsCommandView {
    List,
    Add { name: Seq<char>, public_key: Seq<char> },
    Remove { name: Seq<char> },
}

impl View for ContactsCommand {
    type V = ContactsCommandView;

    open spec fn view(&self) -> ContactsCommandView {
        match self {
            ContactsCommand::List => ContactsCommandView::List,
            ContactsCommand::Add { name, public_key } => ContactsCommandView::Add {
                name: name@,
                public_key: public_key@,
            },
            ContactsCommand::Remove { name } => ContactsCommandView::Remove { name: name@ },
        }
    }
}

/// A line of input that was read and found well formed: the command and its
/// arguments, each in its own type. A transaction id is a number and an
/// amount is in the smallest unit already. Whether the id or the contact
/// exists is not known at this point.
#[derive(Debug, Clone, PartialEq, Eq)]
pub enum ParsedCommand {
    Config(ConfigOptions),
    Init { password: String },
    Listen { password: String },
    Subscribe,
    Unsubscribe,
    Stop,
    Info { password: String },
    Txs { password: String },
    Outputs { password: String, show_spent: bool },
    Repost { password: String, id: u32 },
    Cancel { password: String, id: u32 },
    Send { password: String, to: String, amount: u64 },
    Restore { password: String },
    Contacts(ContactsCommand),
    Challenge,
    Exit,
}

/// A `ParsedCommand` with each text as a sequence of characters.
pub ghost enum CommandView {
    Config(ConfigOptionsView),
    Init { password: Seq<char> },
    Listen { password: Seq<char> },
    Subscribe,
    Unsubscribe,
    Stop,
    Info { password: Seq<char> },
    Txs { password: Seq<char> },
    Outputs { password: Seq<char>, show_spent: bool },
    Repost { password: Seq<char>, id: u32 },
    Cancel { password: Seq<char>, id: u32 },
    Send { password: Seq<char>, to: Seq<char>, amount: u64 },
    Restore { password: Seq<char> },
    Contacts(ContactsCommandView),
    Challenge,
    Exit,
}

impl View for ParsedCommand {
    type V = CommandView;

    open spec fn view(&self) -> CommandView {
        match self {
            ParsedCommand::Config(options) => CommandView::Config(options@),
            ParsedCommand::Init { password } => CommandView::Init { password: password@ },
            ParsedCommand::Listen { password } => CommandView::Listen { password: password@ },
            ParsedCommand::Subscribe => CommandView::Subscribe,
            ParsedCommand::Unsubscribe => CommandView::Unsubscribe,
            ParsedCommand::Stop => CommandView::Stop,
            ParsedCommand::Info { password } => CommandView::Info { password: password@ },
            ParsedCommand::Txs { password } => CommandView::Txs { password: password@ },
            ParsedCommand::Outputs { password, show_spent } => CommandView::Outputs {
                password: password@,
                show_spent: *show_spent,
            },
            ParsedCommand::Repost { password, id } => CommandView::Repost {
                password: password@,
                id: *id,
            },
            ParsedCommand::Cancel { password, id } => CommandView::Cancel {
                password: password@,
                id: *id,
            },
            ParsedCommand::Send { password, to, amount } => CommandView::Send {
                password: password@,
                to: to@,
                amount: *amount,
            },
            ParsedCommand::Restore { password } => CommandView::Restore { password: password@ },
            ParsedCommand::Contacts(what) => CommandView::Contacts(what@),
            ParsedCommand::Challenge => CommandView::Challenge,
            ParsedCommand::Exit => CommandView::Exit,
        }
    }
}

/// The view of a command or the failure in its place.
pub open spec fn command_result_view(r: Result<ParsedCommand, Wallet713Error>) -> Result<
    CommandView,
    ErrorView,
> {
    match r {
        Ok(c) => Ok(c@),
        Err(e) => Err(e@),
    }
}

/// The view of what a line was read as: a command, no command, or a failure.
pub open spec fn parsed_view(r: Result<Option<ParsedCommand>, Wallet713Error>) -> Result<
    Option<CommandView>,
    ErrorView,
> {
    match r {
        Ok(Some(c)) => Ok(Some(c@)),
        Ok(None) => Ok(None),
        Err(e) => Err(e@),
    }
}

} // verus!
