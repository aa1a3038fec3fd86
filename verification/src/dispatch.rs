//! The command dispatcher: from a line of input to what is to be done.
//!
//! The library does what it can do itself: it reads the line, changes the
//! address book and checks the configuration for `listen`. What needs the
//! wallet, the relay or the disk it hands back as an `Action` for the caller
//! to carry out.

use vstd::prelude::*;
use vstd::string::*;
use crate::command::{
    parsed_view,
    CommandView,
    ContactsCommand,
    ContactsCommandView,
    ParsedCommand,
};
use crate::config::{ConfigOptions, ConfigOptionsView};
use crate::contacts::{
    contact_views,
    spec_add,
    spec_remove,
    AddressBook,
    Contact,
    ContactView,
};
use crate::error::{ErrorView, Wallet713Error};
use crate::parser::{spec_parse, Parser};
use crate::session::{
    connection_after_listen,
    do_listen,
    spec_listen,
    ClientStart,
    ClientStartView,
    ConfigStatus,
    ConfigStatusView,
    Connection,
    Session,
};

verus! {

/// How many confirmations an output needs before `send` may spend it.
pub const MINIMUM_CONFIRMATIONS: u64 = 10;

/// How many change outputs `send` makes.
pub const CHANGE_OUTPUTS: usize = 1;

/// The last number that `send` hands to the wallet.
pub const LOCK_HEIGHT: usize = 500;

/// The account that every command works on.
pub open spec fn default_account() -> Seq<char> {
    "default"@
}

/// The way in which `send` selects outputs.
pub open spec fn selection_strategy() -> Seq<char> {
    "all"@
}

/// What the `contacts` command did.
#[derive(Debug, Clone, PartialEq, Eq)]
pub enum ContactsReport {
    /// The contact was added.
    Added,
    /// The contact was removed.
    Removed,
    /// The contacts of the book, of which there is at least one.
    Listing(Vec<Contact>),
    /// The book holds no contact.
    EmptyBook,
}

/// A `ContactsReport` with the contacts by their views.
pub ghost enum ContactsReportView {
    Added,
    Removed,
    Listing(Seq<ContactView>),
    EmptyBook,
}

impl View for ContactsReport {
    type V = ContactsReportView;

    open spec fn view(&self) -> ContactsReportView {
        match self {
            ContactsReport::Added => ContactsReportView::Added,
            ContactsReport::Removed => ContactsReportView::Removed,
            ContactsReport::Listing(list) => ContactsReportView::Listing(contact_views(list@)),
            ContactsReport::EmptyBook => ContactsReportView::EmptyBook,
        }
    }
}

/// What is to be done for a line of input.
#[derive(Debug, Clone, PartialEq, Eq)]
pub enum Action {
    /// Nothing: the line held no command.
    Nothing,
    /// End the process with exit code 0.
    Exit,
    /// Carry out `config` with these options.
    Config(ConfigOptions),
    /// Initialise the wallet.
    Init { password: String },
    /// Start the relay client.
    StartClient(ClientStart),
    /// Subscribe at the relay.
    Subscribe,
    /// Unsubscribe at the relay.
    Unsubscribe,
    /// Stop the relay client.
    StopClient,
    /// Show what the account holds.
    Info { password: String, account: String },
    /// Show the transactions of the account.
    Txs { password: String, account: String },
    /// Show the outputs of the account.
    Outputs { password: String, account: String, show_spent: bool },
    /// Post a transaction again.
    Repost { password: String, id: u32, fluff: bool },
    /// Cancel a transaction.
    Cancel { password: String, id: u32 },
    /// Send an amount, given in the smallest unit.
    Send {
        password: String,
        account: String,
        to: String,
        amount: u64,
        minimum_confirmations: u64,
        selection_strategy: String,
        change_outputs: usize,
        lock_height: usize,
    },
    /// Restore the wallet.
    Restore { password: String },
    /// Tell the user what `contacts` did; the book has changed where a
    /// contact was added or removed.
    Contacts(ContactsReport),
    /// Show the challenge of the relay.
    Challenge,
    /// Tell the user that no command of this name is implemented.
    NotImplemented(String),
    /// Tell the user of the failure.
    Fail(Wallet713Error),
}

/// An `Action` with each text as a sequence of characters.
pub ghost enum ActionView {
    Nothing,
    Exit,
    Config(ConfigOptionsView),
    Init { password: Seq<char> },
    StartClient(ClientStartView),
    Subscribe,
    Unsubscribe,
    StopClient,
    Info { password: Seq<char>, account: Seq<char> },
    Txs { password: Seq<char>, account: Seq<char> },
    Outputs { password: Seq<char>, account: Seq<char>, show_spent: bool },
    Repost { password: Seq<char>, id: u32, fluff: bool },
    Cancel { password: Seq<char>, id: u32 },
    Send {
        password: Seq<char>,
        account: Seq<char>,
        to: Seq<char>,
        amount: u64,
        minimum_confirmations: u64,
        selection_strategy: Seq<char>,
        change_outputs: usize,
        lock_height: usize,
    },
    Restore { password: Seq<char> },
    Contacts(ContactsReportView),
    Challenge,
    NotImplemented(Seq<char>),
    Fail(ErrorView),
}

impl View for Action {
    type V = ActionView;

    open spec fn view(&self) -> ActionView {
        match self {
            Action::Nothing => ActionView::Nothing,
            Action::Exit => ActionView::Exit,
            Action::Config(options) => ActionView::Config(options@),
            Action::Init { password } => ActionView::Init { password: password@ },
            Action::StartClient(start) => ActionView::StartClient(start@),
            Action::Subscribe => ActionView::Subscribe,
            Action::Unsubscribe => ActionView::Unsubscribe,
            Action::StopClient => ActionView::StopClient,
            Action::Info { password, account } => ActionView::Info {
                password: password@,
                account: account@,
            },
            Action::Txs { password, account } => ActionView::Txs {
                password: password@,
                account: account@,
            },
            Action::Outputs { password, account, show_spent } => ActionView::Outputs {
                password: password@,
                account: account@,
                show_spent: *show_spent,
            },
            Action::Repost { password, id, fluff } => ActionView::Repost {
                password: password@,
                id: *id,
                fluff: *fluff,
            },
            Action::Cancel { password, id } => ActionView::Cancel { password: password@, id: *id },
            Action::Send {
                password,
                account,
                to,
                amount,
                minimum_confirmations,
                selection_strategy,
                change_outputs,
                lock_height,
            } => ActionView::Send {
                password: password@,
                account: account@,
                to: to@,
                amount: *amount,
                minimum_confirmations: *minimum_confirmations,
                selection_strategy: selection_strategy@,
                change_outputs: *change_outputs,
                lock_height: *lock_height,
            },
            Action::Restore { password } => ActionView::Restore { password: password@ },
            Action::Contacts(report) => ActionView::Contacts(report@),
            Action::Challenge => ActionView::Challenge,
            Action::NotImplemented(name) => ActionView::NotImplemented(name@),
            Action::Fail(e) => ActionView::Fail(e@),
        }
    }
}

/// Whether an action tells of a change to the address book, which is then
/// to be persisted: a contact was added or removed.
pub open spec fn spec_changes_book(action: ActionView) -> bool {
    action == ActionView::Contacts(ContactsReportView::Added) || action == ActionView::Contacts(
        ContactsReportView::Removed,
    )
}

impl Action {
    /// Whether the action tells of a change to the address book, which is
    /// then to be persisted.
    pub fn changes_book(&self) -> (r: bool)
        ensures
            r == spec_changes_book(self@),
    {
        match self {
            Action::Contacts(ContactsReport::Added) => true,
            Action::Contacts(ContactsReport::Removed) => true,
            _ => false,
        }
    }
}

/// What `contacts` does to a book and what it reports: the book after it
/// and the report, or the failure, with which the book stays as it was.
/// Listing an empty book reports that it is empty.
pub open spec fn spec_contacts_step(book: Seq<ContactView>, what: ContactsCommandView) -> Result<
    (Seq<ContactView>, ContactsReportView),
    ErrorView,
> {
    match what {
        ContactsCommandView::Add { name, public_key } => match spec_add(
            book,
            ContactView { public_key, name },
        ) {
            Ok(after) => Ok((after, ContactsReportView::Added)),
            Err(e) => Err(e),
        },
        ContactsCommandView::Remove { name } => match spec_remove(book, name) {
            Ok(after) => Ok((after, ContactsReportView::Removed)),
            Err(e) => Err(e),
        },
        ContactsCommandView::List => if book.len() == 0 {
            Ok((book, ContactsReportView::EmptyBook))
        } else {
            Ok((book, ContactsReportView::Listing(book)))
        },
    }
}

/// The book after `contacts`: changed only where the command succeeds.
pub open spec fn book_after(book: Seq<ContactView>, what: ContactsCommandView) -> Seq<ContactView> {
    match spec_contacts_step(book, what) {
        Ok(pair) => pair.0,
        Err(_) => book,
    }
}

/// What is to be done for a command that needs neither the address book nor
/// the configuration, which is every command but `contacts` and `listen`:
/// the command itself, with the account that every command works on and the
/// fixed arguments of `repost` and `send`.
pub open spec fn spec_route(command: CommandView) -> ActionView
    recommends
        !(command is Contacts),
        !(command is Listen),
{
    match command {
        CommandView::Config(options) => ActionView::Config(options),
        CommandView::Init { password } => ActionView::Init { password },
        CommandView::Subscribe => ActionView::Subscribe,
        CommandView::Unsubscribe => ActionView::Unsubscribe,
        CommandView::Stop => ActionView::StopClient,
        CommandView::Info { password } => ActionView::Info { password, account: default_account() },
        CommandView::Txs { password } => ActionView::Txs { password, account: default_account() },
        CommandView::Outputs { password, show_spent } => ActionView::Outputs {
            password,
            account: default_account(),
            show_spent,
        },
        CommandView::Repost { password, id } => ActionView::Repost { password, id, fluff: false },
        CommandView::Cancel { password, id } => ActionView::Cancel { password, id },
        CommandView::Send { password, to, amount } => ActionView::Send {
            password,
            account: default_account(),
            to,
            amount,
            minimum_confirmations: MINIMUM_CONFIRMATIONS,
            selection_strategy: selection_strategy(),
            change_outputs: CHANGE_OUTPUTS,
            lock_height: LOCK_HEIGHT,
        },
        CommandView::Restore { password } => ActionView::Restore { password },
        CommandView::Challenge => ActionView::Challenge,
        CommandView::Exit => ActionView::Exit,
        CommandView::Listen { password } => arbitrary(),
        CommandView::Contacts(what) => arbitrary(),
    }
}

/// What is to be done for what a line was read as, with the book and the
/// configuration as they are. A name that is no command's is answered, not
/// failed; every other failure is handed on as it is.
pub open spec fn spec_action(
    parsed: Result<Option<CommandView>, ErrorView>,
    book: Seq<ContactView>,
    config: ConfigStatusView,
) -> ActionView {
    match parsed {
        Ok(None) => ActionView::Nothing,
        Err(ErrorView::UnknownCommand(name)) => ActionView::NotImplemented(name),
        Err(e) => ActionView::Fail(e),
        Ok(Some(CommandView::Contacts(what))) => match spec_contacts_step(book, what) {
            Ok(pair) => ActionView::Contacts(pair.1),
            Err(e) => ActionView::Fail(e),
        },
        Ok(Some(CommandView::Listen { password })) => match spec_listen(config, password) {
            Ok(start) => ActionView::StartClient(start),
            Err(e) => ActionView::Fail(e),
        },
        Ok(Some(command)) => spec_route(command),
    }
}

/// The book after a line: changed by `contacts` alone.
pub open spec fn spec_book_after(
    parsed: Result<Option<CommandView>, ErrorView>,
    book: Seq<ContactView>,
) -> Seq<ContactView> {
    match parsed {
        Ok(Some(CommandView::Contacts(what))) => book_after(book, what),
        _ => book,
    }
}

/// The state of the relay client after a line: changed by `listen` alone.
pub open spec fn spec_connection_after(
    parsed: Result<Option<CommandView>, ErrorView>,
    before: Connection,
    config: ConfigStatusView,
) -> Connection {
    match parsed {
        Ok(Some(CommandView::Listen { password })) => connection_after_listen(
            before,
            config,
            password,
        ),
        _ => before,
    }
}

/// Carries out the `contacts` command on the book.
pub fn do_contacts(args: &ContactsCommand, address_book: &mut AddressBook) -> (r: Result<
    ContactsReport,
    Wallet713Error,
>)
    requires
        old(address_book).wf(),
    ensures
        final(address_book).wf(),
        final(address_book)@ == book_after(old(address_book)@, args@),
        match spec_contacts_step(old(address_book)@, args@) {
            Ok(pair) => r is Ok && r->Ok_0@ == pair.1,
            Err(e) => r is Err && r->Err_0@ == e,
        },
{
    match args {
        ContactsCommand::Add { name, public_key } => {
            let contact = Contact::new(public_key.as_str(), name.as_str());
            match address_book.add_contact(&contact) {
                Ok(()) => Ok(ContactsReport::Added),
                Err(e) => Err(e),
            }
        },
        ContactsCommand::Remove { name } => {
            match address_book.remove_contact_by_name(name.as_str()) {
                Ok(()) => Ok(ContactsReport::Removed),
                Err(e) => Err(e),
            }
        },
        ContactsCommand::List => {
            let contacts = address_book.contact_iter();
            if contacts.len() == 0 {
                Ok(ContactsReport::EmptyBook)
            } else {
                Ok(ContactsReport::Listing(contacts))
            }
        },
    }
}

/// What is to be done for a command that needs neither the address book nor
/// the configuration.
fn route(command: ParsedCommand) -> (action: Action)
    requires
        !(command is Contacts),
        !(command is Listen),
    ensures
        action@ == spec_route(command@),
{
    match command {
        ParsedCommand::Config(options) => Action::Config(options),
        ParsedCommand::Init { password } => Action::Init { password },
        ParsedCommand::Subscribe => Action::Subscribe,
        ParsedCommand::Unsubscribe => Action::Unsubscribe,
        ParsedCommand::Stop => Action::StopClient,
        ParsedCommand::Info { password } => Action::Info {
            password,
            account: "default".to_owned(),
        },
        ParsedCommand::Txs { password } => Action::Txs { password, account: "default".to_owned() },
        ParsedCommand::Outputs { password, show_spent } => Action::Outputs {
            password,
            account: "default".to_owned(),
            show_spent,
        },
        ParsedCommand::Repost { password, id } => Action::Repost { password, id, fluff: false },
        ParsedCommand::Cancel { password, id } => Action::Cancel { password, id },
        ParsedCommand::Send { password, to, amount } => Action::Send {
            password,
            account: "default".to_owned(),
            to,
            amount,
            minimum_confirmations: MINIMUM_CONFIRMATIONS,
            selection_strategy: "all".to_owned(),
            change_outputs: CHANGE_OUTPUTS,
            lock_height: LOCK_HEIGHT,
        },
        ParsedCommand::Restore { password } => Action::Restore { password },
        ParsedCommand::Challenge => Action::Challenge,
        ParsedCommand::Exit => Action::Exit,
        ParsedCommand::Listen { password } => unreached(),
        ParsedCommand::Contacts(what) => unreached(),
    }
}

/// Says what is to be done for what a line was read as, and does what the
/// library can do of it: `contacts` changes the book, and `listen` makes the
/// session await the client where the configuration allows the start.
pub fn dispatch(
    parsed: Result<Option<ParsedCommand>, Wallet713Error>,
    session: &mut Session,
    address_book: &mut AddressBook,
    config: &ConfigStatus,
) -> (action: Action)
    requires
        old(address_book).wf(),
    ensures
        final(address_book).wf(),
        action@ == spec_action(parsed_view(parsed), old(address_book)@, config@),
        final(address_book)@ == spec_book_after(
            parsed_view(parsed),
            old(address_book)@,
        ),
        final(session).connection == spec_connection_after(
            parsed_view(parsed),
            old(session).connection,
            config@,
        ),
{
    match parsed {
        Ok(None) => Action::Nothing,
        Err(Wallet713Error::UnknownCommand(name)) => Action::NotImplemented(name),
        Err(e) => Action::Fail(e),
        Ok(Some(ParsedCommand::Contacts(what))) => {
            match do_contacts(&what, address_book) {
                Ok(report) => Action::Contacts(report),
                Err(e) => Action::Fail(e),
            }
        },
        Ok(Some(ParsedCommand::Listen { password })) => {
            match do_listen(session, config, password.as_str()) {
                Ok(start) => Action::StartClient(start),
                Err(e) => Action::Fail(e),
            }
        },
        Ok(Some(command)) => route(command),
    }
}

/// Reads a line of input, says what is to be done for it, and does what the
/// library can do of it. The session and the book change as the line asks
/// and no further: a line that fails leaves both as they were.
pub fn do_command(
    command: &str,
    session: &mut Session,
    address_book: &mut AddressBook,
    config: &ConfigStatus,
) -> (action: Action)
    requires
        old(address_book).wf(),
    ensures
        final(address_book).wf(),
        action@ == spec_action(spec_parse(command@), old(address_book)@, config@),
        final(address_book)@ == spec_book_after(spec_parse(command@), old(address_book)@),
        final(session).connection == spec_connection_after(
            spec_parse(command@),
            old(session).connection,
            config@,
        ),
{
    let parsed = Parser::parse(command);
    dispatch(parsed, session, address_book, config)
}

/// A line that fails changes neither the book nor the state of the client.
pub proof fn lemma_failed_line_changes_nothing(
    parsed: Result<Option<CommandView>, ErrorView>,
    book: Seq<ContactView>,
    before: Connection,
    config: ConfigStatusView,
)
    requires
        spec_action(parsed, book, config) is Fail || spec_action(parsed, book, config)
            is NotImplemented,
    ensures
        spec_book_after(parsed, book) == book,
        spec_connection_after(parsed, before, config) == before,
{
}

/// A line changes the book only where its action says so: after every
/// other action the book is as it was, and nothing is to be persisted.
pub proof fn lemma_book_changes_are_told(
    parsed: Result<Option<CommandView>, ErrorView>,
    book: Seq<ContactView>,
    config: ConfigStatusView,
)
    requires
        !spec_changes_book(spec_action(parsed, book, config)),
    ensures
        spec_book_after(parsed, book) == book,
{
}

/// Listing never reports nothing: the report is that the book is empty, or
/// it holds every contact of the book, of which there is at least one.
pub proof fn lemma_listing_reports(book: Seq<ContactView>)
    ensures
        match spec_contacts_step(book, ContactsCommandView::List) {
            Ok(pair) => pair.0 == book && (pair.1 == ContactsReportView::EmptyBook
                <==> book.len() == 0) && (book.len() > 0 ==> pair.1
                == ContactsReportView::Listing(book)),
            Err(_) => false,
        },
{
}

} // verus!
