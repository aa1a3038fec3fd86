//! The session: whether the relay client runs, and what `listen` needs of
//! the configuration before it may start.

use vstd::prelude::*;
use vstd::string::*;
use crate::config::{ConfigView, Wallet713Config};
use crate::error::{ErrorView, Wallet713Error};

verus! {

/// The state of the relay client.
#[derive(Debug, Clone, Copy, PartialEq, Eq, Structural)]
pub enum Connection {
    /// No client runs.
    Absent,
    /// A client was asked to start and has not answered yet.
    Connecting,
    /// The client runs and listens.
    Listening,
}

/// What happened to the relay client outside the library.
#[derive(Debug, Clone, Copy, PartialEq, Eq, Structural)]
pub enum ClientEvent {
    /// The client that was asked for has started.
    Started,
    /// The client that was asked for could not start.
    Failed,
    /// The client has stopped.
    Stopped,
}

/// The state of one run of the program.
#[derive(Debug, Clone, Copy, PartialEq, Eq, Structural)]
pub struct Session {
    /// The state of the relay client.
    pub connection: Connection,
}

/// What reading the stored configuration gave.
#[derive(Debug, Clone, PartialEq, Eq)]
pub enum ConfigStatus {
    /// No configuration is stored.
    Missing,
    /// A configuration is stored and could not be read.
    Unreadable,
    /// The stored configuration.
    Loaded(Wallet713Config),
}

/// A `ConfigStatus` with the record by its view.
pub ghost enum ConfigStatusView {
    Missing,
    Unreadable,
    Loaded(ConfigView),
}

impl View for ConfigStatus {
    type V = ConfigStatusView;

    open spec fn view(&self) -> ConfigStatusView {
        match self {
            ConfigStatus::Missing => ConfigStatusView::Missing,
            ConfigStatus::Unreadable => ConfigStatusView::Unreadable,
            ConfigStatus::Loaded(c) => ConfigStatusView::Loaded(c@),
        }
    }
}

/// What the relay client is started with.
#[derive(Debug, Clone, PartialEq, Eq)]
pub struct ClientStart {
    /// The password of the wallet, handed on as it was given.
    pub password: String,
    /// The address of the relay.
    pub uri: String,
    /// The relay private key.
    pub private_key: String,
}

/// A `ClientStart` with each text as a sequence of characters.
pub ghost struct ClientStartView {
    pub password: Seq<char>,
    pub uri: Seq<char>,
    pub private_key: Seq<char>,
}

impl View for ClientStart {
    type V = ClientStartView;

    open spec fn view(&self) -> ClientStartView {
        ClientStartView {
            password: self.password@,
            uri: self.uri@,
            private_key: self.private_key@,
        }
    }
}

/// The view of a start of the client or the failure in its place.
pub open spec fn start_view(r: Result<ClientStart, Wallet713Error>) -> Result<
    ClientStartView,
    ErrorView,
> {
    match r {
        Ok(s) => Ok(s@),
        Err(e) => Err(e@),
    }
}

/// The name under which `listen` reports that the address of the relay is
/// missing.
pub open spec fn relay_uri_field() -> Seq<char> {
    "gribox uri"@
}

/// What `listen` starts the client with. It needs a stored configuration
/// that could be read, with an address of the relay and a relay private key
/// in it. A configuration without the address fails with
/// `ConfigMissingValue`, whether it has a key or not; one with the address
/// and without the key fails with `ConfigMissingKeys`.
pub open spec fn spec_listen(config: ConfigStatusView, password: Seq<char>) -> Result<
    ClientStartView,
    ErrorView,
> {
    match config {
        ConfigStatusView::Missing => Err(ErrorView::ConfigNotFound),
        ConfigStatusView::Unreadable => Err(ErrorView::LoadConfig),
        ConfigStatusView::Loaded(c) => if c.grinbox_uri.len() == 0 {
            Err(ErrorView::ConfigMissingValue(relay_uri_field()))
        } else if c.grinbox_private_key.len() == 0 {
            Err(ErrorView::ConfigMissingKeys)
        } else {
            Ok(
                ClientStartView {
                    password,
                    uri: c.grinbox_uri,
                    private_key: c.grinbox_private_key,
                },
            )
        },
    }
}

/// The state of the client after `listen`: connecting where the client is
/// asked to start, unchanged where `listen` fails.
pub open spec fn connection_after_listen(
    before: Connection,
    config: ConfigStatusView,
    password: Seq<char>,
) -> Connection {
    if spec_listen(config, password) is Ok {
        Connection::Connecting
    } else {
        before
    }
}

/// The state of the client after an event. A start or a failure counts only
/// while a client is awaited; a stop leaves no client, from any state.
pub open spec fn connection_after(before: Connection, event: ClientEvent) -> Connection {
    match event {
        ClientEvent::Started => if before == Connection::Connecting {
            Connection::Listening
        } else {
            before
        },
        ClientEvent::Failed => if before == Connection::Connecting {
            Connection::Absent
        } else {
            before
        },
        ClientEvent::Stopped => Connection::Absent,
    }
}

impl Session {
    /// The session at the start of the program: no client runs.
    pub fn new() -> (session: Session)
        ensures
            session.connection == Connection::Absent,
    {
        Session { connection: Connection::Absent }
    }

    /// Whether the client runs and listens.
    pub fn is_listening(&self) -> (r: bool)
        ensures
            r == (self.connection == Connection::Listening),
    {
        match self.connection {
            Connection::Listening => true,
            _ => false,
        }
    }

    /// Takes note of what happened to the client.
    pub fn on_event(&mut self, event: ClientEvent)
        ensures
            final(self).connection == connection_after(old(self).connection, event),
    {
        match event {
            ClientEvent::Started => {
                match self.connection {
                    Connection::Connecting => {
                        self.connection = Connection::Listening;
                    },
                    _ => {},
                }
            },
            ClientEvent::Failed => {
                match self.connection {
                    Connection::Connecting => {
                        self.connection = Connection::Absent;
                    },
                    _ => {},
                }
            },
            ClientEvent::Stopped => {
                self.connection = Connection::Absent;
            },
        }
    }
}

/// Carries out `listen` as far as the library can: checks the configuration
/// and says what the client is to be started with. The session then awaits
/// the client. Where the configuration does not allow it, nothing is started
/// and the session stays as it was.
pub fn do_listen(session: &mut Session, config: &ConfigStatus, password: &str) -> (r: Result<
    ClientStart,
    Wallet713Error,
>)
    ensures
        start_view(r) == spec_listen(config@, password@),
        final(session).connection == connection_after_listen(
            old(session).connection,
            config@,
            password@,
        ),
{
    match config {
        ConfigStatus::Missing => Err(Wallet713Error::ConfigNotFound),
        ConfigStatus::Unreadable => Err(Wallet713Error::LoadConfig),
        ConfigStatus::Loaded(c) => {
            if c.grinbox_uri.as_str().is_empty() {
                Err(Wallet713Error::ConfigMissingValue("gribox uri".to_owned()))
            } else if c.grinbox_private_key.as_str().is_empty() {
                Err(Wallet713Error::ConfigMissingKeys)
            } else {
                session.connection = Connection::Connecting;
                Ok(
                    ClientStart {
                        password: password.to_owned(),
                        uri: c.grinbox_uri.clone(),
                        private_key: c.grinbox_private_key.clone(),
                    },
                )
            }
        },
    }
}

/// `listen` on a configuration without an address of the relay fails with
/// `ConfigMissingValue`, whatever else the configuration holds, and a
/// session without a client is left without one.
pub proof fn lemma_listen_without_uri(config: ConfigView, password: Seq<char>)
    requires
        config.grinbox_uri.len() == 0,
    ensures
        spec_listen(ConfigStatusView::Loaded(config), password) == Err::<
            ClientStartView,
            ErrorView,
        >(ErrorView::ConfigMissingValue(relay_uri_field())),
        connection_after_listen(
            Connection::Absent,
            ConfigStatusView::Loaded(config),
            password,
        ) == Connection::Absent,
{
}

/// `listen` that fails leaves the state of the client as it was, whatever
/// the failure and whatever the state.
pub proof fn lemma_failed_listen_changes_nothing(
    before: Connection,
    config: ConfigStatusView,
    password: Seq<char>,
)
    requires
        spec_listen(config, password) is Err,
    ensures
        connection_after_listen(before, config, password) == before,
{
}

/// Stopping is idempotent: a second stop leaves the session where the first
/// one left it, without a client.
pub proof fn lemma_stop_is_idempotent(before: Connection)
    ensures
        connection_after(before, ClientEvent::Stopped) == Connection::Absent,
        connection_after(connection_after(before, ClientEvent::Stopped), ClientEvent::Stopped)
            == connection_after(before, ClientEvent::Stopped),
{
}

} // verus!
