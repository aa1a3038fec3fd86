//! The failures that the library reports.

use vstd::prelude::*;

verus! {

/// Everything that can go wrong while a line is read and carried out.
#[derive(Debug, Clone, PartialEq, Eq)]
pub enum Wallet713Error {
    /// An operation needs the stored configuration and there is none.
    ConfigNotFound,
    /// The stored configuration is there and could not be read.
    LoadConfig,
    /// The configuration holds no relay private key.
    ConfigMissingKeys,
    /// The configuration holds no value for the named field.
    ConfigMissingValue(String),
    /// The text given as a transaction id is not one.
    InvalidTxId(String),
    /// The text given as an amount is not one.
    InvalidAmount(String),
    /// The relay private key is not the hexadecimal form of a secret key.
    InvalidPrivateKey,
    /// A contact of this name is in the address book already.
    DuplicateContact(String),
    /// No contact of this name is in the address book.
    ContactNotFound(String),
    /// The first word of the line is not the name of a command.
    UnknownCommand(String),
    /// The named argument is required and was not given.
    MissingArgument(String),
    /// The option was given as the last word, without its value.
    MissingValue(String),
    /// The option was given more than once.
    RepeatedArgument(String),
    /// The word fits nowhere in the command.
    UnexpectedArgument(String),
}

/// What a `Wallet713Error` says, with each text as a sequence of characters.
pub ghost enum ErrorView {
    ConfigNotFound,
    LoadConfig,
    ConfigMissingKeys,
    ConfigMissingValue(Seq<char>),
    InvalidTxId(Seq<char>),
    InvalidAmount(Seq<char>),
    InvalidPrivateKey,
    DuplicateContact(Seq<char>),
    ContactNotFound(Seq<char>),
    UnknownCommand(Seq<char>),
    MissingArgument(Seq<char>),
    MissingValue(Seq<char>),
    RepeatedArgument(Seq<char>),
    UnexpectedArgument(Seq<char>),
}

impl View for Wallet713Error {
    type V = ErrorView;

    open spec fn view(&self) -> ErrorView {
        match self {
            Wallet713Error::ConfigNotFound => ErrorView::ConfigNotFound,
            Wallet713Error::LoadConfig => ErrorView::LoadConfig,
            Wallet713Error::ConfigMissingKeys => ErrorView::ConfigMissingKeys,
            Wallet713Error::ConfigMissingValue(s) => ErrorView::ConfigMissingValue(s@),
            Wallet713Error::InvalidTxId(s) => ErrorView::InvalidTxId(s@),
            Wallet713Error::InvalidAmount(s) => ErrorView::InvalidAmount(s@),
            Wallet713Error::InvalidPrivateKey => ErrorView::InvalidPrivateKey,
            Wallet713Error::DuplicateContact(s) => ErrorView::DuplicateContact(s@),
            Wallet713Error::ContactNotFound(s) => ErrorView::ContactNotFound(s@),
            Wallet713Error::UnknownCommand(s) => ErrorView::UnknownCommand(s@),
            Wallet713Error::MissingArgument(s) => ErrorView::MissingArgument(s@),
            Wallet713Error::MissingValue(s) => ErrorView::MissingValue(s@),
            Wallet713Error::RepeatedArgument(s) => ErrorView::RepeatedArgument(s@),
            Wallet713Error::UnexpectedArgument(s) => ErrorView::UnexpectedArgument(s@),
        }
    }
}

} // verus!
