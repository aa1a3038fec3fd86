//! The configuration record and the options that override its fields.

use vstd::prelude::*;
use vstd::string::*;
use crate::keys::{generate_private_key, is_private_key};
use crate::scan::{copy_opt, opt_view};

verus! {

/// The settings that are kept between runs.
#[derive(Debug, Clone, PartialEq, Eq)]
pub struct Wallet713Config {
    /// Where the wallet keeps its data.
    pub wallet713_data_path: String,
    /// The address of the relay.
    pub grinbox_uri: String,
    /// The relay private key in hexadecimal; empty while there is none.
    pub grinbox_private_key: String,
    /// The address of the node.
    pub grin_node_uri: String,
    /// The secret that the node asks for, if it asks for one.
    pub grin_node_secret: Option<String>,
}

/// A `Wallet713Config` with each text as a sequence of characters.
pub ghost struct ConfigView {
    pub wallet713_data_path: Seq<char>,
    pub grinbox_uri: Seq<char>,
    pub grinbox_private_key: Seq<char>,
    pub grin_node_uri: Seq<char>,
    pub grin_node_secret: Option<Seq<char>>,
}

impl View for Wallet713Config {
    type V = ConfigView;

    open spec fn view(&self) -> ConfigView {
        ConfigView {
            wallet713_data_path: self.wallet713_data_path@,
            grinbox_uri: self.grinbox_uri@,
            grinbox_private_key: self.grinbox_private_key@,
            grin_node_uri: self.grin_node_uri@,
            grin_node_secret: opt_view(self.grin_node_secret),
        }
    }
}

/// What the `config` command can ask for. A field that is `None` leaves the
/// record's field as it is.
#[derive(Debug, Clone, PartialEq, Eq)]
pub struct ConfigOptions {
    /// A new place for the wallet's data.
    pub data_path: Option<String>,
    /// A new address of the relay.
    pub uri: Option<String>,
    /// A new relay private key.
    pub private_key: Option<String>,
    /// A new address of the node.
    pub node_uri: Option<String>,
    /// A new secret for the node.
    pub node_secret: Option<String>,
    /// Whether a new relay private key is to be generated.
    pub generate_keys: bool,
}

/// `ConfigOptions` with each text as a sequence of characters.
pub ghost struct ConfigOptionsView {
    pub data_path: Option<Seq<char>>,
    pub uri: Option<Seq<char>>,
    pub private_key: Option<Seq<char>>,
    pub node_uri: Option<Seq<char>>,
    pub node_secret: Option<Seq<char>>,
    pub generate_keys: bool,
}

impl View for ConfigOptions {
    type V = ConfigOptionsView;

    open spec fn view(&self) -> ConfigOptionsView {
        ConfigOptionsView {
            data_path: opt_view(self.data_path),
            uri: opt_view(self.uri),
            private_key: opt_view(self.private_key),
            node_uri: opt_view(self.node_uri),
            node_secret: opt_view(self.node_secret),
            generate_keys: self.generate_keys,
        }
    }
}

/// What `do_config` hands back: the record to persist, and whether it is to
/// be shown to the user.
#[derive(Debug, Clone, PartialEq, Eq)]
pub struct ConfigOutcome {
    /// The record after the overrides. It is persisted whatever they were.
    pub config: Wallet713Config,
    /// Whether the record is to be shown.
    pub show: bool,
}

/// The options that ask for nothing.
pub open spec fn no_options() -> ConfigOptionsView {
    ConfigOptionsView {
        data_path: None,
        uri: None,
        private_key: None,
        node_uri: None,
        node_secret: None,
        generate_keys: false,
    }
}

/// Whether the options name a value for at least one field.
pub open spec fn names_a_field(options: ConfigOptionsView) -> bool {
    options.data_path is Some || options.uri is Some || options.private_key is Some
        || options.node_uri is Some || options.node_secret is Some
}

/// Whether a new private key is written into the record: when none was
/// stored before, or when the options ask for one.
pub open spec fn regenerates(existed: bool, options: ConfigOptionsView) -> bool {
    !existed || options.generate_keys
}

/// `base` with `value` in its place where there is one.
pub open spec fn overridden(base: Seq<char>, value: Option<Seq<char>>) -> Seq<char> {
    match value {
        Some(v) => v,
        None => base,
    }
}

/// The record after the overrides. Each option that is present replaces its
/// field. After that `fresh_key` replaces the relay private key where a new
/// key is due, whatever the options said of the key.
pub open spec fn spec_overrides(
    base: ConfigView,
    existed: bool,
    options: ConfigOptionsView,
    fresh_key: Seq<char>,
) -> ConfigView {
    ConfigView {
        wallet713_data_path: overridden(base.wallet713_data_path, options.data_path),
        grinbox_uri: overridden(base.grinbox_uri, options.uri),
        grinbox_private_key: if regenerates(existed, options) {
            fresh_key
        } else {
            overridden(base.grinbox_private_key, options.private_key)
        },
        grin_node_uri: overridden(base.grin_node_uri, options.node_uri),
        grin_node_secret: match options.node_secret {
            Some(v) => Some(v),
            None => base.grin_node_secret,
        },
    }
}

/// Whether the record is shown after the overrides: only when the caller is
/// not silent and the command changed nothing that it was asked to change.
/// A command that generates a key for a stored record counts as a change; on
/// the first run the record is shown whatever the options were.
pub open spec fn spec_shows(existed: bool, options: ConfigOptionsView, silent: bool) -> bool {
    let any_matches = if regenerates(existed, options) {
        existed
    } else {
        names_a_field(options)
    };
    !any_matches && !silent
}

/// Replaces `field` by a copy of `value` where there is one.
fn override_text(field: &mut String, value: &Option<String>)
    ensures
        final(field)@ == overridden(old(field)@, opt_view(*value)),
{
    match value {
        Some(v) => {
            *field = v.clone();
        },
        None => {},
    }
}

/// Applies the options to `base`, the stored record, or the default one
/// where `existed` is false, and writes `fresh_key` where a new key is due.
pub fn apply_overrides(
    base: Wallet713Config,
    existed: bool,
    options: &ConfigOptions,
    fresh_key: String,
) -> (config: Wallet713Config)
    ensures
        config@ == spec_overrides(base@, existed, options@, fresh_key@),
{
    let mut config = base;
    override_text(&mut config.wallet713_data_path, &options.data_path);
    override_text(&mut config.grinbox_uri, &options.uri);
    override_text(&mut config.grinbox_private_key, &options.private_key);
    override_text(&mut config.grin_node_uri, &options.node_uri);
    if options.node_secret.is_some() {
        config.grin_node_secret = copy_opt(&options.node_secret);
    }
    if !existed || options.generate_keys {
        config.grinbox_private_key = fresh_key;
    }
    config
}

/// Whether the record is to be shown after the overrides.
pub fn shows(existed: bool, options: &ConfigOptions, silent: bool) -> (show: bool)
    ensures
        show == spec_shows(existed, options@, silent),
{
    let any_matches = if !existed || options.generate_keys {
        existed
    } else {
        options.data_path.is_some() || options.uri.is_some() || options.private_key.is_some()
            || options.node_uri.is_some() || options.node_secret.is_some()
    };
    !any_matches && !silent
}

/// Carries out the `config` command on the stored record, or on `defaults`
/// where none is stored. Every field of the result is fixed by the inputs
/// but the relay private key where a new one is due: that one is left to
/// chance, and is a private key.
pub fn do_config(
    stored: Option<Wallet713Config>,
    defaults: Wallet713Config,
    options: &ConfigOptions,
    silent: bool,
) -> (outcome: ConfigOutcome)
    ensures
        outcome.config@ == spec_overrides(
            match stored {
                Some(c) => c@,
                None => defaults@,
            },
            stored is Some,
            options@,
            outcome.config@.grinbox_private_key,
        ),
        regenerates(stored is Some, options@) ==> is_private_key(
            outcome.config@.grinbox_private_key,
        ),
        outcome.show == spec_shows(stored is Some, options@, silent),
{
    let existed = stored.is_some();
    let base = match stored {
        Some(c) => c,
        None => defaults,
    };
    let fresh_key = if !existed || options.generate_keys {
        generate_private_key()
    } else {
        String::new()
    };
    let config = apply_overrides(base, existed, options, fresh_key);
    let show = shows(existed, options, silent);
    ConfigOutcome { config, show }
}

/// The configuration to start with: the stored record as it is, or, where
/// none is stored, `defaults` with a new relay private key, which is left to
/// chance.
pub fn load_or_create(stored: Option<Wallet713Config>, defaults: Wallet713Config) -> (config:
    Wallet713Config)
    ensures
        match stored {
            Some(c) => config@ == c@,
            None => is_private_key(config@.grinbox_private_key) && config@ == spec_overrides(
                defaults@,
                false,
                no_options(),
                config@.grinbox_private_key,
            ),
        },
{
    let options = empty_options();
    do_config(stored, defaults, &options, true).config
}

/// The options of a command that names none.
pub fn empty_options() -> (options: ConfigOptions)
    ensures
        options@ == no_options(),
{
    ConfigOptions {
        data_path: None,
        uri: None,
        private_key: None,
        node_uri: None,
        node_secret: None,
        generate_keys: false,
    }
}

/// A stored record that is loaded and saved again with no overrides is saved
/// as it was loaded, field for field, whatever key was at hand.
pub proof fn lemma_reload_is_identity(stored: ConfigView, unused_key: Seq<char>)
    ensures
        spec_overrides(stored, true, no_options(), unused_key) == stored,
{
}

/// Saving twice what the overrides gave changes nothing: applying no
/// overrides to the result gives the result.
pub proof fn lemma_overrides_then_reload(
    base: ConfigView,
    existed: bool,
    options: ConfigOptionsView,
    fresh_key: Seq<char>,
    unused_key: Seq<char>,
)
    ensures
        spec_overrides(
            spec_overrides(base, existed, options, fresh_key),
            true,
            no_options(),
            unused_key,
        ) == spec_overrides(base, existed, options, fresh_key),
{
}

/// The relay private key of a stored record is kept on every reload that
/// neither asks for a new key nor names one.
pub proof fn lemma_key_is_kept(
    stored: ConfigView,
    options: ConfigOptionsView,
    unused_key: Seq<char>,
)
    requires
        !options.generate_keys,
        options.private_key is None,
    ensures
        spec_overrides(stored, true, options, unused_key).grinbox_private_key
            == stored.grinbox_private_key,
{
}

} // verus!
