//! What the program needs before its first prompt: the configuration,
//! created on the first run, and the relay address to greet the user with.

use vstd::prelude::*;
use vstd::string::*;
use crate::base58::{base58_check, to_base58_check};
use crate::config::{
    load_or_create,
    no_options,
    spec_overrides,
    Wallet713Config,
};
use crate::error::{ErrorView, Wallet713Error};
use crate::keys::{is_private_key, public_key_from_private_key, spec_public_key};

verus! {

/// What `welcome` hands back.
#[derive(Debug, Clone, PartialEq, Eq)]
pub struct Welcome {
    /// The configuration to persist and to run with.
    pub config: Wallet713Config,
    /// The relay address that belongs to the configuration's private key.
    pub address: String,
}

/// The version that stands in front of the public key in a relay address.
pub open spec fn spec_address_version() -> Seq<u8> {
    seq![1u8, 120u8]
}

/// The relay address of a private key: its public key in base 58 with the
/// version in front and a checksum behind, or `InvalidPrivateKey` where the
/// text is no private key.
pub open spec fn spec_address(private_key: Seq<char>, version: Seq<u8>) -> Result<
    Seq<char>,
    ErrorView,
> {
    match spec_public_key(private_key) {
        Ok(public) => Ok(base58_check(public, version)),
        Err(e) => Err(e),
    }
}

/// The view of an address or the failure in its place.
pub open spec fn address_view(r: Result<String, Wallet713Error>) -> Result<Seq<char>, ErrorView> {
    match r {
        Ok(s) => Ok(s@),
        Err(e) => Err(e@),
    }
}

/// The version that stands in front of the public key in a relay address.
pub fn address_version() -> (version: Vec<u8>)
    ensures
        version@ == spec_address_version(),
{
    let mut version: Vec<u8> = Vec::new();
    version.push(1);
    version.push(120);
    proof {
        assert(version@ =~= spec_address_version());
    }
    version
}

/// The relay address that belongs to a private key given in hexadecimal,
/// with `version` in front of the public key.
pub fn relay_address(private_key: &str, version: &Vec<u8>) -> (r: Result<String, Wallet713Error>)
    ensures
        address_view(r) == spec_address(private_key@, version@),
        r is Ok <==> is_private_key(private_key@),
{
    match public_key_from_private_key(private_key) {
        Ok(public) => Ok(to_base58_check(&public, version)),
        Err(e) => Err(e),
    }
}

/// Prepares the start of the program. The stored configuration is taken as
/// it is; where none is stored, `defaults` is taken with a new relay private
/// key. The address is the one of the configuration's private key, under the
/// version of relay addresses.
///
/// On the first run this succeeds, whatever key chance gave. With a stored
/// configuration it fails exactly where the stored private key is none, the
/// empty key among them, with `InvalidPrivateKey`.
pub fn welcome(stored: Option<Wallet713Config>, defaults: Wallet713Config) -> (r: Result<
    Welcome,
    Wallet713Error,
>)
    ensures
        match stored {
            Some(c) => match spec_address(c@.grinbox_private_key, spec_address_version()) {
                Ok(address) => r is Ok && r->Ok_0.config@ == c@ && r->Ok_0.address@ == address,
                Err(e) => r is Err && r->Err_0@ == e,
            },
            None => r is Ok && is_private_key(r->Ok_0.config@.grinbox_private_key)
                && r->Ok_0.config@ == spec_overrides(
                defaults@,
                false,
                no_options(),
                r->Ok_0.config@.grinbox_private_key,
            ) && spec_address(r->Ok_0.config@.grinbox_private_key, spec_address_version()) == Ok::<
                Seq<char>,
                ErrorView,
            >(r->Ok_0.address@),
        },
{
    let config = load_or_create(stored, defaults);
    let version = address_version();
    match relay_address(config.grinbox_private_key.as_str(), &version) {
        Ok(address) => Ok(Welcome { config, address }),
        Err(e) => Err(e),
    }
}

/// A stored configuration whose relay private key is not set gets no
/// welcome: the empty key has no address.
pub proof fn lemma_unset_key_has_no_address(version: Seq<u8>)
    ensures
        spec_address(Seq::empty(), version) == Err::<Seq<char>, ErrorView>(
            ErrorView::InvalidPrivateKey,
        ),
{
}

} // verus!
