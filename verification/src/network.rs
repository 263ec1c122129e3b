use crate::error::ImportError;
use crate::text::decimal;
use kaspa_consensus_core::network::NetworkId;
use kaspa_consensus_core::network::NetworkIdError;
use kaspa_consensus_core::network::NetworkTypeError;
use std::str::FromStr;
use vstd::prelude::*;

verus! {

/// The four kinds of network a node can run on.
#[derive(Clone, Copy, Debug, PartialEq, Eq, Structural)]
pub enum NetworkType {
    Mainnet,
    Testnet,
    Devnet,
    Simnet,
}

/// A network type together with the number that tells apart several
/// networks of that type. `None` and `Some(0)` are different identities.
#[derive(Clone, Copy, Debug, PartialEq, Eq, Structural)]
pub struct NetworkIdentity {
    pub network_type: NetworkType,
    pub suffix: Option<u32>,
}

/// The error of `NetworkType::from_str`: handed on as it comes, never read.
#[verifier::external_type_specification]
#[verifier::external_body]
pub struct ExNetworkTypeError(NetworkTypeError);

/// The error of `NetworkId::try_new`: handed on as it comes, never read.
#[verifier::external_type_specification]
#[verifier::external_body]
pub struct ExNetworkIdError(NetworkIdError);

/// The network type that `kaspa_consensus_core` reads out of a name, if any.
pub uninterp spec fn network_type_named(name: Seq<char>) -> Option<NetworkType>;

/// Whether an identity of this type exists only with a suffix.
pub open spec fn requires_suffix(network_type: NetworkType) -> bool {
    network_type == NetworkType::Testnet
}

/// Calls `NetworkType::from_str` of `kaspa_consensus_core`. The outcome is a
/// function of the name alone; the four lower-case names are known to map to
/// their own variant. Nothing else is claimed about which names are accepted.
#[verifier::external_body]
fn parse_network_type(name: &str) -> (r: Result<NetworkType, NetworkTypeError>)
    ensures
        r is Ok <==> network_type_named(name@) is Some,
        r is Ok ==> Some(r->Ok_0) == network_type_named(name@),
        name@ == "mainnet"@ ==> r is Ok && r->Ok_0 == NetworkType::Mainnet,
        name@ == "testnet"@ ==> r is Ok && r->Ok_0 == NetworkType::Testnet,
        name@ == "devnet"@ ==> r is Ok && r->Ok_0 == NetworkType::Devnet,
        name@ == "simnet"@ ==> r is Ok && r->Ok_0 == NetworkType::Simnet,
{
    match kaspa_consensus_core::network::NetworkType::from_str(name)? {
        kaspa_consensus_core::network::NetworkType::Mainnet => Ok(NetworkType::Mainnet),
        kaspa_consensus_core::network::NetworkType::Testnet => Ok(NetworkType::Testnet),
        kaspa_consensus_core::network::NetworkType::Devnet => Ok(NetworkType::Devnet),
        kaspa_consensus_core::network::NetworkType::Simnet => Ok(NetworkType::Simnet),
    }
}

/// Calls `NetworkId::try_new` of `kaspa_consensus_core`, which refuses
/// exactly the testnet type and otherwise gives the identity without suffix.
#[verifier::external_body]
fn identity_without_suffix(network_type: NetworkType) -> (r: Result<NetworkIdentity, NetworkIdError>)
    ensures
        r is Ok <==> !requires_suffix(network_type),
        r is Ok ==> r->Ok_0 == (NetworkIdentity { network_type, suffix: None }),
{
    let outside = match network_type {
        NetworkType::Mainnet => kaspa_consensus_core::network::NetworkType::Mainnet,
        NetworkType::Testnet => kaspa_consensus_core::network::NetworkType::Testnet,
        NetworkType::Devnet => kaspa_consensus_core::network::NetworkType::Devnet,
        NetworkType::Simnet => kaspa_consensus_core::network::NetworkType::Simnet,
    };
    let id = NetworkId::try_new(outside)?;
    let network_type = match id.network_type {
        kaspa_consensus_core::network::NetworkType::Mainnet => NetworkType::Mainnet,
        kaspa_consensus_core::network::NetworkType::Testnet => NetworkType::Testnet,
        kaspa_consensus_core::network::NetworkType::Devnet => NetworkType::Devnet,
        kaspa_consensus_core::network::NetworkType::Simnet => NetworkType::Simnet,
    };
    Ok(NetworkIdentity { network_type, suffix: id.suffix })
}

/// Calls `NetworkId::with_suffix` of `kaspa_consensus_core`, which pairs the
/// type with the suffix as given.
#[verifier::external_body]
fn identity_with_suffix(network_type: NetworkType, suffix: u32) -> (r: NetworkIdentity)
    ensures
        r == (NetworkIdentity { network_type, suffix: Some(suffix) }),
{
    let outside = match network_type {
        NetworkType::Mainnet => kaspa_consensus_core::network::NetworkType::Mainnet,
        NetworkType::Testnet => kaspa_consensus_core::network::NetworkType::Testnet,
        NetworkType::Devnet => kaspa_consensus_core::network::NetworkType::Devnet,
        NetworkType::Simnet => kaspa_consensus_core::network::NetworkType::Simnet,
    };
    let id = NetworkId::with_suffix(outside, suffix);
    let network_type = match id.network_type {
        kaspa_consensus_core::network::NetworkType::Mainnet => NetworkType::Mainnet,
        kaspa_consensus_core::network::NetworkType::Testnet => NetworkType::Testnet,
        kaspa_consensus_core::network::NetworkType::Devnet => NetworkType::Devnet,
        kaspa_consensus_core::network::NetworkType::Simnet => NetworkType::Simnet,
    };
    NetworkIdentity { network_type, suffix: id.suffix }
}

/// The name a network type is written as.
pub open spec fn kind_name(network_type: NetworkType) -> Seq<char> {
    match network_type {
        NetworkType::Mainnet => "mainnet"@,
        NetworkType::Testnet => "testnet"@,
        NetworkType::Devnet => "devnet"@,
        NetworkType::Simnet => "simnet"@,
    }
}

/// The canonical name of an identity: the type's name, then, where there is
/// a suffix, a hyphen and the suffix in decimal.
pub open spec fn canonical_name(id: NetworkIdentity) -> Seq<char> {
    match id.suffix {
        None => kind_name(id.network_type),
        Some(suffix) => kind_name(id.network_type) + seq!['-'] + decimal(suffix as nat),
    }
}

/// The name of the directory that a node keeps a network's data under.
pub open spec fn directory_name(id: NetworkIdentity) -> Seq<char> {
    "kaspa-"@ + canonical_name(id)
}

/// Calls `NetworkId::to_prefixed` of `kaspa_consensus_core`, which writes
/// `kaspa-`, the type's lower-case name and, where there is a suffix, a
/// hyphen and the suffix in decimal.
#[verifier::external_body]
pub(crate) fn prefixed_name(id: NetworkIdentity) -> (r: String)
    ensures
        r@ == directory_name(id),
{
    let network_type = match id.network_type {
        NetworkType::Mainnet => kaspa_consensus_core::network::NetworkType::Mainnet,
        NetworkType::Testnet => kaspa_consensus_core::network::NetworkType::Testnet,
        NetworkType::Devnet => kaspa_consensus_core::network::NetworkType::Devnet,
        NetworkType::Simnet => kaspa_consensus_core::network::NetworkType::Simnet,
    };
    NetworkId { network_type, suffix: id.suffix }.to_prefixed()
}

/// The identity that a recognised type and an optional suffix stand for:
/// a suffix must be there exactly where the type requires one.
pub open spec fn identity_of(
    network_type: Option<NetworkType>,
    suffix: Option<u32>,
) -> Result<NetworkIdentity, ImportError> {
    match network_type {
        None => Err(ImportError::InvalidConfiguration),
        Some(t) => if requires_suffix(t) == suffix.is_some() {
            Ok(NetworkIdentity { network_type: t, suffix })
        } else {
            Err(ImportError::InvalidConfiguration)
        },
    }
}

/// Builds the identity for a type that has been recognised.
pub fn identity_for(network_type: NetworkType, suffix: Option<u32>) -> (r: Result<
    NetworkIdentity,
    ImportError,
>)
    ensures
        r == identity_of(Some(network_type), suffix),
{
    match identity_without_suffix(network_type) {
        Ok(id) => match suffix {
            None => Ok(id),
            Some(_) => Err(ImportError::InvalidConfiguration),
        },
        Err(_) => match suffix {
            None => Err(ImportError::InvalidConfiguration),
            Some(s) => Ok(identity_with_suffix(network_type, s)),
        },
    }
}

/// Reads a network type out of its name.
pub fn network_type_from_name(name: &str) -> (r: Option<NetworkType>)
    ensures
        r == network_type_named(name@),
        name@ == "mainnet"@ ==> r == Some(NetworkType::Mainnet),
        name@ == "testnet"@ ==> r == Some(NetworkType::Testnet),
        name@ == "devnet"@ ==> r == Some(NetworkType::Devnet),
        name@ == "simnet"@ ==> r == Some(NetworkType::Simnet),
{
    match parse_network_type(name) {
        Ok(t) => Some(t),
        Err(_) => None,
    }
}

/// Derives the identity from the configured network type and suffix.
pub fn resolve(network_type: &str, suffix: Option<u32>) -> (r: Result<NetworkIdentity, ImportError>)
    ensures
        r == identity_of(network_type_named(network_type@), suffix),
        network_type@ == "mainnet"@ ==> r == identity_of(Some(NetworkType::Mainnet), suffix),
        network_type@ == "testnet"@ ==> r == identity_of(Some(NetworkType::Testnet), suffix),
        network_type@ == "devnet"@ ==> r == identity_of(Some(NetworkType::Devnet), suffix),
        network_type@ == "simnet"@ ==> r == identity_of(Some(NetworkType::Simnet), suffix),
{
    match network_type_from_name(network_type) {
        Some(t) => identity_for(t, suffix),
        None => Err(ImportError::InvalidConfiguration),
    }
}

/// What holding a configured identity against a reported one gives: they
/// must be equal in type and in suffix.
pub open spec fn reconciled(local: NetworkIdentity, remote: NetworkIdentity) -> Result<
    (),
    ImportError,
> {
    if local == remote {
        Ok(())
    } else {
        Err(ImportError::NetworkMismatch)
    }
}

/// Holds the configured identity against the one the peer reports.
pub fn reconcile(local: NetworkIdentity, remote: NetworkIdentity) -> (r: Result<(), ImportError>)
    ensures
        r == reconciled(local, remote),
{
    if local.network_type == remote.network_type && local.suffix == remote.suffix {
        Ok(())
    } else {
        Err(ImportError::NetworkMismatch)
    }
}

/// Every identity that a configuration resolves to is reconciled with an
/// equal reported identity, and with no other.
pub proof fn lemma_resolved_identity_reconciles(
    network_type: Option<NetworkType>,
    suffix: Option<u32>,
    remote: NetworkIdentity,
)
    requires
        identity_of(network_type, suffix) is Ok,
    ensures
        remote == identity_of(network_type, suffix)->Ok_0 ==> reconciled(
            identity_of(network_type, suffix)->Ok_0,
            remote,
        ) == Ok::<(), ImportError>(()),
        remote != identity_of(network_type, suffix)->Ok_0 ==> reconciled(
            identity_of(network_type, suffix)->Ok_0,
            remote,
        ) == Err::<(), ImportError>(ImportError::NetworkMismatch),
{
}

} // verus!
