//! The narrow trusted surface onto the bdk client library: the opaque client
//! handle, and bdk's canonical wallet-naming function.
use vstd::prelude::*;

verus! {

/// Declares bdk's `AnyBlockchain` so a live client handle can move through
/// the library; the library never looks inside one.
#[verifier::external_type_specification]
#[verifier::external_body]
pub struct ExAnyBlockchain(bdk::blockchain::AnyBlockchain);

/// What bdk's `wallet_name_from_descriptor` returns: either the canonical
/// wallet name, or the parse failure's message. The result is a function of
/// the two descriptors and of the network alone.
pub uninterp spec fn wallet_name_result(
    descriptor: Seq<char>,
    change_descriptor: Seq<char>,
    mainnet: bool,
) -> Result<Seq<char>, Seq<char>>;

/// Relies on bdk's `wallet_name_from_descriptor`: the name is a checksum of
/// the parsed descriptors, deterministic in the descriptors and the network;
/// the fresh secp context only enables key parsing.
#[verifier::external_body]
pub(crate) fn derive_wallet_name(descriptor: &str, change_descriptor: &str, mainnet: bool) -> (r:
    Result<String, String>)
    ensures
        (match r {
            Ok(name) => Ok::<Seq<char>, Seq<char>>(name@),
            Err(msg) => Err(msg@),
        }) == wallet_name_result(descriptor@, change_descriptor@, mainnet),
{
    let network = if mainnet {
        bdk::bitcoin::Network::Bitcoin
    } else {
        bdk::bitcoin::Network::Testnet
    };
    let secp = bdk::bitcoin::secp256k1::Secp256k1::new();
    match bdk::wallet::wallet_name_from_descriptor(
        descriptor,
        Some(change_descriptor),
        network,
        &secp,
    ) {
        Ok(name) => Ok(name),
        Err(e) => Err(e.to_string()),
    }
}

} // verus!
