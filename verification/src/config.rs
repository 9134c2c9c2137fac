//! Resolution of a wallet descriptor and a node address into derived
//! spending-branch descriptors, an inferred network, and a backend
//! configuration for one of the two supported client protocols.
use vstd::prelude::*;

use crate::backend::{derive_wallet_name, wallet_name_result};
use crate::e::{ErrorKind, S5Error};
use crate::text::{
    contains_seq, contains_str, find_str, first_match, found_at, lemma_exists_first_match,
    lemma_found_at_unique, match_at, replace_seq, replace_str, substring,
};

verus! {

/// The sentinel token that selects a default endpoint.
pub const DEFAULT: &'static str = "default";

/// The default testnet relay endpoint.
pub const DEFAULT_TESTNET_NODE: &'static str = "ssl://electrum.blockstream.info:60002";

/// The default mainnet relay endpoint.
pub const DEFAULT_MAINNET_NODE: &'static str = "ssl://electrum.blockstream.info:50002";

/// The network namespace a descriptor belongs to.
#[derive(Clone, Copy, Debug, PartialEq, Eq, Structural)]
pub enum Network {
    Bitcoin,
    Testnet,
}

/// Credentials embedded in a full-node address, if any.
#[derive(Clone, Debug, PartialEq, Eq)]
pub enum Auth {
    NoCredentials,
    UserPass { username: String, password: String },
}

/// Configuration for the lightweight relay (electrum) backend.
#[derive(Clone, Debug, PartialEq, Eq)]
pub struct ElectrumConfig {
    pub url: String,
    pub socks5: Option<String>,
    pub retry: u8,
    pub timeout: Option<u8>,
    pub stop_gap: usize,
    pub validate_domain: bool,
}

/// Configuration for the full-node RPC backend.
#[derive(Clone, Debug, PartialEq, Eq)]
pub struct RpcConfig {
    pub url: String,
    pub auth: Auth,
    pub network: Network,
    pub wallet_name: String,
}

/// The backend-specific configuration the dispatcher settles on.
#[derive(Clone, Debug, PartialEq, Eq)]
pub enum BlockchainConfig {
    Electrum(ElectrumConfig),
    Rpc(RpcConfig),
}

/// A fully resolved wallet configuration, before any connection is made.
#[derive(Clone, Debug, PartialEq, Eq)]
pub struct PendingWallet {
    pub deposit_desc: String,
    pub change_desc: String,
    pub network: Network,
    pub client_config: BlockchainConfig,
}

/// A resolved wallet configuration, with a live client unless resolution was
/// requested offline.
pub struct WalletConfig {
    pub deposit_desc: String,
    pub change_desc: String,
    pub network: Network,
    pub client: Option<bdk::blockchain::AnyBlockchain>,
}

/// A client-construction failure as one of the backends reports it: its own
/// low-level I/O variant, or any other error, stringified.
#[derive(Clone, Debug, PartialEq, Eq)]
pub enum BackendError {
    Io(String),
    Other(String),
}

/// A client-construction failure, tagged by which backend's error wrapped it.
#[derive(Clone, Debug, PartialEq, Eq)]
pub enum ClientError {
    Electrum(BackendError),
    Rpc(BackendError),
    Other(String),
}

/// The deposit-branch descriptor: the wildcard marker becomes `/0/*`.
pub open spec fn spec_deposit_desc(descriptor: Seq<char>) -> Seq<char> {
    replace_seq(descriptor, "/*"@, "/0/*"@)
}

/// The change-branch descriptor: the wildcard marker becomes `/1/*`.
pub open spec fn spec_change_desc(descriptor: Seq<char>) -> Seq<char> {
    replace_seq(descriptor, "/*"@, "/1/*"@)
}

/// Lexical network inference: an `xpub` or `xprv` substring anywhere in the
/// descriptor text means mainnet; anything else means testnet.
pub open spec fn spec_network(descriptor: Seq<char>) -> Network {
    if contains_seq(descriptor, "xpub"@) || contains_seq(descriptor, "xprv"@) {
        Network::Bitcoin
    } else {
        Network::Testnet
    }
}

/// Sentinel substitution: an address holding the sentinel token resolves to
/// the network's fixed default endpoint; any other address passes unchanged.
pub open spec fn spec_node_address(address: Seq<char>, network: Network) -> Seq<char> {
    if contains_seq(address, DEFAULT@) {
        if network == Network::Bitcoin {
            DEFAULT_MAINNET_NODE@
        } else {
            DEFAULT_TESTNET_NODE@
        }
    } else {
        address
    }
}

/// The address selects the relay backend.
pub open spec fn electrum_shaped(address: Seq<char>) -> bool {
    contains_seq(address, "electrum"@)
}

/// The address selects the full-node RPC backend.
pub open spec fn http_shaped(address: Seq<char>) -> bool {
    !electrum_shaped(address) && contains_seq(address, "http"@)
}

/// The base url of a full-node address: the text before the first `?auth=`.
pub open spec fn spec_auth_base(address: Seq<char>) -> Seq<char> {
    address.subrange(0, first_match(address, "?auth="@))
}

/// The credential segment of a full-node address: the text after the first
/// `?auth=`, up to the next `?auth=` if the delimiter repeats (as splitting
/// at every occurrence reads it).
pub open spec fn spec_auth_segment(address: Seq<char>) -> Seq<char> {
    let tail = address.subrange(
        first_match(address, "?auth="@) + "?auth="@.len(),
        address.len() as int,
    );
    if contains_seq(tail, "?auth="@) {
        tail.subrange(0, first_match(tail, "?auth="@))
    } else {
        tail
    }
}

/// A full-node address carries the mandatory `?auth=` delimiter, and its
/// credential segment is empty or holds a colon.
pub open spec fn valid_auth_segment(address: Seq<char>) -> bool {
    &&& contains_seq(address, "?auth="@)
    &&& (spec_auth_segment(address).len() == 0 || contains_seq(spec_auth_segment(address), ":"@))
}

/// How parsed credentials relate to the credential segment they came from:
/// no credentials when empty, otherwise username and password split at the
/// first colon.
pub open spec fn auth_matches(a: Auth, segment: Seq<char>) -> bool {
    if segment.len() == 0 {
        a is NoCredentials
    } else {
        &&& contains_seq(segment, ":"@)
        &&& (a matches Auth::UserPass { username, password } && username@ == segment.subrange(
            0,
            first_match(segment, ":"@),
        ) && password@ == segment.subrange(
            first_match(segment, ":"@) + 1,
            segment.len() as int,
        ))
    }
}

/// The rejection every unusable address shape is answered with.
pub open spec fn is_invalid_address_error<T>(r: Result<T, S5Error>) -> bool {
    r matches Err(e) && e.kind == ErrorKind::Internal && e.message@ == "Invalid Node Address."@
}

/// The message a classified construction failure carries: the backend's own,
/// unchanged.
pub open spec fn spec_client_error_message(e: ClientError) -> Seq<char> {
    match e {
        ClientError::Electrum(BackendError::Io(m)) => m@,
        ClientError::Electrum(BackendError::Other(m)) => m@,
        ClientError::Rpc(BackendError::Io(m)) => m@,
        ClientError::Rpc(BackendError::Other(m)) => m@,
        ClientError::Other(m) => m@,
    }
}

/// How a construction failure classifies: the chosen backend's own I/O
/// failure is a Network error; every other failure is Internal.
pub open spec fn spec_client_error_kind(config: BlockchainConfig, e: ClientError) -> ErrorKind {
    match config {
        BlockchainConfig::Electrum(_) => if e matches ClientError::Electrum(
            BackendError::Io(_),
        ) {
            ErrorKind::Network
        } else {
            ErrorKind::Internal
        },
        BlockchainConfig::Rpc(_) => if e matches ClientError::Rpc(BackendError::Io(_)) {
            ErrorKind::Network
        } else {
            ErrorKind::Internal
        },
    }
}

/// Infers the network namespace from the descriptor text alone.
pub fn infer_network(descriptor: &str) -> (n: Network)
    ensures
        n == spec_network(descriptor@),
{
    if contains_str(descriptor, "xpub") || contains_str(descriptor, "xprv") {
        Network::Bitcoin
    } else {
        Network::Testnet
    }
}

/// Substitutes the network's default endpoint for the sentinel address, and
/// passes any other address through unchanged.
pub fn resolve_node_address(node_address: &str, network: Network) -> (r: String)
    ensures
        r@ == spec_node_address(node_address@, network),
{
    if contains_str(node_address, DEFAULT) {
        if network == Network::Bitcoin {
            DEFAULT_MAINNET_NODE.to_owned()
        } else {
            DEFAULT_TESTNET_NODE.to_owned()
        }
    } else {
        node_address.to_owned()
    }
}

/// Splits a full-node address at its first `?auth=` into base url and
/// credential segment (the text up to the next `?auth=`, if the delimiter
/// repeats); an address without the delimiter is rejected.
pub fn split_auth(address: &str) -> (r: Result<(String, String), S5Error>)
    ensures
        !contains_seq(address@, "?auth="@) ==> is_invalid_address_error(r),
        contains_seq(address@, "?auth="@) ==> (r matches Ok(p) && p.0@ == spec_auth_base(address@)
            && p.1@ == spec_auth_segment(address@)),
{
    proof {
        reveal_strlit("?auth=");
    }
    match find_str(address, "?auth=") {
        Some(i) => {
            proof {
                lemma_exists_first_match(address@, "?auth="@, i as int);
                lemma_found_at_unique(
                    address@,
                    "?auth="@,
                    i as int,
                    first_match(address@, "?auth="@),
                );
            }
            let alen = address.unicode_len();
            let base = substring(address, 0, i);
            let tail = substring(address, i + 6, alen);
            let segment = match find_str(tail.as_str(), "?auth=") {
                Some(j) => {
                    proof {
                        lemma_exists_first_match(tail@, "?auth="@, j as int);
                        lemma_found_at_unique(
                            tail@,
                            "?auth="@,
                            j as int,
                            first_match(tail@, "?auth="@),
                        );
                    }
                    substring(tail.as_str(), 0, j)
                },
                None => tail,
            };
            Ok((base, segment))
        },
        None => Err(S5Error::new(ErrorKind::Internal, "Invalid Node Address.")),
    }
}

/// Parses a credential segment: empty means no credentials, otherwise the
/// text splits at the first colon into username and password; a non-empty
/// segment without a colon is rejected.
pub fn parse_auth(segment: &str) -> (r: Result<Auth, S5Error>)
    ensures
        segment@.len() == 0 || contains_seq(segment@, ":"@) ==> (r matches Ok(a) && auth_matches(
            a,
            segment@,
        )),
        segment@.len() > 0 && !contains_seq(segment@, ":"@) ==> is_invalid_address_error(r),
{
    if segment.is_empty() {
        Ok(Auth::NoCredentials)
    } else {
        proof {
            reveal_strlit(":");
        }
        match find_str(segment, ":") {
            Some(j) => {
                proof {
                    lemma_exists_first_match(segment@, ":"@, j as int);
                    lemma_found_at_unique(segment@, ":"@, j as int, first_match(segment@, ":"@));
                }
                let slen = segment.unicode_len();
                let username = substring(segment, 0, j);
                let password = substring(segment, j + 1, slen);
                Ok(Auth::UserPass { username, password })
            },
            None => Err(S5Error::new(ErrorKind::Internal, "Invalid Node Address.")),
        }
    }
}

/// Resolves a descriptor, a node address and an optional proxy into derived
/// descriptors, an inferred network and a backend configuration, without
/// touching any backend. The relay branch fixes one retry, a five-second
/// timeout exactly when no proxy is set, and a gap limit of 1000; the RPC
/// branch parses credentials and derives the canonical wallet name.
pub fn resolve_wallet(descriptor: &str, node_address: &str, socks5: Option<String>) -> (r: Result<
    PendingWallet,
    S5Error,
>)
    ensures
        ({
            let net = spec_network(descriptor@);
            let addr = spec_node_address(node_address@, net);
            &&& (r matches Ok(w) ==> w.deposit_desc@ == spec_deposit_desc(descriptor@)
                && w.change_desc@ == spec_change_desc(descriptor@) && w.network == net)
            &&& electrum_shaped(addr) ==> (r matches Ok(w) && w.client_config matches
                BlockchainConfig::Electrum(c) && c.url@ == addr && c.socks5 == socks5 && c.retry
                == 1 && (socks5 is None ==> c.timeout == Some(5u8)) && (socks5 is Some
                ==> c.timeout is None) && c.stop_gap == 1000 && c.validate_domain)
            &&& http_shaped(addr) && !valid_auth_segment(addr) ==> is_invalid_address_error(r)
            &&& http_shaped(addr) && valid_auth_segment(addr) ==> (match wallet_name_result(
                descriptor@,
                spec_change_desc(descriptor@),
                net == Network::Bitcoin,
            ) {
                Ok(name) => r matches Ok(w) && w.client_config matches BlockchainConfig::Rpc(c)
                    && c.url@ == spec_auth_base(addr) && auth_matches(c.auth, spec_auth_segment(addr))
                    && c.network == net && c.wallet_name@ == name,
                Err(msg) => r matches Err(e) && e.kind == ErrorKind::Internal && e.message@ == msg,
            })
            &&& !electrum_shaped(addr) && !http_shaped(addr) ==> is_invalid_address_error(r)
        }),
{
    proof {
        reveal_strlit("/*");
    }
    let deposit_desc = replace_str(descriptor, "/*", "/0/*");
    let change_desc = replace_str(descriptor, "/*", "/1/*");
    let network = infer_network(descriptor);
    let address = resolve_node_address(node_address, network);
    if contains_str(address.as_str(), "electrum") {
        let timeout: Option<u8> = if socks5.is_none() {
            Some(5)
        } else {
            None
        };
        Ok(
            PendingWallet {
                deposit_desc,
                change_desc,
                network,
                client_config: BlockchainConfig::Electrum(
                    ElectrumConfig {
                        url: address,
                        socks5,
                        retry: 1,
                        timeout,
                        stop_gap: 1000,
                        validate_domain: true,
                    },
                ),
            },
        )
    } else if contains_str(address.as_str(), "http") {
        let (base, segment) = match split_auth(address.as_str()) {
            Ok(p) => p,
            Err(e) => {
                return Err(e);
            },
        };
        let auth = match parse_auth(segment.as_str()) {
            Ok(a) => a,
            Err(e) => {
                return Err(e);
            },
        };
        let mainnet = network == Network::Bitcoin;
        match derive_wallet_name(descriptor, change_desc.as_str(), mainnet) {
            Ok(wallet_name) => Ok(
                PendingWallet {
                    deposit_desc,
                    change_desc,
                    network,
                    client_config: BlockchainConfig::Rpc(
                        RpcConfig { url: base, auth, network, wallet_name },
                    ),
                },
            ),
            Err(msg) => Err(S5Error { kind: ErrorKind::Internal, message: msg }),
        }
    } else {
        Err(S5Error::new(ErrorKind::Internal, "Invalid Node Address."))
    }
}

/// Classifies a client-construction failure, keeping its message unchanged.
pub fn classify_client_error(config: &BlockchainConfig, e: ClientError) -> (r: S5Error)
    ensures
        r.kind == spec_client_error_kind(*config, e),
        r.message@ == spec_client_error_message(e),
{
    let network_kind = match (config, &e) {
        (BlockchainConfig::Electrum(_), ClientError::Electrum(BackendError::Io(_))) => true,
        (BlockchainConfig::Rpc(_), ClientError::Rpc(BackendError::Io(_))) => true,
        _ => false,
    };
    let kind = if network_kind {
        ErrorKind::Network
    } else {
        ErrorKind::Internal
    };
    let message = match e {
        ClientError::Electrum(BackendError::Io(m)) => m,
        ClientError::Electrum(BackendError::Other(m)) => m,
        ClientError::Rpc(BackendError::Io(m)) => m,
        ClientError::Rpc(BackendError::Other(m)) => m,
        ClientError::Other(m) => m,
    };
    S5Error { kind, message }
}

/// The verified tail of client construction: a live handle passes through,
/// and a failure is classified (the chosen backend's own I/O failure is a
/// Network error, anything else Internal).
pub fn finish_client_build(
    config: &BlockchainConfig,
    outcome: Result<bdk::blockchain::AnyBlockchain, ClientError>,
) -> (r: Result<bdk::blockchain::AnyBlockchain, S5Error>)
    ensures
        (outcome matches Ok(c) ==> r matches Ok(rc) && rc == c),
        (outcome matches Err(e) ==> r matches Err(s) && s.kind == spec_client_error_kind(
            *config,
            e,
        ) && s.message@ == spec_client_error_message(e)),
{
    match outcome {
        Ok(client) => Ok(client),
        Err(e) => Err(classify_client_error(config, e)),
    }
}

/// The verified tail of the health probe: a completed fee estimate confirms
/// liveness, and a failed one is classified like any other backend failure:
/// the chosen backend's own I/O failure is a Network error, anything else
/// Internal, with the backend's message unchanged.
pub fn interpret_probe(config: &BlockchainConfig, fee_error: Option<ClientError>) -> (r: Result<
    bool,
    S5Error,
>)
    ensures
        fee_error is None ==> (r matches Ok(alive) && alive),
        (fee_error matches Some(e) ==> r matches Err(s) && s.kind == spec_client_error_kind(
            *config,
            e,
        ) && s.message@ == spec_client_error_message(e)),
{
    match fee_error {
        None => Ok(true),
        Some(e) => Err(classify_client_error(config, e)),
    }
}

/// Builds the throwaway configuration the health probe uses: the same
/// dispatch as a full resolution, with no proxy and a fixed placeholder
/// wallet name on the RPC branch.
pub fn resolve_probe_config(network: Network, node_address: &str) -> (r: Result<
    BlockchainConfig,
    S5Error,
>)
    ensures
        electrum_shaped(node_address@) ==> (r matches Ok(c) && c matches
            BlockchainConfig::Electrum(ec) && ec.url@ == node_address@ && ec.socks5 is None
            && ec.retry == 1 && ec.timeout == Some(5u8) && ec.stop_gap == 1000
            && ec.validate_domain),
        http_shaped(node_address@) && !valid_auth_segment(node_address@)
            ==> is_invalid_address_error(r),
        http_shaped(node_address@) && valid_auth_segment(node_address@) ==> (r matches Ok(c)
            && c matches BlockchainConfig::Rpc(rc) && rc.url@ == spec_auth_base(node_address@)
            && auth_matches(rc.auth, spec_auth_segment(node_address@)) && rc.network == network
            && rc.wallet_name@ == "ping"@),
        !electrum_shaped(node_address@) && !http_shaped(node_address@)
            ==> is_invalid_address_error(r),
{
    if contains_str(node_address, "electrum") {
        Ok(
            BlockchainConfig::Electrum(
                ElectrumConfig {
                    url: node_address.to_owned(),
                    socks5: None,
                    retry: 1,
                    timeout: Some(5),
                    stop_gap: 1000,
                    validate_domain: true,
                },
            ),
        )
    } else if contains_str(node_address, "http") {
        let (base, segment) = match split_auth(node_address) {
            Ok(p) => p,
            Err(e) => {
                return Err(e);
            },
        };
        let auth = match parse_auth(segment.as_str()) {
            Ok(a) => a,
            Err(e) => {
                return Err(e);
            },
        };
        Ok(
            BlockchainConfig::Rpc(
                RpcConfig { url: base, auth, network, wallet_name: String::from_str("ping") },
            ),
        )
    } else {
        Err(S5Error::new(ErrorKind::Internal, "Invalid Node Address."))
    }
}

impl WalletConfig {
    /// Resolves a descriptor without touching any backend: both branches are
    /// derived and the network inferred, and no client is attached.
    pub fn new_offline(descriptor: &str) -> (r: Result<WalletConfig, S5Error>)
        ensures
            (r matches Ok(w) && w.deposit_desc@ == spec_deposit_desc(descriptor@)
                && w.change_desc@ == spec_change_desc(descriptor@) && w.network == spec_network(
                descriptor@,
            ) && w.client is None),
    {
        proof {
            reveal_strlit("/*");
        }
        let deposit_desc = replace_str(descriptor, "/*", "/0/*");
        let change_desc = replace_str(descriptor, "/*", "/1/*");
        let network = infer_network(descriptor);
        Ok(WalletConfig { deposit_desc, change_desc, network, client: None })
    }

    /// Attaches the outcome of client construction to a resolved
    /// configuration: success yields the full configuration, and a failure
    /// aborts the resolution with the classified construction error passed
    /// through unchanged, so that no partial configuration escapes.
    pub fn assemble(
        pending: PendingWallet,
        outcome: Result<bdk::blockchain::AnyBlockchain, S5Error>,
    ) -> (r: Result<WalletConfig, S5Error>)
        ensures
            (outcome matches Ok(c) ==> r matches Ok(w) && w.deposit_desc == pending.deposit_desc
                && w.change_desc == pending.change_desc && w.network == pending.network
                && w.client == Some(c)),
            (outcome matches Err(e) ==> r matches Err(s) && s.kind == e.kind && s.message@
                == e.message@),
    {
        match outcome {
            Ok(client) => Ok(
                WalletConfig {
                    deposit_desc: pending.deposit_desc,
                    change_desc: pending.change_desc,
                    network: pending.network,
                    client: Some(client),
                },
            ),
            Err(e) => Err(e),
        }
    }
}

/// Network inference is purely lexical: mainnet exactly when the raw text
/// holds an extended-key marker, testnet otherwise; no other signal matters.
pub proof fn lemma_network_inference(descriptor: Seq<char>)
    ensures
        (spec_network(descriptor) == Network::Bitcoin) <==> (contains_seq(descriptor, "xpub"@)
            || contains_seq(descriptor, "xprv"@)),
        (spec_network(descriptor) == Network::Testnet) <==> !(contains_seq(descriptor, "xpub"@)
            || contains_seq(descriptor, "xprv"@)),
{
}

/// Sentinel resolution: the sentinel address resolves to the fixed default
/// endpoint of its network, and any other address passes through unchanged.
pub proof fn lemma_sentinel_resolution(address: Seq<char>, network: Network)
    ensures
        contains_seq(address, DEFAULT@) && network == Network::Bitcoin ==> spec_node_address(
            address,
            network,
        ) == DEFAULT_MAINNET_NODE@,
        contains_seq(address, DEFAULT@) && network != Network::Bitcoin ==> spec_node_address(
            address,
            network,
        ) == DEFAULT_TESTNET_NODE@,
        !contains_seq(address, DEFAULT@) ==> spec_node_address(address, network) == address,
{
}

/// Branch derivation on a descriptor whose wildcard marker occurs exactly
/// once, at `i`: the deposit branch replaces the marker with `/0/*` and the
/// change branch with `/1/*`, whatever the network and surrounding text.
pub proof fn lemma_single_wildcard_derivation(descriptor: Seq<char>, i: int)
    requires
        match_at(descriptor, "/*"@, i),
        forall|j: int| match_at(descriptor, "/*"@, j) ==> j == i,
    ensures
        spec_deposit_desc(descriptor) == descriptor.subrange(0, i) + "/0/*"@ + descriptor.skip(
            i + "/*"@.len(),
        ),
        spec_change_desc(descriptor) == descriptor.subrange(0, i) + "/1/*"@ + descriptor.skip(
            i + "/*"@.len(),
        ),
{
    reveal_strlit("/*");
    crate::text::lemma_replace_single_occurrence(descriptor, "/*"@, "/0/*"@, i);
    crate::text::lemma_replace_single_occurrence(descriptor, "/*"@, "/1/*"@, i);
}

/// A descriptor without the wildcard marker derives unchanged: both branches
/// equal the original text, and no error is raised.
pub proof fn lemma_no_wildcard_derivation(descriptor: Seq<char>)
    requires
        !contains_seq(descriptor, "/*"@),
    ensures
        spec_deposit_desc(descriptor) == descriptor,
        spec_change_desc(descriptor) == descriptor,
{
    reveal_strlit("/*");
    crate::text::lemma_replace_no_occurrence(descriptor, "/*"@, "/0/*"@);
    crate::text::lemma_replace_no_occurrence(descriptor, "/*"@, "/1/*"@);
}

/// Credential parsing in general: a segment assembled as username, one
/// colon, password — with no colon in the username — parses back into
/// exactly that username and password, whatever the password holds.
pub proof fn lemma_credentials_of_composed(a: Auth, username: Seq<char>, password: Seq<char>)
    requires
        !contains_seq(username, ":"@),
        a matches Auth::UserPass { username: u, password: p } && u@ == username && p@ == password,
    ensures
        auth_matches(a, username + ":"@ + password),
{
    reveal_strlit(":");
    let c = ":"@;
    let seg = username + c + password;
    let n = username.len() as int;
    assert(match_at(seg, c, n)) by {
        assert(seg.subrange(n, n + 1) =~= c);
    }
    assert forall|k: int| 0 <= k < n implies !match_at(seg, c, k) by {
        if match_at(seg, c, k) {
            assert(username.subrange(k, k + 1) =~= seg.subrange(k, k + 1));
            assert(match_at(username, c, k));
            assert(contains_seq(username, c));
        }
    }
    assert(found_at(seg, c, n));
    lemma_exists_first_match(seg, c, n);
    lemma_found_at_unique(seg, c, n, first_match(seg, c));
    assert(seg.subrange(0, n) =~= username);
    assert(seg.subrange(n + 1, seg.len() as int) =~= password);
}

/// The full-node split in general: an address assembled as base url,
/// `?auth=`, credential segment — with the delimiter in neither part —
/// splits back into exactly that base and segment.
pub proof fn lemma_auth_split_of_composed(base: Seq<char>, segment: Seq<char>)
    requires
        !contains_seq(base, "?auth="@),
        !contains_seq(segment, "?auth="@),
    ensures
        contains_seq(base + "?auth="@ + segment, "?auth="@),
        spec_auth_base(base + "?auth="@ + segment) == base,
        spec_auth_segment(base + "?auth="@ + segment) == segment,
{
    reveal_strlit("?auth=");
    let p = "?auth="@;
    let full = base + p + segment;
    let n = base.len() as int;
    assert(match_at(full, p, n)) by {
        assert(full.subrange(n, n + 6) =~= p);
    }
    assert(p[1] != p[0] && p[2] != p[0] && p[3] != p[0] && p[4] != p[0] && p[5] != p[0]);
    assert forall|k: int| 0 <= k < n implies !match_at(full, p, k) by {
        if match_at(full, p, k) {
            if k + 6 <= n {
                assert(base.subrange(k, k + 6) =~= full.subrange(k, k + 6));
                assert(match_at(base, p, k));
                assert(contains_seq(base, p));
            } else {
                // a match here would lay a later pattern character on top of
                // the '?' that opens the real delimiter
                let j = n - k;
                assert(1 <= j < 6);
                assert(full.subrange(k, k + 6)[j] == full[n]);
                assert(full[n] == p[0]);
                assert(p[j] == p[0]);
            }
        }
    }
    assert(found_at(full, p, n));
    lemma_exists_first_match(full, p, n);
    lemma_found_at_unique(full, p, n, first_match(full, p));
    assert(full.subrange(0, n) =~= base);
    let tail = full.subrange(n + 6, full.len() as int);
    assert(tail =~= segment);
}

/// Offline resolution computes its descriptors and network exactly as online
/// resolution does: both are pinned to the same derivation functions.
pub proof fn lemma_offline_matches_online(
    offline: WalletConfig,
    online: PendingWallet,
    descriptor: Seq<char>,
)
    requires
        offline.deposit_desc@ == spec_deposit_desc(descriptor),
        offline.change_desc@ == spec_change_desc(descriptor),
        offline.network == spec_network(descriptor),
        online.deposit_desc@ == spec_deposit_desc(descriptor),
        online.change_desc@ == spec_change_desc(descriptor),
        online.network == spec_network(descriptor),
    ensures
        offline.deposit_desc@ == online.deposit_desc@,
        offline.change_desc@ == online.change_desc@,
        offline.network == online.network,
{
}

} // verus!

