//! Named clusters and the RPC endpoint each of them resolves to.

use vstd::prelude::*;
use vstd::string::StringExecFns;

verus! {

/// The cluster a client talks to.
#[derive(Clone, Debug)]
pub enum Cluster {
    Mainnet,
    Devnet,
    Localnet,
    Custom(String),
}

/// The endpoint of a cluster as a sequence of characters: a fixed well-known
/// URL for the three named clusters, the embedded URL for a custom one.
pub open spec fn endpoint_url(cluster: Cluster) -> Seq<char> {
    match cluster {
        Cluster::Mainnet => "https://api.mainnet-beta.solana.com"@,
        Cluster::Devnet => "https://api.devnet.solana.com"@,
        Cluster::Localnet => "http://0.0.0.0:8899"@,
        Cluster::Custom(url) => url@,
    }
}

/// Resolves a cluster to its endpoint URL.
pub fn endpoint(cluster: Cluster) -> (url: String)
    ensures
        url@ == endpoint_url(cluster),
{
    match cluster {
        Cluster::Mainnet => String::from_str("https://api.mainnet-beta.solana.com"),
        Cluster::Devnet => String::from_str("https://api.devnet.solana.com"),
        Cluster::Localnet => String::from_str("http://0.0.0.0:8899"),
        Cluster::Custom(url) => url,
    }
}

} // verus!
