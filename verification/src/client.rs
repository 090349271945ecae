//! The client and the contract that its long-running services share.

use crate::cluster::{endpoint, endpoint_url, Cluster};
use vstd::prelude::*;
use vstd::string::StringExecFns;

verus! {

/// A long-running service. `new` builds the service from its configuration
/// and starts whatever it runs in the background, without waiting for it;
/// `join` waits until the service has ended and tells how it ended.
pub trait ClientService<T>: Sized {
    type ServiceError;

    fn new(config: T) -> Self;

    fn join(self) -> Result<(), Self::ServiceError>;
}

/// What a client is configured with.
#[derive(Clone, Debug)]
pub struct TinyDancerConfig {
    pub rpc_endpoint: Cluster,
    pub log_path: String,
}

/// What the dashboard service is configured with.
#[derive(Clone, Debug)]
pub struct UiConfig {
    cluster: Cluster,
}

/// The state a client reports, each with a message.
#[derive(Clone, Debug, PartialEq, Eq)]
pub enum ClientStatus {
    Initializing(String),
    SearchingForRPCService(String),
    Active(String),
    Crashed(String),
    ShuttingDown(String),
}

/// A background service that ended abnormally, with what it left as its
/// reason.
#[derive(Clone, Debug, PartialEq, Eq)]
pub struct ThreadJoinError {
    reason: String,
}

/// How the store is opened.
#[derive(Clone, Copy, Debug, PartialEq, Eq, Structural)]
pub struct StoreOptions {
    pub create_if_missing: bool,
    pub error_if_exists: bool,
    pub create_missing_sections: bool,
}

/// The client.
pub struct TinyDancer {
    config: TinyDancerConfig,
}

impl UiConfig {
    pub closed spec fn cluster_spec(&self) -> Cluster {
        self.cluster
    }

    pub fn new(cluster: Cluster) -> (config: UiConfig)
        ensures
            config.cluster_spec() == cluster,
    {
        UiConfig { cluster }
    }

    /// The cluster whose statistics the dashboard shows.
    pub fn cluster(&self) -> (cluster: &Cluster)
        ensures
            *cluster == self.cluster_spec(),
    {
        &self.cluster
    }
}

impl ThreadJoinError {
    pub closed spec fn reason_spec(&self) -> Seq<char> {
        self.reason@
    }

    pub fn new(reason: String) -> (error: ThreadJoinError)
        ensures
            error.reason_spec() == reason@,
    {
        ThreadJoinError { reason }
    }

    /// The error as text: the reason that the service left.
    pub fn message(&self) -> (text: String)
        ensures
            text@ == self.reason_spec(),
    {
        self.reason.clone()
    }
}

impl ClientStatus {
    /// The message of the status.
    pub open spec fn message_spec(&self) -> Seq<char> {
        match self {
            ClientStatus::Initializing(message) => message@,
            ClientStatus::SearchingForRPCService(message) => message@,
            ClientStatus::Active(message) => message@,
            ClientStatus::Crashed(message) => message@,
            ClientStatus::ShuttingDown(message) => message@,
        }
    }

    /// The message of the status.
    pub fn message(&self) -> (message: &String)
        ensures
            message@ == self.message_spec(),
    {
        match self {
            ClientStatus::Initializing(message) => message,
            ClientStatus::SearchingForRPCService(message) => message,
            ClientStatus::Active(message) => message,
            ClientStatus::Crashed(message) => message,
            ClientStatus::ShuttingDown(message) => message,
        }
    }
}

impl TinyDancer {
    pub closed spec fn config_spec(&self) -> TinyDancerConfig {
        self.config
    }

    pub fn new(config: TinyDancerConfig) -> (client: TinyDancer)
        ensures
            client.config_spec() == config,
    {
        TinyDancer { config }
    }

    pub fn config(&self) -> (config: &TinyDancerConfig)
        ensures
            *config == self.config_spec(),
    {
        &self.config
    }

    /// The status of a client that has just been started.
    pub fn starting_status() -> (status: ClientStatus)
        ensures
            status is Initializing,
            status.message_spec() == "Starting Up Tinydancer"@,
    {
        ClientStatus::Initializing(String::from_str("Starting Up Tinydancer"))
    }

    /// The options a client opens its store with: the store and its sections
    /// are created where they are absent, and a store that exists is no error.
    pub fn store_options() -> (options: StoreOptions)
        ensures
            options == (StoreOptions {
                create_if_missing: true,
                error_if_exists: false,
                create_missing_sections: true,
            }),
    {
        StoreOptions { create_if_missing: true, error_if_exists: false, create_missing_sections: true }
    }

    /// The configuration of the dashboard that goes with this client: the
    /// dashboard shows the cluster that the client talks to.
    pub fn ui_config(&self) -> (config: UiConfig)
        ensures
            config.cluster_spec() == self.config_spec().rpc_endpoint,
    {
        UiConfig::new(copy_cluster(&self.config.rpc_endpoint))
    }

    /// The URL of the RPC endpoint that the client is configured for.
    pub fn rpc_url(&self) -> (url: String)
        ensures
            url@ == endpoint_url(self.config_spec().rpc_endpoint),
    {
        endpoint(copy_cluster(&self.config.rpc_endpoint))
    }
}

/// A copy of `cluster`.
fn copy_cluster(cluster: &Cluster) -> (copy: Cluster)
    ensures
        copy == *cluster,
{
    match cluster {
        Cluster::Mainnet => Cluster::Mainnet,
        Cluster::Devnet => Cluster::Devnet,
        Cluster::Localnet => Cluster::Localnet,
        Cluster::Custom(url) => Cluster::Custom(url.clone()),
    }
}

} // verus!
