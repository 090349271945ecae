use tinydancer::client::{
    ClientService, ClientStatus, StoreOptions, ThreadJoinError, TinyDancer, TinyDancerConfig,
    UiConfig,
};
use tinydancer::cluster::{endpoint, Cluster};

#[test]
fn named_clusters_have_fixed_endpoints() {
    assert_eq!(endpoint(Cluster::Mainnet), "https://api.mainnet-beta.solana.com");
    assert_eq!(endpoint(Cluster::Devnet), "https://api.devnet.solana.com");
    assert_eq!(endpoint(Cluster::Localnet), "http://0.0.0.0:8899");
}

#[test]
fn custom_cluster_keeps_its_url() {
    assert_eq!(
        endpoint(Cluster::Custom("http://10.1.2.3:8899/rpc".to_string())),
        "http://10.1.2.3:8899/rpc"
    );
    assert_eq!(endpoint(Cluster::Custom(String::new())), "");
}

#[test]
fn client_starts_as_initializing() {
    assert_eq!(
        TinyDancer::starting_status(),
        ClientStatus::Initializing("Starting Up Tinydancer".to_string())
    );
    assert_eq!(TinyDancer::starting_status().message(), "Starting Up Tinydancer");
}

#[test]
fn store_is_created_where_absent() {
    assert_eq!(
        TinyDancer::store_options(),
        StoreOptions {
            create_if_missing: true,
            error_if_exists: false,
            create_missing_sections: true
        }
    );
}

#[test]
fn client_resolves_its_endpoint() {
    let client = TinyDancer::new(TinyDancerConfig {
        rpc_endpoint: Cluster::Devnet,
        log_path: "client.log".to_string(),
    });
    assert_eq!(client.config().log_path, "client.log");
    assert_eq!(client.rpc_url(), "https://api.devnet.solana.com");
    assert_eq!(endpoint(client.ui_config().cluster().clone()), "https://api.devnet.solana.com");

    let custom = TinyDancer::new(TinyDancerConfig {
        rpc_endpoint: Cluster::Custom("http://node:1".to_string()),
        log_path: String::new(),
    });
    assert_eq!(custom.rpc_url(), "http://node:1");
    assert_eq!(endpoint(custom.ui_config().cluster().clone()), "http://node:1");
}

#[test]
fn status_message_is_the_payload() {
    assert_eq!(ClientStatus::Active("up".to_string()).message(), "up");
    assert_eq!(ClientStatus::Crashed("down".to_string()).message(), "down");
    assert_eq!(ClientStatus::ShuttingDown("bye".to_string()).message(), "bye");
    assert_eq!(ClientStatus::SearchingForRPCService("look".to_string()).message(), "look");
}

#[test]
fn join_error_gives_its_reason() {
    let error = ThreadJoinError::new("worker panicked".to_string());
    assert_eq!(error.message(), "worker panicked");
}

struct Finished {
    fails: bool,
}

impl ClientService<bool> for Finished {
    type ServiceError = ThreadJoinError;

    fn new(config: bool) -> Self {
        Finished { fails: config }
    }

    fn join(self) -> Result<(), ThreadJoinError> {
        if self.fails {
            Err(ThreadJoinError::new("stopped".to_string()))
        } else {
            Ok(())
        }
    }
}

#[test]
fn services_are_joined_through_one_contract() {
    assert_eq!(Finished::new(false).join(), Ok(()));
    assert_eq!(
        Finished::new(true).join(),
        Err(ThreadJoinError::new("stopped".to_string()))
    );
    let config = UiConfig::new(Cluster::Localnet);
    assert_eq!(endpoint(config.cluster().clone()), "http://0.0.0.0:8899");
}
