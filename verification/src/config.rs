//! Node configuration.

use vstd::prelude::*;

verus! {

/// The node's settings, as read from `config.toml`.
#[derive(Debug, Clone)]
pub struct Config {
    pub seed_node: bool,
    pub node_id: String,
    pub public_ip: String,
    pub port: u16,
    pub high_neuron_mode: bool,
    pub listen_addr: Option<String>,
    pub enable_mdns: Option<bool>,
}

/// `c` holds the settings used when no configuration is given.
pub open spec fn is_default_config(c: Config) -> bool {
    &&& !c.seed_node
    &&& c.node_id@ == "pappap-node-001"@
    &&& c.public_ip@ == "0.0.0.0"@
    &&& c.port == 36331
    &&& !c.high_neuron_mode
    &&& c.listen_addr matches Some(a) && a@ == "0.0.0.0:36331"@
    &&& c.enable_mdns == Some(true)
}

impl Default for Config {
    fn default() -> (c: Self)
        ensures
            is_default_config(c),
    {
        Config {
            seed_node: false,
            node_id: "pappap-node-001".to_owned(),
            public_ip: "0.0.0.0".to_owned(),
            port: 36331,
            high_neuron_mode: false,
            listen_addr: Some("0.0.0.0:36331".to_owned()),
            enable_mdns: Some(true),
        }
    }
}

impl Config {
    /// The configuration that a file with `contents` gives, where `parsed`
    /// is what reading `contents` as TOML produced (`None`: it was not a
    /// valid configuration). An empty file, and a file that does not parse,
    /// give the default settings.
    pub fn from_contents(contents: &str, parsed: Option<Config>) -> (c: Config)
        ensures
            contents@.len() == 0 ==> is_default_config(c),
            contents@.len() != 0 && parsed is None ==> is_default_config(c),
            contents@.len() != 0 && parsed is Some ==> c == parsed->0,
    {
        if contents.is_empty() {
            return Config::default();
        }
        match parsed {
            Some(c) => c,
            None => Config::default(),
        }
    }
}

} // verus!
