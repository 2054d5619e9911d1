//! The static configuration of the console.

use vstd::prelude::*;
use vstd::string::*;
use crate::text::{decimal, decimal_string};

verus! {

#[derive(Debug, Clone)]
pub struct Config {
    pub cluster_name: String,
    pub listen_port: u16,
    pub nodes: Vec<NodeDef>,
    pub routeros: Option<RouterOsConfig>,
    pub mkube: Option<MkubeConfig>,
    pub registry: Option<RegistryConfig>,
    pub logs_url: Option<String>,
    pub networks: Vec<NetworkDef>,
}

/// One node agent: the name it is known by and where it listens.
#[derive(Debug, Clone)]
pub struct NodeDef {
    pub name: String,
    pub address: String,
}

#[derive(Debug, Clone)]
pub struct RouterOsConfig {
    pub base_url: String,
    pub username: Option<String>,
}

#[derive(Debug, Clone)]
pub struct MkubeConfig {
    pub base_url: String,
}

#[derive(Debug, Clone)]
pub struct RegistryConfig {
    pub base_url: String,
}

#[derive(Debug, Clone)]
pub struct NetworkDef {
    pub name: String,
    pub bridge: Option<String>,
    pub cidr: Option<String>,
    pub gateway: Option<String>,
    pub dns_endpoint: Option<String>,
}

/// Why a configuration cannot be used.
#[derive(Debug, Clone, Copy, PartialEq, Eq, Structural)]
pub enum ConfigError {
    /// Neither a node nor an mkube address is configured.
    NoNodes,
}

impl ConfigError {
    /// The error in words.
    pub fn message(&self) -> (text: String)
        ensures
            text@ == "at least one node or mkube.base_url must be configured"@,
    {
        String::from_str("at least one node or mkube.base_url must be configured")
    }
}

/// The cluster name of a configuration that gives none.
pub fn default_cluster_name() -> (name: String)
    ensures
        name@ == "mkube"@,
{
    String::from_str("mkube")
}

/// The port of a configuration that gives none.
pub fn default_listen_port() -> (port: u16)
    ensures
        port == 9090,
{
    9090
}

impl Config {
    /// `self` is `given` with its node list replaced by the one node that
    /// the mkube address stands for, named after the cluster.
    pub open spec fn derived_from(self, given: Config) -> bool {
        &&& given.mkube is Some
        &&& self.nodes@.len() == 1
        &&& self.nodes@[0].name@ == given.cluster_name@
        &&& self.nodes@[0].address@ == given.mkube->Some_0.base_url@
        &&& self.cluster_name == given.cluster_name
        &&& self.listen_port == given.listen_port
        &&& self.routeros == given.routeros
        &&& self.mkube == given.mkube
        &&& self.registry == given.registry
        &&& self.logs_url == given.logs_url
        &&& self.networks == given.networks
    }

    /// Makes a parsed configuration ready for use. One that lists nodes is
    /// kept as it is. One that lists none but gives an mkube address gets
    /// that address as its one node, named after the cluster. One with
    /// neither is refused.
    pub fn load(parsed: Config) -> (r: Result<Config, ConfigError>)
        ensures
            match r {
                Ok(cfg) => if parsed.nodes@.len() > 0 {
                    cfg == parsed
                } else {
                    cfg.derived_from(parsed)
                },
                Err(e) => parsed.nodes@.len() == 0 && parsed.mkube is None && e
                    == ConfigError::NoNodes,
            },
    {
        let mut cfg = parsed;
        if cfg.nodes.len() == 0 {
            match &cfg.mkube {
                Some(mkube) => {
                    let node = NodeDef {
                        name: cfg.cluster_name.clone(),
                        address: mkube.base_url.clone(),
                    };
                    let mut nodes: Vec<NodeDef> = Vec::new();
                    nodes.push(node);
                    cfg.nodes = nodes;
                },
                None => {
                    return Err(ConfigError::NoNodes);
                },
            }
        }
        Ok(cfg)
    }

    /// The address to listen on: every interface, at the configured port.
    pub fn listen_addr(&self) -> (addr: String)
        ensures
            addr@ == "0.0.0.0:"@ + decimal(self.listen_port as nat),
    {
        let mut addr = String::from_str("0.0.0.0:");
        let port = decimal_string(self.listen_port as u64);
        addr.append(port.as_str());
        addr
    }

    /// The address of the container registry; empty where none is
    /// configured.
    pub fn registry_url(&self) -> (url: String)
        ensures
            url@ == match self.registry {
                Some(r) => r.base_url@,
                None => Seq::<char>::empty(),
            },
    {
        match &self.registry {
            Some(r) => r.base_url.clone(),
            None => String::new(),
        }
    }

    /// The address of the log viewer; empty where none is configured.
    pub fn logs_url(&self) -> (url: String)
        ensures
            url@ == match self.logs_url {
                Some(u) => u@,
                None => Seq::<char>::empty(),
            },
    {
        match &self.logs_url {
            Some(u) => u.clone(),
            None => String::new(),
        }
    }
}

} // verus!
