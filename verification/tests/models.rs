use mkube_console::config::{
    default_cluster_name, default_listen_port, Config, ConfigError, MkubeConfig, NodeDef,
    RegistryConfig,
};
use mkube_console::models::k8s::{node_annotation_key, NodeList, Pod, PodList};
use mkube_console::models::string_map::{same_text, StringMap};

fn config() -> Config {
    Config {
        cluster_name: default_cluster_name(),
        listen_port: default_listen_port(),
        nodes: Vec::new(),
        routeros: None,
        mkube: None,
        registry: None,
        logs_url: None,
        networks: Vec::new(),
    }
}

#[test]
fn string_map_inserts_and_replaces() {
    let mut m = StringMap::new();
    assert_eq!(m.len(), 0);
    assert_eq!(m.get("a"), None);
    m.insert("a".to_string(), "1".to_string());
    m.insert("b".to_string(), "2".to_string());
    m.insert("a".to_string(), "3".to_string());
    assert_eq!(m.len(), 2);
    assert_eq!(m.get("a").map(|s| s.as_str()), Some("3"));
    assert_eq!(m.get("b").map(|s| s.as_str()), Some("2"));
    assert!(m.contains_key("b"));
    assert!(!m.contains_key("c"));
    let (k, v) = m.entry(0);
    assert_eq!((k.as_str(), v.as_str()), ("a", "3"));
    let (k, v) = m.entry(1);
    assert_eq!((k.as_str(), v.as_str()), ("b", "2"));
    assert_eq!(StringMap::default().len(), 0);
    assert!(same_text("x", "x"));
    assert!(!same_text("x", "X"));
}

#[test]
fn stamp_sets_only_the_owner_annotation() {
    let mut p = Pod::default();
    p.metadata.name = "web".to_string();
    let mut labels = StringMap::new();
    labels.insert("app".to_string(), "web".to_string());
    p.metadata.labels = Some(labels);
    let mut notes = StringMap::new();
    notes.insert("team".to_string(), "blue".to_string());
    notes.insert("mkube.io/node".to_string(), "old".to_string());
    p.metadata.annotations = Some(notes);
    let stamped = p.stamp("n2");
    assert_eq!(node_annotation_key(), "mkube.io/node");
    assert_eq!(stamped.metadata.annotation("mkube.io/node").map(|s| s.as_str()), Some("n2"));
    assert_eq!(stamped.metadata.annotation("team").map(|s| s.as_str()), Some("blue"));
    assert_eq!(stamped.metadata.annotations.as_ref().unwrap().len(), 2);
    assert_eq!(stamped.metadata.labels.as_ref().unwrap().get("app").map(|s| s.as_str()), Some("web"));
    assert_eq!(stamped.metadata.name, "web");
    let bare = Pod::default().stamp("n1");
    assert_eq!(bare.metadata.annotation("mkube.io/node").map(|s| s.as_str()), Some("n1"));
    assert_eq!(Pod::default().metadata.annotation("mkube.io/node"), None);
}

#[test]
fn default_lists_carry_their_kind() {
    let pods = PodList::default();
    assert_eq!(pods.type_meta.api_version, "v1");
    assert_eq!(pods.type_meta.kind, "PodList");
    assert!(pods.items.is_empty());
    let nodes = NodeList::default();
    assert_eq!(nodes.type_meta.api_version, "v1");
    assert_eq!(nodes.type_meta.kind, "NodeList");
    assert!(nodes.items.is_empty());
}

#[test]
fn config_defaults_and_addresses() {
    let mut cfg = config();
    assert_eq!(cfg.cluster_name, "mkube");
    assert_eq!(cfg.listen_port, 9090);
    assert_eq!(cfg.listen_addr(), "0.0.0.0:9090");
    assert_eq!(cfg.registry_url(), "");
    assert_eq!(cfg.logs_url(), "");
    cfg.listen_port = 80;
    cfg.registry = Some(RegistryConfig { base_url: "http://registry:5000".to_string() });
    cfg.logs_url = Some("http://logs".to_string());
    assert_eq!(cfg.listen_addr(), "0.0.0.0:80");
    assert_eq!(cfg.registry_url(), "http://registry:5000");
    assert_eq!(cfg.logs_url(), "http://logs");
    cfg.listen_port = 0;
    assert_eq!(cfg.listen_addr(), "0.0.0.0:0");
    cfg.listen_port = u16::MAX;
    assert_eq!(cfg.listen_addr(), "0.0.0.0:65535");
}

#[test]
fn config_with_nodes_is_kept() {
    let mut cfg = config();
    cfg.nodes.push(NodeDef { name: "n1".to_string(), address: "http://n1".to_string() });
    cfg.nodes.push(NodeDef { name: "n2".to_string(), address: "http://n2".to_string() });
    cfg.mkube = Some(MkubeConfig { base_url: "http://ignored".to_string() });
    let loaded = Config::load(cfg).unwrap();
    assert_eq!(loaded.nodes.len(), 2);
    assert_eq!(loaded.nodes[1].address, "http://n2");
}

#[test]
fn config_derives_its_node_from_mkube() {
    let mut cfg = config();
    cfg.cluster_name = "edge".to_string();
    cfg.mkube = Some(MkubeConfig { base_url: "http://192.168.1.1:8082".to_string() });
    let loaded = Config::load(cfg).unwrap();
    assert_eq!(loaded.nodes.len(), 1);
    assert_eq!(loaded.nodes[0].name, "edge");
    assert_eq!(loaded.nodes[0].address, "http://192.168.1.1:8082");
    assert_eq!(loaded.cluster_name, "edge");
    assert!(loaded.mkube.is_some());
}

#[test]
fn config_without_nodes_is_refused() {
    match Config::load(config()) {
        Err(e) => {
            assert_eq!(e, ConfigError::NoNodes);
            assert_eq!(e.message(), "at least one node or mkube.base_url must be configured");
        }
        Ok(_) => panic!("a configuration without nodes was accepted"),
    }
}
