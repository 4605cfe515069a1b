use nibc_forge::config::ModuleConfig;
use nibc_forge::error::AppError;
use nibc_forge::synth::{
    build_chain_registry, chain_modules, chainlist_json, rewrite_fragment, synthesize_relay_config,
};

const CHAIN_TEMPLATE: &str = "[[chains]]\nid = \"placeholder\"\nrpc_addr = \"http://localhost:26657\"\ngrpc_addr = \"http://localhost:9090\"\nkey_name = \"wallet\"\n\n[chains.event_source]\nmode = \"push\"\nurl = \"ws://localhost:26657/websocket\"\n\n[chains.gas_price]\nprice = 0.01\ndenom = \"uatom\"\n";

fn chain(dir: &str, kind: &str, host: &str, key: &str) -> ModuleConfig {
    ModuleConfig {
        module_dir: dir.to_string(),
        _type: kind.to_string(),
        rpc_hostname: Some(host.to_string()),
        relayer_key: Some(key.to_string()),
        hermes_template: Some("t.toml".to_string()),
        docker_env: None,
    }
}

fn aux(dir: &str) -> ModuleConfig {
    ModuleConfig {
        module_dir: dir.to_string(),
        _type: "aux".to_string(),
        rpc_hostname: None,
        relayer_key: None,
        hermes_template: None,
        docker_env: None,
    }
}

fn relay(dir: &str) -> ModuleConfig {
    ModuleConfig {
        module_dir: dir.to_string(),
        _type: "hermes".to_string(),
        rpc_hostname: None,
        relayer_key: None,
        hermes_template: Some("hermes.toml".to_string()),
        docker_env: None,
    }
}

#[test]
fn fragments_carry_index_scoped_placeholders() {
    let fragment = rewrite_fragment(CHAIN_TEMPLATE, 0).expect("the template parses");
    let doc: toml_edit::DocumentMut = fragment.parse().expect("the fragment stays parseable");
    let chains = doc["chains"].as_array_of_tables().expect("the chain table array is kept");
    let entry = chains.iter().next().expect("one entry");
    assert_eq!(entry["id"].as_str(), Some("CHAIN_0"));
    assert_eq!(entry["rpc_addr"].as_str(), Some("http://HOST_0:26657"));
    assert_eq!(entry["grpc_addr"].as_str(), Some("http://HOST_0:9090"));
    assert_eq!(entry["event_source"]["url"].as_str(), Some("ws://HOST_0:26657/websocket"));
    assert_eq!(entry["gas_price"]["denom"].as_str(), Some("DENOM_0"));
    assert_eq!(entry["key_name"].as_str(), Some("KEY_0"));
    // Fields outside the rewrite set are untouched.
    assert_eq!(entry["event_source"]["mode"].as_str(), Some("push"));
    assert_eq!(entry["gas_price"]["price"].as_float(), Some(0.01));
}

#[test]
fn relay_config_is_the_template_then_each_fragment_in_order() {
    let base = "[global]\nlog_level = \"info\"\n";
    let templates = vec![CHAIN_TEMPLATE.to_string(), CHAIN_TEMPLATE.to_string()];
    let doc = synthesize_relay_config(base, &templates).expect("both fragments parse");

    let first = rewrite_fragment(CHAIN_TEMPLATE, 0).unwrap();
    let second = rewrite_fragment(CHAIN_TEMPLATE, 1).unwrap();
    let expected = format!("{}\n{}\n{}", base, first, second);
    assert_eq!(doc, expected);

    // The base template opens the document, and the fragments follow in
    // chain order.
    assert!(doc.starts_with(base));
    let chain0 = doc.find("CHAIN_0").unwrap();
    let chain1 = doc.find("CHAIN_1").unwrap();
    assert!(chain0 < chain1);
}

#[test]
fn an_unparseable_fragment_aborts_the_whole_synthesis() {
    let templates = vec![CHAIN_TEMPLATE.to_string(), "not [ toml".to_string()];
    match synthesize_relay_config("base\n", &templates) {
        Err(AppError::InvalidConfig(s)) => assert_eq!(s, "Failed to rewrite chain template"),
        _ => panic!("expected an invalid-configuration error"),
    }
}

#[test]
fn a_fragment_without_a_chain_table_aborts_the_whole_synthesis() {
    // The template parses as TOML but holds no chain table array: a missing
    // chain-table is fatal to the whole synthesis, not silently passed along.
    let templates = vec!["[global]\nlog_level = \"info\"\n".to_string()];
    assert!(rewrite_fragment(&templates[0], 0).is_none());
    match synthesize_relay_config("base\n", &templates) {
        Err(AppError::InvalidConfig(s)) => assert_eq!(s, "Failed to rewrite chain template"),
        _ => panic!("expected an invalid-configuration error"),
    }
}

#[test]
fn a_fragment_with_scalar_subtables_fails_instead_of_panicking() {
    // `event_source` parses, but as a scalar: the nested rewrite target does
    // not exist, so the fragment is rejected.
    let template = "[[chains]]\nid = \"x\"\nevent_source = 1\ngas_price = 2\n";
    assert!(rewrite_fragment(template, 0).is_none());
    let templates = vec![template.to_string()];
    assert!(synthesize_relay_config("base\n", &templates).is_err());
}

#[test]
fn registry_lists_chain_modules_in_order() {
    let modules = vec![
        relay("m/hermes"),
        chain("m/gaia", "gaia", "gaia-rpc", "k-gaia"),
        aux("m/faucet"),
        chain("m/osmosis", "osmosis", "osmo-rpc", "k-osmo"),
    ];
    let entries = build_chain_registry(&modules).expect("all chain modules are complete");
    assert_eq!(entries.len(), 2);
    assert_eq!(entries[0].hostname, "gaia-rpc");
    assert_eq!(entries[0].key, "k-gaia");
    assert_eq!(entries[0].kind, "gaia");
    assert_eq!(entries[1].hostname, "osmo-rpc");
    assert_eq!(entries[1].key, "k-osmo");
    assert_eq!(entries[1].kind, "osmosis");
}

#[test]
fn registry_errors_name_the_first_incomplete_chain_module() {
    let mut first = chain("m/first", "gaia", "", "k");
    first.rpc_hostname = None;
    let mut second = chain("m/second", "osmosis", "h", "");
    second.relayer_key = None;
    match build_chain_registry(&vec![aux("m/faucet"), first, second]) {
        Err(AppError::InvalidConfig(s)) => assert_eq!(
            s,
            "Missing required fields for module: m/first; \
             both rpc_hostname and relayer_key must be specified for chain-type modules"
        ),
        _ => panic!("expected an invalid-configuration error"),
    }
}

#[test]
fn registry_rejects_an_incomplete_chain_module() {
    let mut hostless = chain("m/gaia", "gaia", "", "k");
    hostless.rpc_hostname = None;
    match build_chain_registry(&vec![hostless]) {
        Err(AppError::InvalidConfig(s)) => assert_eq!(
            s,
            "Missing required fields for module: m/gaia; \
             both rpc_hostname and relayer_key must be specified for chain-type modules"
        ),
        _ => panic!("expected an invalid-configuration error"),
    }
}

#[test]
fn chainlist_renders_exactly() {
    let modules = vec![chain("m/gaia", "gaia", "gaia-rpc", "k1")];
    let json = chainlist_json(&modules).expect("the chain module is complete");
    assert_eq!(
        json,
        "[\n  {\n    \"hostname\": \"gaia-rpc\",\n    \"key\": \"k1\",\n    \"type\": \"gaia\"\n  }\n]"
    );
}

#[test]
fn registry_hostnames_align_with_fragment_indices() {
    // The registry and the relay configuration derive from the same chain
    // list in the same order: entry N names the host behind HOST_N.
    let modules = vec![
        chain("m/gaia", "gaia", "host-zero", "k0"),
        aux("m/faucet"),
        chain("m/osmosis", "osmosis", "host-one", "k1"),
    ];
    let entries = build_chain_registry(&modules).unwrap();
    let templates = vec![CHAIN_TEMPLATE.to_string(), CHAIN_TEMPLATE.to_string()];
    let doc = synthesize_relay_config("base\n", &templates).unwrap();

    assert_eq!(entries[0].hostname, "host-zero");
    assert!(doc.contains("http://HOST_0:26657"));
    assert_eq!(entries[1].hostname, "host-one");
    assert!(doc.contains("http://HOST_1:26657"));
    // One fragment per chain module, no more.
    assert!(!doc.contains("HOST_2"));
}

#[test]
fn auxiliary_modules_never_reach_the_registry_or_the_config() {
    let modules = vec![relay("m/hermes"), aux("m/faucet"), chain("m/gaia", "gaia", "h", "k")];
    let chains = chain_modules(&modules);
    assert_eq!(chains.len(), 1);
    assert_eq!(chains[0].module_dir, "m/gaia");

    let entries = build_chain_registry(&modules).unwrap();
    assert_eq!(entries.len(), 1);
    assert_eq!(entries[0].kind, "gaia");

    let only_aux = vec![aux("m/faucet")];
    assert_eq!(chainlist_json(&only_aux).unwrap(), "[]");
}

#[test]
fn empty_registry_renders_an_empty_list() {
    let modules: Vec<ModuleConfig> = Vec::new();
    assert_eq!(chainlist_json(&modules).unwrap(), "[]");
}
