use nibc_forge::compose::modify_service_names;
use nibc_forge::error::AppError;

const COMPOSE: &str = "version: \"3\"\nservices:\n  gaia-node:\n    image: gaia:v14\n    hostname: gaia-rpc\n  faucet:\n    image: faucet:latest\n";

#[test]
fn every_service_name_gets_the_suffix() {
    let rewritten = modify_service_names(COMPOSE, "2").expect("a well-formed descriptor rewrites");
    let doc: serde_yaml::Value = serde_yaml::from_str(&rewritten).expect("output stays parseable");
    let services = doc.get("services").and_then(|s| s.as_mapping()).expect("services kept");
    let keys: Vec<&str> = services.keys().map(|k| k.as_str().unwrap()).collect();
    assert_eq!(keys, vec!["gaia-node2", "faucet2"]);
}

#[test]
fn service_definitions_are_preserved() {
    let rewritten = modify_service_names(COMPOSE, "2").expect("a well-formed descriptor rewrites");
    let doc: serde_yaml::Value = serde_yaml::from_str(&rewritten).unwrap();
    let image = doc
        .get("services")
        .and_then(|s| s.get("gaia-node2"))
        .and_then(|s| s.get("image"))
        .and_then(|v| v.as_str());
    assert_eq!(image, Some("gaia:v14"));
    let hostname = doc
        .get("services")
        .and_then(|s| s.get("gaia-node2"))
        .and_then(|s| s.get("hostname"))
        .and_then(|v| v.as_str());
    assert_eq!(hostname, Some("gaia-rpc"));
}

#[test]
fn other_sections_are_preserved() {
    let rewritten = modify_service_names(COMPOSE, "3").expect("a well-formed descriptor rewrites");
    let doc: serde_yaml::Value = serde_yaml::from_str(&rewritten).unwrap();
    assert_eq!(doc.get("version").and_then(|v| v.as_str()), Some("3"));
}

#[test]
fn an_unparseable_descriptor_is_reported() {
    let r = modify_service_names(": not yaml : [", "2");
    match r {
        Err(AppError::InvalidConfig(s)) => assert_eq!(s, "Failed to deserialize YAML"),
        _ => panic!("expected an invalid-configuration error"),
    }
}

#[test]
fn a_descriptor_without_services_is_reported() {
    let r = modify_service_names("version: \"3\"\n", "2");
    match r {
        Err(AppError::InvalidConfig(s)) => assert_eq!(s, "Failed to deserialize YAML"),
        _ => panic!("expected an invalid-configuration error"),
    }
}

#[test]
fn error_messages_render_by_kind() {
    assert_eq!(AppError::Io("open x".to_string()).message(), "IO error: open x");
    assert_eq!(
        AppError::DockerCommand("docker ls failed".to_string()).message(),
        "Docker command failed: docker ls failed"
    );
    assert_eq!(AppError::InvalidConfig("bad".to_string()).message(), "Invalid configuration: bad");
    assert_eq!(AppError::Unknown.message(), "Unknown error occurred");
}
