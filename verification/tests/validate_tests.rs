use nibc_forge::config::{Config, ModuleConfig};
use nibc_forge::error::AppError;
use nibc_forge::validate::{
    count_relay_modules, find_relay_index, load_and_validate, resolve_template, validate_modules,
};

fn module(dir: &str, kind: &str) -> ModuleConfig {
    ModuleConfig {
        module_dir: dir.to_string(),
        _type: kind.to_string(),
        rpc_hostname: None,
        relayer_key: None,
        hermes_template: None,
        docker_env: None,
    }
}

fn chain(dir: &str, kind: &str, host: &str, key: &str) -> ModuleConfig {
    ModuleConfig {
        module_dir: dir.to_string(),
        _type: kind.to_string(),
        rpc_hostname: Some(host.to_string()),
        relayer_key: Some(key.to_string()),
        hermes_template: Some("templates/chain.toml".to_string()),
        docker_env: None,
    }
}

fn relay(dir: &str) -> ModuleConfig {
    ModuleConfig {
        module_dir: dir.to_string(),
        _type: "hermes".to_string(),
        rpc_hostname: None,
        relayer_key: None,
        hermes_template: Some("templates/hermes.toml".to_string()),
        docker_env: None,
    }
}

fn invalid_config_message(r: Result<Vec<String>, AppError>) -> String {
    match r {
        Err(AppError::InvalidConfig(s)) => s,
        _ => panic!("expected an invalid-configuration error"),
    }
}

#[test]
fn two_relay_modules_fail_before_anything_else() {
    // Even with every other invariant broken too, the multi-relay check aborts
    // with its own message, before the aggregated validation runs.
    let config = Config { modules: vec![relay("m/h1"), relay("m/h2"), module("m/missing", "gaia")] };
    let msg = invalid_config_message(load_and_validate(
        &config,
        &"deploy".to_string(),
        false,
        &vec![true, true, false],
        &vec![true, true, false],
    ));
    assert_eq!(msg, "Config cannot include more than one Hermes module");
}

#[test]
fn existing_deployment_dir_fails_first() {
    let config = Config { modules: vec![relay("m/h1")] };
    let msg = invalid_config_message(load_and_validate(
        &config,
        &"deploy".to_string(),
        true,
        &vec![true],
        &vec![true],
    ));
    assert_eq!(msg, "Deployment directory already exists: deploy");
}

#[test]
fn valid_spec_loads_with_zero_errors() {
    let config = Config {
        modules: vec![relay("m/hermes"), chain("m/gaia", "gaia", "gaia-rpc", "k1")],
    };
    let warnings = load_and_validate(
        &config,
        &"deploy".to_string(),
        false,
        &vec![true, true],
        &vec![true, true],
    )
    .expect("a fully valid spec must load");
    assert!(warnings.is_empty());
}

#[test]
fn all_violations_are_reported_in_one_batch() {
    // One module with a missing source directory, one chain module without a
    // relayer key: both failures appear in the same aggregated message.
    let mut keyless = chain("m/osmosis", "osmosis", "osmo-rpc", "");
    keyless.relayer_key = None;
    let config = Config { modules: vec![relay("m/hermes"), module("m/gone", "gaia"), keyless] };
    let msg = invalid_config_message(load_and_validate(
        &config,
        &"deploy".to_string(),
        false,
        &vec![true, false, true],
        &vec![true, false, true],
    ));
    assert_eq!(
        msg,
        "Module directory not found: m/gone; \
         Hermes template hermes_templates/gaia.toml not found for module m/gone; \
         Relayer key not provided for m/gone; \
         Relayer key not provided for m/osmosis"
    );
}

#[test]
fn empty_relayer_key_is_reported_like_a_missing_one() {
    let empty_key = chain("m/gaia", "gaia", "gaia-rpc", "");
    let config = Config { modules: vec![relay("m/hermes"), empty_key] };
    let msg = invalid_config_message(load_and_validate(
        &config,
        &"deploy".to_string(),
        false,
        &vec![true, true],
        &vec![true, true],
    ));
    assert_eq!(msg, "Relayer key not provided for m/gaia");
}

#[test]
fn duplicate_hostnames_are_rejected() {
    let config = Config {
        modules: vec![
            relay("m/hermes"),
            chain("m/gaia", "gaia", "shared-rpc", "k1"),
            chain("m/osmosis", "osmosis", "shared-rpc", "k2"),
        ],
    };
    let msg = invalid_config_message(load_and_validate(
        &config,
        &"deploy".to_string(),
        false,
        &vec![true, true, true],
        &vec![true, true, true],
    ));
    assert_eq!(msg, "Duplicate rpc_hostname shared-rpc declared for module m/osmosis");
}

#[test]
fn missing_relay_module_is_only_a_warning() {
    let config = Config { modules: vec![chain("m/gaia", "gaia", "gaia-rpc", "k1")] };
    let warnings = load_and_validate(
        &config,
        &"deploy".to_string(),
        false,
        &vec![true],
        &vec![true],
    )
    .expect("a spec without a relay module still loads");
    assert_eq!(
        warnings,
        vec!["no Hermes module in config; is this intended? (If so, ignore this warning)"]
    );
}

#[test]
fn defaulted_template_is_surfaced_as_a_warning() {
    let mut m = chain("m/gaia", "gaia", "gaia-rpc", "k1");
    m.hermes_template = None;
    let config = Config { modules: vec![relay("m/hermes"), m] };
    let warnings = load_and_validate(
        &config,
        &"deploy".to_string(),
        false,
        &vec![true, true],
        &vec![true, true],
    )
    .expect("a defaulted template does not block loading");
    assert_eq!(
        warnings,
        vec![
            "hermes_template not specified for module m/gaia; \
             falling back to default value hermes_templates/gaia"
        ]
    );
}

#[test]
fn duplicate_module_dirs_are_noted_not_rejected() {
    let config = Config {
        modules: vec![
            relay("m/hermes"),
            chain("m/gaia", "gaia", "rpc-a", "k1"),
            chain("m/gaia", "gaia", "rpc-b", "k2"),
        ],
    };
    let warnings = load_and_validate(
        &config,
        &"deploy".to_string(),
        false,
        &vec![true, true, true],
        &vec![true, true, true],
    )
    .expect("duplicate source directories are allowed");
    assert_eq!(
        warnings,
        vec!["Duplicate module_dir m/gaia; the copy will be materialized under a suffixed name"]
    );
}

#[test]
fn auxiliary_modules_need_no_template() {
    let aux = module("m/faucet", "aux");
    assert!(resolve_template(&aux).is_none());
    // An auxiliary module passes validation with no template on disk.
    let config = Config { modules: vec![relay("m/hermes"), aux] };
    let (errors, _warnings) =
        validate_modules(&config.modules, &vec![true, true], &vec![true, false]);
    assert!(errors.is_empty());
}

#[test]
fn template_resolution_prefers_the_explicit_path() {
    let m = chain("m/gaia", "gaia", "gaia-rpc", "k1");
    let (path, defaulted) = resolve_template(&m).expect("chain modules resolve a template");
    assert_eq!(path, "templates/chain.toml");
    assert!(!defaulted);

    let mut bare = chain("m/gaia", "gaia", "gaia-rpc", "k1");
    bare.hermes_template = None;
    let (path, defaulted) = resolve_template(&bare).expect("the fallback applies");
    assert_eq!(path, "hermes_templates/gaia.toml");
    assert!(defaulted);
}

#[test]
fn relay_counting_and_lookup() {
    let modules = vec![chain("m/gaia", "gaia", "rpc", "k"), relay("m/hermes")];
    assert_eq!(count_relay_modules(&modules), 1);
    assert_eq!(find_relay_index(&modules), Some(1));

    let none: Vec<ModuleConfig> = vec![module("m/faucet", "aux")];
    assert_eq!(count_relay_modules(&none), 0);
    assert_eq!(find_relay_index(&none), None);
}

#[test]
fn an_empty_spec_loads_with_only_the_relay_warning() {
    let config = Config { modules: Vec::new() };
    let warnings = load_and_validate(&config, &"deploy".to_string(), false, &Vec::new(), &Vec::new())
        .expect("an empty spec is structurally valid");
    assert_eq!(
        warnings,
        vec!["no Hermes module in config; is this intended? (If so, ignore this warning)"]
    );
}
