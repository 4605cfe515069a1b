use nibc_forge::config::ModuleConfig;
use nibc_forge::materialize::{
    dest_dir_name, env_file_content, path_base_name, plan_modules, OccurrenceCounter,
};
use nibc_forge::strutil::{join_strings, replace_char, usize_to_string};

fn module(dir: &str) -> ModuleConfig {
    ModuleConfig {
        module_dir: dir.to_string(),
        _type: "gaia".to_string(),
        rpc_hostname: None,
        relayer_key: Some("k".to_string()),
        hermes_template: Some("t.toml".to_string()),
        docker_env: None,
    }
}

#[test]
fn base_name_is_the_final_path_component() {
    assert_eq!(path_base_name(&"modules/namada".to_string()), "namada");
    assert_eq!(path_base_name(&"a/b/c".to_string()), "c");
    assert_eq!(path_base_name(&"plain".to_string()), "plain");
    assert_eq!(path_base_name(&"".to_string()), "");
}

#[test]
fn base_name_ignores_trailing_separators() {
    assert_eq!(path_base_name(&"modules/gaia/".to_string()), "gaia");
    assert_eq!(path_base_name(&"a//".to_string()), "a");
    assert_eq!(path_base_name(&"/".to_string()), "");
}

#[test]
fn decimal_rendering_is_exact() {
    assert_eq!(usize_to_string(0), "0");
    assert_eq!(usize_to_string(7), "7");
    assert_eq!(usize_to_string(42), "42");
    assert_eq!(usize_to_string(100), "100");
    assert_eq!(usize_to_string(90217), "90217");
}

#[test]
fn destination_names_append_the_occurrence_count() {
    assert_eq!(dest_dir_name(&"gaia".to_string(), 1), "gaia");
    assert_eq!(dest_dir_name(&"gaia".to_string(), 2), "gaia2");
    assert_eq!(dest_dir_name(&"gaia".to_string(), 3), "gaia3");
    assert_eq!(dest_dir_name(&"gaia".to_string(), 12), "gaia12");
}

#[test]
fn occurrence_counter_counts_per_name() {
    let mut counter = OccurrenceCounter::new();
    let gaia = "gaia".to_string();
    let osmosis = "osmosis".to_string();
    assert_eq!(counter.next(&gaia), 1);
    assert_eq!(counter.next(&gaia), 2);
    assert_eq!(counter.next(&osmosis), 1);
    assert_eq!(counter.next(&gaia), 3);
    assert_eq!(counter.next(&osmosis), 2);
}

#[test]
fn env_file_rewrites_the_delimiter_and_appends_the_hostname() {
    let mut m = module("m/gaia");
    m.docker_env = Some("A=1,B=2".to_string());
    m.rpc_hostname = Some("gaia-rpc".to_string());
    assert_eq!(env_file_content(&m), "A=1\nB=2\nHOSTNAME=gaia-rpc\n");
}

#[test]
fn env_file_with_nothing_declared_is_empty() {
    let m = module("m/gaia");
    assert_eq!(env_file_content(&m), "");
}

#[test]
fn env_file_with_only_a_hostname() {
    let mut m = module("m/gaia");
    m.rpc_hostname = Some("h".to_string());
    assert_eq!(env_file_content(&m), "HOSTNAME=h\n");
}

#[test]
fn duplicated_base_names_get_suffixed_destinations() {
    // Two modules with the same source-directory base name: the first keeps
    // the bare base name, the second lands in a `2`-suffixed directory and is
    // the one whose descriptor must be rewritten with suffix "2".
    let modules = vec![module("images/gaia"), module("other/gaia"), module("images/osmosis")];
    let planned = plan_modules(&modules);
    assert_eq!(planned.len(), 3);

    assert_eq!(planned[0].dest_name, "gaia");
    assert_eq!(planned[0].occurrence, 1);
    assert!(planned[0].rewrite_suffix().is_none());

    assert_eq!(planned[1].dest_name, "gaia2");
    assert_eq!(planned[1].occurrence, 2);
    assert_eq!(planned[1].rewrite_suffix(), Some("2".to_string()));

    assert_eq!(planned[2].dest_name, "osmosis");
    assert_eq!(planned[2].occurrence, 1);
}

#[test]
fn plans_carry_the_env_content() {
    let mut m = module("m/gaia");
    m.docker_env = Some("X=1".to_string());
    let planned = plan_modules(&vec![m]);
    assert_eq!(planned[0].env_content, "X=1\n");
}

#[test]
fn replace_char_touches_only_the_target() {
    assert_eq!(replace_char("a,b,,c", ',', '\n'), "a\nb\n\nc");
    assert_eq!(replace_char("", ',', '\n'), "");
    assert_eq!(replace_char("abc", ',', '\n'), "abc");
}

#[test]
fn join_strings_separates_items() {
    let items = vec!["a".to_string(), "b".to_string(), "c".to_string()];
    assert_eq!(join_strings(&items, "; "), "a; b; c");
    assert_eq!(join_strings(&vec!["one".to_string()], "; "), "one");
    assert_eq!(join_strings(&Vec::new(), "; "), "");
}

#[test]
fn planning_an_empty_spec_yields_no_modules() {
    let planned = plan_modules(&Vec::new());
    assert!(planned.is_empty());
}
