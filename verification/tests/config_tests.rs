use htrs::config::migrate_v1_to_v2::migrate_v1_to_v2;
use htrs::config::v1::{EndpointV1, EnvironmentV1, HtrsConfigV1, PresetV1, QueryParameterV1, ServiceV1};
use htrs::config::{Endpoint, Environment, HtrsConfig, Preset, Service};
use htrs::htrs_config::{HtrsConfig as LegacyConfig, ServiceConfig};
use htrs::string_map::StringMap;
use htrs::text::{contains_str, join_strings, replace_str};

fn table(pairs: &[(&str, &str)]) -> StringMap {
    let mut m = StringMap::new();
    for (k, v) in pairs {
        m.insert(k.to_string(), v.to_string());
    }
    m
}

#[test]
fn string_map_keeps_insertion_order_and_distinct_keys() {
    let mut m = StringMap::new();
    assert!(m.is_empty());
    m.insert("b".to_string(), "1".to_string());
    m.insert("a".to_string(), "2".to_string());
    m.insert("b".to_string(), "3".to_string());
    assert_eq!(m.len(), 2);
    assert_eq!(m.entries(), &vec![("b".to_string(), "3".to_string()), ("a".to_string(), "2".to_string())]);
    assert!(m.contains_key("a"));
    m.remove("b");
    assert!(!m.contains_key("b"));
    assert_eq!(m.get("a").unwrap(), "2");
    m.remove("missing");
    assert_eq!(m.len(), 1);
}

#[test]
fn string_map_duplicate_and_extend() {
    let m = table(&[("a", "1"), ("b", "2")]);
    let mut copy = m.duplicate();
    assert_eq!(copy.entries(), m.entries());
    copy.extend_with(&table(&[("b", "9"), ("c", "3")]));
    assert_eq!(
        copy.entries(),
        &vec![("a".to_string(), "1".to_string()), ("b".to_string(), "9".to_string()), ("c".to_string(), "3".to_string())]
    );
    assert_eq!(m.get("b").unwrap(), "2");
}

#[test]
fn services_are_found_by_name_or_alias() {
    let mut config = HtrsConfig::new();
    config.services.push(Service::new("users".to_string(), Some("u".to_string())));
    config.services.push(Service::new("orders".to_string(), None));
    assert_eq!(config.get_service("users").unwrap().name, "users");
    assert_eq!(config.get_service("u").unwrap().name, "users");
    assert_eq!(config.get_service("orders").unwrap().name, "orders");
    assert!(config.get_service("x").is_none());
    config.get_service_mut("u").unwrap().alias = None;
    assert!(config.get_service("u").is_none());
    assert!(config.remove_service("orders"));
    assert!(!config.remove_service("orders"));
    assert_eq!(config.services.len(), 1);
}

#[test]
fn environments_and_endpoints_are_found() {
    let mut s = Service::new("users".to_string(), None);
    s.environments.push(Environment::new("dev".to_string(), Some("d".to_string()), "dev.com".to_string(), false));
    s.environments.push(Environment::new("prod".to_string(), None, "prod.com".to_string(), true));
    s.endpoints.push(Endpoint { name: "get".to_string(), path_template: "/g".to_string(), query_parameters: vec![] });
    assert_eq!(s.get_environment("d").unwrap().name, "dev");
    assert_eq!(s.get_default_environment().unwrap().name, "prod");
    assert_eq!(s.get_endpoint("get").unwrap().path_template, "/g");
    assert!(s.get_endpoint("put").is_none());
    s.get_default_environment_mut().unwrap().default = false;
    assert!(s.get_default_environment().is_none());
    assert!(s.remove_environment("d"));
    assert_eq!(s.environments.len(), 1);
    assert!(s.remove_endpoint("get"));
    assert!(s.endpoints.is_empty());
}

#[test]
fn display_names_show_the_alias() {
    let s = Service::new("users".to_string(), Some("u".to_string()));
    assert_eq!(s.display_name(), "users (u)");
    let e = Environment::new("dev".to_string(), None, "h".to_string(), false);
    assert_eq!(e.display_name(), "dev");
}

#[test]
fn presets_are_found_by_name_or_alias_and_removed_by_name() {
    let mut config = HtrsConfig::new();
    config.presets.push(Preset { name: "me".to_string(), alias: Some("m".to_string()), values: StringMap::new() });
    assert_eq!(config.get_preset("m").unwrap().name, "me");
    assert_eq!(config.get_preset("me").unwrap().name, "me");
    assert!(config.get_preset_mut("m").is_none());
    config.get_preset_mut("me").unwrap().values.insert("k".to_string(), "v".to_string());
    assert_eq!(config.presets[0].values.get("k").unwrap(), "v");
    assert!(!config.remove_preset("m"));
    assert!(config.remove_preset("me"));
    assert!(config.presets.is_empty());
}

#[test]
fn migration_carries_every_item_over() {
    let v1 = HtrsConfigV1 {
        services: vec![ServiceV1 {
            name: "users".to_string(),
            alias: Some("u".to_string()),
            environments: vec![EnvironmentV1 {
                name: "dev".to_string(),
                alias: None,
                host: "dev.com".to_string(),
                default: true,
                headers: table(&[("X", "1")]),
            }],
            headers: table(&[("Y", "2")]),
            endpoints: vec![EndpointV1 {
                name: "get".to_string(),
                path_template: "/g/{id}".to_string(),
                query_parameters: vec![QueryParameterV1 { name: "q".to_string(), required: true }],
            }],
        }],
        headers: table(&[("Z", "3")]),
        presets: vec![PresetV1 { name: "me".to_string(), values: table(&[("id", "1")]) }],
    };
    let config = migrate_v1_to_v2(v1);
    assert_eq!(config.services.len(), 1);
    let s = &config.services[0];
    assert_eq!(s.name, "users");
    assert_eq!(s.alias, Some("u".to_string()));
    assert_eq!(s.environments[0].host, "dev.com");
    assert!(s.environments[0].default);
    assert_eq!(s.environments[0].headers.get("X").unwrap(), "1");
    assert_eq!(s.headers.get("Y").unwrap(), "2");
    assert_eq!(s.endpoints[0].path_template, "/g/{id}");
    assert_eq!(s.endpoints[0].query_parameters[0].name, "q");
    assert!(s.endpoints[0].query_parameters[0].required);
    assert_eq!(config.headers.get("Z").unwrap(), "3");
    assert_eq!(config.presets[0].name, "me");
    assert_eq!(config.presets[0].alias, None);
    assert_eq!(config.presets[0].values.get("id").unwrap(), "1");
}

#[test]
fn legacy_configuration_finds_services_by_name() {
    let mut config = LegacyConfig::new();
    assert!(!config.service_defined("users"));
    config.services.push(ServiceConfig::new("users".to_string(), "users.com".to_string()));
    assert!(config.service_defined("users"));
    assert_eq!(config.find_service_config("users").unwrap().host, "users.com");
    assert!(config.find_service_config("orders").is_none());
}

#[test]
fn text_helpers() {
    assert_eq!(htrs::text::concat("ab", "cd"), "abcd");
    assert!(contains_str("hello world", "o w"));
    assert!(contains_str("hello", ""));
    assert!(!contains_str("hello", "hey"));
    assert_eq!(replace_str("/a/{id}/b/{id}", "{id}", "7"), "/a/7/b/7");
    assert_eq!(join_strings(&vec!["a".to_string(), "b".to_string(), "c".to_string()], ", "), "a, b, c");
    assert_eq!(join_strings(&vec![], ", "), "");
}
