use htrs::commands::edit_command::edit_endpoint_command::{without_parameters, EditEndpointCommand};
use htrs::commands::edit_command::edit_environment_command::EditEnvironmentCommand;
use htrs::commands::edit_command::edit_preset_command::{edited_values, EditPresetCommand};
use htrs::commands::edit_command::edit_service_command::EditServiceCommand;
use htrs::commands::view_command::view_preset_command::ViewPresetCommand;
use htrs::commands::view_command::view_service_command::ViewServiceCommand;
use htrs::config::{Endpoint, Environment, HtrsConfig, Preset, QueryParameter, Service};
use htrs::outcomes::{HtrsAction, HtrsError};
use htrs::string_map::StringMap;

fn service(name: &str, alias: Option<&str>) -> Service {
    Service::new(name.to_string(), alias.map(String::from))
}

fn environment(name: &str, alias: Option<&str>, host: &str, default: bool) -> Environment {
    Environment::new(name.to_string(), alias.map(String::from), host.to_string(), default)
}

fn param(name: &str, required: bool) -> QueryParameter {
    QueryParameter { name: name.to_string(), required }
}

fn config_with(services: Vec<Service>) -> HtrsConfig {
    let mut config = HtrsConfig::new();
    config.services = services;
    config
}

fn error_text(result: Result<HtrsAction, HtrsError>) -> String {
    match result {
        Err(e) => e.details,
        Ok(a) => panic!("Result was not error: {:?}", a),
    }
}

fn printed(result: Result<HtrsAction, HtrsError>) -> String {
    match result {
        Ok(HtrsAction::PrintDialogue(text)) => text,
        other => panic!("Returned action was not HtrsAction::PrintDialogue: {:?}", other),
    }
}

fn table(pairs: &[(&str, &str)]) -> StringMap {
    let mut m = StringMap::new();
    for (k, v) in pairs {
        m.insert(k.to_string(), v.to_string());
    }
    m
}

#[test]
fn edit_service_renames_and_realiases() {
    let mut config = config_with(vec![service("foo_service", Some("foo")), service("bar", None)]);
    let command = EditServiceCommand {
        name: "foo".to_string(),
        new_name: Some("baz_service".to_string()),
        new_alias: Some("baz".to_string()),
    };
    assert!(matches!(command.execute(&mut config), Ok(HtrsAction::UpdateConfig)));
    assert_eq!(config.services[0].name, "baz_service");
    assert_eq!(config.services[0].alias, Some("baz".to_string()));
    assert_eq!(config.services[1].name, "bar");
}

#[test]
fn edit_service_refuses_taken_names_and_unknown_services() {
    let mut config = config_with(vec![service("foo_service", Some("foo")), service("bar", None)]);
    let taken = EditServiceCommand { name: "foo".to_string(), new_name: Some("bar".to_string()), new_alias: None };
    assert_eq!(error_text(taken.execute(&mut config)), "A service already exists with the name or alias `bar`");
    let taken_alias =
        EditServiceCommand { name: "bar".to_string(), new_name: None, new_alias: Some("foo".to_string()) };
    assert_eq!(
        error_text(taken_alias.execute(&mut config)),
        "A service already exists with the name or alias `foo`"
    );
    let unknown = EditServiceCommand { name: "qux".to_string(), new_name: None, new_alias: None };
    assert_eq!(error_text(unknown.execute(&mut config)), "No service found with name or alias `qux`");
    assert_eq!(config.services[0].name, "foo_service");
    assert_eq!(config.services[1].alias, None);
}

#[test]
fn edit_environment_changes_fields_and_default() {
    let mut foo = service("foo_service", None);
    foo.environments.push(environment("dev", None, "dev.com", true));
    foo.environments.push(environment("prod", Some("p"), "prod.com", false));
    let mut config = config_with(vec![foo]);
    let command = EditEnvironmentCommand {
        name: "p".to_string(),
        service: "foo_service".to_string(),
        new_name: Some("production".to_string()),
        new_alias: None,
        new_host: Some("api.prod.com".to_string()),
        is_default: Some(true),
    };
    assert!(matches!(command.execute(&mut config), Ok(HtrsAction::UpdateConfig)));
    let envs = &config.services[0].environments;
    assert!(!envs[0].default);
    assert_eq!(envs[1].name, "production");
    assert_eq!(envs[1].alias, Some("p".to_string()));
    assert_eq!(envs[1].host, "api.prod.com");
    assert!(envs[1].default);
}

#[test]
fn edit_environment_errors() {
    let mut foo = service("foo_service", None);
    foo.environments.push(environment("dev", Some("d"), "dev.com", true));
    foo.environments.push(environment("prod", None, "prod.com", false));
    let mut config = config_with(vec![foo]);
    let edit = |service: &str, name: &str, new_name: Option<&str>, new_alias: Option<&str>| EditEnvironmentCommand {
        name: name.to_string(),
        service: service.to_string(),
        new_name: new_name.map(String::from),
        new_alias: new_alias.map(String::from),
        new_host: None,
        is_default: None,
    };
    assert_eq!(
        error_text(edit("nope", "dev", None, None).execute(&mut config)),
        "No service could be found with name or alias `nope`"
    );
    assert_eq!(
        error_text(edit("foo_service", "qa", None, None).execute(&mut config)),
        "No environment could be found with name or alias `qa`"
    );
    assert_eq!(
        error_text(edit("foo_service", "prod", Some("d"), None).execute(&mut config)),
        "Service `foo_service` already has an environment with name or alias `d`"
    );
    assert_eq!(
        error_text(edit("foo_service", "prod", None, Some("dev")).execute(&mut config)),
        "Service `foo_service` already has an environment with name or alias `dev`"
    );
}

#[test]
fn edit_endpoint_changes_path_and_parameters() {
    let mut foo = service("foo_service", None);
    foo.endpoints.push(Endpoint {
        name: "search".to_string(),
        path_template: "/search".to_string(),
        query_parameters: vec![param("q", true), param("page", false)],
    });
    let mut config = config_with(vec![foo]);
    let command = EditEndpointCommand {
        name: "search".to_string(),
        service: "foo_service".to_string(),
        new_name: Some("find".to_string()),
        new_path: Some("/v2/search".to_string()),
        new_query_parameters: vec!["*limit".to_string()],
        delete_query_parameters: vec!["page".to_string()],
    };
    assert!(matches!(command.execute(&mut config), Ok(HtrsAction::UpdateConfig)));
    let ep = &config.services[0].endpoints[0];
    assert_eq!(ep.name, "find");
    assert_eq!(ep.path_template, "/v2/search");
    let names: Vec<(&str, bool)> = ep.query_parameters.iter().map(|q| (q.name.as_str(), q.required)).collect();
    assert_eq!(names, vec![("q", true), ("limit", true)]);
}

#[test]
fn edit_endpoint_errors() {
    let mut foo = service("foo_service", None);
    foo.endpoints.push(Endpoint { name: "a".to_string(), path_template: "/a".to_string(), query_parameters: vec![] });
    foo.endpoints.push(Endpoint { name: "b".to_string(), path_template: "/b".to_string(), query_parameters: vec![] });
    let mut config = config_with(vec![foo]);
    let edit = |service: &str, name: &str, new_name: Option<&str>| EditEndpointCommand {
        name: name.to_string(),
        service: service.to_string(),
        new_name: new_name.map(String::from),
        new_path: None,
        new_query_parameters: vec![],
        delete_query_parameters: vec![],
    };
    assert_eq!(
        error_text(edit("nope", "a", None).execute(&mut config)),
        "No service could be found with name or alias `nope`"
    );
    assert_eq!(
        error_text(edit("foo_service", "c", None).execute(&mut config)),
        "No endpoint could be found with name `c` for service `foo_service`"
    );
    assert_eq!(
        error_text(edit("foo_service", "a", Some("b")).execute(&mut config)),
        "An endpoint already exists with name `b` for service `foo_service`"
    );
}

#[test]
fn without_parameters_keeps_the_others_in_order() {
    let params = vec![param("a", true), param("b", false), param("c", false)];
    let kept = without_parameters(params, &vec!["b".to_string(), "z".to_string()]);
    let names: Vec<&str> = kept.iter().map(|q| q.name.as_str()).collect();
    assert_eq!(names, vec!["a", "c"]);
}

#[test]
fn edited_values_sets_then_clears() {
    let values = table(&[("a", "1"), ("b", "2")]);
    let sets = vec![("b".to_string(), "3".to_string()), ("c".to_string(), "4".to_string())];
    let result = edited_values(&values, &sets, &vec!["a".to_string()]).unwrap();
    assert_eq!(result.len(), 2);
    assert_eq!(result.get("b").unwrap(), "3");
    assert_eq!(result.get("c").unwrap(), "4");
    assert!(result.get("a").is_none());
    let (partial, key) =
        edited_values(&values, &sets, &vec!["a".to_string(), "x".to_string(), "b".to_string()]).err().unwrap();
    assert_eq!(key, "x");
    assert_eq!(
        partial.entries(),
        &vec![("b".to_string(), "3".to_string()), ("c".to_string(), "4".to_string())]
    );
}

#[test]
fn edit_preset_changes_name_alias_and_values() {
    let mut config = HtrsConfig::new();
    config.presets.push(Preset { name: "me".to_string(), alias: None, values: table(&[("id", "1"), ("org", "x")]) });
    let command = EditPresetCommand {
        name: "me".to_string(),
        new_name: Some("myself".to_string()),
        new_alias: Some("m".to_string()),
        set_values: vec![("id".to_string(), "2".to_string())],
        clear_values: vec!["org".to_string()],
    };
    assert!(matches!(command.execute(&mut config), Ok(HtrsAction::UpdateConfig)));
    let p = &config.presets[0];
    assert_eq!(p.name, "myself");
    assert_eq!(p.alias, Some("m".to_string()));
    assert_eq!(p.values.len(), 1);
    assert_eq!(p.values.get("id").unwrap(), "2");
}

#[test]
fn edit_preset_errors() {
    let mut config = HtrsConfig::new();
    config.presets.push(Preset { name: "me".to_string(), alias: Some("m".to_string()), values: table(&[("id", "1")]) });
    config.presets.push(Preset { name: "you".to_string(), alias: None, values: StringMap::new() });
    let edit = |name: &str, new_name: Option<&str>, new_alias: Option<&str>, clear: Vec<&str>| EditPresetCommand {
        name: name.to_string(),
        new_name: new_name.map(String::from),
        new_alias: new_alias.map(String::from),
        set_values: vec![("id".to_string(), "9".to_string())],
        clear_values: clear.into_iter().map(String::from).collect(),
    };
    assert_eq!(
        error_text(edit("me", Some("you"), None, vec![]).execute(&mut config)),
        "A preset already exists with name `you`"
    );
    assert_eq!(
        error_text(edit("you", None, Some("m"), vec![]).execute(&mut config)),
        "A preset already exists with name or alias `m`"
    );
    assert_eq!(error_text(edit("them", None, None, vec![]).execute(&mut config)), "No preset found with name `them`");
    assert_eq!(config.presets[0].name, "me");
    assert_eq!(config.presets[0].values.get("id").unwrap(), "1");
    // A missing key to clear fails, and what was done before it stays done.
    assert_eq!(
        error_text(edit("me", Some("mine"), None, vec!["id", "org"]).execute(&mut config)),
        "Preset `mine` has no parameter `org`"
    );
    assert_eq!(config.presets[0].name, "mine");
    assert_eq!(config.presets[0].alias, Some("m".to_string()));
    assert!(config.presets[0].values.get("id").is_none());
}

#[test]
fn parse_set_values_reads_pairs() {
    let pairs = EditPresetCommand::parse_set_values(&vec!["a=1".to_string(), "b=2=3".to_string()]).unwrap();
    assert_eq!(pairs, vec![("a".to_string(), "1".to_string()), ("b".to_string(), "2=3".to_string())]);
    let err = EditPresetCommand::parse_set_values(&vec!["a=1".to_string(), "bad".to_string()]).err().unwrap();
    assert_eq!(err.description, "Invalid set value `bad`, should be in format `key=value`");
}

#[test]
fn view_preset_lists_its_values() {
    let mut config = HtrsConfig::new();
    config.presets.push(Preset {
        name: "me".to_string(),
        alias: Some("m".to_string()),
        values: table(&[("id", "1"), ("org", "x")]),
    });
    let text = printed(ViewPresetCommand { name: "m".to_string() }.execute(&config));
    assert_eq!(text, "me (m):\n - id: 1\n - org: x\n");
    assert_eq!(
        error_text(ViewPresetCommand { name: "x".to_string() }.execute(&config)),
        "No preset could be found with name or alias `x`"
    );
}

#[test]
fn view_service_shows_environments_and_endpoints() {
    let mut foo = service("foo_service", Some("foo"));
    foo.environments.push(environment("dev", Some("d"), "dev.com", true));
    foo.environments.push(environment("prod", None, "prod.com", false));
    foo.endpoints.push(Endpoint {
        name: "search".to_string(),
        path_template: "/search".to_string(),
        query_parameters: vec![param("q", true), param("page", false)],
    });
    let config = config_with(vec![foo, service("bare", None)]);
    let text = printed(ViewServiceCommand { name: "foo".to_string() }.execute(&config));
    assert_eq!(
        text,
        "Name: foo_service\n Alias: foo\nEnvironments:\n - dev (d) ~ dev.com\n - prod ~ prod.com\nEndpoints:\n - search ~ /search\n   - *q\n   - page\n"
    );
    let text = printed(ViewServiceCommand { name: "bare".to_string() }.execute(&config));
    assert_eq!(text, "Name: bare\nEnvironments:\n  (no environments)\nEndpoints:\n  (no endpoints)\n");
    assert_eq!(
        error_text(ViewServiceCommand { name: "x".to_string() }.execute(&config)),
        "No service could be found with name or alias `x`"
    );
}
