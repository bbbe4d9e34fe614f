use htrs::commands::delete_command::delete_endpoint_command::DeleteEndpointCommand;
use htrs::commands::delete_command::delete_environment_command::DeleteEnvironmentCommand;
use htrs::commands::delete_command::delete_header_command::DeleteHeaderCommand;
use htrs::commands::delete_command::delete_preset_command::DeletePresetCommand;
use htrs::commands::delete_command::delete_service_command::DeleteServiceCommand;
use htrs::commands::list_command::list_endpoint_command::ListEndpointsCommand;
use htrs::commands::list_command::list_environment_command::ListEnvironmentsCommand;
use htrs::commands::list_command::list_service_command::ListServicesCommand;
use htrs::commands::new_command::new_endpoint_command::NewEndpointCommand;
use htrs::commands::new_command::new_environment_command::NewEnvironmentCommand;
use htrs::commands::new_command::new_preset_command::NewPresetCommand;
use htrs::commands::new_command::new_service_command::NewServiceCommand;
use htrs::commands::set_command::set_header_command::SetHeaderCommand;
use htrs::config::{Endpoint, Environment, HtrsConfig, Preset, QueryParameter, Service};
use htrs::outcomes::HtrsAction;
use htrs::string_map::StringMap;

fn service(name: &str, alias: Option<&str>) -> Service {
    Service::new(name.to_string(), alias.map(String::from))
}

fn environment(name: &str, alias: Option<&str>, host: &str, default: bool) -> Environment {
    Environment::new(name.to_string(), alias.map(String::from), host.to_string(), default)
}

fn endpoint(name: &str, path: &str) -> Endpoint {
    Endpoint { name: name.to_string(), path_template: path.to_string(), query_parameters: vec![] }
}

fn config_with(services: Vec<Service>) -> HtrsConfig {
    let mut config = HtrsConfig::new();
    config.services = services;
    config
}

fn printed(result: Result<HtrsAction, htrs::outcomes::HtrsError>) -> String {
    match result {
        Ok(HtrsAction::PrintDialogue(text)) => text,
        other => panic!("Returned action was not HtrsAction::PrintDialogue: {:?}", other),
    }
}

fn error_text(result: Result<HtrsAction, htrs::outcomes::HtrsError>) -> String {
    match result {
        Err(e) => e.details,
        Ok(a) => panic!("Result was not error: {:?}", a),
    }
}

// Endpoints

#[test]
fn given_known_service_when_add_endpoint_then_should_add_endpoint() {
    let mut config = config_with(vec![service("foo_service", None)]);
    let command = NewEndpointCommand {
        service: "foo_service".to_string(),
        name: "foo_endpoint".to_string(),
        path_template: "/foo/path".to_string(),
        query_parameters: vec!["param".to_string()],
    };

    let result = command.execute(&mut config);

    assert!(result.is_ok(), "{:?}", result.err());
    assert!(matches!(result.unwrap(), HtrsAction::UpdateConfig), "Returned action was not HtrsAction::UpdateConfig");
    let new_endpoint = config.get_service("foo_service").unwrap().get_endpoint("foo_endpoint");
    assert!(new_endpoint.is_some(), "New endpoint not added to config");
    let new_endpoint = new_endpoint.unwrap();
    assert_eq!(new_endpoint.name, "foo_endpoint");
    assert_eq!(new_endpoint.path_template, "/foo/path");
    assert_eq!(new_endpoint.query_parameters.len(), 1);
    assert_eq!(new_endpoint.query_parameters[0].name, "param");
    assert!(!new_endpoint.query_parameters[0].required);
}

#[test]
fn given_unknown_service_when_add_endpoint_then_should_error() {
    let mut config = HtrsConfig::new();
    let command = NewEndpointCommand {
        service: "foo_service".to_string(),
        name: "foo_endpoint".to_string(),
        path_template: "/foo/path".to_string(),
        query_parameters: vec!["param".to_string()],
    };

    let result = command.execute(&mut config);

    assert!(result.is_err(), "{}", "Result was not error");
}

#[test]
fn given_known_service_when_add_existing_endpoint_then_should_error() {
    let mut foo = service("foo_service", None);
    foo.endpoints.push(endpoint("foo_endpoint", "/my/path"));
    let mut config = config_with(vec![foo]);
    let command = NewEndpointCommand {
        service: "foo_service".to_string(),
        name: "foo_endpoint".to_string(),
        path_template: "/foo/path".to_string(),
        query_parameters: vec![],
    };

    let result = command.execute(&mut config);

    assert!(result.is_err(), "{}", "Result was not error");
    assert_eq!(config.get_service("foo_service").unwrap().endpoints.len(), 1);
}

#[test]
fn new_endpoint_errors_name_each_rule() {
    let mut config = config_with(vec![service("foo_service", Some("foo"))]);
    let make = |name: &str, path: &str, params: Vec<&str>| NewEndpointCommand {
        service: "foo".to_string(),
        name: name.to_string(),
        path_template: path.to_string(),
        query_parameters: params.into_iter().map(String::from).collect(),
    };
    assert_eq!(error_text(make("", "/p", vec![]).execute(&mut config)), "Endpoint name cannot be empty");
    assert_eq!(error_text(make("e", "", vec![]).execute(&mut config)), "Endpoint path cannot be empty");
    assert_eq!(
        error_text(make("e", "/{a}/{b}/{a}", vec![]).execute(&mut config)),
        "The following path parameters were used more than once: a"
    );
    assert_eq!(
        error_text(make("e", "/p", vec!["*"]).execute(&mut config)),
        "Query parameter names must not be blank"
    );
    assert_eq!(
        error_text(make("e", "/p", vec!["q", "*q"]).execute(&mut config)),
        "The following query parameter names were used more than once: q"
    );
    let unknown = NewEndpointCommand {
        service: "bar".to_string(),
        name: "e".to_string(),
        path_template: "/p".to_string(),
        query_parameters: vec![],
    };
    assert_eq!(error_text(unknown.execute(&mut config)), "Unable to find service with name or alias `bar`");
    assert!(config.services[0].endpoints.is_empty());
}

#[test]
fn new_endpoint_reads_required_parameters_from_shorthand() {
    let mut config = config_with(vec![service("foo_service", None)]);
    let command = NewEndpointCommand {
        service: "foo_service".to_string(),
        name: "search".to_string(),
        path_template: "/search/{kind}".to_string(),
        query_parameters: vec!["*term".to_string(), "page".to_string()],
    };
    assert!(matches!(command.execute(&mut config), Ok(HtrsAction::UpdateConfig)));
    let ep = config.services[0].get_endpoint("search").unwrap();
    assert_eq!(ep.query_parameters[0].name, "term");
    assert!(ep.query_parameters[0].required);
    assert_eq!(ep.query_parameters[1].name, "page");
    assert!(!ep.query_parameters[1].required);
}

#[test]
fn given_known_service_and_known_endpoint_when_remove_then_should_remove() {
    let mut foo = service("foo_service", None);
    foo.endpoints.push(endpoint("foo_endpoint", "/my/path"));
    let mut config = config_with(vec![foo]);
    let command = DeleteEndpointCommand { service: "foo_service".to_string(), name: "foo_endpoint".to_string() };

    let result = command.execute(&mut config);

    assert!(result.is_ok(), "{:?}", result.err());
    assert!(matches!(result.unwrap(), HtrsAction::UpdateConfig), "Returned action was not HtrsAction::UpdateConfig");
    assert_eq!(config.get_service("foo_service").unwrap().endpoints.len(), 0);
}

#[test]
fn given_unknown_service_when_remove_endpoint_then_should_error() {
    let mut config = HtrsConfig::new();
    let command = DeleteEndpointCommand { service: "foo_service".to_string(), name: "foo_endpoint".to_string() };

    let result = command.execute(&mut config);

    assert!(result.is_err(), "Result was not error");
    assert_eq!(error_text(result), "No service could be found with name or alias `foo_service`");
}

#[test]
fn given_known_service_and_unknown_endpoint_when_remove_endpoint_then_should_error() {
    let mut config = config_with(vec![service("foo_service", None)]);
    let command = DeleteEndpointCommand { service: "foo_service".to_string(), name: "foo_endpoint".to_string() };

    let result = command.execute(&mut config);

    assert!(result.is_err(), "Result was not error");
    assert_eq!(error_text(result), "No endpoint could be found with name `foo_endpoint`");
}

#[test]
fn given_list_endpoints_command_then_should_list() {
    let mut foo = service("foo_service", None);
    foo.endpoints.push(endpoint("foo_endpoint", "/my/path"));
    let mut config = config_with(vec![foo]);
    let command = ListEndpointsCommand { service: "foo_service".to_string(), filter: None };

    let result = command.execute(&mut config);

    assert!(result.is_ok(), "{:?}", result.as_ref().err());
    let dialogue = printed(result);
    assert!(dialogue.contains(" - foo_endpoint"), "Dialogue did not contain endpoint");
}

#[test]
fn given_known_service_with_no_endpoints_when_list_endpoints_should_list_none() {
    let mut config = config_with(vec![service("foo_service", None)]);
    let command = ListEndpointsCommand { service: "foo_service".to_string(), filter: None };

    let result = command.execute(&mut config);
    assert!(result.is_ok(), "Result was error");
    assert_eq!(printed(result), "No endpoints defined");
}

#[test]
fn given_unknown_service_when_list_endpoints_then_should_error() {
    let mut config = HtrsConfig::new();
    let command = ListEndpointsCommand { service: "foo_service".to_string(), filter: None };

    let result = command.execute(&mut config);

    assert!(result.is_err(), "Result was not error");
}

#[test]
fn list_endpoints_filters_by_lower_case_name() {
    let mut foo = service("foo_service", None);
    foo.endpoints.push(endpoint("GetUser", "/user"));
    foo.endpoints.push(endpoint("list_items", "/items"));
    foo.endpoints.push(endpoint("get_item", "/item"));
    let mut config = config_with(vec![foo]);
    let all = ListEndpointsCommand { service: "foo_service".to_string(), filter: None };
    assert_eq!(printed(all.execute(&mut config)), " - GetUser\n - list_items\n - get_item");
    let filtered = ListEndpointsCommand { service: "foo_service".to_string(), filter: Some("get".to_string()) };
    assert_eq!(printed(filtered.execute(&mut config)), " - GetUser\n - get_item");
    let none = ListEndpointsCommand { service: "foo_service".to_string(), filter: Some("zzz".to_string()) };
    assert_eq!(
        printed(none.execute(&mut config)),
        "No endpoints found for service `foo_service` with name containing `zzz`"
    );
}

// Environments

#[test]
fn given_unknown_service_when_add_environment_then_should_error() {
    let mut config = HtrsConfig::new();
    let command = NewEnvironmentCommand {
        service: "foo_service".to_string(),
        name: "foo_environment".to_string(),
        alias: None,
        host: "host.com".to_string(),
        default: true,
    };

    let result = command.execute(&mut config);

    assert!(result.is_err(), "Returned result was not an error");
    assert_eq!(error_text(result), "No service found with name or alias `foo_service`");
}

#[test]
fn new_environment_is_added_with_its_fields() {
    let mut config = config_with(vec![service("foo_service", Some("foo"))]);
    let command = NewEnvironmentCommand {
        service: "foo".to_string(),
        name: "foo_environment".to_string(),
        alias: Some("fe".to_string()),
        host: "host.com".to_string(),
        default: true,
    };
    assert!(matches!(command.execute(&mut config), Ok(HtrsAction::UpdateConfig)));
    let env = config.get_service("foo_service").unwrap().get_environment("fe").unwrap();
    assert_eq!(env.name, "foo_environment");
    assert_eq!(env.alias, Some("fe".to_string()));
    assert_eq!(env.host, "host.com");
    assert!(env.default);
}

#[test]
fn new_environment_with_existing_name_or_alias_is_refused() {
    for (name, alias) in [("existing_environment", "new_alias"), ("new_environment", "existing_alias")] {
        let mut foo = service("foo_service", None);
        foo.environments.push(environment("existing_environment", Some("existing_alias"), "host.com", true));
        let mut config = config_with(vec![foo]);
        let command = NewEnvironmentCommand {
            service: "foo_service".to_string(),
            name: name.to_string(),
            alias: Some(alias.to_string()),
            host: "foo.com".to_string(),
            default: false,
        };
        let text = error_text(command.execute(&mut config));
        let clash = if name == "existing_environment" { name } else { alias };
        assert_eq!(
            text,
            format!("Service `foo_service` already has an environment with name or alias `{}`", clash)
        );
        assert_eq!(config.get_service("foo_service").unwrap().environments.len(), 1);
    }
}

#[test]
fn new_default_environment_takes_over_the_default() {
    let mut foo = service("foo_service", None);
    foo.environments.push(environment("dev", None, "dev.com", true));
    foo.environments.push(environment("test", None, "test.com", false));
    let mut config = config_with(vec![foo]);
    let command = NewEnvironmentCommand {
        service: "foo_service".to_string(),
        name: "prod".to_string(),
        alias: None,
        host: "prod.com".to_string(),
        default: true,
    };
    assert!(command.execute(&mut config).is_ok());
    let defaults: Vec<&str> = config.services[0]
        .environments
        .iter()
        .filter(|e| e.default)
        .map(|e| e.name.as_str())
        .collect();
    assert_eq!(defaults, vec!["prod"]);
    assert_eq!(config.services[0].get_default_environment().unwrap().name, "prod");
}

#[test]
fn given_known_service_and_environment_when_remove_by_name_or_alias_then_should_remove() {
    for name in ["foo_environment", "foo_alias"] {
        let mut foo = service("foo_service", None);
        foo.environments.push(environment("foo_environment", Some("foo_alias"), "host.com", true));
        let mut config = config_with(vec![foo]);
        let command = DeleteEnvironmentCommand { service: "foo_service".to_string(), name: name.to_string() };
        let result = command.execute(&mut config);
        assert!(matches!(result, Ok(HtrsAction::UpdateConfig)), "Result was not HtrsAction::UpdateConfig");
        assert_eq!(config.get_service("foo_service").unwrap().environments.len(), 0);
    }
}

#[test]
fn given_unknown_service_when_remove_environment_then_should_error() {
    let mut config = HtrsConfig::new();
    let command = DeleteEnvironmentCommand { service: "foo_service".to_string(), name: "foo_environment".to_string() };

    let result = command.execute(&mut config);

    assert!(result.is_err(), "Did not return error");
    assert_eq!(error_text(result), "No service could be found with name or alias `foo_service`");
}

#[test]
fn given_known_service_and_unknown_environment_when_remove_environment_then_should_error() {
    let mut config = config_with(vec![service("foo_service", None)]);
    let command = DeleteEnvironmentCommand { service: "foo_service".to_string(), name: "foo_environment".to_string() };

    let result = command.execute(&mut config);

    assert!(result.is_err(), "Returned result was not an error");
    assert_eq!(error_text(result), "No environment could be found with name or alias `foo_environment`");
}

#[test]
fn given_known_service_and_known_environments_when_list_then_should_list() {
    for service_name in ["foo_service", "foo_service_alias"] {
        let mut foo = service("foo_service", Some("foo_service_alias"));
        foo.environments.push(environment("environment1", Some("alias1"), "host1.com", true));
        foo.environments.push(environment("environment2", None, "host2.com", true));
        let mut config = config_with(vec![foo]);
        let command = ListEnvironmentsCommand { service: service_name.to_string(), filter: None };
        let dialogue = printed(command.execute(&mut config));
        assert!(dialogue.contains(" - environment1 (alias1)"));
        assert!(dialogue.contains(" - environment2"));
        assert_eq!(dialogue, " - environment1 (alias1)\n - environment2");
    }
}

#[test]
fn given_unknown_service_when_list_then_should_error() {
    let mut config = HtrsConfig::new();
    let command = ListEnvironmentsCommand { service: "foo_service".to_string(), filter: None };

    let result = command.execute(&mut config);

    assert!(result.is_err(), "Did not return error");
}

#[test]
fn list_environments_when_none_or_none_match() {
    let mut foo = service("foo_service", None);
    let mut config = config_with(vec![service("foo_service", None)]);
    let all = ListEnvironmentsCommand { service: "foo_service".to_string(), filter: None };
    assert_eq!(printed(all.execute(&mut config)), "No environments defined");
    foo.environments.push(environment("Staging", Some("stg"), "s.com", false));
    foo.environments.push(environment("prod", None, "p.com", true));
    let mut config = config_with(vec![foo]);
    let by_alias = ListEnvironmentsCommand { service: "foo_service".to_string(), filter: Some("st".to_string()) };
    assert_eq!(printed(by_alias.execute(&mut config)), " - Staging (stg)");
    let missing = ListEnvironmentsCommand { service: "foo_service".to_string(), filter: Some("qa".to_string()) };
    assert_eq!(
        printed(missing.execute(&mut config)),
        "No environments found for service `foo_service` with name or alias containing `qa`"
    );
}

// Services

#[test]
fn new_service_is_added_unless_name_or_alias_is_taken() {
    let mut config = HtrsConfig::new();
    let add = NewServiceCommand { name: "foo_service".to_string(), alias: Some("foo".to_string()) };
    assert!(matches!(add.execute(&mut config), Ok(HtrsAction::UpdateConfig)));
    assert_eq!(config.services.len(), 1);
    assert_eq!(config.services[0].name, "foo_service");
    assert_eq!(config.services[0].alias, Some("foo".to_string()));

    let same_name = NewServiceCommand { name: "foo".to_string(), alias: None };
    assert_eq!(
        error_text(same_name.execute(&mut config)),
        "A service already exists with the name or alias 'foo'"
    );
    let same_alias = NewServiceCommand { name: "bar".to_string(), alias: Some("foo_service".to_string()) };
    assert_eq!(
        error_text(same_alias.execute(&mut config)),
        "A service already exists with the name or alias 'foo_service"
    );
    assert_eq!(config.services.len(), 1);
}

#[test]
fn given_unknown_service_when_remove_then_should_error() {
    let mut config = config_with(vec![service("foo_service", Some("foo_alias"))]);
    let command = DeleteServiceCommand { name: "foo".to_string() };

    let result = command.execute(&mut config);

    assert!(result.is_err());
    assert_eq!(error_text(result), "No service could be found with name or alias `foo`");
    assert_eq!(config.services.len(), 1);
}

#[test]
fn known_service_is_removed_by_name_or_alias() {
    for name in ["foo_service", "foo_alias"] {
        let mut config = config_with(vec![service("foo_service", Some("foo_alias")), service("bar", None)]);
        let command = DeleteServiceCommand { name: name.to_string() };
        assert!(matches!(command.execute(&mut config), Ok(HtrsAction::UpdateConfig)));
        assert_eq!(config.services.len(), 1);
        assert_eq!(config.services[0].name, "bar");
    }
}

#[test]
fn given_known_services_when_execute_list_command_then_should_list() {
    let mut config = config_with(vec![service("service1", Some("alias1")), service("service2", None)]);
    let command = ListServicesCommand { filter: None };

    let result = command.execute(&mut config);

    assert!(result.is_ok(), "{:?}", result.as_ref().err());
    let text = printed(result);
    assert!(text.contains(" - service1 (alias1)"), "Returned text did not contain service1");
    assert!(text.contains(" - service2"), "Returned text did not contain service2");
    assert_eq!(text, " - service1 (alias1)\n - service2");
}

#[test]
fn list_services_when_none_or_none_match() {
    let mut config = HtrsConfig::new();
    assert_eq!(printed(ListServicesCommand { filter: None }.execute(&mut config)), "No services found");
    let mut config = config_with(vec![service("Billing", Some("bill")), service("users", None)]);
    let command = ListServicesCommand { filter: Some("bil".to_string()) };
    assert_eq!(printed(command.execute(&mut config)), " - Billing (bill)");
    let command = ListServicesCommand { filter: Some("x".to_string()) };
    assert_eq!(
        printed(command.execute(&mut config)),
        "No services found with name or alias containing `x`"
    );
}

// Headers

#[test]
fn given_set_header_command_when_valid_then_should_set_header() {
    let mut config = HtrsConfig::new();
    let command = SetHeaderCommand {
        header_name: "header_name".to_string(),
        header_value: "header_value".to_string(),
        service: None,
        environment: None,
    };

    let result = command.execute(&mut config);

    assert!(result.is_ok(), "Result was not ok: {:?}", result.as_ref().err());
    assert!(matches!(result.unwrap(), HtrsAction::UpdateConfig), "Returned action was not HtrsAction::UpdateConfig");
    let new_header = config.headers.get("header_name");
    assert!(matches!(new_header, Some(_)), "Header not found in config");
    assert_eq!(new_header.unwrap(), "header_value");
}

#[test]
fn given_existing_header_when_set_header_then_should_overwrite_existing() {
    let mut config = HtrsConfig::new();
    config.headers.insert("foo_header".to_string(), "old_value".to_string());
    let command = SetHeaderCommand {
        header_name: "foo_header".to_string(),
        header_value: "new_value".to_string(),
        service: None,
        environment: None,
    };

    let result = command.execute(&mut config);

    assert!(result.is_ok(), "Result was not ok: {:?}", result.as_ref().err());
    assert!(matches!(result.unwrap(), HtrsAction::UpdateConfig), "Returned action was not UpdateConfig");
    let header = config.headers.get("foo_header");
    assert!(matches!(header, Some(_)), "Header not found in config");
    assert_eq!(header.unwrap(), "new_value");
    assert_eq!(config.headers.len(), 1);
}

#[test]
fn given_existing_header_when_clear_header_then_should_be_removed() {
    let mut config = HtrsConfig::new();
    config.headers.insert("header_name".to_string(), "header_value".to_string());
    let command = DeleteHeaderCommand { header_name: "header_name".to_string(), service: None, environment: None };

    let result = command.execute(&mut config);

    assert!(result.is_ok(), "Result was not ok: {:?}", result.as_ref().err());
    assert!(matches!(result.unwrap(), HtrsAction::UpdateConfig), "Returned action was not UpdateConfig");
    assert!(matches!(config.headers.get("header_name"), None), "Header still exists in config");
}

#[test]
fn headers_are_set_and_deleted_in_the_scope_named() {
    let mut foo = service("foo_service", Some("foo"));
    foo.environments.push(environment("dev", Some("d"), "dev.com", true));
    let mut config = config_with(vec![foo]);
    let on_service = SetHeaderCommand {
        header_name: "X-Svc".to_string(),
        header_value: "1".to_string(),
        service: Some("foo".to_string()),
        environment: None,
    };
    assert!(on_service.execute(&mut config).is_ok());
    let on_env = SetHeaderCommand {
        header_name: "X-Env".to_string(),
        header_value: "2".to_string(),
        service: Some("foo_service".to_string()),
        environment: Some("d".to_string()),
    };
    assert!(on_env.execute(&mut config).is_ok());
    assert!(config.headers.is_empty());
    assert_eq!(config.services[0].headers.get("X-Svc").unwrap(), "1");
    assert_eq!(config.services[0].environments[0].headers.get("X-Env").unwrap(), "2");

    let delete_env = DeleteHeaderCommand {
        header_name: "X-Env".to_string(),
        service: Some("foo".to_string()),
        environment: Some("dev".to_string()),
    };
    assert!(delete_env.execute(&mut config).is_ok());
    assert!(config.services[0].environments[0].headers.is_empty());
    assert_eq!(config.services[0].headers.len(), 1);
}

#[test]
fn header_commands_report_bad_scopes() {
    let mut config = config_with(vec![service("foo_service", None)]);
    let only_env = SetHeaderCommand {
        header_name: "h".to_string(),
        header_value: "v".to_string(),
        service: None,
        environment: Some("dev".to_string()),
    };
    assert_eq!(error_text(only_env.execute(&mut config)), "Invalid combination of arguments used");
    let bad_service = DeleteHeaderCommand {
        header_name: "h".to_string(),
        service: Some("nope".to_string()),
        environment: None,
    };
    assert_eq!(
        error_text(bad_service.execute(&mut config)),
        "Unable to find service with name or alias `nope`"
    );
    let bad_env = SetHeaderCommand {
        header_name: "h".to_string(),
        header_value: "v".to_string(),
        service: Some("foo_service".to_string()),
        environment: Some("dev".to_string()),
    };
    assert_eq!(
        error_text(bad_env.execute(&mut config)),
        "Unable to find environment with name or alias `dev` for service `foo_service`"
    );
}

// Presets

#[test]
fn new_preset_reads_its_values() {
    let mut config = HtrsConfig::new();
    let command = NewPresetCommand {
        name: "me".to_string(),
        alias: Some("m".to_string()),
        values: vec!["user_id=42".to_string(), "org=a=b".to_string()],
    };
    assert!(matches!(command.execute(&mut config), Ok(HtrsAction::UpdateConfig)));
    let preset = config.get_preset("m").unwrap();
    assert_eq!(preset.name, "me");
    assert_eq!(preset.values.get("user_id").unwrap(), "42");
    assert_eq!(preset.values.get("org").unwrap(), "a=b");

    let clash = NewPresetCommand { name: "m".to_string(), alias: None, values: vec![] };
    assert_eq!(error_text(clash.execute(&mut config)), "A preset with name or alias `m` already exists");
    let bad = NewPresetCommand { name: "other".to_string(), alias: None, values: vec!["novalue".to_string()] };
    assert_eq!(
        error_text(bad.execute(&mut config)),
        "Invalid preset value `novalue`, should be in format `key=value`"
    );
    assert_eq!(config.presets.len(), 1);
}

#[test]
fn delete_preset_removes_by_name_only() {
    let mut config = HtrsConfig::new();
    config.presets.push(Preset { name: "me".to_string(), alias: Some("m".to_string()), values: StringMap::new() });
    let by_alias = DeletePresetCommand { name: "m".to_string() };
    assert_eq!(error_text(by_alias.execute(&mut config)), "Unable to find preset with name `m`");
    let by_name = DeletePresetCommand { name: "me".to_string() };
    assert!(matches!(by_name.execute(&mut config), Ok(HtrsAction::UpdateConfig)));
    assert!(config.presets.is_empty());
}

#[test]
fn query_parameter_shorthand() {
    let q: QueryParameter = QueryParameter::from_shorthand("*id");
    assert_eq!(q.name, "id");
    assert!(q.required);
    let q = QueryParameter::from_shorthand("page");
    assert_eq!(q.name, "page");
    assert!(!q.required);
    let q = QueryParameter::from_shorthand("");
    assert_eq!(q.name, "");
    assert!(!q.required);
}

#[test]
fn clearing_a_header_just_set_restores_the_headers() {
    let mut config = HtrsConfig::new();
    config.headers.insert("Accept".to_string(), "application/json".to_string());
    let set = SetHeaderCommand {
        header_name: "X-Trace".to_string(),
        header_value: "1".to_string(),
        service: None,
        environment: None,
    };
    assert!(set.execute(&mut config).is_ok());
    assert_eq!(config.headers.get("X-Trace").unwrap(), "1");
    let clear = DeleteHeaderCommand { header_name: "X-Trace".to_string(), service: None, environment: None };
    assert!(clear.execute(&mut config).is_ok());
    assert_eq!(config.headers.entries(), &vec![("Accept".to_string(), "application/json".to_string())]);
}

#[test]
fn deleting_a_service_just_created_restores_the_services() {
    let mut config = config_with(vec![service("users", None)]);
    let create = NewServiceCommand { name: "orders".to_string(), alias: Some("o".to_string()) };
    assert!(create.execute(&mut config).is_ok());
    let delete = DeleteServiceCommand { name: "orders".to_string() };
    assert!(delete.execute(&mut config).is_ok());
    assert_eq!(config.services.len(), 1);
    assert_eq!(config.services[0].name, "users");
}
