use htrs::commands::call_command::{
    apply_query_args, build_path_from_template, get_query_parameters_from_args, merge, CallServiceEndpointCommand,
};
use htrs::commands::new_command::new_endpoint_command::NewEndpointCommand;
use htrs::commands::new_command::new_environment_command::NewEnvironmentCommand;
use htrs::commands::new_command::new_service_command::NewServiceCommand;
use htrs::commands::new_command::NewCommand;
use htrs::commands::RootCommand;
use htrs::config::{Endpoint, Environment, HtrsConfig, QueryParameter, Service};
use htrs::outcomes::{HtrsAction, HttpMethod};
use htrs::request::{apply_query_params_to_url, get_default_headers, merge_hashmaps};
use htrs::string_map::StringMap;

fn table(pairs: &[(&str, &str)]) -> StringMap {
    let mut m = StringMap::new();
    for (k, v) in pairs {
        m.insert(k.to_string(), v.to_string());
    }
    m
}

fn pairs(m: &StringMap) -> Vec<(String, String)> {
    m.entries().clone()
}

fn users_config() -> HtrsConfig {
    let mut users = Service::new("users".to_string(), Some("u".to_string()));
    let mut dev = Environment::new("dev".to_string(), Some("d".to_string()), "dev.example.com".to_string(), false);
    dev.headers.insert("X-Env".to_string(), "dev".to_string());
    dev.headers.insert("X-Level".to_string(), "environment".to_string());
    let prod = Environment::new("prod".to_string(), None, "api.example.com".to_string(), true);
    users.environments.push(dev);
    users.environments.push(prod);
    users.headers.insert("X-Level".to_string(), "service".to_string());
    users.headers.insert("X-Service".to_string(), "users".to_string());
    users.endpoints.push(Endpoint {
        name: "get_user".to_string(),
        path_template: "/v1/users/{user_id}".to_string(),
        query_parameters: vec![QueryParameter { name: "verbose".to_string(), required: false }],
    });
    let mut config = HtrsConfig::new();
    config.services.push(users);
    config.headers.insert("X-Level".to_string(), "global".to_string());
    config.headers.insert("Accept".to_string(), "application/json".to_string());
    config
}

#[test]
fn path_template_is_filled_from_values() {
    let values = table(&[("user_id", "42"), ("org", "acme")]);
    assert_eq!(build_path_from_template("/v1/{org}/users/{user_id}", &values), Some("/v1/acme/users/42".to_string()));
    assert_eq!(build_path_from_template("/v1/users", &values), Some("/v1/users".to_string()));
    assert_eq!(build_path_from_template("/v1/{missing}", &values), None);
}

#[test]
fn query_parameters_are_read_from_values() {
    let endpoint = Endpoint {
        name: "e".to_string(),
        path_template: "/".to_string(),
        query_parameters: vec![
            QueryParameter { name: "b".to_string(), required: true },
            QueryParameter { name: "a".to_string(), required: false },
        ],
    };
    let values = table(&[("a", "1"), ("b", "2"), ("c", "3")]);
    let q = get_query_parameters_from_args(&endpoint, &values).unwrap();
    assert_eq!(pairs(&q), vec![("b".to_string(), "2".to_string()), ("a".to_string(), "1".to_string())]);
    assert!(get_query_parameters_from_args(&endpoint, &table(&[("a", "1")])).is_none());
    let only_required = get_query_parameters_from_args(&endpoint, &table(&[("b", "2")])).unwrap();
    assert_eq!(pairs(&only_required), vec![("b".to_string(), "2".to_string())]);
}

#[test]
fn query_arguments_override_in_order() {
    let mut q = table(&[("page", "1")]);
    apply_query_args(&mut q, &vec!["page=2".to_string(), "size=10".to_string(), "page=3".to_string()]).unwrap();
    assert_eq!(pairs(&q), vec![("page".to_string(), "3".to_string()), ("size".to_string(), "10".to_string())]);
    let mut q = StringMap::new();
    let err = apply_query_args(&mut q, &vec!["ok=1".to_string(), "bad".to_string()]).err().unwrap();
    assert_eq!(err.description, "Invalid query parameter: bad");
}

#[test]
fn merge_lets_the_second_table_win() {
    let mut into = table(&[("a", "1"), ("b", "2")]);
    merge(&mut into, &table(&[("b", "3"), ("c", "4")]));
    assert_eq!(into.get("a").unwrap(), "1");
    assert_eq!(into.get("b").unwrap(), "3");
    assert_eq!(into.get("c").unwrap(), "4");
    assert_eq!(into.len(), 3);
    let mut headers = table(&[("User-Agent", "htrs/1.0")]);
    merge_hashmaps(&mut headers, &table(&[("User-Agent", "custom")]));
    assert_eq!(headers.get("User-Agent").unwrap(), "custom");
}

#[test]
fn bind_reports_each_failure() {
    let config = users_config();
    let values = table(&[("user_id", "42")]);
    let bind = |service: &str, endpoint: &str, values: &StringMap, args: Vec<&str>| {
        CallServiceEndpointCommand::bind(
            &config,
            service,
            endpoint,
            None,
            values,
            &args.into_iter().map(String::from).collect(),
            false,
            None,
        )
    };
    assert_eq!(bind("nope", "get_user", &values, vec![]).err().unwrap().description, "Bad service name");
    assert_eq!(bind("users", "nope", &values, vec![]).err().unwrap().description, "Bad endpoint name");
    assert_eq!(
        bind("users", "get_user", &StringMap::new(), vec![]).err().unwrap().description,
        "Unexpected binding - no value found"
    );
    let with_verbose = table(&[("user_id", "42"), ("verbose", "true")]);
    assert_eq!(
        bind("u", "get_user", &with_verbose, vec!["x=1=2"]).err().unwrap().description,
        "Invalid query parameter: x=1=2"
    );
}

#[test]
fn call_builds_the_request_for_the_default_environment() {
    let config = users_config();
    let values = table(&[("user_id", "42"), ("verbose", "true")]);
    let command = CallServiceEndpointCommand::bind(
        &config,
        "u",
        "get_user",
        None,
        &values,
        &vec!["verbose=false".to_string(), "page=2".to_string()],
        true,
        None,
    )
    .unwrap();
    assert_eq!(command.service_name, "u");
    assert_eq!(command.path, "/v1/users/42");
    assert_eq!(
        pairs(&command.query_parameters),
        vec![("verbose".to_string(), "false".to_string()), ("page".to_string(), "2".to_string())]
    );
    assert_eq!(command.headers.get("X-Level").unwrap(), "service");

    let mut config = config;
    let result = RootCommand::Call(command).execute(&mut config);
    let HtrsAction::MakeRequest { url, query_parameters, method, headers, show_body } = result.unwrap() else {
        panic!("Returned action was not HtrsAction::MakeRequest");
    };
    assert_eq!(url, "https://api.example.com/v1/users/42");
    assert_eq!(query_parameters.get("page").unwrap(), "2");
    assert_eq!(method, HttpMethod::Get);
    assert!(show_body);
    assert_eq!(headers.get("X-Level").unwrap(), "service");
    assert_eq!(headers.get("Accept").unwrap(), "application/json");
    assert_eq!(headers.get("X-Service").unwrap(), "users");
    assert!(headers.get("X-Env").is_none());
}

#[test]
fn environment_headers_win_over_service_and_global_headers() {
    let config = users_config();
    let values = table(&[("user_id", "7"), ("verbose", "no")]);
    let command = CallServiceEndpointCommand::bind(
        &config,
        "users",
        "get_user",
        Some("d".to_string()),
        &values,
        &vec![],
        false,
        None,
    )
    .unwrap();
    let HtrsAction::MakeRequest { url, headers, show_body, .. } = command.execute_command(&config).unwrap() else {
        panic!("Returned action was not HtrsAction::MakeRequest");
    };
    assert_eq!(url, "https://dev.example.com/v1/users/7");
    assert!(!show_body);
    assert_eq!(headers.get("X-Level").unwrap(), "environment");
    assert_eq!(headers.get("X-Env").unwrap(), "dev");
    assert_eq!(headers.get("X-Service").unwrap(), "users");
    assert_eq!(headers.get("Accept").unwrap(), "application/json");
}

#[test]
fn call_without_default_environment_fails() {
    let mut config = users_config();
    config.services[0].environments[1].default = false;
    let values = table(&[("user_id", "7"), ("verbose", "no")]);
    let command =
        CallServiceEndpointCommand::bind(&config, "users", "get_user", None, &values, &vec![], false, None).unwrap();
    let err = command.execute_command(&config).err().unwrap();
    assert_eq!(err.details, "No default environment defined for service users");
}

#[test]
fn bad_host_is_reported_by_the_url_parser() {
    let mut config = users_config();
    config.services[0].environments[1].host = "exa mple.com".to_string();
    let values = table(&[("user_id", "7"), ("verbose", "no")]);
    let command =
        CallServiceEndpointCommand::bind(&config, "users", "get_user", None, &values, &vec![], false, None).unwrap();
    let err = command.execute_command(&config).err().unwrap();
    assert!(err.details.starts_with("Failed to build url from given host: "), "{}", err.details);
}

#[test]
fn query_parameters_are_applied_to_the_url() {
    let params = table(&[("page", "2"), ("q", "abc")]);
    assert_eq!(
        apply_query_params_to_url("http://api.example.com/v1/items", &params).unwrap(),
        "http://api.example.com/v1/items?page=2&q=abc"
    );
    assert_eq!(
        apply_query_params_to_url("http://api.example.com/v1/items", &StringMap::new()).unwrap(),
        "http://api.example.com/v1/items"
    );
    let err = apply_query_params_to_url("not a url", &params).err().unwrap();
    assert!(err.details.starts_with("Failed to build url with query parameters: "), "{}", err.details);
}

#[test]
fn default_headers_name_the_version() {
    let headers = get_default_headers("1.2.3");
    assert_eq!(headers.len(), 1);
    assert_eq!(headers.get("User-Agent").unwrap(), "htrs/1.2.3");
}

#[test]
fn quickstart_calls_the_default_environment() {
    let mut config = HtrsConfig::new();
    let steps = vec![
        NewCommand::Service(NewServiceCommand { name: "aviation".to_string(), alias: None }),
        NewCommand::Environment(NewEnvironmentCommand {
            service: "aviation".to_string(),
            name: "prod".to_string(),
            alias: None,
            host: "api.aviationstack.com".to_string(),
            default: true,
        }),
        NewCommand::Endpoint(NewEndpointCommand {
            service: "aviation".to_string(),
            name: "get-flights".to_string(),
            path_template: "/v1/flights".to_string(),
            query_parameters: vec![],
        }),
    ];
    for step in steps {
        assert!(matches!(RootCommand::New(step).execute(&mut config), Ok(HtrsAction::UpdateConfig)));
    }
    let command = CallServiceEndpointCommand::bind(
        &config,
        "aviation",
        "get-flights",
        None,
        &StringMap::new(),
        &vec![],
        false,
        None,
    )
    .unwrap();
    let HtrsAction::MakeRequest { url, method, .. } = RootCommand::Call(command).execute(&mut config).unwrap() else {
        panic!("Returned action was not HtrsAction::MakeRequest");
    };
    assert_eq!(method, HttpMethod::Get);
    assert_eq!(url, "https://api.aviationstack.com/v1/flights");
}

#[test]
fn required_query_parameter_without_value_fails_and_optional_one_is_left_out() {
    let mut config = users_config();
    let values = table(&[("user_id", "42")]);
    let optional =
        CallServiceEndpointCommand::bind(&config, "users", "get_user", None, &values, &vec![], false, None).unwrap();
    assert!(optional.query_parameters.is_empty());
    config.services[0].endpoints[0].query_parameters[0].required = true;
    let required = CallServiceEndpointCommand::bind(&config, "users", "get_user", None, &values, &vec![], false, None);
    assert_eq!(required.err().unwrap().description, "Unexpected binding - no value found");
}

#[test]
fn preset_values_stand_in_for_those_not_given() {
    let mut config = users_config();
    config.presets.push(htrs::config::Preset {
        name: "me".to_string(),
        alias: Some("m".to_string()),
        values: table(&[("user_id", "7"), ("verbose", "yes")]),
    });
    let given = table(&[("verbose", "no")]);
    let command = CallServiceEndpointCommand::bind(
        &config,
        "users",
        "get_user",
        None,
        &given,
        &vec![],
        false,
        Some("m".to_string()),
    )
    .unwrap();
    assert_eq!(command.path, "/v1/users/7");
    assert_eq!(command.query_parameters.get("verbose").unwrap(), "no");
    assert_eq!(command.preset, Some("m".to_string()));
    let unknown = CallServiceEndpointCommand::bind(
        &config,
        "users",
        "get_user",
        None,
        &given,
        &vec![],
        false,
        Some("them".to_string()),
    );
    assert_eq!(unknown.err().unwrap().description, "No preset could be found with name or alias `them`");
}
