use htrs::common::{get_duplicates_from_vec, get_params_from_path, parse_key_value_string};
use htrs::commands::call_command::parse_query_params_from_arg;

#[test]
fn given_valid_key_value_string_then_should_parse() {
    let s = "key=value";

    let result = parse_key_value_string(s);
    assert!(result.is_ok());
    let (left, right) = result.unwrap();
    assert_eq!(left, "key");
    assert_eq!(right, "value");
}

#[test]
fn given_empty_key_value_string_then_should_fail() {
    assert!(parse_key_value_string("").is_err());
}

#[test]
fn given_key_value_string_without_separator_then_should_fail() {
    assert!(parse_key_value_string("foo").is_err());
}

#[test]
fn given_key_value_string_without_value_then_should_fail() {
    assert!(parse_key_value_string("key=").is_err());
}

#[test]
fn given_key_value_string_without_key_then_should_fail() {
    assert!(parse_key_value_string("=value").is_err());
}

#[test]
fn key_value_string_splits_at_first_separator() {
    let (left, right) = parse_key_value_string("a=b=c").unwrap();
    assert_eq!(left, "a");
    assert_eq!(right, "b=c");
}

#[test]
fn key_value_roundtrip_on_concrete_values() {
    let key = "user_id";
    let value = "a=b";
    let joined = format!("{}={}", key, value);
    let (left, right) = parse_key_value_string(&joined).unwrap();
    assert_eq!(left, key);
    assert_eq!(right, value);
}

#[test]
fn query_param_argument_needs_exactly_one_separator() {
    let (name, value) = parse_query_params_from_arg("page=2").unwrap();
    assert_eq!(name, "page");
    assert_eq!(value, "2");
    let err = parse_query_params_from_arg("a=b=c").err().unwrap();
    assert_eq!(err.description, "Invalid query parameter: a=b=c");
    assert!(parse_query_params_from_arg("a=").is_err());
    assert!(parse_query_params_from_arg("=b").is_err());
    assert!(parse_query_params_from_arg("ab").is_err());
}

#[test]
fn path_parameters_are_read_in_order() {
    assert_eq!(get_params_from_path("/my/{variable}/path"), vec!["variable".to_string()]);
    assert_eq!(
        get_params_from_path("/v1/{service_id}/items/{item-id}"),
        vec!["service_id".to_string(), "item-id".to_string()]
    );
    assert_eq!(get_params_from_path("{a}{b}"), vec!["a".to_string(), "b".to_string()]);
}

#[test]
fn path_without_parameters_has_none() {
    assert!(get_params_from_path("/v1/flights").is_empty());
    assert!(get_params_from_path("/v1/{}/flights").is_empty());
}

#[test]
fn path_parameters_may_hold_any_digit() {
    // Any ASCII digit may stand in a parameter name.
    assert_eq!(get_params_from_path("/x/{id1}"), vec!["id1".to_string()]);
    assert_eq!(get_params_from_path("/x/{id2}"), vec!["id2".to_string()]);
    assert_eq!(get_params_from_path("/v9/{a0b9}/{x7}"), vec!["a0b9".to_string(), "x7".to_string()]);
}

#[test]
fn duplicates_are_listed_once_in_the_order_seen_again() {
    let values = vec!["a", "b", "a", "c", "b", "a"].into_iter().map(String::from).collect();
    assert_eq!(get_duplicates_from_vec(values), vec!["a".to_string(), "b".to_string()]);
}

#[test]
fn no_duplicates_in_distinct_values() {
    let values = vec!["a", "b", "c"].into_iter().map(String::from).collect();
    assert!(get_duplicates_from_vec(values).is_empty());
    assert!(get_duplicates_from_vec(vec![]).is_empty());
}

#[test]
fn path_parameters_are_the_leftmost_matches() {
    assert_eq!(get_params_from_path("/x/{a{b}/y"), vec!["b".to_string()]);
    assert_eq!(get_params_from_path("{ab}}{c}"), vec!["ab".to_string(), "c".to_string()]);
    assert_eq!(get_params_from_path("{{x}}"), vec!["x".to_string()]);
    assert!(get_params_from_path("{a b}").is_empty());
    assert_eq!(get_params_from_path("é{Z-_1}"), vec!["Z-_1".to_string()]);
}
