use file_explorer::cli::{parse_args, CliError};
use file_explorer::request::Mode;

fn args(list: &[&str]) -> Vec<String> {
    list.iter().map(|a| a.to_string()).collect()
}

#[test]
fn mode_is_by_name_where_no_flag_is_given() {
    let request = parse_args(&args(&["/srv", "report"])).ok().unwrap();
    assert_eq!(request.root(), "/srv");
    assert_eq!(request.term(), "report");
    assert_eq!(request.mode(), Mode::NameMatch);
}

#[test]
fn flags_pick_the_mode() {
    assert_eq!(parse_args(&args(&["/srv", "x", "-n"])).ok().unwrap().mode(), Mode::NameMatch);
    let by_content = parse_args(&args(&["/srv", "x", "-c"])).ok().unwrap();
    assert_eq!(by_content.mode(), Mode::ContentMatch);
    assert_eq!(by_content.root(), "/srv");
    assert_eq!(by_content.term(), "x");
}

#[test]
fn missing_or_surplus_arguments_are_a_usage_error() {
    assert!(matches!(parse_args(&args(&[])), Err(CliError::Usage)));
    assert!(matches!(parse_args(&args(&["/srv"])), Err(CliError::Usage)));
    assert!(matches!(parse_args(&args(&["/srv", "x", "-c", "-n"])), Err(CliError::Usage)));
    assert!(matches!(parse_args(&args(&["/srv", "x", "-z", "y"])), Err(CliError::Usage)));
}

#[test]
fn an_empty_term_is_a_usage_error() {
    assert!(matches!(parse_args(&args(&["/srv", ""])), Err(CliError::Usage)));
    assert!(matches!(parse_args(&args(&["/srv", "", "-c"])), Err(CliError::Usage)));
}

#[test]
fn any_other_third_argument_is_an_unknown_flag() {
    assert!(matches!(parse_args(&args(&["/srv", "x", "-z"])), Err(CliError::UnknownFlag)));
    assert!(matches!(parse_args(&args(&["/srv", "x", "-N"])), Err(CliError::UnknownFlag)));
    assert!(matches!(parse_args(&args(&["/srv", "x", "-nc"])), Err(CliError::UnknownFlag)));
    assert!(matches!(parse_args(&args(&["/srv", "x", ""])), Err(CliError::UnknownFlag)));
    assert!(matches!(parse_args(&args(&["/srv", "", "-z"])), Err(CliError::UnknownFlag)));
}
