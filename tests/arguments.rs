use sloris::config::{parse_arguments, ArgError, Arguments};
use sloris::pool::MaxConnections;

fn args(words: &[&str]) -> Vec<String> {
    let mut v = vec!["sloris".to_string()];
    v.extend(words.iter().map(|w| w.to_string()));
    v
}

fn ok(words: &[&str]) -> Arguments {
    match parse_arguments(&args(words)) {
        Ok(a) => a,
        Err(_) => panic!("expected settings for {:?}", words),
    }
}

#[test]
fn defaults_with_bare_target() {
    let a = ok(&["10.0.0.1"]);
    assert_eq!(a.target, "10.0.0.1");
    assert_eq!(a.port, 80);
    assert_eq!(a.timeout, 30);
    assert_eq!(a.max_connections, MaxConnections::Infinite);
}

#[test]
fn long_options() {
    let a = ok(&["--port", "8080", "--timeout", "5", "--max", "3", "--host", "example"]);
    assert_eq!(a.target, "example");
    assert_eq!(a.port, 8080);
    assert_eq!(a.timeout, 5);
    assert_eq!(a.max_connections, MaxConnections::Max(3));
}

#[test]
fn short_flags() {
    let a = ok(&["-h", "10.0.0.1", "-p", "+443", "-t", "12", "-m", "infinite"]);
    assert_eq!(a.target, "10.0.0.1");
    assert_eq!(a.port, 443);
    assert_eq!(a.timeout, 12);
    assert_eq!(a.max_connections, MaxConnections::Infinite);
}

#[test]
fn help_is_reported() {
    assert!(matches!(parse_arguments(&args(&["--help"])), Err(ArgError::Help)));
    assert!(matches!(parse_arguments(&args(&["x", "--help"])), Err(ArgError::Help)));
}

#[test]
fn missing_target() {
    assert!(matches!(parse_arguments(&args(&[])), Err(ArgError::MissingTarget)));
    assert!(matches!(parse_arguments(&args(&["-p", "81"])), Err(ArgError::MissingTarget)));
}

#[test]
fn missing_value() {
    match parse_arguments(&args(&["x", "-p"])) {
        Err(ArgError::MissingValue(o)) => assert_eq!(o, "port"),
        _ => panic!("expected a missing value"),
    }
    match parse_arguments(&args(&["x", "--timeout"])) {
        Err(ArgError::MissingValue(o)) => assert_eq!(o, "timeout"),
        _ => panic!("expected a missing value"),
    }
}

#[test]
fn unknown_options() {
    match parse_arguments(&args(&["x", "-z", "1"])) {
        Err(ArgError::UnknownOption(o)) => assert_eq!(o, "z"),
        _ => panic!("expected an unknown flag"),
    }
    match parse_arguments(&args(&["x", "--speed", "1"])) {
        Err(ArgError::UnknownOption(o)) => assert_eq!(o, "speed"),
        _ => panic!("expected an unknown option"),
    }
}

#[test]
fn second_bare_argument() {
    match parse_arguments(&args(&["a", "b"])) {
        Err(ArgError::UnexpectedArgument(v)) => assert_eq!(v, "b"),
        _ => panic!("expected an unexpected argument"),
    }
}

#[test]
fn invalid_numbers() {
    assert!(matches!(parse_arguments(&args(&["x", "-p", "70000"])), Err(ArgError::InvalidPort(_))));
    assert!(matches!(parse_arguments(&args(&["x", "-p", "-1"])), Err(ArgError::InvalidPort(_))));
    assert!(matches!(parse_arguments(&args(&["x", "-t", "soon"])), Err(ArgError::InvalidTimeout(_))));
    assert!(matches!(parse_arguments(&args(&["x", "-m", ""])), Err(ArgError::InvalidMax(_))));
    let a = ok(&["x", "-p", "65535", "-m", "4294967295"]);
    assert_eq!(a.port, 65535);
    assert_eq!(a.max_connections, MaxConnections::Max(4294967295));
}

#[test]
fn pool_from_settings() {
    let a = ok(&["x", "-t", "5", "-m", "3"]);
    let pool = a.new_pool();
    assert_eq!(pool.timeout(), 5000);
    assert_eq!(pool.max_connections(), MaxConnections::Max(3));
    assert_eq!(pool.live(), 0);
}
