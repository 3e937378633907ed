use minigrep::config::parse_count;
use minigrep::{len_args, Config};

fn args(v: &[&str]) -> Vec<String> {
    v.iter().map(|s| s.to_string()).collect()
}

#[test]
fn config_reads_all_options() {
    let a = args(&["prog", "file.txt", "-s", "beta", "-i", "-from", "2", "-to", "9", "-b", "1", "-a", "3"]);
    let c = Config::new(&a).unwrap();
    assert_eq!(c.filename, "file.txt");
    assert_eq!(c.query, Some("beta".to_string()));
    assert!(c.insensitive);
    assert_eq!(c.from, Some(2));
    assert_eq!(c.to, Some(9));
    assert_eq!(c.before, 1);
    assert_eq!(c.after, 3);
}

#[test]
fn config_long_names() {
    let c = Config::new(&args(&["prog", "f", "-search", "x", "-insensitive"])).unwrap();
    assert_eq!(c.query, Some("x".to_string()));
    assert!(c.insensitive);
    assert_eq!(c.from, None);
    assert_eq!(c.before, 0);
}

#[test]
fn config_too_few_arguments() {
    assert_eq!(Config::new(&args(&["prog"])).err(), Some("Not enough arguments \n -h for help"));
}

#[test]
fn config_file_alone_selects_show_mode() {
    let c = Config::new(&args(&["prog", "f.txt"])).unwrap();
    assert_eq!(c.filename, "f.txt");
    assert_eq!(c.query, None);
    assert!(!c.insensitive);
    assert_eq!(c.from, None);
    assert_eq!(c.to, None);
    assert_eq!(c.before, 0);
    assert_eq!(c.after, 0);
}

#[test]
fn config_missing_value() {
    assert_eq!(Config::new(&args(&["prog", "f", "-s"])).err(), Some("not enough arguments \n -h for help"));
}

#[test]
fn config_unknown_option() {
    assert_eq!(
        Config::new(&args(&["prog", "f", "-z", "1"])).err(),
        Some("invalid argument format \n -h for help")
    );
}

#[test]
fn config_bad_number() {
    assert_eq!(Config::new(&args(&["prog", "f", "-from", "x"])).err(), Some("invalid number \n -h for help"));
}

#[test]
fn len_args_checks_following_argument() {
    let a = args(&["prog", "f", "-s", "x"]);
    assert!(len_args(&a, 2).is_ok());
    assert_eq!(len_args(&a, 3), Err("not enough arguments \n -h for help"));
    assert_eq!(len_args(&a, usize::MAX), Err("not enough arguments \n -h for help"));
    let b = args(&["prog", "f.txt", "-s"]);
    assert_eq!(len_args(&b, 2), Err("not enough arguments \n -h for help"));
}

#[test]
fn parse_count_values() {
    assert_eq!(parse_count("0"), Some(0));
    assert_eq!(parse_count("+42"), Some(42));
    assert_eq!(parse_count("18446744073709551615"), Some(usize::MAX));
    assert_eq!(parse_count("18446744073709551616"), None);
    assert_eq!(parse_count(""), None);
    assert_eq!(parse_count("+"), None);
    assert_eq!(parse_count("-1"), None);
    assert_eq!(parse_count("1a"), None);
}
