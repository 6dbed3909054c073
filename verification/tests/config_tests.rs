use idlib::config::parse_seconds;
use idlib::config::Variables;
use idlib::error::ConfigError;

fn some(text: &str) -> Option<String> {
    Some(text.to_string())
}

#[test]
fn from_env_takes_four_settings() {
    let vars = Variables::from_env(
        some("https://idp.example/login"),
        some("https://idp.example/refresh"),
        some("3600"),
        some("admin"),
    );
    assert_eq!(
        vars,
        Ok(Variables {
            idp_refresh_address: "https://idp.example/refresh".to_string(),
            idp_login_address: "https://idp.example/login".to_string(),
            token_duration_seconds: 3600,
            service_name: "admin".to_string(),
        })
    );
}

#[test]
fn from_env_names_the_missing_setting() {
    assert_eq!(
        Variables::from_env(None, some("r"), some("1"), some("s")),
        Err(ConfigError::MissingLoginAddress)
    );
    assert_eq!(
        Variables::from_env(some("l"), None, some("1"), some("s")),
        Err(ConfigError::MissingRefreshAddress)
    );
    assert_eq!(
        Variables::from_env(some("l"), some("r"), None, some("s")),
        Err(ConfigError::MissingTokenDuration)
    );
    assert_eq!(
        Variables::from_env(some("l"), some("r"), some("1"), None),
        Err(ConfigError::MissingServiceName)
    );
}

#[test]
fn from_env_refuses_a_lifetime_that_is_no_number() {
    for text in ["", "abc", "1h", "-1", "1.5", " 60", "60 ", "4294967296", "+"] {
        assert_eq!(
            Variables::from_env(some("l"), some("r"), some(text), some("s")),
            Err(ConfigError::InvalidTokenDuration)
        );
    }
}

#[test]
fn from_env_reports_the_first_fault() {
    assert_eq!(Variables::from_env(None, None, None, None), Err(ConfigError::MissingLoginAddress));
    assert_eq!(
        Variables::from_env(some("l"), None, some("x"), None),
        Err(ConfigError::MissingRefreshAddress)
    );
    assert_eq!(
        Variables::from_env(some("l"), some("r"), some("x"), None),
        Err(ConfigError::InvalidTokenDuration)
    );
}

#[test]
fn parse_seconds_reads_decimal_numbers() {
    assert_eq!(parse_seconds("0"), Some(0));
    assert_eq!(parse_seconds("3600"), Some(3600));
    assert_eq!(parse_seconds("+5"), Some(5));
    assert_eq!(parse_seconds("0005"), Some(5));
    assert_eq!(parse_seconds("4294967295"), Some(4294967295));
    assert_eq!(parse_seconds("00000000000000000004294967295"), Some(4294967295));
}

#[test]
fn parse_seconds_refuses_everything_else() {
    for text in [
        "", "+", "-", "-0", "++1", "1+", "4294967296", "99999999999999999999999999", "12a", "a12",
        " 1", "1 ", "1_000", "0x10", "\u{661}",
    ] {
        assert_eq!(parse_seconds(text), None, "{:?}", text);
    }
}

#[test]
fn parse_seconds_agrees_with_the_standard_parser() {
    for text in ["0", "+0", "17", "+17", "007", "", "+", "-", "-7", "4294967295", "4294967296", "1e3", "٣"] {
        assert_eq!(parse_seconds(text), text.parse::<u32>().ok(), "{:?}", text);
    }
}
