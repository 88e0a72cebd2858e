use lambda_web_gateway::config::{
    contains_key, default_addr, parse_api_keys, AuthMode, Config, EnvOverrides, LambdaInvokeMode,
};

fn no_overrides() -> EnvOverrides {
    EnvOverrides {
        lambda_function_name: None,
        lambda_invoke_mode: None,
        api_keys: None,
        auth_mode: None,
        addr: None,
    }
}

#[test]
fn test_default_invoke_mode() {
    assert_eq!(LambdaInvokeMode::default(), LambdaInvokeMode::Buffered);
}

#[test]
fn default_auth_mode_is_open() {
    assert_eq!(AuthMode::default(), AuthMode::Open);
}

#[test]
fn default_settings() {
    assert_eq!(
        Config::default(),
        Config {
            lambda_function_name: String::new(),
            lambda_invoke_mode: LambdaInvokeMode::Buffered,
            api_keys: vec![],
            auth_mode: AuthMode::Open,
            addr: "0.0.0.0:8000".to_string(),
        }
    );
    assert_eq!(default_addr(), "0.0.0.0:8000");
}

#[test]
fn modes_are_read_in_any_case() {
    assert_eq!(AuthMode::from_str("open"), Ok(AuthMode::Open));
    assert_eq!(AuthMode::from_str("OPEN"), Ok(AuthMode::Open));
    assert_eq!(AuthMode::from_str("ApiKey"), Ok(AuthMode::ApiKey));
    assert_eq!(
        LambdaInvokeMode::from_str("Buffered"),
        Ok(LambdaInvokeMode::Buffered)
    );
    assert_eq!(
        LambdaInvokeMode::from_str("ResponseStream"),
        Ok(LambdaInvokeMode::ResponseStream)
    );
    assert_eq!(
        LambdaInvokeMode::from_str("RESPONSESTREAM"),
        Ok(LambdaInvokeMode::ResponseStream)
    );
}

#[test]
fn a_text_that_names_no_mode_is_refused() {
    assert_eq!(
        AuthMode::from_str("api_key"),
        Err("Invalid AuthMode: api_key".to_string())
    );
    assert_eq!(AuthMode::from_str(""), Err("Invalid AuthMode: ".to_string()));
    assert_eq!(
        LambdaInvokeMode::from_str("Response_Stream"),
        Err("Invalid LambdaInvokeMode: Response_Stream".to_string())
    );
    assert_eq!(
        LambdaInvokeMode::from_str(" buffered"),
        Err("Invalid LambdaInvokeMode:  buffered".to_string())
    );
}

#[test]
fn api_keys_are_the_fields_that_are_not_empty() {
    assert_eq!(parse_api_keys("a,b"), ["a", "b"]);
    assert_eq!(parse_api_keys("key1"), ["key1"]);
    assert_eq!(parse_api_keys(""), Vec::<String>::new());
    assert_eq!(parse_api_keys(","), Vec::<String>::new());
    assert_eq!(parse_api_keys(",a,,b,"), ["a", "b"]);
    assert_eq!(parse_api_keys("a,b,a"), ["a", "b"]);
    assert_eq!(parse_api_keys(" a , b"), [" a ", " b"]);
    assert_eq!(parse_api_keys("k\u{e9}y,\u{1f511}"), ["k\u{e9}y", "\u{1f511}"]);
}

#[test]
fn key_lookup() {
    let keys = vec!["a".to_string(), "bc".to_string()];
    assert!(contains_key(&keys, "a"));
    assert!(contains_key(&keys, "bc"));
    assert!(!contains_key(&keys, "b"));
    assert!(!contains_key(&keys, ""));
    assert!(!contains_key(&Vec::new(), "a"));
}

#[test]
fn the_environment_overrides_the_file() {
    let file = Config {
        lambda_function_name: "from-file".to_string(),
        lambda_invoke_mode: LambdaInvokeMode::Buffered,
        api_keys: vec!["old".to_string()],
        auth_mode: AuthMode::Open,
        addr: "127.0.0.1:1".to_string(),
    };
    let env = EnvOverrides {
        lambda_function_name: Some("from-env".to_string()),
        lambda_invoke_mode: Some("ResponseStream".to_string()),
        api_keys: Some("k1,,k2".to_string()),
        auth_mode: Some("APIKEY".to_string()),
        addr: Some("0.0.0.0:9000".to_string()),
    };
    assert_eq!(
        Config::load(Some(file.clone()), &env),
        Config {
            lambda_function_name: "from-env".to_string(),
            lambda_invoke_mode: LambdaInvokeMode::ResponseStream,
            api_keys: vec!["k1".to_string(), "k2".to_string()],
            auth_mode: AuthMode::ApiKey,
            addr: "0.0.0.0:9000".to_string(),
        }
    );
    assert_eq!(Config::load(Some(file.clone()), &no_overrides()), file);
}

#[test]
fn a_mode_that_names_none_is_passed_over() {
    let file = Config {
        lambda_function_name: "f".to_string(),
        lambda_invoke_mode: LambdaInvokeMode::ResponseStream,
        api_keys: vec![],
        auth_mode: AuthMode::ApiKey,
        addr: "127.0.0.1:1".to_string(),
    };
    let mut env = no_overrides();
    env.lambda_invoke_mode = Some("streaming".to_string());
    env.auth_mode = Some("keys".to_string());
    assert_eq!(Config::load(Some(file.clone()), &env), file);
}

#[test]
fn without_a_file_the_defaults_stand() {
    let mut env = no_overrides();
    env.lambda_function_name = Some("f".to_string());
    assert_eq!(
        Config::load(None, &env),
        Config {
            lambda_function_name: "f".to_string(),
            lambda_invoke_mode: LambdaInvokeMode::Buffered,
            api_keys: vec![],
            auth_mode: AuthMode::Open,
            addr: "0.0.0.0:8000".to_string(),
        }
    );
}

#[test]
fn overrides_are_applied_in_place() {
    let mut config = Config {
        lambda_function_name: "f".to_string(),
        ..Default::default()
    };
    let mut env = no_overrides();
    env.api_keys = Some("a".to_string());
    config.apply_env_overrides(&env);
    assert_eq!(config.lambda_function_name, "f");
    assert_eq!(config.api_keys, ["a"]);
}
