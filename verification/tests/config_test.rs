use infolang::{
    configure, default_user_agent, ApiKeyAuth, ClientOptions, Credential, DevKeyAuth, EnvVars,
    CLOUD_BASE_URL,
};

fn env_with(pairs: &[(&str, &str)]) -> EnvVars {
    let mut env = EnvVars::default();
    for (name, value) in pairs {
        let v = Some(value.to_string());
        match *name {
            "INFOLANG_API_KEY" => env.api_key = v,
            "INFOLANG_DEV_KEY" => env.dev_key = v,
            "INFOLANG_BASE_URL" => env.base_url = v,
            "INFOLANG_NAMESPACE" => env.namespace = v,
            "INFOLANG_WORKSPACE" => env.workspace = v,
            "INFOLANG_WORKSPACE_ID" => env.workspace_id = v,
            _ => unreachable!(),
        }
    }
    env
}

fn with_api_key(key: &str) -> ClientOptions {
    ClientOptions { api_key: Some(key.to_string()), ..Default::default() }
}

#[test]
fn new_from_api_key_uses_cloud() {
    let client = configure(with_api_key("il_live_abc"), &EnvVars::default()).expect("client");
    assert_eq!(client.base_url, CLOUD_BASE_URL);
    assert!(client.namespace.is_empty());
    assert!(client.workspace.is_none());
}

#[test]
fn dev_key_pins_namespace_but_not_direct_url() {
    let options = ClientOptions { dev_key: Some("secret:mybank".into()), ..Default::default() };
    let client = configure(options, &EnvVars::default()).expect("client");
    assert_eq!(client.base_url, CLOUD_BASE_URL);
    assert_eq!(client.namespace, "mybank");
}

#[test]
fn dev_key_invalid() {
    let options = ClientOptions { dev_key: Some("nocolon".into()), ..Default::default() };
    let err = configure(options, &EnvVars::default()).unwrap_err();
    assert_eq!(err.message, "dev key must be in 'key:namespace' form");
}

#[test]
fn no_credentials() {
    let err = configure(ClientOptions::default(), &EnvVars::default()).unwrap_err();
    assert_eq!(err.message, "no credentials: pass an api key, dev_key, or set INFOLANG_API_KEY");
}

#[test]
fn env_resolution_and_dev_key() {
    let env = env_with(&[
        ("INFOLANG_API_KEY", "il_live_env"),
        ("INFOLANG_NAMESPACE", "envns"),
        ("INFOLANG_WORKSPACE", "ws-env"),
        ("INFOLANG_BASE_URL", "https://example.test"),
    ]);
    let client = configure(ClientOptions::default(), &env).expect("client");
    assert_eq!(client.base_url, "https://example.test");
    assert_eq!(client.namespace, "envns");
    assert_eq!(client.workspace.as_deref(), Some("ws-env"));

    let env = env_with(&[("INFOLANG_API_KEY", "il_live_env"), ("INFOLANG_WORKSPACE_ID", "ws-id")]);
    let client = configure(ClientOptions::default(), &env).expect("client");
    assert_eq!(client.workspace.as_deref(), Some("ws-id"));

    let env = env_with(&[("INFOLANG_DEV_KEY", "secret:devns")]);
    let client = configure(ClientOptions::default(), &env).expect("dev client");
    assert_eq!(client.base_url, CLOUD_BASE_URL);
    assert_eq!(client.namespace, "devns");

    let client = configure(with_api_key("il_live_abc"), &EnvVars::default()).expect("api client");
    assert_eq!(client.base_url, CLOUD_BASE_URL);
    assert!(client.workspace.is_none());
}

#[test]
fn explicit_values_beat_environment() {
    let env = env_with(&[
        ("INFOLANG_API_KEY", "il_live_env"),
        ("INFOLANG_NAMESPACE", "envns"),
        ("INFOLANG_WORKSPACE", "ws-env"),
        ("INFOLANG_BASE_URL", "https://env.test"),
    ]);
    let options = ClientOptions {
        api_key: Some("il_live_own".into()),
        base_url: Some("https://own.test//".into()),
        namespace: Some("docs".into()),
        workspace: Some("ws-own".into()),
        user_agent: Some("agent/1".into()),
        max_retries: Some(0),
        ..Default::default()
    };
    let client = configure(options, &env).expect("client");
    assert_eq!(client.credential, Credential::ApiKey(ApiKeyAuth::new("il_live_own")));
    assert_eq!(client.base_url, "https://own.test");
    assert_eq!(client.namespace, "docs");
    assert_eq!(client.workspace.as_deref(), Some("ws-own"));
    assert_eq!(client.user_agent, "agent/1");
    assert_eq!(client.max_retries, 0);
}

#[test]
fn defaults_for_agent_and_retries() {
    let client = configure(with_api_key("k"), &EnvVars::default()).expect("client");
    assert_eq!(client.user_agent, "infolang-rust/0.3.0");
    assert_eq!(default_user_agent(), "infolang-rust/0.3.0");
    assert_eq!(client.max_retries, 2);
}

#[test]
fn empty_environment_values_count_as_unset() {
    let env = env_with(&[
        ("INFOLANG_API_KEY", ""),
        ("INFOLANG_DEV_KEY", "k:ns"),
        ("INFOLANG_BASE_URL", ""),
        ("INFOLANG_WORKSPACE", ""),
        ("INFOLANG_WORKSPACE_ID", "ws-2"),
    ]);
    let client = configure(ClientOptions::default(), &env).expect("client");
    assert_eq!(
        client.credential,
        Credential::DevKey(DevKeyAuth { key: "k".into(), namespace: "ns".into() })
    );
    assert_eq!(client.base_url, CLOUD_BASE_URL);
    assert_eq!(client.workspace.as_deref(), Some("ws-2"));
    assert_eq!(client.namespace, "ns");
}

#[test]
fn explicit_api_key_wins_over_dev_key() {
    let options = ClientOptions {
        api_key: Some("il_live_x".into()),
        dev_key: Some("nocolon".into()),
        ..Default::default()
    };
    let client = configure(options, &EnvVars::default()).expect("client");
    assert_eq!(client.credential.authorization(), "Bearer il_live_x");
    assert_eq!(client.credential.pinned_namespace(), None);
}

#[test]
fn dev_key_parse_forms() {
    let parsed = DevKeyAuth::parse("secret:mybank").expect("parse");
    assert_eq!(parsed.key, "secret");
    assert_eq!(parsed.namespace, "mybank");
    let parsed = DevKeyAuth::parse("a:b:c").expect("first colon splits");
    assert_eq!(parsed.key, "a");
    assert_eq!(parsed.namespace, "b:c");
    let parsed = DevKeyAuth::parse("key:").expect("empty namespace is allowed");
    assert_eq!(parsed.namespace, "");
    assert!(DevKeyAuth::parse(":ns").is_err());
    assert!(DevKeyAuth::parse("").is_err());
    let dev = Credential::DevKey(DevKeyAuth::parse("secret:mybank").unwrap());
    assert_eq!(dev.authorization(), "Bearer secret");
    assert_eq!(dev.pinned_namespace().map(String::as_str), Some("mybank"));
}

#[test]
fn api_key_auth_new_keeps_key() {
    let auth = ApiKeyAuth::new("il_live_abc");
    assert_eq!(auth.key, "il_live_abc");
}
