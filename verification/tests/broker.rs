use codex_kit::broker::credentials::github_cloud_host;
use codex_kit::broker::credentials::CredentialBroker;
use codex_kit::broker::credentials::CredentialHostBinding;
use codex_kit::broker::credentials::CredentialKind;
use codex_kit::broker::dummy::github_token_prefix;
use codex_kit::broker::dummy::openai_api_key_prefix;
use codex_kit::broker::dummy::shape_with_digest;
use codex_kit::broker::dummy::shaped_dummy_value;
use codex_kit::broker::environment::brokered_credential_env_keys;
use codex_kit::broker::environment::credential_broker_env_keys;
use codex_kit::broker::environment::github_enterprise_binding;
use codex_kit::broker::environment::remove_brokered;
use codex_kit::broker::environment::strip_brokered_credentials;
use codex_kit::broker::environment::BROKERED_CREDENTIALS_ENV_KEY;
use codex_kit::broker::environment::CREDENTIAL_BROKER_ACTIVE_ENV_KEY;
use codex_kit::text_map::TextMap;
use rama_http::header::AUTHORIZATION;
use rama_http::HeaderMap;
use rama_http::HeaderValue;

fn env(pairs: &[(&str, &str)]) -> TextMap {
    let mut map = TextMap::new();
    for (key, value) in pairs {
        map.insert(key.to_string(), value.to_string());
    }
    map
}

/// A stand-in, written in groups: in one piece it would look like a credential.
fn spelled(prefix: &str, groups: &[&str]) -> String {
    format!("{prefix}{}", groups.concat())
}

fn listed(map: &TextMap) -> Vec<(&str, &str)> {
    map.entries()
        .iter()
        .map(|(key, value)| (key.as_str(), value.as_str()))
        .collect()
}

fn request(value: &str) -> HeaderMap<HeaderValue> {
    let mut headers: HeaderMap<HeaderValue> = HeaderMap::new();
    headers.insert(AUTHORIZATION, HeaderValue::from_str(value).expect("valid"));
    headers
}

fn authorization(headers: &HeaderMap<HeaderValue>) -> Option<String> {
    headers
        .get(AUTHORIZATION)
        .map(|value| value.to_str().expect("text").to_string())
}

#[test]
fn prefixes_of_github_tokens() {
    assert_eq!(github_token_prefix("github_pat_abc"), "github_pat_");
    assert_eq!(github_token_prefix("ghs_abc"), "ghs_");
    assert_eq!(github_token_prefix("plain"), "ghp_");
    assert_eq!(github_token_prefix(""), "ghp_");
}

#[test]
fn prefixes_of_api_keys() {
    assert_eq!(openai_api_key_prefix("sk-proj-abc-def"), "sk-proj-");
    assert_eq!(openai_api_key_prefix("sk-abc"), "sk-");
    assert_eq!(openai_api_key_prefix("other-abc"), "sk-");
    assert_eq!(openai_api_key_prefix("sk-\u{e9}t\u{e9}-x"), "sk-\u{e9}t\u{e9}-");
}

#[test]
fn stand_ins_have_the_shape_of_the_value() {
    assert_eq!(
        shaped_dummy_value(&spelled("ghp_", &["0123456789", "ABCDEF", "abcdef"]), "ghp_", 40, "github", 0),
        spelled("ghp_", &["676930", "8280GL", "IRONcz", "orpaxd", "ffznys", "drgbeb"])
    );
    assert_eq!(
        shaped_dummy_value(&spelled("github_pat_", &["11AAAA_bbbb"]), "github_pat_", 40, "github", 1),
        spelled("github_pat_", &["50NMXQ", "_ocohs", "tevaon", "unudnl", "aulkk"])
    );
    assert_eq!(
        CredentialKind::OpenAiApiKey.dummy_value(2, &spelled("sk-proj-", &["Abc123_xyz"])),
        spelled("sk-proj-", &["Lpf247", "_ndrvt", "vtvyba", "ybiuho", "zamswt", "onrvlk", "kxrtjx", "b"])
    );
    assert_eq!(
        CredentialKind::GitHub.dummy_value(0, "token"),
        spelled("ghp_", &["avyvzq", "qekwgl", "ironcz", "orpaxd", "ffznys", "drgbeb"])
    );
}

#[test]
fn stand_ins_vary_by_the_digest() {
    let zeros: Vec<u8> = vec![0; 32];
    assert_eq!(shape_with_digest("xA1-", "x", 4, &zeros), "xA1-defghijklmnop");
    assert_eq!(shape_with_digest("", "", 0, &zeros), "abcdefghijklmnop");
}

#[test]
fn cloud_hosts() {
    assert!(github_cloud_host("github.com"));
    assert!(github_cloud_host("api.github.com"));
    assert!(github_cloud_host("acme.ghe.com"));
    assert!(!github_cloud_host("ghe.com"));
    assert!(!github_cloud_host("git.example.com"));
}

#[test]
fn enterprise_binding_needs_a_host_of_its_own() {
    let with_host = env(&[("GH_HOST", "Git.Example.com")]);
    assert!(matches!(
        github_enterprise_binding(&with_host, "git.example.com"),
        Some(CredentialHostBinding::ExactHost(host)) if host == "git.example.com"
    ));
    assert!(github_enterprise_binding(&with_host, "github.com").is_none());
    assert!(github_enterprise_binding(&with_host, "").is_none());
    assert!(github_enterprise_binding(&env(&[]), "git.example.com").is_none());
}

#[test]
fn child_env_gets_stand_ins_and_a_marker() {
    let given = format!(" {}\n", spelled("ghp_", &["0123456789", "ABCDEF", "abcdef"]));
    let mut broker = CredentialBroker::new(true);
    let mut child = env(&[
        ("GH_TOKEN", given.as_str()),
        ("PATH", "/bin"),
    ]);
    broker.virtualize_child_env(&mut child, "");
    let stand_in = spelled("ghp_", &["676930", "8280GL", "IRONcz", "orpaxd", "ffznys", "drgbeb"]);
    let marker = format!("[[\"GH_TOKEN\",\"{stand_in}\"]]");
    assert_eq!(
        listed(&child),
        vec![
            ("CODEX_NETWORK_PROXY_BROKERED_CREDENTIALS", marker.as_str()),
            ("CODEX_NETWORK_PROXY_CREDENTIAL_BROKER_ACTIVE", "1"),
            ("GH_TOKEN", stand_in.as_str()),
            ("PATH", "/bin"),
        ]
    );
    assert_eq!(broker.records().len(), 1);
    assert_eq!(broker.records()[0].real_value, spelled("ghp_", &["0123456789", "ABCDEF", "abcdef"]));
}

#[test]
fn virtualizing_twice_changes_nothing() {
    let mut broker = CredentialBroker::new(true);
    let mut child = env(&[("GITHUB_TOKEN", "token"), ("OPENAI_API_KEY", &spelled("sk-proj-", &["Abc123_xyz"]))]);
    broker.virtualize_child_env(&mut child, "");
    let first: Vec<(String, String)> = child.entries().clone();
    broker.virtualize_child_env(&mut child, "");
    assert_eq!(child.entries(), &first);
    assert_eq!(broker.records().len(), 2);
}

#[test]
fn enterprise_tokens_are_bound_to_the_named_host() {
    let mut broker = CredentialBroker::new(true);
    let mut child = env(&[("GH_HOST", "git.example.com"), ("GH_ENTERPRISE_TOKEN", "token")]);
    broker.virtualize_child_env(&mut child, "git.example.com");
    assert_eq!(
        child.get("GH_ENTERPRISE_TOKEN"),
        Some(spelled("ghp_", &["avyvzq", "qekwgl", "ironcz", "orpaxd", "ffznys", "drgbeb"]).as_str())
    );
    assert!(broker.host_requires_mitm("git.example.com"));
    assert!(!broker.host_requires_mitm("github.com"));

    let mut unnamed = env(&[("GH_ENTERPRISE_TOKEN", "other")]);
    broker.virtualize_child_env(&mut unnamed, "git.example.com");
    assert_eq!(unnamed.get("GH_ENTERPRISE_TOKEN"), Some("other"));
}

#[test]
fn values_that_cannot_be_sent_stay() {
    let mut broker = CredentialBroker::new(true);
    let mut child = env(&[("GH_TOKEN", "  "), ("OPENAI_API_KEY", "a\u{1}b")]);
    broker.virtualize_child_env(&mut child, "");
    assert_eq!(child.get("GH_TOKEN"), Some("  "));
    assert_eq!(child.get("OPENAI_API_KEY"), Some("a\u{1}b"));
    assert_eq!(child.get(BROKERED_CREDENTIALS_ENV_KEY), Some("[]"));
    assert!(broker.records().is_empty());
}

#[test]
fn an_inactive_broker_takes_its_variables_out() {
    let mut broker = CredentialBroker::new(false);
    let mut child = env(&[
        (CREDENTIAL_BROKER_ACTIVE_ENV_KEY, "1"),
        (BROKERED_CREDENTIALS_ENV_KEY, "[]"),
        ("GH_TOKEN", "token"),
    ]);
    broker.virtualize_child_env(&mut child, "");
    assert_eq!(listed(&child), vec![("GH_TOKEN", "token")]);
    assert!(broker.records().is_empty());
}

#[test]
fn stripping_takes_the_stand_ins_out() {
    let mut broker = CredentialBroker::new(true);
    let mut child = env(&[("GH_TOKEN", "token"), ("OPENAI_API_KEY", " "), ("PATH", "/bin")]);
    broker.virtualize_child_env(&mut child, "");
    strip_brokered_credentials(&mut child);
    assert_eq!(
        listed(&child),
        vec![
            (CREDENTIAL_BROKER_ACTIVE_ENV_KEY, "1"),
            ("OPENAI_API_KEY", " "),
            ("PATH", "/bin"),
        ]
    );
}

#[test]
fn stripping_leaves_what_has_changed_or_is_not_handled() {
    let mut child = env(&[
        (
            BROKERED_CREDENTIALS_ENV_KEY,
            "[[\"GH_TOKEN\",\"a\"],[\"PATH\",\"/bin\"],[\"GITHUB_TOKEN\",\"b\"]]",
        ),
        ("GH_TOKEN", "changed"),
        ("GITHUB_TOKEN", "b"),
        ("PATH", "/bin"),
    ]);
    strip_brokered_credentials(&mut child);
    assert_eq!(listed(&child), vec![("GH_TOKEN", "changed"), ("PATH", "/bin")]);

    let mut broken = env(&[(BROKERED_CREDENTIALS_ENV_KEY, "not json"), ("GH_TOKEN", "a")]);
    strip_brokered_credentials(&mut broken);
    assert_eq!(listed(&broken), vec![("GH_TOKEN", "a")]);

    let mut given = env(&[("GH_TOKEN", "a"), ("PATH", "/bin")]);
    remove_brokered(
        &mut given,
        &vec![
            ("GH_TOKEN".to_string(), "a".to_string()),
            ("PATH".to_string(), "/bin".to_string()),
        ],
    );
    assert_eq!(listed(&given), vec![("PATH", "/bin")]);
}

#[test]
fn handled_variables_are_told_only_where_a_broker_is_active() {
    let keys = vec![
        "GH_HOST",
        "GH_TOKEN",
        "GITHUB_TOKEN",
        "GH_ENTERPRISE_TOKEN",
        "GITHUB_ENTERPRISE_TOKEN",
        "OPENAI_API_KEY",
    ];
    assert_eq!(credential_broker_env_keys(), keys);
    assert_eq!(
        brokered_credential_env_keys(&env(&[(CREDENTIAL_BROKER_ACTIVE_ENV_KEY, "1")])),
        keys
    );
    assert!(
        brokered_credential_env_keys(&env(&[(CREDENTIAL_BROKER_ACTIVE_ENV_KEY, "0")])).is_empty()
    );
    assert!(brokered_credential_env_keys(&env(&[])).is_empty());
}

#[test]
fn registering_twice_gives_the_same_stand_in() {
    let mut broker = CredentialBroker::new(true);
    let cloud = CredentialHostBinding::GitHubCloud;
    let first = broker.register("GH_TOKEN", CredentialKind::GitHub, &cloud, "token");
    let again = broker.register("GH_TOKEN", CredentialKind::GitHub, &cloud, "token");
    let other = broker.register("GITHUB_TOKEN", CredentialKind::GitHub, &cloud, "token");
    assert_eq!(first, again);
    assert_ne!(first, other);
    assert_eq!(broker.records().len(), 2);
    assert!(broker.is_dummy_value(&first));
    assert!(!broker.is_dummy_value("token"));
    broker.set_enabled(false);
    assert!(broker.records().is_empty());
    broker.set_enabled(true);
    assert!(!broker.is_dummy_value(&first));
}

#[test]
fn a_stand_in_is_exchanged_for_its_credential() {
    let mut broker = CredentialBroker::new(true);
    let mut child = env(&[("GH_TOKEN", "token"), ("OPENAI_API_KEY", "sk-abc")]);
    broker.virtualize_child_env(&mut child, "");
    let stand_in = child.get("GH_TOKEN").expect("set").to_string();

    let mut headers = request(&format!("Bearer {stand_in}"));
    headers.insert("x-other", HeaderValue::from_static("kept"));
    assert!(broker.inject_request_headers("api.github.com", &mut headers));
    assert_eq!(authorization(&headers), Some("Bearer token".to_string()));
    assert_eq!(headers.get("x-other").expect("kept"), "kept");
    assert_eq!(headers.len(), 2);

    let mut elsewhere = request(&format!("Bearer {stand_in}"));
    assert!(broker.inject_request_headers("example.com", &mut elsewhere));
    assert_eq!(authorization(&elsewhere), Some(format!("Bearer {stand_in}")));

    let mut wrong_kind = request(&format!("Bearer {stand_in}"));
    assert!(broker.inject_request_headers("api.openai.com", &mut wrong_kind));
    assert_eq!(authorization(&wrong_kind), Some(format!("Bearer {stand_in}")));
}

#[test]
fn own_authorization_stays() {
    let mut broker = CredentialBroker::new(true);
    let mut child = env(&[("GH_TOKEN", "token")]);
    broker.virtualize_child_env(&mut child, "");
    let mut headers = request("Basic abc");
    assert!(broker.inject_request_headers("github.com", &mut headers));
    assert_eq!(authorization(&headers), Some("Basic abc".to_string()));
}

#[test]
fn requests_without_authorization_get_the_only_credential() {
    let mut broker = CredentialBroker::new(true);
    let mut child = env(&[("GH_TOKEN", "token"), ("GITHUB_TOKEN", "token")]);
    broker.virtualize_child_env(&mut child, "");
    let mut headers: HeaderMap<HeaderValue> = HeaderMap::new();
    assert!(broker.inject_request_headers("github.com", &mut headers));
    assert_eq!(authorization(&headers), Some("Bearer token".to_string()));

    let mut more = env(&[("GH_TOKEN", "another")]);
    broker.virtualize_child_env(&mut more, "");
    let mut unclear: HeaderMap<HeaderValue> = HeaderMap::new();
    assert!(broker.inject_request_headers("github.com", &mut unclear));
    assert_eq!(authorization(&unclear), None);
}

#[test]
fn requests_with_two_stand_ins_stay() {
    let mut broker = CredentialBroker::new(true);
    let mut child = env(&[("GH_TOKEN", "one"), ("GITHUB_TOKEN", "two")]);
    broker.virtualize_child_env(&mut child, "");
    let both = format!(
        "{} {}",
        child.get("GH_TOKEN").expect("set"),
        child.get("GITHUB_TOKEN").expect("set")
    );
    let mut headers = request(&both);
    assert!(broker.inject_request_headers("github.com", &mut headers));
    assert_eq!(authorization(&headers), Some(both));
}

#[test]
fn a_disabled_broker_injects_nothing() {
    let mut broker = CredentialBroker::new(true);
    let mut child = env(&[("GH_TOKEN", "token")]);
    broker.virtualize_child_env(&mut child, "");
    assert!(broker.host_requires_mitm("github.com"));
    broker.set_enabled(false);
    assert!(!broker.host_requires_mitm("github.com"));
    let mut headers: HeaderMap<HeaderValue> = HeaderMap::new();
    assert!(broker.inject_request_headers("github.com", &mut headers));
    assert!(headers.is_empty());
}

#[test]
fn unreadable_authorization_carries_no_stand_in() {
    let mut broker = CredentialBroker::new(true);
    let mut child = env(&[("GH_TOKEN", "token")]);
    broker.virtualize_child_env(&mut child, "");
    let stand_in = child.get("GH_TOKEN").expect("set").to_string();
    let value = HeaderValue::from_str(&format!("\u{e9} {stand_in}")).expect("valid");
    let mut headers: HeaderMap<HeaderValue> = HeaderMap::new();
    headers.insert(AUTHORIZATION, value.clone());
    assert!(broker.inject_request_headers("github.com", &mut headers));
    assert_eq!(headers.get(AUTHORIZATION), Some(&value));
}
