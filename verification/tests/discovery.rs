use cosmon_rpp_adapter::oauth_discovery::{
    audience_bearing, derive_from_trusted_issuers, load_registry, ClientRegistry, DiscoveryError, OAuthClient,
    RegistryFile, TrustedIssuer, TrustedIssuers,
};
use cosmon_rpp_adapter::routes::oauth_discovery::get_oauth_clients;

fn sample() -> ClientRegistry {
    ClientRegistry::new(
        "https://forgejo.example.ts.net".to_owned(),
        "https://forgejo.example.ts.net/login/oauth/authorize".to_owned(),
        "https://forgejo.example.ts.net/login/oauth/access_token".to_owned(),
        vec![
            OAuthClient::new("cs-rpp-adapter".to_owned(), "cid-a".to_owned())
                .with_redirect_uris(vec!["http://127.0.0.1:7777/callback".to_owned()])
                .with_scopes(vec!["cosmon:molecule:read".to_owned()]),
            OAuthClient::new("agent-web".to_owned(), "cid-b".to_owned())
                .with_redirect_uris(vec!["https://agent.example/api/mcp/auth_callback".to_owned()]),
        ],
    )
}

fn explicit(schema_version: u32) -> ClientRegistry {
    let mut doc = ClientRegistry::new(
        "https://explicit.test".to_owned(),
        "https://explicit.test/login/oauth/authorize".to_owned(),
        "https://explicit.test/login/oauth/access_token".to_owned(),
        vec![OAuthClient::new("cs-rpp-adapter".to_owned(), "explicit-cid".to_owned())
            .with_redirect_uris(vec!["http://127.0.0.1:7777/callback".to_owned()])],
    );
    doc.schema_version = schema_version;
    doc
}

fn issuers(rows: &[(&str, &[&str])]) -> TrustedIssuers {
    TrustedIssuers {
        issuers: rows
            .iter()
            .map(|(iss, auds)| TrustedIssuer {
                iss: (*iss).to_owned(),
                jwks_uri: None,
                audiences: auds.iter().map(|a| (*a).to_owned()).collect(),
            })
            .collect(),
    }
}

#[test]
fn lookup_is_audience_keyed_not_positional() {
    let doc = sample();
    assert_eq!(doc.lookup("cs-rpp-adapter").unwrap().client_id, "cid-a");
    assert_eq!(doc.lookup("agent-web").unwrap().client_id, "cid-b");
    assert!(doc.lookup("nope").is_none());
}

#[test]
fn reordered_clients_are_found_the_same() {
    let doc = sample();
    let mut turned = sample();
    turned.clients.reverse();
    for audience in ["cs-rpp-adapter", "agent-web", "nope"] {
        let found = doc.lookup(audience).map(|c| c.client_id.clone());
        assert_eq!(turned.lookup(audience).map(|c| c.client_id.clone()), found);
    }
}

#[test]
fn prop_lookup_never_crosses_audiences() {
    let auds = ["a", "ab", "b-0", "abc", "z9"];
    let clients = auds
        .iter()
        .enumerate()
        .map(|(i, a)| OAuthClient::new((*a).to_owned(), format!("cid-{i}")))
        .collect();
    let doc = ClientRegistry::new(
        "https://idp.test".to_owned(),
        "https://idp.test/a".to_owned(),
        "https://idp.test/t".to_owned(),
        clients,
    );
    for (i, a) in auds.iter().enumerate() {
        let found = doc.lookup(a).unwrap();
        assert_eq!(found.client_id, format!("cid-{i}"));
        assert_eq!(&found.audience, a);
    }
}

#[test]
fn validate_rejects_newer_schema_version() {
    let mut doc = sample();
    doc.schema_version = 2;
    assert!(matches!(
        doc.validate(),
        Err(DiscoveryError::UnsupportedSchema { found: 2, supported: 1 })
    ));
    assert_eq!(
        doc.validate().unwrap_err().message(),
        "oauth-clients registry declares schema_version 2, this build serves 1 (fail-closed) — re-provision the registry or upgrade the adapter"
    );
}

#[test]
fn validate_rejects_degenerate_documents() {
    let mut empty_issuer = sample();
    empty_issuer.issuer = "  ".to_owned();
    assert!(matches!(empty_issuer.validate(), Err(DiscoveryError::Degenerate { .. })));

    let no_clients = ClientRegistry::new(
        "https://idp.test".to_owned(),
        "https://idp.test/a".to_owned(),
        "https://idp.test/t".to_owned(),
        vec![],
    );
    assert!(matches!(no_clients.validate(), Err(DiscoveryError::Degenerate { .. })));

    let empty_client_id = ClientRegistry::new(
        "https://idp.test".to_owned(),
        "https://idp.test/a".to_owned(),
        "https://idp.test/t".to_owned(),
        vec![OAuthClient::new("a".to_owned(), String::new())],
    );
    assert!(matches!(empty_client_id.validate(), Err(DiscoveryError::Degenerate { .. })));
}

#[test]
fn explicit_file_is_loaded_and_takes_precedence() {
    let known = Ok(issuers(&[("https://derived.test", &["derived-aud"])]));
    let doc = load_registry("/state", RegistryFile::Read(explicit(1)), &known).unwrap().unwrap();
    assert_eq!(doc.issuer, "https://explicit.test");
    assert_eq!(doc.lookup("cs-rpp-adapter").unwrap().client_id, "explicit-cid");
}

#[test]
fn explicit_file_with_bad_schema_is_refused_fail_closed() {
    let known = Ok(issuers(&[]));
    assert!(matches!(
        load_registry("/state", RegistryFile::Read(explicit(99)), &known),
        Err(DiscoveryError::UnsupportedSchema { found: 99, .. })
    ));
}

#[test]
fn malformed_explicit_file_is_an_error() {
    let file = RegistryFile::Malformed { reason: "expected a key".to_owned() };
    let err = load_registry("/state", file, &Ok(issuers(&[]))).unwrap_err();
    assert!(matches!(err, DiscoveryError::Malformed { .. }));
    assert!(err.message().contains("/state/security/oauth-clients.toml"));
    assert!(err.message().contains("expected a key"));
}

#[test]
fn derives_from_trusted_issuers_when_no_explicit_file() {
    let known = Ok(issuers(&[("http://host/git/", &["cs-rpp-adapter", "agent-web"])]));
    let doc = load_registry("/state", RegistryFile::Missing, &known).unwrap().unwrap();
    assert_eq!(doc.issuer, "http://host/git/");
    assert_eq!(doc.authorization_endpoint, "http://host/git/login/oauth/authorize");
    assert_eq!(doc.token_endpoint, "http://host/git/login/oauth/access_token");
    assert_eq!(doc.lookup("cs-rpp-adapter").unwrap().client_id, "cs-rpp-adapter");
    assert_eq!(doc.lookup("agent-web").unwrap().client_id, "agent-web");
}

#[test]
fn multi_issuer_derive_publishes_only_the_first_audience_bearing() {
    let known = issuers(&[("https://idp-a.test", &["aud-a"]), ("https://idp-b.test", &["aud-b"])]);
    let doc = derive_from_trusted_issuers(&known).unwrap();
    assert_eq!(doc.issuer, "https://idp-a.test");
    assert!(doc.lookup("aud-a").is_some());
    assert!(
        doc.lookup("aud-b").is_none(),
        "second issuer's audience must not leak into the first issuer's document"
    );
    assert_eq!(audience_bearing(&known), 2);
}

#[test]
fn derive_skips_audienceless_issuer_and_uses_next() {
    let known = issuers(&[("https://idp-empty.test", &[]), ("https://idp-real.test", &["aud-real"])]);
    let doc = derive_from_trusted_issuers(&known).unwrap();
    assert_eq!(doc.issuer, "https://idp-real.test");
    assert!(doc.lookup("aud-real").is_some());
    assert_eq!(audience_bearing(&known), 1);
}

#[test]
fn returns_none_when_nothing_configured() {
    assert!(load_registry("/state", RegistryFile::Missing, &Ok(issuers(&[]))).unwrap().is_none());
}

#[test]
fn missing_explicit_file_falls_through_to_derive() {
    let known = Ok(issuers(&[("http://host/git", &["cs-rpp-adapter"])]));
    let doc = load_registry("/state", RegistryFile::Missing, &known).unwrap().unwrap();
    assert_eq!(doc.lookup("cs-rpp-adapter").unwrap().client_id, "cs-rpp-adapter");
}

#[test]
fn genuine_io_fault_on_explicit_path_still_fails_closed() {
    let file = RegistryFile::Unreadable { reason: "is a directory".to_owned() };
    assert!(matches!(
        load_registry("/state", file, &Ok(issuers(&[]))),
        Err(DiscoveryError::Io { .. })
    ));
}

#[test]
fn derived_document_is_served_only_after_validation() {
    let known = Ok(issuers(&[("http://host/git", &["cs-rpp-adapter"])]));
    let doc = load_registry("/state", RegistryFile::Missing, &known).unwrap().unwrap();
    assert!(doc.validate().is_ok(), "load_registry must never return a document that fails validate()");
}

#[test]
fn returns_none_when_issuer_has_no_audience() {
    let known = Ok(issuers(&[("http://host/git", &[])]));
    assert!(load_registry("/state", RegistryFile::Missing, &known).unwrap().is_none());
}

#[test]
fn the_route_tells_absence_from_a_fault() {
    assert_eq!(get_oauth_clients(Ok(None)).unwrap_err().status, 404);
    let fault = DiscoveryError::Degenerate { reason: "x".to_owned() };
    assert_eq!(get_oauth_clients(Err(fault)).unwrap_err().status, 500);
    assert_eq!(get_oauth_clients(Ok(Some(sample()))).unwrap().clients.len(), 2);
}
