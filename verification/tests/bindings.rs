use cosmon_rpp_adapter::nucleon_map::{
    build_binding, DrainBounds, DrainBoundsSpec, HabilitationBindingSpec, HabilitationId, HabilitationMap, IdentityFile,
    Noyau, NucleonDir, OidcClaims, OidcIdentity, RenderError, ScopesGrant, DEFAULT_DRAIN_BUDGET,
    DEFAULT_DRAIN_MAX_DEPTH, DEFAULT_DRAIN_MAX_MOLECULES,
};

fn text_at(t: &toml::Table, key: &str) -> String {
    t.get(key).and_then(|v| v.as_str()).unwrap().to_owned()
}

/// Reads a binding the way the host does.
fn identity_of(text: &str) -> OidcIdentity {
    let t: toml::Table = text.parse().unwrap();
    let oidc = t.get("oidc").and_then(|v| v.as_table()).unwrap();
    let scopes = t.get("scopes").and_then(|v| v.as_table()).map(|s| ScopesGrant {
        allowed: s
            .get("allowed")
            .and_then(|v| v.as_array())
            .map(|a| a.iter().map(|v| v.as_str().unwrap().to_owned()).collect())
            .unwrap_or_default(),
    });
    let drain_bounds = t.get("drain_bounds").and_then(|v| v.as_table()).map(|d| DrainBoundsSpec {
        budget: d.get("budget").and_then(|v| v.as_integer()).map(|n| n as u64),
        max_depth: d.get("max_depth").and_then(|v| v.as_integer()).map(|n| n as u32),
        max_molecules: d.get("max_molecules").and_then(|v| v.as_integer()).map(|n| n as u64),
    });
    OidcIdentity {
        nucleon_id: text_at(&t, "nucleon_id"),
        phase: text_at(&t, "phase"),
        noyau: text_at(&t, "noyau"),
        oidc: OidcClaims {
            issuer: text_at(oidc, "issuer"),
            sub: text_at(oidc, "sub"),
            audience: text_at(oidc, "audience"),
            sealed_at: oidc.get("sealed_at").and_then(|v| v.as_str()).unwrap_or_default().to_owned(),
        },
        scopes,
        drain_bounds,
    }
}

fn file(text: &str) -> IdentityFile {
    IdentityFile {
        name: "oidc-identity.toml".to_owned(),
        text: Some(text.to_owned()),
        parsed: Some(identity_of(text)),
    }
}

fn binding_text(nucleon_id: &str, noyau: &str, iss: &str, sub: &str) -> String {
    format!(
        "nucleon_id = \"{nucleon_id}\"\nphase = \"Biological\"\nnoyau = \"{noyau}\"\n\n[oidc]\nissuer = \"{iss}\"\nsub = \"{sub}\"\naudience = \"cosmon-rpp-{noyau}\"\n"
    )
}

#[test]
fn drain_bounds_default_is_never_unbounded() {
    let b = DrainBounds::from_spec(None);
    assert_eq!(b.budget, DEFAULT_DRAIN_BUDGET);
    assert_eq!(b.max_depth, DEFAULT_DRAIN_MAX_DEPTH);
    assert_eq!(b.max_molecules, DEFAULT_DRAIN_MAX_MOLECULES);
}

#[test]
fn drain_bounds_partial_override_keeps_other_defaults() {
    let spec = DrainBoundsSpec { budget: Some(12), max_depth: None, max_molecules: Some(40) };
    let b = DrainBounds::from_spec(Some(&spec));
    assert_eq!(b.budget, 12);
    assert_eq!(b.max_depth, DEFAULT_DRAIN_MAX_DEPTH);
    assert_eq!(b.max_molecules, 40);
}

#[test]
fn oidc_identity_parses_drain_bounds_section() {
    let toml_text = r#"
nucleon_id = "nuc-a"
phase = "Biological"
noyau = "tenant-demo"

[oidc]
issuer = "https://idp"
sub = "sub-123"
audience = "cosmon-rpp-tenant"

[drain_bounds]
budget = 9
max_depth = 3
"#;
    let parsed = identity_of(toml_text);
    let b = DrainBounds::from_spec(parsed.drain_bounds.as_ref());
    assert_eq!(b.budget, 9);
    assert_eq!(b.max_depth, 3);
    assert_eq!(b.max_molecules, DEFAULT_DRAIN_MAX_MOLECULES);
}

#[test]
fn legacy_binding_without_drain_bounds_still_parses() {
    let toml_text = r#"
nucleon_id = "nuc-a"
phase = "Biological"
noyau = "tenant-demo"

[oidc]
issuer = "https://idp"
sub = "sub-123"
audience = "cosmon-rpp-tenant"
"#;
    let parsed = identity_of(toml_text);
    assert!(parsed.drain_bounds.is_none());
    assert_eq!(DrainBounds::from_spec(parsed.drain_bounds.as_ref()), DrainBounds::default());
}

#[test]
fn resolve_unknown_returns_none() {
    let map = HabilitationMap::default();
    assert!(map.resolve("https://idp", "sub").is_none());
}

#[test]
fn builder_path_treats_seal_as_intact() {
    let map = HabilitationMap::builder()
        .insert(
            "https://idp",
            "sub-123",
            HabilitationId::new("nuc-a"),
            Noyau::new("tenant-demo"),
            "cosmon-rpp-tenant-demo",
        )
        .build();
    assert!(map.seal_intact("https://idp", "sub-123"));
    let r = map.resolve("https://idp", "sub-123").unwrap();
    assert_eq!(r.nucleon_id.as_str(), "nuc-a");
    assert_eq!(r.noyau.as_str(), "tenant-demo");
    assert_eq!(r.audience, "cosmon-rpp-tenant-demo");
}

#[test]
fn load_returns_empty_when_dir_missing() {
    let map = HabilitationMap::load(&Vec::new());
    assert!(map.resolve("any", "any").is_none());
}

#[test]
fn load_seals_present_files() {
    let body = r#"
nucleon_id = "nuc-a"
phase = "Biological"
noyau = "tenant-demo"

[oidc]
issuer = "https://idp"
sub = "sub-123"
audience = "cosmon-rpp-tenant-demo"
sealed_at = "2026-04-27T14:00:00Z"
"#;
    let map = HabilitationMap::load(&vec![file(body)]);
    let r = map.resolve("https://idp", "sub-123").unwrap();
    assert_eq!(r.nucleon_id.as_str(), "nuc-a");
    assert!(map.seal_intact("https://idp", "sub-123"));
}

#[test]
fn allowed_scopes_default_to_empty_when_section_absent() {
    let body = r#"
nucleon_id = "nuc-legacy"
phase = "Biological"
noyau = "tenant-demo"

[oidc]
issuer = "https://idp"
sub = "sub-legacy"
audience = "cosmon-rpp-tenant-demo"
"#;
    let map = HabilitationMap::load(&vec![file(body)]);
    assert!(map.allowed_scopes_for("https://idp", "sub-legacy").is_empty());
}

#[test]
fn allowed_scopes_loaded_from_disk_when_section_present() {
    let body = r#"
nucleon_id = "you-democorp"
phase = "Biological"
noyau = "democorp"

[oidc]
issuer = "https://forgejo.cosmon-state.svc.cluster.local"
sub = "you"
audience = "cosmon-rpp-democorp"

[scopes]
allowed = ["cosmon:molecule:read", "cosmon:molecule:write"]
"#;
    let map = HabilitationMap::load(&vec![file(body)]);
    let scopes = map.allowed_scopes_for("https://forgejo.cosmon-state.svc.cluster.local", "you");
    assert_eq!(scopes.len(), 2);
    assert!(scopes.iter().any(|s| s == "cosmon:molecule:read"));
    assert!(scopes.iter().any(|s| s == "cosmon:molecule:write"));
}

#[test]
fn allowed_scopes_for_unknown_binding_is_empty_slice() {
    let map = HabilitationMap::default();
    assert!(map.allowed_scopes_for("nope", "nope").is_empty());
}

#[test]
fn builder_with_scopes_round_trips() {
    let map = HabilitationMap::builder()
        .insert_with_scopes(
            "https://idp",
            "admin-1",
            HabilitationId::new("you-democorp"),
            Noyau::new("democorp"),
            "cosmon-rpp-democorp",
            vec!["cosmon:molecule:write".into()],
        )
        .build();
    let scopes = map.allowed_scopes_for("https://idp", "admin-1");
    assert_eq!(scopes, &["cosmon:molecule:write".to_owned()]);
}

#[test]
fn noyaux_dedupes_shared_tenants() {
    let map = HabilitationMap::builder()
        .insert("https://idp", "sub-a", HabilitationId::new("nuc-a"), Noyau::new("tenant-demo"), "aud")
        .insert("https://idp", "sub-b", HabilitationId::new("nuc-b"), Noyau::new("tenant-demo"), "aud")
        .insert("https://idp", "sub-c", HabilitationId::new("nuc-c"), Noyau::new("democorp"), "aud")
        .build();
    let noyaux = map.noyaux();
    assert_eq!(noyaux.len(), 2);
    assert!(noyaux.iter().any(|n| n.as_str() == "tenant-demo"));
    assert!(noyaux.iter().any(|n| n.as_str() == "democorp"));
}

#[test]
fn noyaux_empty_when_no_bindings() {
    assert!(HabilitationMap::default().noyaux().is_empty());
}

#[test]
fn noyaux_for_sub_returns_distinct_noyaux_with_counts() {
    let map = HabilitationMap::builder()
        .insert("https://idp-a", "you", HabilitationId::new("nuc-a"), Noyau::new("tenant-demo-sandbox"), "aud")
        .insert("https://idp-b", "you", HabilitationId::new("nuc-b"), Noyau::new("tenant-demo-sandbox"), "aud")
        .insert("https://idp-a", "you-second", HabilitationId::new("nuc-c"), Noyau::new("operator-sandbox"), "aud")
        .insert("https://idp-a", "someone-else", HabilitationId::new("nuc-x"), Noyau::new("hidden-sandbox"), "aud")
        .build();
    let rows = map.noyaux_for_sub("you");
    assert_eq!(rows.len(), 1, "single noyau collapses across two issuers");
    assert_eq!(rows[0].0.as_str(), "tenant-demo-sandbox");
    assert_eq!(rows[0].1, 2, "two (iss, sub) bindings → count 2");
    let rows = map.noyaux_for_sub("you-second");
    assert_eq!(rows.len(), 1);
    assert_eq!(rows[0].0.as_str(), "operator-sandbox");
    assert_eq!(rows[0].1, 1);
}

#[test]
fn noyaux_for_sub_collapses_two_noyaux_for_same_principal() {
    let map = HabilitationMap::builder()
        .insert("https://idp-a", "you", HabilitationId::new("nuc-a"), Noyau::new("tenant-demo-sandbox"), "aud")
        .insert("https://idp-b", "you", HabilitationId::new("nuc-b"), Noyau::new("operator-sandbox"), "aud")
        .build();
    let rows = map.noyaux_for_sub("you");
    assert_eq!(rows.len(), 2);
    assert!(rows.iter().any(|(n, c)| n.as_str() == "tenant-demo-sandbox" && *c == 1));
    assert!(rows.iter().any(|(n, c)| n.as_str() == "operator-sandbox" && *c == 1));
}

#[test]
fn noyaux_for_sub_empty_when_no_match() {
    let map = HabilitationMap::builder()
        .insert("https://idp", "you", HabilitationId::new("nuc-a"), Noyau::new("tenant-demo-sandbox"), "aud")
        .build();
    assert!(map.noyaux_for_sub("unbound-principal").is_empty());
}

#[test]
fn seal_breaks_after_disk_edit() {
    let body = r#"
nucleon_id = "nuc-a"
phase = "Biological"
noyau = "tenant-demo"

[oidc]
issuer = "https://idp"
sub = "sub-123"
audience = "cosmon-rpp-tenant-demo"
"#;
    let mut map = HabilitationMap::load(&vec![file(body)]);
    let edited = body.replace("noyau = \"tenant-demo\"", "noyau = \"noog\"");
    map.refresh_live_seals(&vec![NucleonDir { id: "nuc-a".to_owned(), files: vec![file(&edited)] }]);
    assert!(!map.seal_intact("https://idp", "sub-123"));
    assert!(!map.seal_intact_for_audience("https://idp", "sub-123", "cosmon-rpp-tenant-demo"));
}

#[test]
fn an_unedited_file_keeps_its_seal() {
    let body = binding_text("nuc-a", "tenant-demo", "https://idp", "sub-123");
    let mut map = HabilitationMap::load(&vec![file(&body)]);
    map.refresh_live_seals(&vec![NucleonDir { id: "nuc-a".to_owned(), files: vec![file(&body)] }]);
    assert!(map.seal_intact("https://idp", "sub-123"));
}

#[test]
fn a_binding_is_pinned_to_its_audience() {
    let map = HabilitationMap::load(&vec![
        file(&binding_text("nuc-a", "speck", "https://idp", "casey")),
        file(&binding_text("nuc-b", "qcd", "https://idp", "casey")),
    ]);
    assert_eq!(map.binding_count(), 2);
    let on = |aud: &str| map.resolve_for_audience("https://idp", "casey", aud).map(|r| r.noyau.as_str().to_owned());
    assert_eq!(on("cosmon-rpp-speck").as_deref(), Some("speck"));
    assert_eq!(on("cosmon-rpp-qcd").as_deref(), Some("qcd"));
    assert_eq!(on("cosmon-rpp-other"), None);
    // Without an audience the first in order is taken.
    assert_eq!(map.resolve("https://idp", "casey").unwrap().noyau.as_str(), "qcd");
}

#[test]
fn files_that_are_no_bindings_are_skipped() {
    let good = file(&binding_text("nuc-a", "speck", "https://idp", "casey"));
    let mut misnamed = good.clone();
    misnamed.name = "identity.toml".to_owned();
    let mut not_toml = good.clone();
    not_toml.name = "oidc-identity.json".to_owned();
    let mut unreadable = good.clone();
    unreadable.text = None;
    let mut malformed = good.clone();
    malformed.parsed = None;
    let map = HabilitationMap::load(&vec![misnamed, not_toml, unreadable, malformed]);
    assert_eq!(map.binding_count(), 0);
    let mut upper = good;
    upper.name = "oidc-identity-two.TOML".to_owned();
    assert_eq!(HabilitationMap::load(&vec![upper]).binding_count(), 1);
}

#[test]
fn summaries_list_every_binding_in_order() {
    let map = HabilitationMap::load(&vec![
        file(&binding_text("nuc-b", "speck", "https://idp", "zoe")),
        file(&binding_text("nuc-a", "qcd", "https://idp", "casey")),
    ]);
    let rows = map.summaries();
    assert_eq!(rows.len(), 2);
    assert_eq!(rows[0].sub, "casey");
    assert_eq!(rows[0].habilitation_id, "nuc-a");
    assert_eq!(rows[1].sub, "zoe");
}

#[test]
fn the_order_does_not_depend_on_the_order_of_loading() {
    let first = file(&binding_text("nuc-b", "speck", "https://idp", "zoe"));
    let second = file(&binding_text("nuc-a", "qcd", "https://idp", "casey"));
    let subs = |map: HabilitationMap| map.summaries().into_iter().map(|r| r.sub).collect::<Vec<String>>();
    let one_way = subs(HabilitationMap::load(&vec![first.clone(), second.clone()]));
    let other_way = subs(HabilitationMap::load(&vec![second, first]));
    assert_eq!(one_way, other_way);
    assert_eq!(one_way, vec!["casey", "zoe"]);
}

fn sample_spec() -> HabilitationBindingSpec {
    HabilitationBindingSpec {
        noyau: "tenant-demo-research".into(),
        sub: "research-operator".into(),
        issuer: "http://oidc-mock:8444".into(),
        audience: "cosmon-rpp-tenant-demo".into(),
        nucleon_id: None,
        phase: None,
        scopes: vec!["cosmon:molecule:read".into(), "cosmon:molecule:write".into()],
        sealed_at: Some("2026-06-05T00:00:00Z".into()),
    }
}

#[test]
fn render_defaults_nucleon_id_to_noyau_and_phase_to_biological() {
    let mut spec = sample_spec();
    spec.nucleon_id = None;
    spec.phase = None;
    let binding = build_binding(&spec).unwrap();
    assert_eq!(binding.nucleon_id, "tenant-demo-research");
    assert_eq!(binding.phase, "Biological");
}

#[test]
fn render_omits_scopes_section_when_empty() {
    let mut spec = sample_spec();
    spec.scopes = vec![];
    let binding = build_binding(&spec).unwrap();
    assert!(binding.scopes.is_none());
}

#[test]
fn render_rejects_empty_required_fields() {
    let mut spec = sample_spec();
    spec.sub = "   ".into();
    assert_eq!(build_binding(&spec).unwrap_err(), RenderError::EmptyField("sub"));
}

#[test]
fn render_rejects_non_absolute_issuer() {
    let mut spec = sample_spec();
    spec.issuer = "oidc-mock:8444".into();
    match build_binding(&spec).unwrap_err() {
        RenderError::NotAbsoluteUrl { field, .. } => assert_eq!(field, "issuer"),
        other => panic!("expected NotAbsoluteUrl, got {other:?}"),
    }
}

#[test]
fn render_rejects_scope_with_whitespace() {
    let mut spec = sample_spec();
    spec.scopes = vec!["cosmon:molecule:read ".into()];
    match build_binding(&spec).unwrap_err() {
        RenderError::MalformedScope(s) => assert_eq!(s, "cosmon:molecule:read "),
        other => panic!("expected MalformedScope, got {other:?}"),
    }
}

#[test]
fn render_trims_and_pins_issuer_byte_for_byte() {
    let mut spec = sample_spec();
    spec.issuer = "  https://idp.example.com/oidc  ".into();
    let binding = build_binding(&spec).unwrap();
    assert_eq!(binding.oidc.issuer, "https://idp.example.com/oidc");
}

#[test]
fn a_rendered_binding_resolves_once_loaded() {
    let binding = build_binding(&sample_spec()).unwrap();
    let map = HabilitationMap::load(&vec![IdentityFile {
        name: "oidc-identity.toml".to_owned(),
        text: Some("rendered".to_owned()),
        parsed: Some(binding),
    }]);
    let r = map.resolve("http://oidc-mock:8444", "research-operator").unwrap();
    assert_eq!(r.noyau.as_str(), "tenant-demo-research");
    assert_eq!(r.nucleon_id.as_str(), "tenant-demo-research");
    assert_eq!(r.audience, "cosmon-rpp-tenant-demo");
    assert_eq!(r.allowed_scopes, vec!["cosmon:molecule:read".to_owned(), "cosmon:molecule:write".to_owned()]);
    assert!(map.seal_intact("http://oidc-mock:8444", "research-operator"));
}
