use cosmon_rpp_adapter::metrics::MetricsRegistry;
use cosmon_rpp_adapter::nucleon_map::{
    build_binding, HabilitationBindingSpec, HabilitationMap, IdentityFile, OidcIdentity,
};
use cosmon_rpp_adapter::portee::{
    check_federation, dissolve, list, revoke_galaxy, Federation, PartnerIdentity, PorteeManifest, PorteeSpec,
};
use cosmon_rpp_adapter::provisioner::{
    binding_path, check_request, check_revoke, PriorFile, ProvisionOutcome, Provisioning, Undo, Weighed,
};
use cosmon_rpp_adapter::reload::{reload, reload_jwks, ImageInitReport, ReloadOutcome, Reloaded, Reloading};
use cosmon_rpp_adapter::{choose_posture, DrainRegistry, Posture};

// Metrics

#[test]
fn fresh_registry_has_zero_counts() {
    let m = MetricsRegistry::new();
    let s = m.status_class_counts();
    assert_eq!(s.total(), 0);
    assert_eq!(m.rejects_total(), 0);
}

#[test]
fn uptime_monotonically_nonzero_after_a_beat() {
    let m = MetricsRegistry::new();
    let first = m.uptime_seconds();
    assert!(m.uptime_seconds() >= first);
    assert!(first < 20);
}

#[test]
fn uptime_counts_whole_seconds_from_the_start() {
    let before = std::time::Instant::now();
    let mut m = MetricsRegistry::new();
    let after = std::time::Instant::now();
    assert_eq!(m.uptime_at(&before), 0);
    let later = after + std::time::Duration::from_millis(10_000);
    assert!(m.uptime_at(&later) >= 10);
    assert!(m.uptime_at(&later) <= later.duration_since(before).as_secs());
    let seen = m.uptime_at(&later);
    m.record_status(200);
    m.record_reject("expired");
    assert_eq!(m.uptime_at(&later), seen);
}

#[test]
fn status_buckets_split_correctly() {
    let mut m = MetricsRegistry::new();
    m.record_status(200);
    m.record_status(201);
    m.record_status(401);
    m.record_status(404);
    m.record_status(500);
    let s = m.status_class_counts();
    assert_eq!(s.responses_2xx, 2);
    assert_eq!(s.responses_4xx, 2);
    assert_eq!(s.responses_5xx, 1);
    assert_eq!(s.total(), 5);
}

#[test]
fn out_of_range_status_buckets_into_5xx() {
    let mut m = MetricsRegistry::new();
    m.record_status(999);
    let s = m.status_class_counts();
    assert_eq!(s.responses_5xx, 1);
}

#[test]
fn rejects_by_reason_are_summed() {
    let mut m = MetricsRegistry::new();
    m.record_reject("expired");
    m.record_reject("expired");
    m.record_reject("unknown_sub");
    assert_eq!(m.rejects_total(), 3);
    let snap = m.rejects_snapshot();
    assert_eq!(snap, vec![("expired", 2), ("unknown_sub", 1)]);
}

// Drains and posture

#[test]
fn drain_registry_single_slot_per_noyau() {
    let mut reg = DrainRegistry::default();
    assert!(reg.try_acquire("a"));
    assert!(!reg.try_acquire("a"), "second drain on the same noyau");
    assert!(reg.try_acquire("b"), "independent noyau is independent");
    assert!(reg.is_active("a"));
    reg.release("a");
    assert!(!reg.is_active("a"));
    assert!(reg.try_acquire("a"), "slot reusable after release");
}

#[test]
fn two_drains_of_a_noyau_have_a_release_between_them() {
    let mut reg = DrainRegistry::default();
    assert!(reg.try_acquire("a"));
    reg.release("b");
    assert!(reg.try_acquire("b"));
    assert!(!reg.try_acquire("a"));
    reg.release("a");
    reg.release("a");
    assert!(reg.try_acquire("a"));
    assert!(!reg.try_acquire("a"));
    assert!(reg.is_active("b"));
}

#[test]
fn the_command_line_overrides_the_posture() {
    assert_eq!(choose_posture(None, Posture::Active), Ok(Posture::Active));
    assert_eq!(choose_posture(Some("prepared"), Posture::Active), Ok(Posture::Prepared));
    assert_eq!(choose_posture(Some("active"), Posture::Prepared), Ok(Posture::Active));
    assert_eq!(choose_posture(Some("lax"), Posture::Prepared), Err("unknown posture: lax".to_owned()));
    assert_eq!(Posture::default().as_str(), "prepared");
}

// Provisioning

fn sample_spec(noyau: &str, sub: &str) -> HabilitationBindingSpec {
    HabilitationBindingSpec {
        noyau: noyau.into(),
        sub: sub.into(),
        issuer: "http://oidc-mock:8444".into(),
        audience: format!("cosmon-rpp-{noyau}"),
        nucleon_id: None,
        phase: None,
        scopes: vec!["cosmon:molecule:read".into()],
        sealed_at: Some("2026-06-16T00:00:00Z".into()),
    }
}

/// The files of a state directory: id, text and what it parses to.
#[derive(Clone, Default)]
struct Disk {
    files: Vec<(String, String, OidcIdentity)>,
}

impl Disk {
    fn map(&self) -> HabilitationMap {
        let files = self
            .files
            .iter()
            .map(|(_, text, id)| IdentityFile {
                name: "oidc-identity.toml".to_owned(),
                text: Some(text.clone()),
                parsed: Some(id.clone()),
            })
            .collect();
        HabilitationMap::load(&files)
    }

    fn prior(&self, id: &str) -> PriorFile {
        match self.files.iter().find(|(n, _, _)| n == id) {
            Some((_, text, parsed)) => PriorFile { text: Some(text.clone()), parsed: Some(parsed.clone()) },
            None => PriorFile { text: None, parsed: None },
        }
    }

    fn provision(&mut self, spec: &HabilitationBindingSpec) -> Result<ProvisionOutcome, (u16, &'static str)> {
        self.provision_undoably(spec).map(|(out, _)| out)
    }

    fn provision_undoably(
        &mut self,
        spec: &HabilitationBindingSpec,
    ) -> Result<(ProvisionOutcome, Option<Undo>), (u16, &'static str)> {
        let said = |e: cosmon_rpp_adapter::error::ApiError| (e.status, e.label);
        let identity = check_request(spec).map_err(said)?;
        let body = format!("{identity:?}");
        let id = identity.nucleon_id.clone();
        let opened = Provisioning::open(identity.clone(), body.clone(), &self.map()).map_err(said)?;
        let path = binding_path("/state", &id);
        match opened.weigh_prior(&path, &self.prior(&id)).map_err(said)? {
            Weighed::Settled(out) => Ok((out, None)),
            Weighed::Write(pending) => {
                let undo = pending.undo();
                self.files.retain(|(n, _, _)| *n != id);
                self.files.push((id, body, identity));
                let fresh = self.map();
                let out = pending.settle(Some(&fresh), false).map_err(|r| (r.error.status, r.error.label))?;
                Ok((out, Some(undo)))
            }
        }
    }

    /// Puts a file back as `was` had it: its text is what the step holds.
    fn undo(&mut self, step: &Undo, was: &Disk) {
        self.files.retain(|(n, _, _)| *n != step.habilitation_id);
        if let Some(text) = &step.restore {
            let held = was.files.iter().find(|(n, _, _)| *n == step.habilitation_id).unwrap();
            assert_eq!(&held.1, text);
            self.files.push(held.clone());
        }
    }

    fn texts(&self) -> Vec<(String, String)> {
        let mut out: Vec<(String, String)> = self.files.iter().map(|(n, t, _)| (n.clone(), t.clone())).collect();
        out.sort();
        out
    }

    fn revoke(&mut self, id: &str) -> Result<(), (u16, &'static str)> {
        let exists = self.files.iter().any(|(n, _, _)| n == id);
        check_revoke(id, exists).map_err(|e| (e.status, e.label))?;
        self.files.retain(|(n, _, _)| n != id);
        Ok(())
    }
}

#[test]
fn provision_creates_and_resolves_without_restart() {
    let mut disk = Disk::default();
    let out = disk.provision(&sample_spec("jordan-research", "jordan")).unwrap();
    assert!(out.created);
    assert_eq!(out.noyau, "jordan-research");
    assert_eq!(out.status_code(), 201);
    assert_eq!(out.binding_path, "/state/nucleons/jordan-research/oidc-identity.toml");
    assert!(disk.map().resolve("http://oidc-mock:8444", "jordan").is_some());
}

#[test]
fn reprovision_identical_is_idempotent_200() {
    let mut disk = Disk::default();
    let spec = sample_spec("jordan-research", "jordan");
    let first = disk.provision(&spec).unwrap();
    assert!(first.created);
    let second = disk.provision(&spec).unwrap();
    assert!(!second.created);
    assert_eq!(second.status_code(), 200);
    assert_eq!(first.seal, second.seal);
}

#[test]
fn rebind_same_audience_to_different_noyau_is_409() {
    let mut disk = Disk::default();
    let mut a = sample_spec("noyau-a", "jordan");
    a.audience = "cosmon-rpp-shared".into();
    disk.provision(&a).unwrap();
    let mut other = sample_spec("noyau-b", "jordan");
    other.audience = "cosmon-rpp-shared".into();
    other.nucleon_id = Some("noyau-b".into());
    assert_eq!(disk.provision(&other).unwrap_err(), (409, "cross_noyau_rebind_refused"));
}

#[test]
fn one_identity_two_galaxies_both_provision() {
    let mut disk = Disk::default();
    let mut speck = sample_spec("speck", "casey");
    speck.nucleon_id = Some("casey-on-speck".into());
    let mut qcd = sample_spec("qcd", "casey");
    qcd.nucleon_id = Some("casey-on-qcd".into());
    assert!(disk.provision(&speck).unwrap().created);
    assert!(disk.provision(&qcd).unwrap().created);
    let live = disk.map();
    assert_eq!(
        live.resolve_for_audience("http://oidc-mock:8444", "casey", "cosmon-rpp-speck").unwrap().noyau.as_str(),
        "speck"
    );
    assert_eq!(
        live.resolve_for_audience("http://oidc-mock:8444", "casey", "cosmon-rpp-qcd").unwrap().noyau.as_str(),
        "qcd"
    );
}

#[test]
fn habilitation_id_collision_is_409() {
    let mut disk = Disk::default();
    let mut a = sample_spec("shared", "tenant_auditor");
    a.nucleon_id = Some("shared".into());
    disk.provision(&a).unwrap();
    let mut b = sample_spec("shared", "bob");
    b.nucleon_id = Some("shared".into());
    assert_eq!(disk.provision(&b).unwrap_err(), (409, "habilitation_id_collision"));
}

#[test]
fn provisioning_only_adds() {
    let mut disk = Disk::default();
    let mut a = sample_spec("n", "casey");
    a.nucleon_id = Some("x".into());
    a.audience = "aud-a".into();
    disk.provision(&a).unwrap();
    let mut b = sample_spec("n", "casey");
    b.nucleon_id = Some("x".into());
    b.audience = "aud-b".into();
    assert_eq!(disk.provision(&b).unwrap_err(), (409, "habilitation_id_collision"));
    b.nucleon_id = Some("y".into());
    assert!(disk.provision(&b).unwrap().created);
    let live = disk.map();
    for aud in ["aud-a", "aud-b"] {
        assert_eq!(live.resolve_for_audience("http://oidc-mock:8444", "casey", aud).unwrap().noyau.as_str(), "n");
    }
}

#[test]
fn only_a_plain_id_is_revoked() {
    assert!(check_revoke("casey--speck", true).is_ok());
    assert!(check_revoke("a..b", true).is_ok());
    for id in ["", ".", "..", "a/b", "/etc", "../x", "x/"] {
        let refused = check_revoke(id, true).unwrap_err();
        assert_eq!((refused.status, refused.label), (404, "habilitation_not_found"));
    }
    assert!(check_revoke("casey--speck", false).is_err());
}

#[test]
fn malformed_binding_is_400() {
    let mut disk = Disk::default();
    let mut spec = sample_spec("n", "s");
    spec.issuer = "not-a-url".into();
    assert_eq!(disk.provision(&spec).unwrap_err(), (400, "malformed_binding"));
}

#[test]
fn revoke_removes_and_404s_when_absent() {
    let mut disk = Disk::default();
    disk.provision(&sample_spec("jordan-research", "jordan")).unwrap();
    assert!(disk.map().resolve("http://oidc-mock:8444", "jordan").is_some());
    disk.revoke("jordan-research").unwrap();
    assert!(disk.map().resolve("http://oidc-mock:8444", "jordan").is_none());
    assert_eq!(disk.revoke("does-not-exist").unwrap_err(), (404, "habilitation_not_found"));
}

#[test]
fn a_write_that_does_not_resolve_is_undone() {
    let identity = build_binding(&sample_spec("n", "s")).unwrap();
    let opened = Provisioning::open(identity, "new".to_owned(), &HabilitationMap::default()).unwrap();
    let prior = PriorFile { text: Some("old".to_owned()), parsed: None };
    match opened.weigh_prior("/p", &prior).unwrap() {
        Weighed::Write(pending) => {
            let undo = pending.settle(Some(&HabilitationMap::default()), true).unwrap_err();
            assert_eq!(undo.restore.as_deref(), Some("old"));
            assert_eq!((undo.error.status, undo.error.label), (503, "reload_failed"));
        }
        Weighed::Settled(_) => panic!("nothing was written yet"),
    }
}

// Federations

fn portee(portee_id: &str, sub: &str, galaxies: &[&str]) -> PorteeSpec {
    PorteeSpec {
        portee_id: Some(portee_id.to_owned()),
        partner: PartnerIdentity { issuer: "https://casey.instance.peer".into(), sub: sub.into() },
        galaxies: galaxies.iter().map(|s| (*s).to_owned()).collect(),
        scopes: vec!["cosmon:molecule:read".into()],
        create_noyau: true,
        created_at: Some("2026-06-17T00:00:00Z".into()),
    }
}

/// Runs a federation on the disk; the manifest it leaves, or the refusal.
fn federate(
    disk: &mut Disk,
    spec: PorteeSpec,
    existing: Option<&PorteeManifest>,
) -> Result<(PorteeManifest, bool), (u16, &'static str)> {
    let request = check_federation(&spec).map_err(|e| (e.status, e.label))?;
    let was = disk.clone();
    let mut run = Federation::begin(spec, request, existing);
    while let Some(binding) = run.next_binding() {
        match disk.provision_undoably(&binding) {
            Ok((out, undo)) => run.settle(&out, undo),
            Err(refusal) => {
                for step in run.abort() {
                    disk.undo(&step, &was);
                }
                return Err(refusal);
            }
        }
    }
    let manifest = run.manifest();
    let out = run.finish(true).map_err(|e| (e.status, e.label))?;
    Ok((manifest, out.created))
}

#[test]
fn one_gesture_materialises_n_habilitations_grouped() {
    let mut disk = Disk::default();
    let (manifest, created) = federate(&mut disk, portee("casey", "casey", &["speck", "qcd"]), None).unwrap();
    assert!(created);
    assert_eq!(manifest.members.len(), 2, "one gesture → N habilitations");
    let live = disk.map();
    let noyau = |aud: &str| {
        live.resolve_for_audience("https://casey.instance.peer", "casey", aud).unwrap().noyau.as_str().to_owned()
    };
    assert_eq!(noyau("cosmon-rpp-speck"), "speck");
    assert_eq!(noyau("cosmon-rpp-qcd"), "qcd");
    let views = list(vec![("casey".to_owned(), Some(manifest))]);
    assert_eq!(views.len(), 1);
    assert_eq!(views[0].portee_id, "casey");
    assert_eq!(views[0].members.len(), 2);
}

#[test]
fn federate_is_additive_and_idempotent() {
    let mut disk = Disk::default();
    let (first, _) = federate(&mut disk, portee("casey", "casey", &["speck"]), None).unwrap();
    let (second, created) = federate(&mut disk, portee("casey", "casey", &["speck", "qcd"]), Some(&first)).unwrap();
    assert!(!created, "existing manifest ⇒ not created");
    assert_eq!(second.members.len(), 2);
    let galaxies: Vec<&str> = second.members.iter().map(|m| m.galaxy.as_str()).collect();
    assert!(galaxies.contains(&"speck") && galaxies.contains(&"qcd"));
}

#[test]
fn revoke_one_galaxy_keeps_the_rest() {
    let mut disk = Disk::default();
    let (manifest, _) = federate(&mut disk, portee("casey", "casey", &["speck", "qcd"]), None).unwrap();
    let (left, gone) = revoke_galaxy(Some(manifest), "speck").map_err(|e| e.label).unwrap();
    disk.revoke(&gone.habilitation_id).unwrap();
    assert_eq!(left.members.len(), 1);
    assert_eq!(left.members[0].galaxy, "qcd");
    let live = disk.map();
    assert!(live.resolve_for_audience("https://casey.instance.peer", "casey", "cosmon-rpp-speck").is_none());
    assert!(live.resolve_for_audience("https://casey.instance.peer", "casey", "cosmon-rpp-qcd").is_some());
}

#[test]
fn dissolve_revokes_all_and_removes_manifest() {
    let mut disk = Disk::default();
    let (manifest, _) = federate(&mut disk, portee("casey", "casey", &["speck", "qcd"]), None).unwrap();
    let ids = dissolve(Some(&manifest)).unwrap();
    assert_eq!(ids.len(), 2);
    for id in &ids {
        disk.revoke(id).unwrap();
    }
    assert!(disk
        .map()
        .resolve_for_audience("https://casey.instance.peer", "casey", "cosmon-rpp-speck")
        .is_none());
}

#[test]
fn empty_galaxy_set_is_400() {
    let err = check_federation(&portee("casey", "casey", &[])).unwrap_err();
    assert_eq!(err.status, 400);
    assert_eq!(err.label, "malformed_portee");
}

#[test]
fn malformed_issuer_rolls_back_partial_gesture() {
    let mut disk = Disk::default();
    let mut s = portee("casey", "casey", &["speck", "qcd"]);
    s.partner.issuer = "not-a-url".into();
    assert_eq!(federate(&mut disk, s, None).unwrap_err(), (400, "malformed_binding"));
    assert_eq!(disk.map().binding_count(), 0);
}

#[test]
fn a_failed_federation_leaves_every_binding_as_it_was() {
    let mut disk = Disk::default();
    let mut first = portee("casey", "casey", &["speck"]);
    first.scopes = vec!["r".into()];
    let (manifest, _) = federate(&mut disk, first, None).unwrap();
    let mut foreign = sample_spec("qcd", "bob");
    foreign.nucleon_id = Some("casey--qcd".into());
    disk.provision(&foreign).unwrap();
    let before = disk.texts();
    let mut second = portee("casey", "casey", &["speck", "gut", "qcd"]);
    second.scopes = vec!["w".into()];
    assert_eq!(federate(&mut disk, second, Some(&manifest)).unwrap_err(), (409, "habilitation_id_collision"));
    assert_eq!(disk.texts(), before);
    let live = disk.map();
    let granted = |aud: &str| live.allowed_scopes_for_audience("https://casey.instance.peer", "casey", aud);
    assert_eq!(granted("cosmon-rpp-speck"), vec!["r".to_owned()]);
    assert!(granted("cosmon-rpp-gut").is_empty());
}

#[test]
fn dissolve_absent_is_404() {
    let err = dissolve(None).unwrap_err();
    assert_eq!(err.status, 404);
    assert_eq!(err.label, "portee_not_found");
}

// Reloads

fn loaded(rows: &[(&str, &str, &str)]) -> HabilitationMap {
    let mut disk = Disk::default();
    for (id, noyau, sub) in rows {
        let mut spec = sample_spec(noyau, sub);
        spec.issuer = "https://idp".into();
        spec.nucleon_id = Some((*id).to_owned());
        disk.provision(&spec).unwrap();
    }
    disk.map()
}

/// The end of a reload, where the new noyaux were laid out with or without a fault.
fn finished(reloading: Reloading, ok: bool) -> Reloaded {
    match reloading {
        Reloading::Settled(done) => done,
        Reloading::LayOut(next) => next.laid_out(ImageInitReport { ok }),
    }
}

#[test]
fn reload_picks_up_a_newly_staged_binding() {
    let live = loaded(&[("nuc-a", "tenant-demo", "sub-a")]);
    assert_eq!(live.binding_count(), 1);
    let fresh = loaded(&[("nuc-a", "tenant-demo", "sub-a"), ("nuc-b", "democorp", "sub-b")]);
    let done = finished(reload(&live, Ok(fresh), "/state"), true);
    assert!(done.outcome.error.is_none());
    assert_eq!(done.outcome.bindings_before, 1);
    assert_eq!(done.outcome.bindings_after, 2);
    assert_eq!(done.outcome.new_noyaux.len(), 1);
    assert_eq!(done.outcome.new_noyaux[0].as_str(), "democorp");
    assert!(done.outcome.init_report.as_ref().unwrap().all_ok());
    assert!(done.outcome.is_ok());
    let published = done.publish.unwrap();
    assert!(published.resolve("https://idp", "sub-b").is_some());
    assert_eq!(published.binding_count(), 2);
}

#[test]
fn reload_with_no_change_is_a_noop_swap_with_empty_delta() {
    let live = loaded(&[("nuc-a", "tenant-demo", "sub-a")]);
    let done = finished(reload(&live, Ok(loaded(&[("nuc-a", "tenant-demo", "sub-a")])), "/state"), true);
    assert!(done.outcome.error.is_none());
    assert!(done.outcome.new_noyaux.is_empty());
    assert!(done.outcome.init_report.is_none());
    assert_eq!(done.outcome.bindings_after, 1);
    assert!(done.publish.unwrap().resolve("https://idp", "sub-a").is_some());
}

#[test]
fn reload_adds_binding_to_existing_noyau_without_remateralizing() {
    let live = loaded(&[("nuc-a", "tenant-demo", "sub-a")]);
    let fresh = loaded(&[("nuc-a", "tenant-demo", "sub-a"), ("nuc-a2", "tenant-demo", "sub-a2")]);
    let done = finished(reload(&live, Ok(fresh), "/state"), true);
    assert!(done.outcome.error.is_none());
    assert_eq!(done.outcome.bindings_after, 2);
    assert!(done.outcome.new_noyaux.is_empty());
    assert!(done.outcome.init_report.is_none());
    assert!(done.publish.unwrap().resolve("https://idp", "sub-a2").is_some());
}

#[test]
fn reload_failure_keeps_the_live_map() {
    let live = loaded(&[("nuc-a", "tenant-demo", "sub-a")]);
    let done = finished(reload(&live, Err("not a directory".to_owned()), "/state"), true);
    assert!(done.outcome.error.is_some(), "read error surfaced");
    assert!(done.publish.is_none());
    assert_eq!(live.binding_count(), 1);
    assert!(live.resolve("https://idp", "sub-a").is_some());
}

#[test]
fn only_new_noyaux_are_laid_out_and_the_map_is_published_whatever_the_report_says() {
    let live = loaded(&[("nuc-a", "tenant-demo", "sub-a")]);
    let staged = || loaded(&[("nuc-a", "tenant-demo", "sub-a"), ("nuc-b", "democorp", "sub-b")]);
    match reload(&live, Ok(staged()), "/state") {
        Reloading::LayOut(next) => {
            assert_eq!(next.noyaux().len(), 1);
            assert_eq!(next.noyaux()[0].as_str(), "democorp");
        }
        Reloading::Settled(_) => panic!("a new noyau is to be laid out"),
    }
    let done = finished(reload(&live, Ok(staged()), "/state"), false);
    assert!(!done.outcome.is_ok());
    assert!(done.outcome.error.is_none());
    assert_eq!(done.publish.unwrap().binding_count(), 2);
    assert!(matches!(reload(&live, Err("gone".to_owned()), "/state"), Reloading::Settled(_)));
    assert!(matches!(
        reload(&live, Ok(loaded(&[("nuc-a", "tenant-demo", "sub-a")])), "/state"),
        Reloading::Settled(_)
    ));
}

#[test]
fn reload_jwks_missing_dir_is_ok_and_empty() {
    let outcome = reload_jwks(0, 0, &Ok(Vec::new()), "/state");
    assert!(outcome.is_ok());
    assert_eq!(outcome.issuers_after, 0);
    assert_eq!(outcome.keys_after, 0);
}

#[test]
fn reload_jwks_read_error_keeps_live_store() {
    let outcome = reload_jwks(0, 0, &Err("not a directory".to_owned()), "/state");
    assert!(outcome.error.is_some(), "read error surfaced");
    assert!(!outcome.is_ok());
    let kept = reload_jwks(2, 5, &Err("not a directory".to_owned()), "/state");
    assert_eq!((kept.issuers_before, kept.issuers_after, kept.keys_after), (2, 2, 5));
}

#[test]
fn reload_jwks_counts_the_keys() {
    let rows = vec![("https://a".to_owned(), 2), ("https://b".to_owned(), 3)];
    let outcome = reload_jwks(1, 4, &Ok(rows), "/state");
    assert_eq!(outcome.issuers_before, 1);
    assert_eq!(outcome.issuers_after, 2);
    assert_eq!(outcome.keys_after, 5);
}

#[test]
fn outcome_is_ok_reflects_error_and_delta() {
    let ok = ReloadOutcome {
        bindings_before: 1,
        bindings_after: 1,
        new_noyaux: Vec::new(),
        init_report: None,
        error: None,
    };
    assert!(ok.is_ok());
    let failed = ReloadOutcome {
        bindings_before: 1,
        bindings_after: 1,
        new_noyaux: Vec::new(),
        init_report: None,
        error: Some("boom".to_owned()),
    };
    assert!(!failed.is_ok());
}
