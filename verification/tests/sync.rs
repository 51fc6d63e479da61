use imagepullsecret_sync::config::{Config, RegistryAuth};
use imagepullsecret_sync::model::{AccountRecord, ClusterModel, SecretRecord};
use imagepullsecret_sync::plan::{in_scope, plan_sa, plan_secret, SecretAction, SecretLookup};
use imagepullsecret_sync::reconcile::{ensure, ensure_pair, PairOutcome};
use imagepullsecret_sync::watch::{namespaces_to_sync, NsEvent};

fn cfg(server: &str, username: &str, password: &str, namespaces: &[&str]) -> Config {
    Config {
        server: server.to_string(),
        username: username.to_string(),
        password: password.to_string(),
        namespaces: namespaces.iter().map(|s| s.to_string()).collect(),
    }
}

fn empty_account(ns: &str) -> AccountRecord {
    AccountRecord {
        namespace: ns.to_string(),
        pull_secrets: Vec::new(),
    }
}

#[test]
fn base64_encode() {
    let ra = RegistryAuth::new(
        "yuanzihua".to_string(),
        "123456".to_string(),
        "registry.zihua.com".to_string(),
    );

    let want="eyJhdXRocyI6eyJyZWdpc3RyeS56aWh1YS5jb20iOnsidXNlcm5hbWUiOiJ5dWFuemlodWEiLCJwYXNzd29yZCI6IjEyMzQ1NiIsImF1dGgiOiJlWFZoYm5wcGFIVmhPakV5TXpRMU5nPT0ifX19";
    let got = ra.base64_encode();
    assert_eq!(want, got);
}

#[test]
fn encoder_is_deterministic() {
    let a = RegistryAuth::new("u".to_string(), "p".to_string(), "reg.example.com".to_string());
    let b = RegistryAuth::new("u".to_string(), "p".to_string(), "reg.example.com".to_string());
    assert_eq!(a.base64_encode(), b.base64_encode());
}

#[test]
fn encoder_matches_reference_encoders() {
    // base64("a:b") is "YTpi"; the payload is the base64 of the exact JSON.
    let json = "{\"auths\":{\"reg.example.com\":{\"username\":\"a\",\"password\":\"b\",\"auth\":\"YTpi\"}}}";
    let want = base64::Engine::encode(&base64::engine::general_purpose::STANDARD, json);
    let ra = RegistryAuth::new("a".to_string(), "b".to_string(), "reg.example.com".to_string());
    assert_eq!(want, ra.base64_encode());
}

#[test]
fn scope_empty_admits_every_namespace() {
    let c = cfg("r", "u", "p", &[]);
    assert!(in_scope(&"anything".to_string(), &c));
}

#[test]
fn scope_wildcard_admits_every_namespace() {
    let c = cfg("r", "u", "p", &["team-a", "*"]);
    assert!(in_scope(&"team-b".to_string(), &c));
}

#[test]
fn scope_listed_namespace_admitted() {
    let c = cfg("r", "u", "p", &["team-a", "team-b"]);
    assert!(in_scope(&"team-b".to_string(), &c));
}

#[test]
fn scope_unlisted_namespace_rejected() {
    let c = cfg("r", "u", "p", &["team-a"]);
    assert!(!in_scope(&"team-b".to_string(), &c));
}

#[test]
fn secret_plan_creates_then_keeps() {
    let ns = "default".to_string();
    let c = cfg("reg.example.com", "a", "b", &["*"]);
    let first = plan_secret(&ns, &c, &SecretLookup::Missing);
    let payload = match first {
        SecretAction::Create(p) => p,
        other => panic!("expected a create, got {:?}", other),
    };
    // After the create converged, a second run must not write again.
    let second = plan_secret(&ns, &c, &SecretLookup::Found(Some(payload)));
    assert_eq!(second, SecretAction::Keep);
}

#[test]
fn secret_plan_patches_stale_payload_once() {
    let ns = "default".to_string();
    let c = cfg("reg.example.com", "a", "b", &["*"]);
    let stale = SecretLookup::Found(Some("c3RhbGU=".to_string()));
    let first = plan_secret(&ns, &c, &stale);
    let payload = match first {
        SecretAction::Patch(p) => p,
        other => panic!("expected a patch, got {:?}", other),
    };
    let second = plan_secret(&ns, &c, &SecretLookup::Found(Some(payload)));
    assert_eq!(second, SecretAction::Keep);
}

#[test]
fn secret_plan_keeps_object_without_data_key() {
    let ns = "default".to_string();
    let c = cfg("reg.example.com", "a", "b", &["*"]);
    assert_eq!(plan_secret(&ns, &c, &SecretLookup::Found(None)), SecretAction::Keep);
}

#[test]
fn secret_plan_skips_out_of_scope() {
    let ns = "team-b".to_string();
    let c = cfg("reg.example.com", "a", "b", &["team-a"]);
    assert_eq!(plan_secret(&ns, &c, &SecretLookup::Missing), SecretAction::Skip);
}

#[test]
fn sa_binding_mutates_exactly_once() {
    let host = "reg.example.com".to_string();
    let refs: Vec<Option<String>> = vec![Some("other".to_string()), None];
    let bound = plan_sa(&refs, &host).expect("first binding must append");
    assert_eq!(
        bound,
        vec![Some("other".to_string()), None, Some("reg.example.com".to_string())]
    );
    // Binding the same name again changes nothing.
    assert_eq!(plan_sa(&bound, &host), None);
}

#[test]
fn wildcard_credential_converges_namespace() {
    let mut state = ClusterModel {
        secrets: Vec::new(),
        accounts: vec![empty_account("default")],
    };
    let all_ns = vec!["default".to_string()];
    let configs = vec![cfg("reg.example.com", "a", "b", &["*"])];

    let out = ensure(&mut state, &all_ns, &configs);
    assert_eq!(out, vec![PairOutcome::Synced { wrote_secret: true, wrote_binding: true }]);

    assert_eq!(state.secrets.len(), 1);
    assert_eq!(state.secrets[0].namespace, "default");
    assert_eq!(state.secrets[0].name, "reg.example.com");
    let json = "{\"auths\":{\"reg.example.com\":{\"username\":\"a\",\"password\":\"b\",\"auth\":\"YTpi\"}}}";
    let want = base64::Engine::encode(&base64::engine::general_purpose::STANDARD, json);
    assert_eq!(state.secrets[0].payload.as_deref(), Some(want.as_str()));

    assert_eq!(state.accounts.len(), 1);
    assert_eq!(
        state.accounts[0].pull_secrets,
        vec![Some("reg.example.com".to_string())]
    );

    // Re-running the same batch produces zero additional writes.
    let again = ensure(&mut state, &all_ns, &configs);
    assert_eq!(again, vec![PairOutcome::Synced { wrote_secret: false, wrote_binding: false }]);
    assert_eq!(state.secrets.len(), 1);
    assert_eq!(state.secrets[0].payload.as_deref(), Some(want.as_str()));
    assert_eq!(state.accounts[0].pull_secrets.len(), 1);
}

#[test]
fn out_of_scope_pair_is_skipped_entirely() {
    let mut state = ClusterModel {
        secrets: Vec::new(),
        accounts: vec![empty_account("team-b")],
    };
    let all_ns = vec!["team-b".to_string()];
    let configs = vec![cfg("reg.example.com", "a", "b", &["team-a"])];

    let out = ensure(&mut state, &all_ns, &configs);
    assert_eq!(out, vec![PairOutcome::Skipped]);
    // No secret created; the binder never ran.
    assert!(state.secrets.is_empty());
    assert!(state.accounts[0].pull_secrets.is_empty());
}

#[test]
fn failing_pair_does_not_stop_the_batch() {
    // "broken" has no default service account, so both of its pairs fail at
    // the binder; every other pair must still be processed.
    let mut state = ClusterModel {
        secrets: Vec::new(),
        accounts: vec![empty_account("healthy")],
    };
    let all_ns = vec!["broken".to_string(), "healthy".to_string()];
    let configs = vec![
        cfg("reg1.example.com", "u1", "p1", &["*"]),
        cfg("reg2.example.com", "u2", "p2", &["*"]),
    ];

    let out = ensure(&mut state, &all_ns, &configs);
    assert_eq!(
        out,
        vec![
            PairOutcome::NoServiceAccount,
            PairOutcome::NoServiceAccount,
            PairOutcome::Synced { wrote_secret: true, wrote_binding: true },
            PairOutcome::Synced { wrote_secret: true, wrote_binding: true },
        ]
    );
    // The secret writes of the failing pairs happened before the binder
    // failed, and the healthy namespace converged fully.
    assert_eq!(state.secrets.len(), 4);
    assert_eq!(
        state.accounts[0].pull_secrets,
        vec![
            Some("reg1.example.com".to_string()),
            Some("reg2.example.com".to_string()),
        ]
    );
}

#[test]
fn binder_failure_reported_per_pair() {
    let mut state = ClusterModel { secrets: Vec::new(), accounts: Vec::new() };
    let ns = "nowhere".to_string();
    let c = cfg("reg.example.com", "a", "b", &["*"]);
    let out = ensure_pair(&mut state, &ns, &c);
    assert_eq!(out, PairOutcome::NoServiceAccount);
    // The secret write still stands.
    assert_eq!(state.secrets.len(), 1);
}

#[test]
fn applied_event_syncs_one_namespace() {
    let r = namespaces_to_sync(NsEvent::Applied("default".to_string()));
    assert_eq!(r, Some(vec!["default".to_string()]));
}

#[test]
fn restarted_event_syncs_snapshot() {
    let r = namespaces_to_sync(NsEvent::Restarted(vec!["a".to_string(), "b".to_string()]));
    assert_eq!(r, Some(vec!["a".to_string(), "b".to_string()]));
}

#[test]
fn other_events_are_ignored() {
    assert_eq!(namespaces_to_sync(NsEvent::Other), None);
}
