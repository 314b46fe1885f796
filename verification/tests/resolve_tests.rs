use sshpod::errors::SshPodError;
use sshpod::pods::{
    choose_container, context_known, is_ready, is_running, listed_deployment_names,
    listed_job_names, ready_pod_names, resolve_namespace, select_pod, DeploymentItem, JobItem,
    PodCondition, PodInfo, PodListItem,
};
use sshpod::selector::{job_selector, to_selector, LabelPair, LabelSelector, MatchExpression};
use sshpod::session::{session_phases, SessionPhase};

fn pod(name: &str, phase: Option<&str>, ready: Option<bool>) -> PodListItem {
    PodListItem {
        name: name.to_string(),
        phase: phase.map(|p| p.to_string()),
        conditions: ready.map(|r| {
            vec![PodCondition {
                cond_type: "Ready".to_string(),
                status: if r { "True".to_string() } else { "False".to_string() },
            }]
        }),
    }
}

#[test]
fn test_is_ready_true() {
    let p = PodListItem {
        name: "p".into(),
        phase: Some("Running".into()),
        conditions: Some(vec![PodCondition { cond_type: "Ready".into(), status: "True".into() }]),
    };
    assert!(is_ready(&p));
}

#[test]
fn test_is_ready_false_when_not_running() {
    let p = PodListItem { name: "p".into(), phase: Some("Pending".into()), conditions: None };
    assert!(!is_ready(&p));
}

#[test]
fn running_without_ready_condition_is_not_ready() {
    let p = pod("p", Some("Running"), Some(false));
    assert!(is_running(&p));
    assert!(!is_ready(&p));
    let q = pod("q", Some("Running"), None);
    assert!(is_running(&q));
    assert!(!is_ready(&q));
}

#[test]
fn deployment_selection_prefers_ready() {
    let items = vec![
        pod("api-0", Some("Pending"), None),
        pod("api-1", Some("Running"), Some(false)),
        pod("api-2", Some("Running"), Some(true)),
    ];
    let chosen = select_pod(&items, "deployment", "app=api", "ns").unwrap();
    assert_eq!(chosen, "api-2");
}

#[test]
fn selection_falls_back_to_running_then_first() {
    let items = vec![pod("a", Some("Pending"), None), pod("b", Some("Running"), Some(false))];
    assert_eq!(select_pod(&items, "deployment", "s", "ns").unwrap(), "b");
    let items = vec![pod("a", Some("Pending"), None), pod("b", Some("Failed"), None)];
    assert_eq!(select_pod(&items, "deployment", "s", "ns").unwrap(), "a");
}

#[test]
fn selection_is_stable_across_calls() {
    let items = vec![
        pod("a", Some("Running"), Some(false)),
        pod("b", Some("Running"), Some(true)),
        pod("c", Some("Running"), Some(true)),
    ];
    let first = select_pod(&items, "deployment", "s", "ns").unwrap();
    let second = select_pod(&items, "deployment", "s", "ns").unwrap();
    assert_eq!(first, second);
    assert_eq!(first, "b");
}

#[test]
fn empty_pod_list_is_no_pod_found() {
    let items: Vec<PodListItem> = Vec::new();
    let err = select_pod(&items, "job", "job-name=x", "ns").unwrap_err();
    match &err {
        SshPodError::NoPodFound { kind, selector, namespace } => {
            assert_eq!(kind, "job");
            assert_eq!(selector, "job-name=x");
            assert_eq!(namespace, "ns");
        },
        other => panic!("unexpected error: {:?}", other),
    }
    assert_eq!(err.message(), "no pods found for job selector `job-name=x` in namespace ns");
}

#[test]
fn container_choice_single_container() {
    let info = PodInfo { uid: "abc123".into(), containers: vec!["main".into()] };
    assert_eq!(choose_container(&info, &None, "db").unwrap(), "main");
}

#[test]
fn container_choice_requested_present() {
    let info = PodInfo { uid: "u".into(), containers: vec!["nginx".into(), "sidecar".into()] };
    assert_eq!(choose_container(&info, &Some("sidecar".to_string()), "web").unwrap(), "sidecar");
}

#[test]
fn container_missing_names_the_missing_one() {
    let info = PodInfo { uid: "u".into(), containers: vec!["nginx".into(), "sidecar".into()] };
    let err = choose_container(&info, &Some("app".to_string()), "web").unwrap_err();
    let msg = err.message();
    assert_eq!(msg, "container `app` not found in pod web (containers: nginx, sidecar)");
}

#[test]
fn multi_container_without_qualifier_fails() {
    let info = PodInfo { uid: "u".into(), containers: vec!["nginx".into(), "sidecar".into()] };
    let err = choose_container(&info, &None, "web").unwrap_err();
    let msg = err.message();
    assert_eq!(msg, "pod web has multiple containers (nginx, sidecar); add a container--<name> qualifier");
}

#[test]
fn happy_path_resolution_pieces() {
    // Host pod--db.namespace--prod.context--staging.sshpod with a
    // single-container pod of uid abc123 lands on /tmp/sshpod/abc123/main.
    let spec = sshpod::parse("pod--db.namespace--prod.context--staging.sshpod").unwrap();
    assert_eq!(spec.target, sshpod::Target::Pod("db".into()));
    assert_eq!(spec.namespace.as_deref(), Some("prod"));
    assert_eq!(spec.context.as_deref(), Some("staging"));
    let info = PodInfo { uid: "abc123".into(), containers: vec!["main".into()] };
    let container = choose_container(&info, &spec.container, "db").unwrap();
    let base = sshpod::remote::base_path(&info.uid, &container);
    assert_eq!(base, "/tmp/sshpod/abc123/main");
}

#[test]
fn namespace_resolution_order() {
    assert_eq!(resolve_namespace(&Some("ns".into()), &Some("default-ns".into())), "ns");
    assert_eq!(resolve_namespace(&None, &Some("default-ns".into())), "default-ns");
    assert_eq!(resolve_namespace(&None, &None), "");
}

#[test]
fn context_membership() {
    let contexts = vec!["staging".to_string(), "prod".to_string()];
    assert!(context_known(&contexts, "staging"));
    assert!(!context_known(&contexts, "dev"));
    let err = SshPodError::UnknownContext { context: "dev".into(), available: contexts };
    assert_eq!(err.message(), "context `dev` not found. Available contexts: staging, prod");
}

#[test]
fn selector_renders_labels_and_expressions() {
    let sel = LabelSelector {
        match_labels: vec![LabelPair { key: "app".into(), value: "api".into() }],
        match_expressions: vec![
            MatchExpression {
                key: "tier".into(),
                operator: "In".into(),
                values: vec!["web".into(), "cache".into()],
            },
            MatchExpression { key: "canary".into(), operator: "DoesNotExist".into(), values: vec![] },
            MatchExpression { key: "owned".into(), operator: "Exists".into(), values: vec![] },
        ],
    };
    assert_eq!(to_selector(&sel).unwrap(), "app=api,tier in (web,cache),!canary,owned");
}

#[test]
fn selector_notin_renders() {
    let sel = LabelSelector {
        match_labels: vec![],
        match_expressions: vec![MatchExpression {
            key: "env".into(),
            operator: "NotIn".into(),
            values: vec!["dev".into()],
        }],
    };
    assert_eq!(to_selector(&sel).unwrap(), "env notin (dev)");
}

#[test]
fn selector_in_without_values_fails() {
    let sel = LabelSelector {
        match_labels: vec![LabelPair { key: "a".into(), value: "b".into() }],
        match_expressions: vec![MatchExpression {
            key: "tier".into(),
            operator: "In".into(),
            values: vec![],
        }],
    };
    let err = to_selector(&sel).unwrap_err();
    assert_eq!(err.message(), "cluster query failed: matchExpressions In requires values");
    let sel2 = LabelSelector {
        match_labels: vec![],
        match_expressions: vec![MatchExpression {
            key: "tier".into(),
            operator: "NotIn".into(),
            values: vec![],
        }],
    };
    let err2 = to_selector(&sel2).unwrap_err();
    assert_eq!(err2.message(), "cluster query failed: matchExpressions NotIn requires values");
}

#[test]
fn selector_unsupported_operator_fails() {
    let sel = LabelSelector {
        match_labels: vec![],
        match_expressions: vec![MatchExpression {
            key: "k".into(),
            operator: "Near".into(),
            values: vec!["x".into()],
        }],
    };
    let err = to_selector(&sel).unwrap_err();
    assert_eq!(err.message(), "cluster query failed: unsupported matchExpression operator: Near");
}

#[test]
fn selector_empty_fails() {
    let sel = LabelSelector { match_labels: vec![], match_expressions: vec![] };
    let err = to_selector(&sel).unwrap_err();
    assert_eq!(err.message(), "cluster query failed: label selector is empty");
}

#[test]
fn job_selector_fallback_ladder() {
    let own = LabelSelector {
        match_labels: vec![LabelPair { key: "job".into(), value: "x".into() }],
        match_expressions: vec![],
    };
    assert_eq!(job_selector(Some(own), None, "backfill").unwrap(), "job=x");
    let labels = vec![LabelPair { key: "batch".into(), value: "y".into() }];
    assert_eq!(job_selector(None, Some(labels), "backfill").unwrap(), "batch=y");
    assert_eq!(job_selector(None, Some(vec![]), "backfill").unwrap(), "job-name=backfill");
    assert_eq!(job_selector(None, None, "backfill").unwrap(), "job-name=backfill");
}

#[test]
fn ready_names_filters_in_order() {
    let items = vec![
        pod("a", Some("Running"), Some(true)),
        pod("b", Some("Pending"), None),
        pod("c", Some("Running"), Some(true)),
    ];
    assert_eq!(ready_pod_names(&items), vec!["a".to_string(), "c".to_string()]);
}

#[test]
fn deployment_and_job_listing_filters() {
    let deployments = vec![
        DeploymentItem { name: "d0".into(), available_replicas: None, ready_replicas: None },
        DeploymentItem { name: "d1".into(), available_replicas: Some(0), ready_replicas: Some(1) },
        DeploymentItem { name: "d2".into(), available_replicas: Some(0), ready_replicas: Some(0) },
    ];
    assert_eq!(listed_deployment_names(&deployments), vec!["d1".to_string()]);
    let jobs = vec![
        JobItem { name: "j0".into(), succeeded: None, ready: None, active: None },
        JobItem { name: "j1".into(), succeeded: Some(1), ready: None, active: None },
        JobItem { name: "j2".into(), succeeded: Some(0), ready: Some(0), active: Some(2) },
    ];
    assert_eq!(listed_job_names(&jobs), vec!["j1".to_string(), "j2".to_string()]);
}

#[test]
fn user_mismatch_stops_the_session() {
    // A failed login-user check ends the invocation before the
    // architecture probe or any installation step.
    let phases = session_phases(&vec![false, true, true, true, true]);
    assert_eq!(phases, vec![SessionPhase::UserCheck]);
}

#[test]
fn happy_path_phases_run_in_order() {
    let phases = session_phases(&vec![true, true, true, true, true]);
    assert_eq!(
        phases,
        vec![
            SessionPhase::UserCheck,
            SessionPhase::ArchDetect,
            SessionPhase::BundleInstall,
            SessionPhase::DaemonLaunch,
            SessionPhase::Bridge,
        ]
    );
}

#[test]
fn install_failure_stops_before_launch() {
    let phases = session_phases(&vec![true, true, false, true, true]);
    assert_eq!(
        phases,
        vec![SessionPhase::UserCheck, SessionPhase::ArchDetect, SessionPhase::BundleInstall]
    );
}
