use sshpod::hostspec::{parse, HostSpecError, Target};

#[test]
fn parse_pod_with_namespace_and_context() {
    let spec =
        parse("pod--app.namespace--ns.context--ctx.sshpod").expect("should parse successfully");
    assert_eq!(spec.target, Target::Pod("app".into()));
    assert_eq!(spec.namespace.as_deref(), Some("ns"));
    assert_eq!(spec.context.as_deref(), Some("ctx"));
    assert!(spec.container.is_none());
}

#[test]
fn parse_pod_with_context_only_namespace_defaults() {
    let spec = parse("pod--app.context--ctx.sshpod").expect("should parse successfully");
    assert_eq!(spec.target, Target::Pod("app".into()));
    assert!(spec.namespace.is_none());
    assert_eq!(spec.context.as_deref(), Some("ctx"));
}

#[test]
fn parse_deployment_with_container_prefix() {
    let spec = parse("container--web.deployment--api.namespace--ns.context--ctx.sshpod")
        .expect("should parse successfully");
    assert_eq!(spec.target, Target::Deployment("api".into()));
    assert_eq!(spec.container.as_deref(), Some("web"));
    assert_eq!(spec.namespace.as_deref(), Some("ns"));
    assert_eq!(spec.context.as_deref(), Some("ctx"));
}

#[test]
fn reject_missing_context() {
    // The grammar leaves both the namespace and the context optional, so a
    // hostname without a context token decodes with no context set.
    let spec = parse("pod--app.namespace--ns.sshpod").expect("should parse successfully");
    assert_eq!(spec.target, Target::Pod("app".into()));
    assert_eq!(spec.namespace.as_deref(), Some("ns"));
    assert!(spec.context.is_none());
}

#[test]
fn reject_missing_suffix() {
    let err = parse("pod--app.context--ctx").unwrap_err();
    assert!(matches!(err, HostSpecError::MissingSuffix));
}

#[test]
fn parse_bare_name_is_a_pod() {
    let spec = parse("db.sshpod").expect("should parse successfully");
    assert_eq!(spec.target, Target::Pod("db".into()));
    assert!(spec.namespace.is_none());
    assert!(spec.context.is_none());
    assert!(spec.container.is_none());
}

#[test]
fn parse_job_target() {
    let spec = parse("job--backfill.namespace--ns.sshpod").expect("should parse successfully");
    assert_eq!(spec.target, Target::Job("backfill".into()));
}

#[test]
fn parse_trailing_dots_are_trimmed() {
    let a = parse("pod--app.context--ctx.sshpod");
    let b = parse("pod--app.context--ctx.sshpod.");
    let c = parse("pod--app.context--ctx.sshpod...");
    assert_eq!(a, b);
    assert_eq!(a, c);
    let d = parse("pod--app.context--ctx");
    let e = parse("pod--app.context--ctx.");
    assert_eq!(d, e);
}

#[test]
fn parse_token_order_is_irrelevant() {
    let a = parse("container--web.deployment--api.namespace--ns.context--ctx.sshpod").unwrap();
    let b = parse("context--ctx.namespace--ns.deployment--api.container--web.sshpod").unwrap();
    let c = parse("namespace--ns.deployment--api.context--ctx.container--web.sshpod").unwrap();
    assert_eq!(a, b);
    assert_eq!(a, c);
}

#[test]
fn parse_rejects_bad_shapes() {
    // No target at all.
    assert!(matches!(
        parse("namespace--ns.context--ctx.sshpod"),
        Err(HostSpecError::InvalidFormat)
    ));
    // Two targets.
    assert!(matches!(
        parse("pod--a.pod--b.sshpod"),
        Err(HostSpecError::InvalidFormat)
    ));
    // A bare name beside an explicit target is a second target.
    assert!(matches!(
        parse("pod--a.b.sshpod"),
        Err(HostSpecError::InvalidFormat)
    ));
    // Duplicate qualifier.
    assert!(matches!(
        parse("namespace--x.namespace--y.pod--a.sshpod"),
        Err(HostSpecError::InvalidFormat)
    ));
    // Empty qualifier value.
    assert!(matches!(
        parse("container--.pod--a.sshpod"),
        Err(HostSpecError::InvalidFormat)
    ));
    // Empty target value.
    assert!(matches!(parse("pod--.sshpod"), Err(HostSpecError::InvalidFormat)));
    // Empty token.
    assert!(matches!(parse("pod--a..sshpod"), Err(HostSpecError::InvalidFormat)));
    // Nothing before the suffix.
    assert!(matches!(parse(".sshpod"), Err(HostSpecError::InvalidFormat)));
    // No suffix at all.
    assert!(matches!(parse(""), Err(HostSpecError::MissingSuffix)));
    assert!(matches!(parse("sshpod"), Err(HostSpecError::MissingSuffix)));
}
