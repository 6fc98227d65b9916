use rustykube::aggregate::{
    generate_file_recommendations, generate_overall_recommendations, RunningSummary,
};
use rustykube::analyze::{analyze, generate_insights, identify_issues, Severity};
use rustykube::doc::{containers, get_resource_info, Node};
use rustykube::rules::{
    lint, LatestImageTagRule, LintRule, LivenessProbeRule, MissingLabelsRule, ReadinessProbeRule,
    ReadOnlyRootFilesystemRule, ResourceLimitsRule, RunAsNonRootRule,
};
use rustykube::score::{
    calculate_complexity_score, calculate_performance_score, calculate_reliability_score,
    calculate_security_score,
};
use rustykube::validate::validate;

fn s(v: &str) -> Node {
    Node::Str(v.to_string())
}

fn m(entries: Vec<(&str, Node)>) -> Node {
    Node::Mapping(entries.into_iter().map(|(k, v)| (k.to_string(), v)).collect())
}

fn probe() -> Node {
    m(vec![("httpGet", m(vec![("path", s("/health")), ("port", Node::Int(8080))]))])
}

fn full_resources() -> Node {
    m(vec![
        ("requests", m(vec![("cpu", s("100m")), ("memory", s("128Mi"))])),
        ("limits", m(vec![("cpu", s("500m")), ("memory", s("512Mi"))])),
    ])
}

fn bare_pod(container: Node) -> Node {
    m(vec![
        ("apiVersion", s("v1")),
        ("kind", s("Pod")),
        ("metadata", m(vec![("name", s("web"))])),
        ("spec", m(vec![("containers", Node::Sequence(vec![container]))])),
    ])
}

fn plain_container() -> Node {
    m(vec![("name", s("app")), ("image", s("nginx:latest"))])
}

fn deployment(replicas: i64, container: Node, restart_always: bool) -> Node {
    // The pod-level fields of a Deployment live under spec.template.spec.
    let mut pod_spec_entries = vec![(
        "containers".to_string(),
        Node::Sequence(vec![container]),
    )];
    if restart_always {
        pod_spec_entries.push(("restartPolicy".to_string(), s("Always")));
    }
    m(vec![
        ("apiVersion", s("apps/v1")),
        ("kind", s("Deployment")),
        (
            "metadata",
            m(vec![("name", s("web")), ("labels", m(vec![("app", s("web"))]))]),
        ),
        (
            "spec",
            m(vec![
                ("replicas", Node::Int(replicas)),
                ("selector", m(vec![("matchLabels", m(vec![("app", s("web"))]))])),
                ("template", m(vec![("spec", Node::Mapping(pod_spec_entries))])),
            ]),
        ),
    ])
}

fn compliant_container() -> Node {
    m(vec![
        ("name", s("app")),
        ("image", s("nginx:1.25")),
        ("resources", full_resources()),
        ("livenessProbe", probe()),
        ("readinessProbe", probe()),
        (
            "securityContext",
            m(vec![
                ("runAsNonRoot", Node::Bool(true)),
                ("readOnlyRootFilesystem", Node::Bool(true)),
            ]),
        ),
    ])
}

#[test]
fn identity_defaults_apply_when_fields_are_absent() {
    let doc = m(vec![("apiVersion", s("v1"))]);
    let id = get_resource_info(&doc);
    assert_eq!(id.kind, "Unknown");
    assert_eq!(id.name, "Unnamed");
    assert_eq!(id.namespace, "default");
}

#[test]
fn identity_reads_kind_name_namespace() {
    let doc = m(vec![
        ("kind", s("Service")),
        (
            "metadata",
            m(vec![("name", s("svc")), ("namespace", s("prod"))]),
        ),
    ]);
    let id = get_resource_info(&doc);
    assert_eq!(id.kind, "Service");
    assert_eq!(id.name, "svc");
    assert_eq!(id.namespace, "prod");
}

#[test]
fn containers_resolve_identically_for_bare_and_template_shapes() {
    let pod = bare_pod(plain_container());
    let dep = deployment(2, plain_container(), false);
    let pod_cs = containers(&pod).expect("pod containers");
    let dep_cs = containers(&dep).expect("deployment containers");
    assert_eq!(pod_cs.len(), 1);
    assert_eq!(dep_cs.len(), 1);
    assert_eq!(pod_cs[0], plain_container());
    assert_eq!(dep_cs[0], plain_container());
}

#[test]
fn containers_absent_for_shapeless_resources() {
    let cm = m(vec![("kind", s("ConfigMap")), ("metadata", m(vec![("name", s("cm"))]))]);
    assert!(containers(&cm).is_none());
}

#[test]
fn complexity_score_adds_kind_containers_and_volumes() {
    // Base 50 + Pod 10 + one container 10 = 70.
    let pod = bare_pod(plain_container());
    assert_eq!(calculate_complexity_score(&pod), 70);
    // Base 50 + Deployment 20 + one container 10 = 80.
    let dep = deployment(2, plain_container(), false);
    assert_eq!(calculate_complexity_score(&dep), 80);
}

#[test]
fn complexity_score_is_capped_at_100() {
    let many: Vec<Node> = (0..7).map(|_| plain_container()).collect();
    let doc = m(vec![
        ("kind", s("Ingress")),
        ("spec", m(vec![("containers", Node::Sequence(many))])),
    ]);
    assert_eq!(calculate_complexity_score(&doc), 100);
}

#[test]
fn scores_stay_in_band_for_odd_shapes() {
    for doc in [Node::Null, Node::Int(7), m(vec![]), m(vec![("spec", s("nope"))])] {
        assert!(calculate_complexity_score(&doc) <= 100);
        assert!(calculate_security_score(&doc) <= 100);
        assert!(calculate_performance_score(&doc) <= 100);
        assert!(calculate_reliability_score(&doc) <= 100);
    }
}

#[test]
fn security_score_floors_at_zero() {
    // Three bad containers: (25 + 15) * 3 = 120 of deductions.
    let cs: Vec<Node> = (0..3).map(|_| plain_container()).collect();
    let doc = m(vec![
        ("kind", s("Pod")),
        ("spec", m(vec![("containers", Node::Sequence(cs))])),
    ]);
    assert_eq!(calculate_security_score(&doc), 0);
}

#[test]
fn unhardened_pod_scores_match_the_deductions() {
    let pod = bare_pod(plain_container());
    // Security: 100 - 25 (no security context) - 15 (latest tag) = 60.
    assert_eq!(calculate_security_score(&pod), 60);
    // Performance: 100 - 30 (no resources) - 10 - 10 (no probes) = 50.
    assert_eq!(calculate_performance_score(&pod), 50);
    // Reliability: 100 - 15 - 15 (no probes) - 10 (no restartPolicy) = 60.
    assert_eq!(calculate_reliability_score(&pod), 60);
}

#[test]
fn unhardened_pod_findings_include_the_four_expected_issues() {
    // Pod with one container, no resources, no securityContext, nginx:latest,
    // no labels.
    let pod = bare_pod(plain_container());
    let findings = identify_issues(&pod);
    assert_eq!(findings.len(), 4);
    assert_eq!(findings[0].message, "Resource has no labels");
    assert_eq!(findings[0].severity, Severity::Medium);
    assert_eq!(findings[1].message, "Container 'app' has no resource limits");
    assert_eq!(findings[1].severity, Severity::High);
    assert_eq!(findings[1].category, "Performance");
    assert_eq!(findings[2].message, "Container 'app' has no security context");
    assert_eq!(findings[2].severity, Severity::High);
    assert_eq!(findings[2].category, "Security");
    assert_eq!(findings[3].message, "Container 'app' uses 'latest' image tag");
    assert_eq!(findings[3].severity, Severity::Medium);
}

#[test]
fn under_replicated_deployment_loses_exactly_twenty() {
    // Probes and resources present, pod-level restartPolicy Always (under
    // spec.template.spec): the only deduction left is the single-replica one.
    let dep = deployment(1, compliant_container(), true);
    assert_eq!(calculate_reliability_score(&dep), 80);
    let healthy = deployment(2, compliant_container(), true);
    assert_eq!(calculate_reliability_score(&healthy), 100);
}

#[test]
fn restart_policy_is_read_at_the_pod_level() {
    // Same fully-compliant Deployment, but without a pod-level restart
    // policy: exactly the 10-point restart deduction is taken.
    let dep = deployment(2, compliant_container(), false);
    assert_eq!(calculate_reliability_score(&dep), 90);
}

#[test]
fn rules_flag_the_unhardened_pod() {
    let pod = bare_pod(plain_container());
    assert_eq!(
        MissingLabelsRule.check(&pod),
        Some("Resource is missing labels.".to_string())
    );
    assert_eq!(
        ResourceLimitsRule.check(&pod),
        Some("Container is missing resource limits.".to_string())
    );
    assert_eq!(
        LivenessProbeRule.check(&pod),
        Some("Container is missing livenessProbe.".to_string())
    );
    assert_eq!(
        ReadinessProbeRule.check(&pod),
        Some("Container is missing readinessProbe.".to_string())
    );
    // No security context at all: the runAsNonRoot rule stays silent.
    assert_eq!(RunAsNonRootRule.check(&pod), None);
    assert_eq!(
        LatestImageTagRule.check(&pod),
        Some("Container uses a 'latest' image tag. Which should be avoided. ".to_string())
    );
}

#[test]
fn security_rules_fire_only_inside_a_present_context() {
    let c = m(vec![
        ("name", s("app")),
        ("image", s("nginx:1.25")),
        ("securityContext", m(vec![("runAsNonRoot", Node::Bool(true))])),
    ]);
    let pod = bare_pod(c);
    assert_eq!(RunAsNonRootRule.check(&pod), None);
    assert_eq!(
        ReadOnlyRootFilesystemRule.check(&pod),
        Some("Container does not have readOnlyRootFilesystem set.".to_string())
    );
}

#[test]
fn untagged_image_is_flagged_by_the_tag_rule() {
    let pod = bare_pod(m(vec![("name", s("app")), ("image", s("nginx"))]));
    assert!(LatestImageTagRule.check(&pod).is_some());
    let tagged = bare_pod(m(vec![("name", s("app")), ("image", s("nginx:1.25"))]));
    assert_eq!(LatestImageTagRule.check(&tagged), None);
}

#[test]
fn lint_runs_the_catalog_in_order() {
    let pod = bare_pod(plain_container());
    let results = lint(&pod, None);
    let names: Vec<&str> = results.iter().map(|(n, _)| n.as_str()).collect();
    assert_eq!(
        names,
        vec![
            "missing-labels",
            "resource-limits",
            "liveness-probe",
            "readiness-probe",
            "latest-image-tag"
        ]
    );
}

#[test]
fn lint_honours_the_rule_subset() {
    let pod = bare_pod(plain_container());
    let subset = vec!["latest-image-tag".to_string(), "missing-labels".to_string()];
    let results = lint(&pod, Some(&subset));
    let names: Vec<&str> = results.iter().map(|(n, _)| n.as_str()).collect();
    assert_eq!(names, vec!["missing-labels", "latest-image-tag"]);
}

#[test]
fn lint_is_silent_on_a_compliant_deployment() {
    let mut dep = deployment(2, compliant_container(), true);
    if let Node::Mapping(ref mut es) = dep {
        // metadata already has labels in the helper.
        assert!(es.iter().any(|(k, _)| k == "metadata"));
    }
    assert!(lint(&dep, None).is_empty());
}

#[test]
fn validate_accepts_a_complete_pod() {
    let pod = bare_pod(plain_container());
    assert!(validate(&pod).is_empty());
}

#[test]
fn validate_lists_every_missing_top_level_field() {
    let errors = validate(&m(vec![]));
    assert_eq!(
        errors,
        vec![
            "Missing required field 'apiVersion'".to_string(),
            "Missing required field 'kind'".to_string(),
            "Missing required field 'metadata'".to_string(),
        ]
    );
}

#[test]
fn deployment_missing_selector_and_template_yields_two_errors() {
    let dep = m(vec![
        ("apiVersion", s("apps/v1")),
        ("kind", s("Deployment")),
        ("metadata", m(vec![("name", s("web"))])),
        ("spec", m(vec![("replicas", Node::Int(2))])),
    ]);
    let errors = validate(&dep);
    assert_eq!(
        errors,
        vec![
            "Deployment spec missing 'selector' field".to_string(),
            "Deployment spec missing 'template' field".to_string(),
        ]
    );
}

#[test]
fn validate_reports_missing_metadata_name() {
    let doc = m(vec![
        ("apiVersion", s("v1")),
        ("kind", s("ConfigMap")),
        ("metadata", m(vec![("namespace", s("prod"))])),
    ]);
    assert_eq!(validate(&doc), vec!["Missing required field 'metadata.name'".to_string()]);
}

#[test]
fn validate_reports_a_pod_without_spec() {
    let pod = m(vec![
        ("apiVersion", s("v1")),
        ("kind", s("Pod")),
        ("metadata", m(vec![("name", s("p"))])),
    ]);
    assert_eq!(validate(&pod), vec!["Pod missing 'spec' field".to_string()]);
}

#[test]
fn validate_reports_a_service_without_ports() {
    let svc = m(vec![
        ("apiVersion", s("v1")),
        ("kind", s("Service")),
        ("metadata", m(vec![("name", s("svc"))])),
        ("spec", m(vec![("type", s("ClusterIP"))])),
    ]);
    assert_eq!(validate(&svc), vec!["Service spec missing 'ports' field".to_string()]);
}

#[test]
fn validate_checks_kind_specific_requirements() {
    let pod = m(vec![
        ("apiVersion", s("v1")),
        ("kind", s("Pod")),
        ("metadata", m(vec![("name", s("p"))])),
        ("spec", m(vec![])),
    ]);
    assert_eq!(validate(&pod), vec!["Pod spec missing 'containers' field".to_string()]);
    let svc = m(vec![
        ("apiVersion", s("v1")),
        ("kind", s("Service")),
        ("metadata", m(vec![("name", s("svc"))])),
    ]);
    assert_eq!(validate(&svc), vec!["Service missing 'spec' field".to_string()]);
}

#[test]
fn aggregator_keeps_exact_running_averages() {
    let mut summary = RunningSummary::new();
    let scores = [70u32, 80, 90];
    for sc in scores {
        let doc = bare_pod(plain_container());
        let mut a = analyze(&doc);
        a.complexity_score = sc;
        summary.fold(&a);
    }
    assert_eq!(summary.count, 3);
    assert_eq!(summary.complexity_total, 240);
    // The running average is the total over the count: exactly 80.
    assert_eq!(summary.complexity_total / summary.count, 80);
}

#[test]
fn aggregator_tallies_kinds_namespaces_and_issues() {
    let mut summary = RunningSummary::new();
    let pod = bare_pod(plain_container());
    let dep = deployment(2, compliant_container(), true);
    summary.fold(&analyze(&pod));
    summary.fold(&analyze(&pod));
    summary.fold(&analyze(&dep));
    assert_eq!(summary.count, 3);
    assert!(summary
        .kind_counts
        .iter()
        .any(|(k, n)| k == "Pod" && *n == 2));
    assert!(summary
        .kind_counts
        .iter()
        .any(|(k, n)| k == "Deployment" && *n == 1));
    assert!(summary
        .namespace_counts
        .iter()
        .any(|(k, n)| k == "default" && *n == 3));
    // The unhardened pod has 4 findings, 2 of them High; the compliant
    // deployment has none.
    assert_eq!(summary.total_issues, 8);
    assert_eq!(summary.high_severity_issues, 4);
}

#[test]
fn merging_shards_equals_one_serial_fold() {
    let pod = bare_pod(plain_container());
    let dep = deployment(2, compliant_container(), true);

    let mut serial = RunningSummary::new();
    serial.fold(&analyze(&pod));
    serial.fold(&analyze(&dep));
    serial.fold(&analyze(&pod));

    let mut left = RunningSummary::new();
    left.fold(&analyze(&pod));
    left.fold(&analyze(&dep));
    let mut right = RunningSummary::new();
    right.fold(&analyze(&pod));
    left.merge(&right);

    assert_eq!(left.count, serial.count);
    assert_eq!(left.complexity_total, serial.complexity_total);
    assert_eq!(left.security_total, serial.security_total);
    assert_eq!(left.performance_total, serial.performance_total);
    assert_eq!(left.reliability_total, serial.reliability_total);
    assert_eq!(left.total_issues, serial.total_issues);
    assert_eq!(left.high_severity_issues, serial.high_severity_issues);
}

#[test]
fn analyze_reports_identity_scores_findings_and_usage() {
    let dep = deployment(2, compliant_container(), true);
    let a = analyze(&dep);
    assert_eq!(a.identity.kind, "Deployment");
    assert_eq!(a.identity.name, "web");
    assert_eq!(a.complexity_score, 80);
    assert_eq!(a.security_score, 100);
    assert_eq!(a.performance_score, 100);
    assert_eq!(a.reliability_score, 100);
    assert!(a.findings.is_empty());
    assert_eq!(a.resource_usage.cpu_requests, Some("100m".to_string()));
    assert_eq!(a.resource_usage.memory_requests, Some("128Mi".to_string()));
    assert_eq!(a.resource_usage.cpu_limits, Some("500m".to_string()));
    assert_eq!(a.resource_usage.memory_limits, Some("512Mi".to_string()));
    assert!(a.resource_usage.has_probes);
    assert!(a.resource_usage.has_security_context);
}

#[test]
fn insights_follow_the_resource_kind() {
    let dep = deployment(1, compliant_container(), true);
    assert_eq!(
        generate_insights(&dep, "Deployment"),
        vec![
            "Consider increasing replicas for high availability".to_string(),
            "Consider adding a deployment strategy for controlled rollouts".to_string(),
        ]
    );
    let pod = bare_pod(plain_container());
    assert_eq!(
        generate_insights(&pod, "Pod"),
        vec!["Consider using Deployments instead of bare Pods for better management".to_string()]
    );
    let svc = m(vec![
        ("kind", s("Service")),
        ("metadata", m(vec![("name", s("svc"))])),
        ("spec", m(vec![("type", s("LoadBalancer"))])),
    ]);
    assert_eq!(
        generate_insights(&svc, "Service"),
        vec![
            "LoadBalancer services incur cloud provider costs - consider using Ingress if appropriate"
                .to_string()
        ]
    );
    assert!(generate_insights(&svc, "ConfigMap").is_empty());
}

#[test]
fn file_recommendations_name_the_high_severity_count() {
    let mut summary = RunningSummary::new();
    let pod = bare_pod(plain_container());
    summary.fold(&analyze(&pod));
    // The unhardened pod scores 60/50 and carries two High findings.
    let recs = generate_file_recommendations(&summary, false);
    assert_eq!(
        recs,
        vec![
            "Consider improving security by adding security contexts and avoiding latest image tags"
                .to_string(),
            "Add resource requests and limits to improve performance and resource management"
                .to_string(),
            "Address 2 high-severity issues to improve overall quality".to_string(),
        ]
    );
}

#[test]
fn overall_recommendations_follow_the_thresholds() {
    let mut clean = RunningSummary::new();
    clean.fold(&analyze(&deployment(2, compliant_container(), true)));
    assert!(generate_overall_recommendations(&clean, false).is_empty());

    let mut messy = RunningSummary::new();
    messy.fold(&analyze(&bare_pod(plain_container())));
    let recs = generate_overall_recommendations(&messy, false);
    assert_eq!(
        recs,
        vec![
            "Overall security score is below recommended threshold. Focus on improving security contexts and image management."
                .to_string(),
            "Performance can be improved by adding proper resource management across all resources."
                .to_string(),
            "High number of issues detected. Consider implementing a systematic review process."
                .to_string(),
        ]
    );
}
