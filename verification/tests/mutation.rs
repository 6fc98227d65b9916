use rustykube::doc::Node;
use rustykube::fix::fix_resource;
use rustykube::optimize::{optimize_advisories, optimize_resource};
use rustykube::util::is_kubernetes_file;

fn s(v: &str) -> Node {
    Node::Str(v.to_string())
}

fn m(entries: Vec<(&str, Node)>) -> Node {
    Node::Mapping(entries.into_iter().map(|(k, v)| (k.to_string(), v)).collect())
}

fn get<'a>(doc: &'a Node, key: &str) -> Option<&'a Node> {
    match doc {
        Node::Mapping(es) => es.iter().find(|(k, _)| k == key).map(|(_, v)| v),
        _ => None,
    }
}

fn get_path<'a>(doc: &'a Node, path: &[&str]) -> Option<&'a Node> {
    let mut cur = doc;
    for key in path {
        cur = get(cur, key)?;
    }
    Some(cur)
}

fn bare_pod(container: Node) -> Node {
    m(vec![
        ("apiVersion", s("v1")),
        ("kind", s("Pod")),
        ("metadata", m(vec![("name", s("web"))])),
        ("spec", m(vec![("containers", Node::Sequence(vec![container]))])),
    ])
}

fn first_container(doc: &Node) -> &Node {
    let spec = get(doc, "spec").expect("spec");
    let holder = match get(spec, "template") {
        Some(t) => get(t, "spec").expect("template spec"),
        None => spec,
    };
    match get(holder, "containers") {
        Some(Node::Sequence(cs)) => &cs[0],
        _ => panic!("no containers"),
    }
}

#[test]
fn fix_inserts_the_default_resource_block_with_one_record() {
    let pod = bare_pod(m(vec![("name", s("app")), ("image", s("nginx:1.25"))]));
    let (fixed, records) = fix_resource(pod);
    let c = first_container(&fixed);
    assert_eq!(
        get_path(c, &["resources", "requests", "cpu"]),
        Some(&s("100m"))
    );
    assert_eq!(
        get_path(c, &["resources", "requests", "memory"]),
        Some(&s("128Mi"))
    );
    assert_eq!(
        get_path(c, &["resources", "limits", "cpu"]),
        Some(&s("500m"))
    );
    assert_eq!(
        get_path(c, &["resources", "limits", "memory"]),
        Some(&s("512Mi"))
    );
    let resource_records: Vec<&String> = records
        .iter()
        .filter(|r| r.contains("resource requests and limits"))
        .collect();
    assert_eq!(resource_records.len(), 1);
    assert_eq!(
        resource_records[0],
        "Added resource requests and limits for container 'app'"
    );
}

#[test]
fn fix_records_every_insertion_in_order() {
    let pod = bare_pod(m(vec![("name", s("app")), ("image", s("nginx:latest"))]));
    let (_, records) = fix_resource(pod);
    assert_eq!(
        records,
        vec![
            "Added 'app' label based on resource name".to_string(),
            "Added resource requests and limits for container 'app'".to_string(),
            "Added readiness probe for container 'app'".to_string(),
            "Added liveness probe for container 'app'".to_string(),
            "Added security context for container 'app'".to_string(),
            "Changed image from 'nginx:latest' to 'nginx:1.0.0'".to_string(),
            "Added restartPolicy: Always".to_string(),
        ]
    );
}

#[test]
fn fix_retags_latest_and_untagged_images() {
    let pod = bare_pod(m(vec![("name", s("a")), ("image", s("nginx:latest"))]));
    let (fixed, _) = fix_resource(pod);
    assert_eq!(get(first_container(&fixed), "image"), Some(&s("nginx:1.0.0")));

    let pod2 = bare_pod(m(vec![("name", s("a")), ("image", s("nginx"))]));
    let (fixed2, records2) = fix_resource(pod2);
    assert_eq!(get(first_container(&fixed2), "image"), Some(&s("nginx:1.0.0")));
    assert!(records2.contains(&"Changed image from 'nginx' to 'nginx:1.0.0'".to_string()));
}

#[test]
fn fix_never_overwrites_present_values() {
    let c = m(vec![
        ("name", s("app")),
        ("image", s("nginx:2.0")),
        ("resources", m(vec![("requests", m(vec![("cpu", s("250m"))]))])),
    ]);
    let pod = bare_pod(c);
    let (fixed, records) = fix_resource(pod);
    let fc = first_container(&fixed);
    assert_eq!(get_path(fc, &["resources", "requests", "cpu"]), Some(&s("250m")));
    assert!(get_path(fc, &["resources", "limits"]).is_none());
    assert!(!records.iter().any(|r| r.contains("resource requests")));
    assert_eq!(get(fc, "image"), Some(&s("nginx:2.0")));
}

#[test]
fn fix_adds_deployment_defaults() {
    let dep = m(vec![
        ("apiVersion", s("apps/v1")),
        ("kind", s("Deployment")),
        ("metadata", m(vec![("name", s("web"))])),
        (
            "spec",
            m(vec![(
                "template",
                m(vec![("spec", m(vec![("containers", Node::Sequence(vec![]))]))]),
            )]),
        ),
    ]);
    let (fixed, records) = fix_resource(dep);
    assert!(records.contains(&"Added selector for Deployment".to_string()));
    assert!(records.contains(&"Set replicas to 2".to_string()));
    assert_eq!(get_path(&fixed, &["spec", "replicas"]), Some(&Node::Int(2)));
    assert_eq!(
        get_path(&fixed, &["spec", "selector", "matchLabels", "app"]),
        Some(&s("app-name"))
    );
}

#[test]
fn fix_adds_service_defaults() {
    let svc = m(vec![
        ("apiVersion", s("v1")),
        ("kind", s("Service")),
        ("metadata", m(vec![("name", s("svc"))])),
        ("spec", m(vec![])),
    ]);
    let (fixed, records) = fix_resource(svc);
    assert!(records.contains(&"Added default port configuration".to_string()));
    assert!(records.contains(&"Added selector for Service".to_string()));
    match get_path(&fixed, &["spec", "ports"]) {
        Some(Node::Sequence(ports)) => {
            assert_eq!(ports.len(), 1);
            assert_eq!(get(&ports[0], "port"), Some(&Node::Int(80)));
            assert_eq!(get(&ports[0], "targetPort"), Some(&Node::Int(8080)));
            assert_eq!(get(&ports[0], "protocol"), Some(&s("TCP")));
        },
        _ => panic!("ports not inserted"),
    }
}

#[test]
fn fix_is_idempotent() {
    let pod = bare_pod(m(vec![("name", s("app")), ("image", s("nginx:latest"))]));
    let (once, first_records) = fix_resource(pod);
    assert!(!first_records.is_empty());
    let (twice, second_records) = fix_resource(once);
    assert!(second_records.is_empty());
    let (_thrice, third_records) = fix_resource(twice);
    assert!(third_records.is_empty());
}

#[test]
fn fix_mutates_template_wrapped_containers_like_bare_ones() {
    let dep = m(vec![
        ("apiVersion", s("apps/v1")),
        ("kind", s("Deployment")),
        ("metadata", m(vec![("name", s("web"))])),
        (
            "spec",
            m(vec![
                ("selector", m(vec![("matchLabels", m(vec![("app", s("web"))]))])),
                ("replicas", Node::Int(2)),
                (
                    "template",
                    m(vec![(
                        "spec",
                        m(vec![(
                            "containers",
                            Node::Sequence(vec![m(vec![("name", s("app"))])]),
                        )]),
                    )]),
                ),
            ]),
        ),
    ]);
    let (fixed, _) = fix_resource(dep);
    let c = first_container(&fixed);
    assert!(get(c, "resources").is_some());
    assert!(get(c, "readinessProbe").is_some());
    assert!(get(c, "livenessProbe").is_some());
    assert!(get(c, "securityContext").is_some());
}

#[test]
fn optimize_adds_recommended_labels_and_requests() {
    let pod = bare_pod(m(vec![("name", s("app")), ("image", s("nginx:1.25"))]));
    let (opt, records) = optimize_resource(pod, false);
    assert!(records.contains(&"Added recommended label: app.kubernetes.io/name".to_string()));
    assert!(records.contains(&"Added recommended label: app.kubernetes.io/version".to_string()));
    assert!(records.contains(&"Added recommended label: app.kubernetes.io/component".to_string()));
    assert!(records.contains(&"Added CPU request: 100m".to_string()));
    assert!(records.contains(&"Added memory request: 128Mi".to_string()));
    assert!(records.contains(&"Added runAsNonRoot: true".to_string()));
    assert!(records.contains(&"Added restartPolicy: Always".to_string()));
    // Conservative mode inserts no limits and no read-only filesystem.
    assert!(!records.iter().any(|r| r.contains("limit")));
    assert!(!records.iter().any(|r| r.contains("readOnlyRootFilesystem")));
    let c = first_container(&opt);
    assert_eq!(get_path(c, &["resources", "requests", "cpu"]), Some(&s("100m")));
    assert_eq!(
        get_path(&opt, &["metadata", "labels", "app.kubernetes.io/version"]),
        Some(&s("TODO-1.0.0"))
    );
}

#[test]
fn aggressive_optimize_also_sets_limits_and_read_only_root() {
    let pod = bare_pod(m(vec![("name", s("app")), ("image", s("nginx:1.25"))]));
    let (opt, records) = optimize_resource(pod, true);
    assert!(records.contains(&"Added CPU limit: 500m".to_string()));
    assert!(records.contains(&"Added memory limit: 512Mi".to_string()));
    assert!(records.contains(&"Added readOnlyRootFilesystem: true".to_string()));
    assert!(records.contains(&"Added dnsPolicy: ClusterFirst".to_string()));
    let c = first_container(&opt);
    assert_eq!(get_path(c, &["resources", "limits", "memory"]), Some(&s("512Mi")));
    assert_eq!(
        get_path(c, &["securityContext", "readOnlyRootFilesystem"]),
        Some(&Node::Bool(true))
    );
}

#[test]
fn optimize_rewrites_always_pull_policy() {
    let pod = bare_pod(m(vec![
        ("name", s("app")),
        ("image", s("nginx:1.25")),
        ("imagePullPolicy", s("Always")),
    ]));
    let (opt, records) = optimize_resource(pod, false);
    assert!(records.contains(&"Changed imagePullPolicy from Always to IfNotPresent".to_string()));
    assert_eq!(
        get(first_container(&opt), "imagePullPolicy"),
        Some(&s("IfNotPresent"))
    );
    let pod2 = bare_pod(m(vec![
        ("name", s("app")),
        ("image", s("nginx:1.25")),
        ("imagePullPolicy", s("IfNotPresent")),
    ]));
    let (_, records2) = optimize_resource(pod2, false);
    assert!(!records2.iter().any(|r| r.contains("imagePullPolicy")));
}

#[test]
fn optimize_deployment_gains_strategy_and_aggressive_replicas() {
    let dep = m(vec![
        ("apiVersion", s("apps/v1")),
        ("kind", s("Deployment")),
        ("metadata", m(vec![("name", s("web"))])),
        (
            "spec",
            m(vec![(
                "template",
                m(vec![("spec", m(vec![("containers", Node::Sequence(vec![]))]))]),
            )]),
        ),
    ]);
    let (opt, records) = optimize_resource(dep, true);
    assert!(records.contains(&"Added RollingUpdate strategy".to_string()));
    assert!(records.contains(&"Set replicas to 3 for high availability".to_string()));
    assert_eq!(get_path(&opt, &["spec", "strategy", "type"]), Some(&s("RollingUpdate")));
    assert_eq!(
        get_path(&opt, &["spec", "strategy", "rollingUpdate", "maxSurge"]),
        Some(&s("25%"))
    );
    assert_eq!(get_path(&opt, &["spec", "replicas"]), Some(&Node::Int(3)));
}

#[test]
fn optimize_service_notes_load_balancer_without_mutating_it() {
    let svc = m(vec![
        ("apiVersion", s("v1")),
        ("kind", s("Service")),
        ("metadata", m(vec![("name", s("svc"))])),
        ("spec", m(vec![("type", s("LoadBalancer"))])),
    ]);
    // The advisory changes nothing, so it is not a ChangeRecord; it comes
    // from its own accessor.
    assert_eq!(
        optimize_advisories(&svc),
        vec![
            "Consider using ClusterIP instead of LoadBalancer if external access not required"
                .to_string()
        ]
    );
    let (opt, records) = optimize_resource(svc, false);
    assert!(!records.iter().any(|r| r.contains("ClusterIP")));
    assert!(records.contains(&"Added explicit sessionAffinity: None".to_string()));
    assert_eq!(get_path(&opt, &["spec", "type"]), Some(&s("LoadBalancer")));
    assert_eq!(get_path(&opt, &["spec", "sessionAffinity"]), Some(&s("None")));
    // A ClusterIP Service gets no advisory.
    let plain = m(vec![
        ("apiVersion", s("v1")),
        ("kind", s("Service")),
        ("metadata", m(vec![("name", s("svc"))])),
        ("spec", m(vec![("type", s("ClusterIP"))])),
    ]);
    assert!(optimize_advisories(&plain).is_empty());
}

#[test]
fn optimize_is_idempotent_per_aggressiveness_flag() {
    for aggressive in [false, true] {
        let pod = bare_pod(m(vec![("name", s("app")), ("image", s("nginx:1.25"))]));
        let (once, first_records) = optimize_resource(pod, aggressive);
        assert!(!first_records.is_empty());
        let (_twice, second_records) = optimize_resource(once, aggressive);
        assert!(second_records.is_empty(), "second run recorded: {:?}", second_records);
    }
}

#[test]
fn optimize_is_idempotent_even_on_a_load_balancer_service() {
    let svc = m(vec![
        ("apiVersion", s("v1")),
        ("kind", s("Service")),
        ("metadata", m(vec![("name", s("svc"))])),
        ("spec", m(vec![("type", s("LoadBalancer"))])),
    ]);
    let (once, first_records) = optimize_resource(svc, false);
    assert!(!first_records.is_empty());
    let (_twice, second_records) = optimize_resource(once, false);
    assert!(second_records.is_empty(), "second run recorded: {:?}", second_records);
}

#[test]
fn fix_skips_shapes_it_does_not_understand() {
    let (fixed, records) = fix_resource(Node::Str("not a mapping".to_string()));
    assert_eq!(fixed, Node::Str("not a mapping".to_string()));
    assert!(records.is_empty());
    let cm = m(vec![
        ("apiVersion", s("v1")),
        ("kind", s("ConfigMap")),
        ("metadata", m(vec![("name", s("cm")), ("labels", m(vec![("app", s("cm"))]))])),
    ]);
    let (fixed_cm, cm_records) = fix_resource(cm);
    assert!(cm_records.is_empty());
    assert!(get_path(&fixed_cm, &["metadata", "labels", "app"]).is_some());
}

#[test]
fn yaml_paths_are_recognised_by_extension() {
    assert!(is_kubernetes_file(&"deploy.yaml".to_string()));
    assert!(is_kubernetes_file(&"deploy.yml".to_string()));
    assert!(is_kubernetes_file(&"/etc/manifests/app.YAML".to_string()));
    assert!(is_kubernetes_file(&"dir.d/app.YaMl".to_string()));
    assert!(!is_kubernetes_file(&"deploy.json".to_string()));
    assert!(!is_kubernetes_file(&"README".to_string()));
    assert!(!is_kubernetes_file(&".yaml".to_string()));
    assert!(!is_kubernetes_file(&"dir.yaml/file".to_string()));
}
