use vstd::prelude::*;
use vstd::string::StringExecFns;
use crate::doc::{
    Node, NodeV, node_view, nodes_view, containers, containers_v, child_of, str_child, int_child,
    get_child, get_str_child, get_int_child, ResourceIdentity, get_resource_info, kind_v, name_v,
    namespace_v, container_name_v,
};
use crate::util::is_latest_image;
use crate::rules::{labels_missing, strs_view};
use crate::score::{
    calculate_complexity_score, calculate_security_score, calculate_performance_score,
    calculate_reliability_score, complexity_score_v, security_score_v, performance_score_v,
    reliability_score_v,
};

verus! {

/// How serious one finding is.
#[derive(Debug, PartialEq, Eq, Structural, Clone, Copy)]
pub enum Severity {
    High,
    Medium,
    Low,
}

/// One detected deviation from a best-practice rule.
#[derive(Debug, PartialEq)]
pub struct Finding {
    pub severity: Severity,
    pub category: String,
    pub message: String,
    pub recommendation: String,
}

/// Mathematical shape of a [`Finding`].
pub struct FindingV {
    pub severity: Severity,
    pub category: Seq<char>,
    pub message: Seq<char>,
    pub recommendation: Seq<char>,
}

pub open spec fn finding_view(f: Finding) -> FindingV {
    FindingV {
        severity: f.severity,
        category: f.category@,
        message: f.message@,
        recommendation: f.recommendation@,
    }
}

pub open spec fn findings_view(s: Seq<Finding>) -> Seq<FindingV> {
    Seq::new(s.len(), |i: int| finding_view(s[i]))
}

/// Findings raised for one container: a missing resource block, a missing
/// security context, and a `:latest` image tag, in that order.
pub open spec fn container_findings_v(c: NodeV) -> Seq<FindingV> {
    (if child_of(c, "resources"@) is None {
        seq![
            FindingV {
                severity: Severity::High,
                category: "Performance"@,
                message: "Container '"@ + container_name_v(c) + "' has no resource limits"@,
                recommendation: "Add CPU and memory requests and limits"@,
            },
        ]
    } else {
        Seq::empty()
    }) + (if child_of(c, "securityContext"@) is None {
        seq![
            FindingV {
                severity: Severity::High,
                category: "Security"@,
                message: "Container '"@ + container_name_v(c) + "' has no security context"@,
                recommendation: "Add security context with runAsNonRoot and other security settings"@,
            },
        ]
    } else {
        Seq::empty()
    }) + (match str_child(c, "image"@) {
        Some(img) => if is_latest_image(img) {
            seq![
                FindingV {
                    severity: Severity::Medium,
                    category: "Best Practices"@,
                    message: "Container '"@ + container_name_v(c) + "' uses 'latest' image tag"@,
                    recommendation: "Use specific version tags for reproducible deployments"@,
                },
            ]
        } else {
            Seq::empty()
        },
        None => Seq::empty(),
    })
}

pub open spec fn findings_of_containers(cs: Seq<NodeV>) -> Seq<FindingV>
    decreases cs.len(),
{
    if cs.len() == 0 {
        Seq::empty()
    } else {
        findings_of_containers(cs.drop_last()) + container_findings_v(cs.last())
    }
}

/// Every finding of one document: the missing-labels finding, then each
/// container's findings in container order.
pub open spec fn findings_v(d: NodeV) -> Seq<FindingV> {
    (if labels_missing(d) {
        seq![
            FindingV {
                severity: Severity::Medium,
                category: "Best Practices"@,
                message: "Resource has no labels"@,
                recommendation: "Add labels for better organization and selection"@,
            },
        ]
    } else {
        Seq::empty()
    }) + (match containers_v(d) {
        Some(cs) => findings_of_containers(cs),
        None => Seq::empty(),
    })
}

fn container_name(c: &Node) -> (r: String)
    ensures
        r@ == container_name_v(node_view(*c)),
{
    match get_str_child(c, "name") {
        Some(s) => s.clone(),
        None => "unknown".to_owned(),
    }
}

fn quoted_msg(prefix: &str, name: &String, suffix: &str) -> (r: String)
    ensures
        r@ == prefix@ + name@ + suffix@,
{
    prefix.to_owned().concat(name.as_str()).concat(suffix)
}

fn push_container_findings(c: &Node, out: &mut Vec<Finding>)
    ensures
        findings_view(final(out)@) == findings_view(old(out)@) + container_findings_v(
            node_view(*c),
        ),
{
    let ghost cv = node_view(*c);
    let ghost before = findings_view(out@);
    let name = container_name(c);
    if get_child(c, "resources").is_none() {
        let f = Finding {
            severity: Severity::High,
            category: "Performance".to_owned(),
            message: quoted_msg("Container '", &name, "' has no resource limits"),
            recommendation: "Add CPU and memory requests and limits".to_owned(),
        };
        out.push(f);
    }
    if get_child(c, "securityContext").is_none() {
        let f = Finding {
            severity: Severity::High,
            category: "Security".to_owned(),
            message: quoted_msg("Container '", &name, "' has no security context"),
            recommendation: "Add security context with runAsNonRoot and other security settings".to_owned(),
        };
        out.push(f);
    }
    let latest = match get_str_child(c, "image") {
        Some(img) => crate::util::image_has_latest_tag(img),
        None => false,
    };
    if latest {
        let f = Finding {
            severity: Severity::Medium,
            category: "Best Practices".to_owned(),
            message: quoted_msg("Container '", &name, "' uses 'latest' image tag"),
            recommendation: "Use specific version tags for reproducible deployments".to_owned(),
        };
        out.push(f);
    }
    proof {
        assert(findings_view(out@) =~= before + container_findings_v(cv));
    }
}

/// Findings of one document: missing labels, then per-container findings in
/// container order.
#[verifier::loop_isolation(false)]
pub fn identify_issues(doc: &Node) -> (r: Vec<Finding>)
    ensures
        findings_view(r@) == findings_v(node_view(*doc)),
{
    let ghost d = node_view(*doc);
    let mut out: Vec<Finding> = Vec::new();
    let labels_absent = match get_child(doc, "metadata") {
        Some(m) => get_child(m, "labels").is_none(),
        None => false,
    };
    if labels_absent {
        let f = Finding {
            severity: Severity::Medium,
            category: "Best Practices".to_owned(),
            message: "Resource has no labels".to_owned(),
            recommendation: "Add labels for better organization and selection".to_owned(),
        };
        out.push(f);
    }
    let ghost head = findings_view(out@);
    proof {
        assert(findings_view(out@) =~= (if labels_missing(d) {
            seq![
                FindingV {
                    severity: Severity::Medium,
                    category: "Best Practices"@,
                    message: "Resource has no labels"@,
                    recommendation: "Add labels for better organization and selection"@,
                },
            ]
        } else {
            Seq::<FindingV>::empty()
        }));
    }
    match containers(doc) {
        Some(cs) => {
            let ghost cv = nodes_view(cs@);
            let mut i: usize = 0;
            while i < cs.len()
                invariant
                    0 <= i <= cs.len(),
                    findings_view(out@) == head + findings_of_containers(cv.take(i as int)),
                decreases cs.len() - i,
            {
                push_container_findings(&cs[i], &mut out);
                proof {
                    assert(cv.take(i + 1).drop_last() =~= cv.take(i as int));
                    assert(cv.take(i + 1).last() == cv[i as int]);
                }
                i = i + 1;
            }
            proof {
                assert(cv.take(cs.len() as int) =~= cv);
            }
        },
        None => {
            proof {
                assert(findings_view(out@) =~= head + Seq::<FindingV>::empty());
            }
        },
    }
    out
}

/// Resource requests, limits and probe presence summarised over every
/// container: the last stated value of each quantity wins, and the flags say
/// whether any container has a probe or a security context.
#[derive(Debug, PartialEq)]
pub struct ResourceUsage {
    pub cpu_requests: Option<String>,
    pub memory_requests: Option<String>,
    pub cpu_limits: Option<String>,
    pub memory_limits: Option<String>,
    pub has_probes: bool,
    pub has_security_context: bool,
}

pub open spec fn opt_str_view(o: Option<String>) -> Option<Seq<char>> {
    match o {
        Some(s) => Some(s@),
        None => None,
    }
}

/// The stated string under `resources.<outer>.<inner>` of one container.
pub open spec fn stated_quantity(c: NodeV, outer: Seq<char>, inner: Seq<char>) -> Option<
    Seq<char>,
> {
    match child_of(c, "resources"@) {
        Some(r) => match child_of(r, outer) {
            Some(q) => str_child(q, inner),
            None => None,
        },
        None => None,
    }
}

/// The last container's stated value for `resources.<outer>.<inner>`.
pub open spec fn last_stated_quantity(cs: Seq<NodeV>, outer: Seq<char>, inner: Seq<char>) -> Option<
    Seq<char>,
>
    decreases cs.len(),
{
    if cs.len() == 0 {
        None
    } else {
        match stated_quantity(cs.last(), outer, inner) {
            Some(v) => Some(v),
            None => last_stated_quantity(cs.drop_last(), outer, inner),
        }
    }
}

pub open spec fn probe_present(c: NodeV) -> bool {
    child_of(c, "livenessProbe"@) is Some || child_of(c, "readinessProbe"@) is Some
}

pub open spec fn any_probe_present(cs: Seq<NodeV>) -> bool
    decreases cs.len(),
{
    if cs.len() == 0 {
        false
    } else {
        any_probe_present(cs.drop_last()) || probe_present(cs.last())
    }
}

pub open spec fn security_context_present(c: NodeV) -> bool {
    child_of(c, "securityContext"@) is Some
}

pub open spec fn any_security_context(cs: Seq<NodeV>) -> bool
    decreases cs.len(),
{
    if cs.len() == 0 {
        false
    } else {
        any_security_context(cs.drop_last()) || security_context_present(cs.last())
    }
}

pub open spec fn usage_containers(d: NodeV) -> Seq<NodeV> {
    match containers_v(d) {
        Some(cs) => cs,
        None => Seq::empty(),
    }
}

fn stated_quantity_x(c: &Node, outer: &str, inner: &str) -> (r: Option<String>)
    ensures
        opt_str_view(r) == stated_quantity(node_view(*c), outer@, inner@),
{
    match get_child(c, "resources") {
        Some(res) => match get_child(res, outer) {
            Some(q) => match get_str_child(q, inner) {
                Some(s) => Some(s.clone()),
                None => None,
            },
            None => None,
        },
        None => None,
    }
}

/// Summary of requests, limits and probe/security-context presence across
/// all containers of one document.
#[verifier::loop_isolation(false)]
pub fn analyze_resource_usage(doc: &Node) -> (r: ResourceUsage)
    ensures
        opt_str_view(r.cpu_requests) == last_stated_quantity(
            usage_containers(node_view(*doc)),
            "requests"@,
            "cpu"@,
        ),
        opt_str_view(r.memory_requests) == last_stated_quantity(
            usage_containers(node_view(*doc)),
            "requests"@,
            "memory"@,
        ),
        opt_str_view(r.cpu_limits) == last_stated_quantity(
            usage_containers(node_view(*doc)),
            "limits"@,
            "cpu"@,
        ),
        opt_str_view(r.memory_limits) == last_stated_quantity(
            usage_containers(node_view(*doc)),
            "limits"@,
            "memory"@,
        ),
        r.has_probes == any_probe_present(usage_containers(node_view(*doc))),
        r.has_security_context == any_security_context(usage_containers(node_view(*doc))),
{
    let mut usage = ResourceUsage {
        cpu_requests: None,
        memory_requests: None,
        cpu_limits: None,
        memory_limits: None,
        has_probes: false,
        has_security_context: false,
    };
    let cs = match containers(doc) {
        Some(cs) => cs,
        None => {
            proof {
                assert(usage_containers(node_view(*doc)) =~= Seq::<NodeV>::empty());
            }
            return usage;
        },
    };
    let ghost cv = nodes_view(cs@);
    proof {
        assert(usage_containers(node_view(*doc)) == cv);
    }
    let mut i: usize = 0;
    while i < cs.len()
        invariant
            0 <= i <= cs.len(),
            opt_str_view(usage.cpu_requests) == last_stated_quantity(
                cv.take(i as int),
                "requests"@,
                "cpu"@,
            ),
            opt_str_view(usage.memory_requests) == last_stated_quantity(
                cv.take(i as int),
                "requests"@,
                "memory"@,
            ),
            opt_str_view(usage.cpu_limits) == last_stated_quantity(
                cv.take(i as int),
                "limits"@,
                "cpu"@,
            ),
            opt_str_view(usage.memory_limits) == last_stated_quantity(
                cv.take(i as int),
                "limits"@,
                "memory"@,
            ),
            usage.has_probes == any_probe_present(cv.take(i as int)),
            usage.has_security_context == any_security_context(cv.take(i as int)),
        decreases cs.len() - i,
    {
        let c = &cs[i];
        proof {
            assert(cv.take(i + 1).drop_last() =~= cv.take(i as int));
            assert(cv.take(i + 1).last() == cv[i as int]);
        }
        if let Some(v) = stated_quantity_x(c, "requests", "cpu") {
            usage.cpu_requests = Some(v);
        }
        if let Some(v) = stated_quantity_x(c, "requests", "memory") {
            usage.memory_requests = Some(v);
        }
        if let Some(v) = stated_quantity_x(c, "limits", "cpu") {
            usage.cpu_limits = Some(v);
        }
        if let Some(v) = stated_quantity_x(c, "limits", "memory") {
            usage.memory_limits = Some(v);
        }
        let has_probe = get_child(c, "livenessProbe").is_some() || get_child(
            c,
            "readinessProbe",
        ).is_some();
        if has_probe {
            usage.has_probes = true;
        }
        if get_child(c, "securityContext").is_some() {
            usage.has_security_context = true;
        }
        i = i + 1;
    }
    proof {
        assert(cv.take(cs.len() as int) =~= cv);
    }
    usage
}

/// Everything the analysis workflow reports for one document.
#[derive(Debug, PartialEq)]
pub struct Analysis {
    pub identity: ResourceIdentity,
    pub complexity_score: u32,
    pub security_score: u32,
    pub performance_score: u32,
    pub reliability_score: u32,
    pub findings: Vec<Finding>,
    pub resource_usage: ResourceUsage,
}

/// Full analysis of one document: its identity, the four dimension scores,
/// its findings and its resource-usage summary.
pub fn analyze(doc: &Node) -> (r: Analysis)
    ensures
        r.identity.kind@ == kind_v(node_view(*doc)),
        r.identity.name@ == name_v(node_view(*doc)),
        r.identity.namespace@ == namespace_v(node_view(*doc)),
        r.complexity_score == complexity_score_v(node_view(*doc)),
        r.security_score == security_score_v(node_view(*doc)),
        r.performance_score == performance_score_v(node_view(*doc)),
        r.reliability_score == reliability_score_v(node_view(*doc)),
        findings_view(r.findings@) == findings_v(node_view(*doc)),
        0 <= r.complexity_score <= 100,
        0 <= r.security_score <= 100,
        0 <= r.performance_score <= 100,
        0 <= r.reliability_score <= 100,
{
    let identity = get_resource_info(doc);
    let complexity_score = calculate_complexity_score(doc);
    let security_score = calculate_security_score(doc);
    let performance_score = calculate_performance_score(doc);
    let reliability_score = calculate_reliability_score(doc);
    let findings = identify_issues(doc);
    let resource_usage = analyze_resource_usage(doc);
    Analysis {
        identity,
        complexity_score,
        security_score,
        performance_score,
        reliability_score,
        findings,
        resource_usage,
    }
}

/// Kind-specific advisory insights of the detailed analysis: replica-count
/// and strategy advice for Deployments, the LoadBalancer cost note for
/// Services, and the bare-Pod note.  None of them mutates anything.
pub open spec fn insights_v(d: NodeV, kind: Seq<char>) -> Seq<Seq<char>> {
    if kind == "Deployment"@ {
        (match child_of(d, "spec"@) {
            Some(s) => match int_child(s, "replicas"@) {
                Some(r) => if r == 1 {
                    seq!["Consider increasing replicas for high availability"@]
                } else if r > 10 {
                    seq![
                        "High replica count - ensure your cluster can handle the resource requirements"@,
                    ]
                } else {
                    Seq::empty()
                },
                None => Seq::empty(),
            },
            None => Seq::empty(),
        }) + (if (match child_of(d, "spec"@) {
            Some(s) => child_of(s, "strategy"@) is None,
            None => true,
        }) {
            seq!["Consider adding a deployment strategy for controlled rollouts"@]
        } else {
            Seq::empty()
        })
    } else if kind == "Service"@ {
        if (match child_of(d, "spec"@) {
            Some(s) => str_child(s, "type"@) == Some("LoadBalancer"@),
            None => false,
        }) {
            seq![
                "LoadBalancer services incur cloud provider costs - consider using Ingress if appropriate"@,
            ]
        } else {
            Seq::empty()
        }
    } else if kind == "Pod"@ {
        seq!["Consider using Deployments instead of bare Pods for better management"@]
    } else {
        Seq::empty()
    }
}

/// Kind-specific insights of one document, for the detailed report.
pub fn generate_insights(doc: &Node, kind: &str) -> (r: Vec<String>)
    ensures
        strs_view(r@) == insights_v(node_view(*doc), kind@),
{
    let mut insights: Vec<String> = Vec::new();
    proof {
        assert(strs_view(insights@) =~= Seq::<Seq<char>>::empty());
    }
    if kind.to_owned().eq(&"Deployment".to_owned()) {
        let replicas = match get_child(doc, "spec") {
            Some(s) => get_int_child(s, "replicas"),
            None => None,
        };
        match replicas {
            Some(r) => {
                if r == 1 {
                    insights.push("Consider increasing replicas for high availability".to_owned());
                } else if r > 10 {
                    insights.push(
                        "High replica count - ensure your cluster can handle the resource requirements".to_owned(),
                    );
                }
            },
            None => {},
        }
        let ghost head = strs_view(insights@);
        proof {
            assert(head =~= (match child_of(node_view(*doc), "spec"@) {
                Some(s) => match int_child(s, "replicas"@) {
                    Some(r) => if r == 1 {
                        seq!["Consider increasing replicas for high availability"@]
                    } else if r > 10 {
                        seq![
                            "High replica count - ensure your cluster can handle the resource requirements"@,
                        ]
                    } else {
                        Seq::<Seq<char>>::empty()
                    },
                    None => Seq::<Seq<char>>::empty(),
                },
                None => Seq::<Seq<char>>::empty(),
            }));
        }
        let strategy_absent = match get_child(doc, "spec") {
            Some(s) => get_child(s, "strategy").is_none(),
            None => true,
        };
        if strategy_absent {
            insights.push(
                "Consider adding a deployment strategy for controlled rollouts".to_owned(),
            );
            proof {
                assert(strs_view(insights@) =~= head + seq![
                    "Consider adding a deployment strategy for controlled rollouts"@,
                ]);
            }
        } else {
            proof {
                assert(strs_view(insights@) =~= head + Seq::<Seq<char>>::empty());
            }
        }
    } else if kind.to_owned().eq(&"Service".to_owned()) {
        let is_lb = match get_child(doc, "spec") {
            Some(s) => match get_str_child(s, "type") {
                Some(t) => t.eq(&"LoadBalancer".to_owned()),
                None => false,
            },
            None => false,
        };
        if is_lb {
            insights.push(
                "LoadBalancer services incur cloud provider costs - consider using Ingress if appropriate".to_owned(),
            );
            proof {
                assert(strs_view(insights@) =~= insights_v(node_view(*doc), kind@));
            }
        }
    } else if kind.to_owned().eq(&"Pod".to_owned()) {
        insights.push(
            "Consider using Deployments instead of bare Pods for better management".to_owned(),
        );
        proof {
            assert(strs_view(insights@) =~= insights_v(node_view(*doc), kind@));
        }
    } else {
        proof {
            reveal_strlit("Deployment");
            reveal_strlit("Service");
            reveal_strlit("Pod");
        }
    }
    proof {
        assert(strs_view(insights@) =~= insights_v(node_view(*doc), kind@));
    }
    insights
}

} // verus!
