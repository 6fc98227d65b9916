use vstd::prelude::*;
use vstd::string::StringExecFns;
use crate::doc::{
    Node, NodeV, node_view, nodes_view, containers, containers_v, pod_spec, pod_spec_v, child_of,
    str_child, int_child, bool_child, get_child, get_str_child, get_int_child, get_bool_child,
};
use crate::util::{is_latest_image, is_untagged_image, image_has_latest_tag, image_has_colon};

verus! {

/// A dimension score clamped into the documented `[0, 100]` band.
pub open spec fn clamp100(x: int) -> int {
    if x < 0 {
        0
    } else if x > 100 {
        100
    } else {
        x
    }
}

/// Sum of a per-container measure over a container list.
pub open spec fn sum_by(s: Seq<NodeV>, f: spec_fn(NodeV) -> int) -> int
    decreases s.len(),
{
    if s.len() == 0 {
        0
    } else {
        f(s[0]) + sum_by(s.drop_first(), f)
    }
}

pub proof fn lemma_sum_by_push(s: Seq<NodeV>, f: spec_fn(NodeV) -> int, x: NodeV)
    ensures
        sum_by(s.push(x), f) == sum_by(s, f) + f(x),
    decreases s.len(),
{
    let p = s.push(x);
    assert(p.len() == s.len() + 1);
    if s.len() == 0 {
        assert(p[0] == x);
        assert(p.drop_first() =~= Seq::<NodeV>::empty());
        assert(sum_by(p, f) == f(p[0]) + sum_by(p.drop_first(), f));
        assert(sum_by(p.drop_first(), f) == 0);
    } else {
        assert(p[0] == s[0]);
        assert(p.drop_first() =~= s.drop_first().push(x));
        lemma_sum_by_push(s.drop_first(), f, x);
        assert(sum_by(p, f) == f(p[0]) + sum_by(p.drop_first(), f));
    }
}

/// Kind-specific weight of the complexity score; absent or non-string kinds
/// add nothing.
pub open spec fn kind_weight(d: NodeV) -> int {
    match str_child(d, "kind"@) {
        Some(k) => if k == "Pod"@ {
            10
        } else if k == "Deployment"@ {
            20
        } else if k == "StatefulSet"@ {
            30
        } else if k == "DaemonSet"@ {
            25
        } else if k == "Service"@ {
            15
        } else if k == "Ingress"@ {
            35
        } else {
            5
        },
        None => 0,
    }
}

pub open spec fn container_count(d: NodeV) -> int {
    match containers_v(d) {
        Some(cs) => cs.len() as int,
        None => 0,
    }
}

pub open spec fn volume_count(d: NodeV) -> int {
    match child_of(d, "spec"@) {
        Some(s) => match child_of(s, "volumes"@) {
            Some(NodeV::Sequence(vs)) => vs.len() as int,
            _ => 0,
        },
        None => 0,
    }
}

/// Complexity: base 50, plus the kind weight, 10 per container and 5 per
/// declared volume, capped at 100.
pub open spec fn complexity_score_v(d: NodeV) -> int {
    clamp100(50 + kind_weight(d) + 10 * container_count(d) + 5 * volume_count(d))
}

/// Security deductions of one container: 25 without any security context,
/// else 15 unless `runAsNonRoot` is exactly `true`, 10 unless
/// `readOnlyRootFilesystem` is exactly `true`, 20 when
/// `allowPrivilegeEscalation` is exactly `true`; plus 15 for a `:latest` or
/// untagged image.
pub open spec fn security_deduction(c: NodeV) -> int {
    (match child_of(c, "securityContext"@) {
        Some(sc) => (if bool_child(sc, "runAsNonRoot"@) == Some(true) {
            0int
        } else {
            15int
        }) + (if bool_child(sc, "readOnlyRootFilesystem"@) == Some(true) {
            0int
        } else {
            10int
        }) + (if bool_child(sc, "allowPrivilegeEscalation"@) == Some(true) {
            20int
        } else {
            0int
        }),
        None => 25,
    }) + (match str_child(c, "image"@) {
        Some(img) => if is_latest_image(img) || is_untagged_image(img) {
            15int
        } else {
            0int
        },
        None => 0,
    })
}

/// Security: base 100 less the per-container deductions, floored at 0.
pub open spec fn security_score_v(d: NodeV) -> int {
    clamp100(
        100 - (match containers_v(d) {
            Some(cs) => sum_by(cs, |c: NodeV| security_deduction(c)),
            None => 0,
        }),
    )
}

/// Performance deductions of one container: 30 without a resource block,
/// else 20 without `requests` and 15 without `limits`; plus 10 for each
/// missing probe.
pub open spec fn performance_deduction(c: NodeV) -> int {
    (match child_of(c, "resources"@) {
        Some(r) => (if child_of(r, "requests"@) is Some {
            0int
        } else {
            20int
        }) + (if child_of(r, "limits"@) is Some {
            0int
        } else {
            15int
        }),
        None => 30,
    }) + (if child_of(c, "livenessProbe"@) is Some {
        0int
    } else {
        10int
    }) + (if child_of(c, "readinessProbe"@) is Some {
        0int
    } else {
        10int
    })
}

/// Performance: base 100 less the per-container deductions, floored at 0.
pub open spec fn performance_score_v(d: NodeV) -> int {
    clamp100(
        100 - (match containers_v(d) {
            Some(cs) => sum_by(cs, |c: NodeV| performance_deduction(c)),
            None => 0,
        }),
    )
}

/// Probe deductions of one container for the reliability score.
pub open spec fn probe_deduction(c: NodeV) -> int {
    (if child_of(c, "livenessProbe"@) is Some {
        0int
    } else {
        15int
    }) + (if child_of(c, "readinessProbe"@) is Some {
        0int
    } else {
        15int
    })
}

/// 20 when a Deployment declares fewer than two replicas.
pub open spec fn replica_deduction(d: NodeV) -> int {
    if str_child(d, "kind"@) == Some("Deployment"@) && (match child_of(d, "spec"@) {
        Some(s) => match int_child(s, "replicas"@) {
            Some(r) => 0 <= r < 2,
            None => false,
        },
        None => false,
    }) {
        20
    } else {
        0
    }
}

/// 10 when the document has a spec whose pod-level restart policy is not
/// exactly `Always`; the pod level is resolved by [`pod_spec_v`], the same
/// resolution the container list uses.
pub open spec fn restart_deduction(d: NodeV) -> int {
    match child_of(d, "spec"@) {
        Some(_) => match pod_spec_v(d) {
            Some(h) => if str_child(h, "restartPolicy"@) == Some("Always"@) {
                0int
            } else {
                10int
            },
            None => 10,
        },
        None => 0,
    }
}

/// Reliability: base 100, less 20 for an under-replicated Deployment, 15 per
/// missing liveness or readiness probe, and 10 for a restart policy other
/// than `Always`, floored at 0.
pub open spec fn reliability_score_v(d: NodeV) -> int {
    clamp100(
        100 - replica_deduction(d) - (match containers_v(d) {
            Some(cs) => sum_by(cs, |c: NodeV| probe_deduction(c)),
            None => 0,
        }) - restart_deduction(d),
    )
}

fn kind_weight_x(doc: &Node) -> (r: u32)
    ensures
        r == kind_weight(node_view(*doc)),
        r <= 35,
{
    match get_str_child(doc, "kind") {
        Some(s) => {
            if s.eq(&"Pod".to_owned()) {
                10
            } else if s.eq(&"Deployment".to_owned()) {
                20
            } else if s.eq(&"StatefulSet".to_owned()) {
                30
            } else if s.eq(&"DaemonSet".to_owned()) {
                25
            } else if s.eq(&"Service".to_owned()) {
                15
            } else if s.eq(&"Ingress".to_owned()) {
                35
            } else {
                5
            }
        },
        None => 0,
    }
}

/// Structural complexity of one document, in `[0, 100]`.
pub fn calculate_complexity_score(doc: &Node) -> (r: u32)
    ensures
        r == complexity_score_v(node_view(*doc)),
        0 <= r <= 100,
{
    let w = kind_weight_x(doc);
    let cn: usize = match containers(doc) {
        Some(cs) => cs.len(),
        None => 0,
    };
    let vn: usize = match get_child(doc, "spec") {
        Some(s) => match get_child(s, "volumes") {
            Some(Node::Sequence(vs)) => vs.len(),
            _ => 0,
        },
        None => 0,
    };
    if cn >= 5 || vn >= 10 {
        100
    } else {
        let raw = 50 + w + 10 * (cn as u32) + 5 * (vn as u32);
        if raw > 100 {
            100
        } else {
            raw
        }
    }
}

fn security_deduction_x(c: &Node) -> (r: u32)
    ensures
        r == security_deduction(node_view(*c)),
        r <= 60,
{
    let ctx: u32 = match get_child(c, "securityContext") {
        Some(sc) => {
            let a: u32 = match get_bool_child(sc, "runAsNonRoot") {
                Some(true) => 0,
                _ => 15,
            };
            let b: u32 = match get_bool_child(sc, "readOnlyRootFilesystem") {
                Some(true) => 0,
                _ => 10,
            };
            let p: u32 = match get_bool_child(sc, "allowPrivilegeEscalation") {
                Some(true) => 20,
                _ => 0,
            };
            a + b + p
        },
        None => 25,
    };
    let img: u32 = match get_str_child(c, "image") {
        Some(s) => {
            if image_has_latest_tag(s) || !image_has_colon(s) {
                15
            } else {
                0
            }
        },
        None => 0,
    };
    ctx + img
}

/// Hardening posture of one document, in `[0, 100]`.
#[verifier::loop_isolation(false)]
pub fn calculate_security_score(doc: &Node) -> (r: u32)
    ensures
        r == security_score_v(node_view(*doc)),
        0 <= r <= 100,
{
    let ghost f = |c: NodeV| security_deduction(c);
    let mut score: u32 = 100;
    match containers(doc) {
        Some(cs) => {
            let ghost cv = nodes_view(cs@);
            let mut i: usize = 0;
            while i < cs.len()
                invariant
                    0 <= i <= cs.len(),
                    cv == nodes_view(cs@),
                    cv.len() == cs.len(),
                    score == clamp100(100 - sum_by(cv.take(i as int), f)),
                    sum_by(cv.take(i as int), f) >= 0,
                decreases cs.len() - i,
            {
                let d = security_deduction_x(&cs[i]);
                proof {
                    assert(cv.take(i + 1) =~= cv.take(i as int).push(cv[i as int]));
                    lemma_sum_by_push(cv.take(i as int), f, cv[i as int]);
                }
                score = if score > d {
                    score - d
                } else {
                    0
                };
                i = i + 1;
            }
            proof {
                assert(cv.take(cs.len() as int) =~= cv);
            }
        },
        None => {},
    }
    score
}

fn performance_deduction_x(c: &Node) -> (r: u32)
    ensures
        r == performance_deduction(node_view(*c)),
        r <= 55,
{
    let res: u32 = match get_child(c, "resources") {
        Some(r) => {
            let a: u32 = match get_child(r, "requests") {
                Some(_) => 0,
                None => 20,
            };
            let b: u32 = match get_child(r, "limits") {
                Some(_) => 0,
                None => 15,
            };
            a + b
        },
        None => 30,
    };
    let lv: u32 = match get_child(c, "livenessProbe") {
        Some(_) => 0,
        None => 10,
    };
    let rd: u32 = match get_child(c, "readinessProbe") {
        Some(_) => 0,
        None => 10,
    };
    res + lv + rd
}

/// Operational readiness of one document, in `[0, 100]`.
#[verifier::loop_isolation(false)]
pub fn calculate_performance_score(doc: &Node) -> (r: u32)
    ensures
        r == performance_score_v(node_view(*doc)),
        0 <= r <= 100,
{
    let ghost f = |c: NodeV| performance_deduction(c);
    let mut score: u32 = 100;
    match containers(doc) {
        Some(cs) => {
            let ghost cv = nodes_view(cs@);
            let mut i: usize = 0;
            while i < cs.len()
                invariant
                    0 <= i <= cs.len(),
                    cv == nodes_view(cs@),
                    cv.len() == cs.len(),
                    score == clamp100(100 - sum_by(cv.take(i as int), f)),
                    sum_by(cv.take(i as int), f) >= 0,
                decreases cs.len() - i,
            {
                let d = performance_deduction_x(&cs[i]);
                proof {
                    assert(cv.take(i + 1) =~= cv.take(i as int).push(cv[i as int]));
                    lemma_sum_by_push(cv.take(i as int), f, cv[i as int]);
                }
                score = if score > d {
                    score - d
                } else {
                    0
                };
                i = i + 1;
            }
            proof {
                assert(cv.take(cs.len() as int) =~= cv);
            }
        },
        None => {},
    }
    score
}

fn probe_deduction_x(c: &Node) -> (r: u32)
    ensures
        r == probe_deduction(node_view(*c)),
        r <= 30,
{
    let lv: u32 = match get_child(c, "livenessProbe") {
        Some(_) => 0,
        None => 15,
    };
    let rd: u32 = match get_child(c, "readinessProbe") {
        Some(_) => 0,
        None => 15,
    };
    lv + rd
}

/// Fault tolerance of one document, in `[0, 100]`.
#[verifier::loop_isolation(false)]
pub fn calculate_reliability_score(doc: &Node) -> (r: u32)
    ensures
        r == reliability_score_v(node_view(*doc)),
        0 <= r <= 100,
{
    let ghost dv = node_view(*doc);
    let ghost f = |c: NodeV| probe_deduction(c);
    let mut score: u32 = 100;
    let is_deployment = match get_str_child(doc, "kind") {
        Some(s) => s.eq(&"Deployment".to_owned()),
        None => false,
    };
    if is_deployment {
        let low = match get_child(doc, "spec") {
            Some(s) => match get_int_child(s, "replicas") {
                Some(r) => 0 <= r && r < 2,
                None => false,
            },
            None => false,
        };
        if low {
            score = score - 20;
        }
    }
    assert(score == clamp100(100 - replica_deduction(dv)));
    match containers(doc) {
        Some(cs) => {
            let ghost cv = nodes_view(cs@);
            let mut i: usize = 0;
            while i < cs.len()
                invariant
                    0 <= i <= cs.len(),
                    cv == nodes_view(cs@),
                    cv.len() == cs.len(),
                    score == clamp100(
                        100 - replica_deduction(dv) - sum_by(cv.take(i as int), f),
                    ),
                    sum_by(cv.take(i as int), f) >= 0,
                decreases cs.len() - i,
            {
                let d = probe_deduction_x(&cs[i]);
                proof {
                    assert(cv.take(i + 1) =~= cv.take(i as int).push(cv[i as int]));
                    lemma_sum_by_push(cv.take(i as int), f, cv[i as int]);
                }
                score = if score > d {
                    score - d
                } else {
                    0
                };
                i = i + 1;
            }
            proof {
                assert(cv.take(cs.len() as int) =~= cv);
            }
        },
        None => {},
    }
    let restart_ok = match get_child(doc, "spec") {
        Some(_) => match pod_spec(doc) {
            Some(h) => match get_str_child(h, "restartPolicy") {
                Some(p) => p.eq(&"Always".to_owned()),
                None => false,
            },
            None => false,
        },
        None => true,
    };
    if !restart_ok {
        score = if score > 10 {
            score - 10
        } else {
            0
        };
    }
    score
}

} // verus!
