use vstd::prelude::*;
use vstd::string::StringExecFns;
use crate::doc::{
    Node, NodeV, node_view, nodes_view, entries_view, find_in, get_in, has_in, put_in,
    lemma_find_in_props, lemma_find_in_is, lemma_put_in_get, child_of, str_child, container_name_v, get_index,
    get_entry,
};
use crate::util::{
    is_latest_image, is_untagged_image, retagged_image, image_has_latest_tag, image_has_colon,
    retag_image,
};
use crate::rules::strs_view;

verus! {

/// Putting back the value a key already holds changes nothing.
pub proof fn lemma_put_in_same(es: Seq<(Seq<char>, NodeV)>, k: Seq<char>, v: NodeV)
    requires
        get_in(es, k) == Some(v),
        find_in(es, k) != -1 ==> es[find_in(es, k)].0 == k,
    ensures
        put_in(es, k, v) == es,
{
    lemma_find_in_props(es, k);
    let i = find_in(es, k);
    assert(put_in(es, k, v) =~= es);
}

/// Insert a value under an absent key and say so; a present key is left
/// alone and nothing is recorded.
pub open spec fn push_absent(
    es: Seq<(Seq<char>, NodeV)>,
    k: Seq<char>,
    v: NodeV,
    rec: Seq<char>,
) -> (Seq<(Seq<char>, NodeV)>, Seq<Seq<char>>) {
    if has_in(es, k) {
        (es, Seq::empty())
    } else {
        (es.push((k, v)), seq![rec])
    }
}

/// Insert a value under an absent key without a record; the silent step of
/// an `or_insert`.
pub open spec fn ensure_entry(
    es: Seq<(Seq<char>, NodeV)>,
    k: Seq<char>,
    v: NodeV,
) -> Seq<(Seq<char>, NodeV)> {
    if has_in(es, k) {
        es
    } else {
        es.push((k, v))
    }
}

pub proof fn lemma_push_entry_get(es: Seq<(Seq<char>, NodeV)>, e: (Seq<char>, NodeV), k2: Seq<char>)
    ensures
        get_in(es.push(e), e.0) == if has_in(es, e.0) {
            get_in(es, e.0)
        } else {
            Some(e.1)
        },
        k2 != e.0 ==> get_in(es.push(e), k2) == get_in(es, k2),
    decreases es.len(),
{
    lemma_find_in_props(es, e.0);
    lemma_find_in_props(es, k2);
    lemma_find_in_props(es.push(e), e.0);
    lemma_find_in_props(es.push(e), k2);
    let p = es.push(e);
    let i = find_in(es, e.0);
    if i == -1 {
        lemma_find_in_is(p, e.0, es.len() as int);
    } else {
        lemma_find_in_is(p, e.0, i);
    }
    if k2 != e.0 {
        let j = find_in(es, k2);
        if j == -1 {
            if find_in(p, k2) != -1 {
                let f = find_in(p, k2);
                if f < es.len() {
                    assert(es[f] == p[f]);
                }
            }
        } else {
            lemma_find_in_is(p, k2, j);
        }
    }
}

pub(crate) fn push_absent_x(
    es: &mut Vec<(String, Node)>,
    k: &str,
    v: Node,
    rec: &str,
    records: &mut Vec<String>,
) -> (inserted: bool)
    ensures
        entries_view(final(es)@) == push_absent(
            entries_view(old(es)@),
            k@,
            node_view(v),
            rec@,
        ).0,
        strs_view(final(records)@) == strs_view(old(records)@) + push_absent(
            entries_view(old(es)@),
            k@,
            node_view(v),
            rec@,
        ).1,
        inserted == !has_in(entries_view(old(es)@), k@),
{
    let ghost ev = entries_view(es@);
    match get_index(es, k) {
        Some(_) => {
            proof {
                assert(strs_view(records@) =~= strs_view(records@) + Seq::<Seq<char>>::empty());
            }
            false
        },
        None => {
            es.push((k.to_owned(), v));
            records.push(rec.to_owned());
            proof {
                assert(entries_view(es@) =~= ev.push((k@, node_view(v))));
                assert(strs_view(records@) =~= strs_view(old(records)@) + seq![rec@]);
            }
            true
        },
    }
}

pub(crate) fn ensure_entry_x(es: &mut Vec<(String, Node)>, k: &str, v: Node)
    ensures
        entries_view(final(es)@) == ensure_entry(entries_view(old(es)@), k@, node_view(v)),
{
    let ghost ev = entries_view(es@);
    match get_index(es, k) {
        Some(_) => {},
        None => {
            es.push((k.to_owned(), v));
            proof {
                assert(entries_view(es@) =~= ev.push((k@, node_view(v))));
            }
        },
    }
}

fn replace_value_at(es: &mut Vec<(String, Node)>, i: usize, k: &str, v: Node)
    requires
        i < old(es).len(),
        find_in(entries_view(old(es)@), k@) == i as int,
    ensures
        entries_view(final(es)@) == put_in(entries_view(old(es)@), k@, node_view(v)),
{
    let ghost ev = entries_view(es@);
    proof {
        lemma_find_in_props(ev, k@);
    }
    let entry = es.remove(i);
    es.insert(i, (entry.0, v));
    proof {
        assert(entries_view(es@) =~= ev.update(i as int, (k@, node_view(v))));
    }
}

/// Takes the value at index `i` out of the entry list, leaving the key; the
/// caller puts the (possibly rebuilt) value back with `restore_value_at`.
pub(crate) fn take_value_at(es: &mut Vec<(String, Node)>, i: usize) -> (r: (String, Node))
    requires
        i < old(es).len(),
    ensures
        final(es)@ == old(es)@.remove(i as int),
        r == old(es)@[i as int],
{
    es.remove(i)
}

pub(crate) fn restore_value_at(es: &mut Vec<(String, Node)>, i: usize, k: String, v: Node)
    requires
        i <= old(es).len(),
    ensures
        final(es)@ == old(es)@.insert(i as int, (k, v)),
{
    es.insert(i, (k, v));
}

pub(crate) fn mapping1(k1: &str, v1: Node) -> (r: Node)
    ensures
        node_view(r) == NodeV::Mapping(seq![(k1@, node_view(v1))]),
{
    let ghost w1 = node_view(v1);
    let mut es: Vec<(String, Node)> = Vec::new();
    es.push((k1.to_owned(), v1));
    proof {
        assert(entries_view(es@) =~= seq![(k1@, w1)]);
    }
    Node::Mapping(es)
}

pub(crate) fn mapping2(k1: &str, v1: Node, k2: &str, v2: Node) -> (r: Node)
    ensures
        node_view(r) == NodeV::Mapping(seq![(k1@, node_view(v1)), (k2@, node_view(v2))]),
{
    let ghost w1 = node_view(v1);
    let ghost w2 = node_view(v2);
    let mut es: Vec<(String, Node)> = Vec::new();
    es.push((k1.to_owned(), v1));
    es.push((k2.to_owned(), v2));
    proof {
        assert(entries_view(es@) =~= seq![(k1@, w1), (k2@, w2)]);
    }
    Node::Mapping(es)
}

fn mapping3(k1: &str, v1: Node, k2: &str, v2: Node, k3: &str, v3: Node) -> (r: Node)
    ensures
        node_view(r) == NodeV::Mapping(
            seq![(k1@, node_view(v1)), (k2@, node_view(v2)), (k3@, node_view(v3))],
        ),
{
    let ghost w1 = node_view(v1);
    let ghost w2 = node_view(v2);
    let ghost w3 = node_view(v3);
    let mut es: Vec<(String, Node)> = Vec::new();
    es.push((k1.to_owned(), v1));
    es.push((k2.to_owned(), v2));
    es.push((k3.to_owned(), v3));
    proof {
        assert(entries_view(es@) =~= seq![(k1@, w1), (k2@, w2), (k3@, w3)]);
    }
    Node::Mapping(es)
}

fn mapping4(k1: &str, v1: Node, k2: &str, v2: Node, k3: &str, v3: Node, k4: &str, v4: Node) -> (r:
    Node)
    ensures
        node_view(r) == NodeV::Mapping(
            seq![
                (k1@, node_view(v1)),
                (k2@, node_view(v2)),
                (k3@, node_view(v3)),
                (k4@, node_view(v4)),
            ],
        ),
{
    let ghost w1 = node_view(v1);
    let ghost w2 = node_view(v2);
    let ghost w3 = node_view(v3);
    let ghost w4 = node_view(v4);
    let mut es: Vec<(String, Node)> = Vec::new();
    es.push((k1.to_owned(), v1));
    es.push((k2.to_owned(), v2));
    es.push((k3.to_owned(), v3));
    es.push((k4.to_owned(), v4));
    proof {
        assert(entries_view(es@) =~= seq![(k1@, w1), (k2@, w2), (k3@, w3), (k4@, w4)]);
    }
    Node::Mapping(es)
}

pub(crate) fn str_node(s: &str) -> (r: Node)
    ensures
        node_view(r) == NodeV::Str(s@),
{
    Node::Str(s.to_owned())
}

/// The default requests-and-limits block the fix profile inserts.
pub open spec fn default_resources_v() -> NodeV {
    NodeV::Mapping(
        seq![
            (
                "requests"@,
                NodeV::Mapping(
                    seq![("cpu"@, NodeV::Str("100m"@)), ("memory"@, NodeV::Str("128Mi"@))],
                ),
            ),
            (
                "limits"@,
                NodeV::Mapping(
                    seq![("cpu"@, NodeV::Str("500m"@)), ("memory"@, NodeV::Str("512Mi"@))],
                ),
            ),
        ],
    )
}

fn default_resources() -> (r: Node)
    ensures
        node_view(r) == default_resources_v(),
{
    let requests = mapping2("cpu", str_node("100m"), "memory", str_node("128Mi"));
    let limits = mapping2("cpu", str_node("500m"), "memory", str_node("512Mi"));
    mapping2("requests", requests, "limits", limits)
}

/// The default HTTP probe the fix profile inserts: `/health` on port 8080
/// with the given delay and period.
pub open spec fn default_probe_v(delay: int, period: int) -> NodeV {
    NodeV::Mapping(
        seq![
            (
                "httpGet"@,
                NodeV::Mapping(seq![("path"@, NodeV::Str("/health"@)), ("port"@, NodeV::Int(8080))]),
            ),
            ("initialDelaySeconds"@, NodeV::Int(delay)),
            ("periodSeconds"@, NodeV::Int(period)),
        ],
    )
}

fn default_probe(delay: i64, period: i64) -> (r: Node)
    ensures
        node_view(r) == default_probe_v(delay as int, period as int),
{
    let http_get = mapping2("path", str_node("/health"), "port", Node::Int(8080));
    mapping3(
        "httpGet",
        http_get,
        "initialDelaySeconds",
        Node::Int(delay),
        "periodSeconds",
        Node::Int(period),
    )
}

/// The hardened default security context the fix profile inserts.
pub open spec fn default_security_context_v() -> NodeV {
    NodeV::Mapping(
        seq![
            ("runAsNonRoot"@, NodeV::Bool(true)),
            ("runAsUser"@, NodeV::Int(1000)),
            ("allowPrivilegeEscalation"@, NodeV::Bool(false)),
            (
                "capabilities"@,
                NodeV::Mapping(seq![("drop"@, NodeV::Sequence(seq![NodeV::Str("ALL"@)]))]),
            ),
        ],
    )
}

fn default_security_context() -> (r: Node)
    ensures
        node_view(r) == default_security_context_v(),
{
    let mut drop_list: Vec<Node> = Vec::new();
    drop_list.push(str_node("ALL"));
    proof {
        assert(nodes_view(drop_list@) =~= seq![NodeV::Str("ALL"@)]);
    }
    let capabilities = mapping1("drop", Node::Sequence(drop_list));
    mapping4(
        "runAsNonRoot",
        Node::Bool(true),
        "runAsUser",
        Node::Int(1000),
        "allowPrivilegeEscalation",
        Node::Bool(false),
        "capabilities",
        capabilities,
    )
}

fn msg3(prefix: &str, mid: &String, suffix: &str) -> (r: String)
    ensures
        r@ == prefix@ + mid@ + suffix@,
{
    prefix.to_owned().concat(mid.as_str()).concat(suffix)
}

fn msg5(p1: &str, s1: &String, p2: &str, s2: &String, p3: &str) -> (r: String)
    ensures
        r@ == p1@ + s1@ + p2@ + s2@ + p3@,
{
    p1.to_owned().concat(s1.as_str()).concat(p2).concat(s2.as_str()).concat(p3)
}

fn entries_cname(ces: &Vec<(String, Node)>) -> (r: String)
    ensures
        r@ == container_name_v(NodeV::Mapping(entries_view(ces@))),
{
    match get_entry(ces, "name") {
        Some(Node::Str(s)) => s.clone(),
        _ => "unknown".to_owned(),
    }
}

/// One micro-mutation pass applied container by container.
#[derive(Debug, Clone, Copy, PartialEq, Eq, Structural)]
pub enum Pass {
    FixLimits,
    FixProbes,
    FixSecurity,
    FixImages,
    OptResources(bool),
    OptSettings(bool),
}

/// Fix pass: a wholly absent `resources` block gets the default requests
/// and limits, with one record.
pub open spec fn fix_limits_c_v(c: NodeV) -> (NodeV, Seq<Seq<char>>) {
    match c {
        NodeV::Mapping(ces) => {
            let st = push_absent(
                ces,
                "resources"@,
                default_resources_v(),
                "Added resource requests and limits for container '"@ + container_name_v(c) + "'"@,
            );
            (NodeV::Mapping(st.0), st.1)
        },
        _ => (c, Seq::empty()),
    }
}

/// Fix pass: absent readiness and liveness probes get the default HTTP
/// probes, one record each, readiness first.
pub open spec fn fix_probes_c_v(c: NodeV) -> (NodeV, Seq<Seq<char>>) {
    match c {
        NodeV::Mapping(ces) => {
            let s1 = push_absent(
                ces,
                "readinessProbe"@,
                default_probe_v(10, 10),
                "Added readiness probe for container '"@ + container_name_v(c) + "'"@,
            );
            let s2 = push_absent(
                s1.0,
                "livenessProbe"@,
                default_probe_v(30, 30),
                "Added liveness probe for container '"@ + container_name_v(c) + "'"@,
            );
            (NodeV::Mapping(s2.0), s1.1 + s2.1)
        },
        _ => (c, Seq::empty()),
    }
}

/// Fix pass: an absent security context gets the hardened default, with one
/// record.
pub open spec fn fix_security_c_v(c: NodeV) -> (NodeV, Seq<Seq<char>>) {
    match c {
        NodeV::Mapping(ces) => {
            let st = push_absent(
                ces,
                "securityContext"@,
                default_security_context_v(),
                "Added security context for container '"@ + container_name_v(c) + "'"@,
            );
            (NodeV::Mapping(st.0), st.1)
        },
        _ => (c, Seq::empty()),
    }
}

/// Fix pass: a `:latest` or untagged image is rewritten to the explicit
/// `:1.0.0` tag, with one record naming both references.
pub open spec fn fix_images_c_v(c: NodeV) -> (NodeV, Seq<Seq<char>>) {
    match c {
        NodeV::Mapping(ces) => match get_in(ces, "image"@) {
            Some(NodeV::Str(img)) => if is_latest_image(img) || is_untagged_image(img) {
                let new_img = retagged_image(img);
                (
                    NodeV::Mapping(put_in(ces, "image"@, NodeV::Str(new_img))),
                    seq!["Changed image from '"@ + img + "' to '"@ + new_img + "'"@],
                )
            } else {
                (c, Seq::empty())
            },
            _ => (c, Seq::empty()),
        },
        _ => (c, Seq::empty()),
    }
}

/// The requests half of the optimize resources pass: `requests` is ensured
/// and absent CPU/memory entries get the default quantities, one record
/// each.
pub open spec fn opt_requests_v(res: Seq<(Seq<char>, NodeV)>) -> (
    Seq<(Seq<char>, NodeV)>,
    Seq<Seq<char>>,
) {
    let res1 = ensure_entry(res, "requests"@, NodeV::Mapping(Seq::empty()));
    match get_in(res1, "requests"@) {
        Some(NodeV::Mapping(req)) => {
            let s1 = push_absent(req, "cpu"@, NodeV::Str("100m"@), "Added CPU request: 100m"@);
            let s2 = push_absent(
                s1.0,
                "memory"@,
                NodeV::Str("128Mi"@),
                "Added memory request: 128Mi"@,
            );
            (put_in(res1, "requests"@, NodeV::Mapping(s2.0)), s1.1 + s2.1)
        },
        _ => (res1, Seq::empty()),
    }
}

/// The aggressive limits half: `limits` is ensured and absent CPU/memory
/// entries get the default quantities, one record each.
pub open spec fn opt_limits_v(res: Seq<(Seq<char>, NodeV)>) -> (
    Seq<(Seq<char>, NodeV)>,
    Seq<Seq<char>>,
) {
    let res2 = ensure_entry(res, "limits"@, NodeV::Mapping(Seq::empty()));
    match get_in(res2, "limits"@) {
        Some(NodeV::Mapping(lim)) => {
            let s3 = push_absent(lim, "cpu"@, NodeV::Str("500m"@), "Added CPU limit: 500m"@);
            let s4 = push_absent(
                s3.0,
                "memory"@,
                NodeV::Str("512Mi"@),
                "Added memory limit: 512Mi"@,
            );
            (put_in(res2, "limits"@, NodeV::Mapping(s4.0)), s3.1 + s4.1)
        },
        _ => (res2, Seq::empty()),
    }
}

/// Optimize pass: CPU and memory requests are ensured (and, aggressively,
/// limits too), one record per inserted quantity.
pub open spec fn opt_resources_c_v(c: NodeV, aggressive: bool) -> (NodeV, Seq<Seq<char>>) {
    match c {
        NodeV::Mapping(ces) => {
            let ces1 = ensure_entry(ces, "resources"@, NodeV::Mapping(Seq::empty()));
            match get_in(ces1, "resources"@) {
                Some(NodeV::Mapping(res)) => {
                    let a = opt_requests_v(res);
                    let b = if aggressive {
                        opt_limits_v(a.0)
                    } else {
                        (a.0, Seq::<Seq<char>>::empty())
                    };
                    (NodeV::Mapping(put_in(ces1, "resources"@, NodeV::Mapping(b.0))), a.1 + b.1)
                },
                _ => (NodeV::Mapping(ces1), Seq::empty()),
            }
        },
        _ => (c, Seq::empty()),
    }
}

/// The security-context half of the optimize settings pass.
pub open spec fn opt_security_v(sc: Seq<(Seq<char>, NodeV)>, aggressive: bool) -> (
    Seq<(Seq<char>, NodeV)>,
    Seq<Seq<char>>,
) {
    let s1 = push_absent(sc, "runAsNonRoot"@, NodeV::Bool(true), "Added runAsNonRoot: true"@);
    let s2 = if aggressive {
        push_absent(
            s1.0,
            "readOnlyRootFilesystem"@,
            NodeV::Bool(true),
            "Added readOnlyRootFilesystem: true"@,
        )
    } else {
        (s1.0, Seq::<Seq<char>>::empty())
    };
    (s2.0, s1.1 + s2.1)
}

/// The pull-policy half: an `imagePullPolicy` of exactly `Always` is
/// rewritten to `IfNotPresent`, with one record.
pub open spec fn opt_pull_policy_v(ces: Seq<(Seq<char>, NodeV)>) -> (
    Seq<(Seq<char>, NodeV)>,
    Seq<Seq<char>>,
) {
    match get_in(ces, "imagePullPolicy"@) {
        Some(NodeV::Str(p)) => if p == "Always"@ {
            (
                put_in(ces, "imagePullPolicy"@, NodeV::Str("IfNotPresent"@)),
                seq!["Changed imagePullPolicy from Always to IfNotPresent"@],
            )
        } else {
            (ces, Seq::empty())
        },
        _ => (ces, Seq::empty()),
    }
}

/// Optimize pass: `runAsNonRoot` is ensured (and, aggressively,
/// `readOnlyRootFilesystem`), and an `imagePullPolicy` of `Always` is
/// rewritten to `IfNotPresent`.
pub open spec fn opt_settings_c_v(c: NodeV, aggressive: bool) -> (NodeV, Seq<Seq<char>>) {
    match c {
        NodeV::Mapping(ces) => {
            let ces1 = ensure_entry(ces, "securityContext"@, NodeV::Mapping(Seq::empty()));
            let after_sc = match get_in(ces1, "securityContext"@) {
                Some(NodeV::Mapping(sc)) => {
                    let st = opt_security_v(sc, aggressive);
                    (put_in(ces1, "securityContext"@, NodeV::Mapping(st.0)), st.1)
                },
                _ => (ces1, Seq::<Seq<char>>::empty()),
            };
            let after_ipp = opt_pull_policy_v(after_sc.0);
            (NodeV::Mapping(after_ipp.0), after_sc.1 + after_ipp.1)
        },
        _ => (c, Seq::empty()),
    }
}

fn opt_requests_x(res: &mut Vec<(String, Node)>, records: &mut Vec<String>)
    ensures
        entries_view(final(res)@) == opt_requests_v(entries_view(old(res)@)).0,
        strs_view(final(records)@) == strs_view(old(records)@) + opt_requests_v(
            entries_view(old(res)@),
        ).1,
{
    let ghost before = strs_view(records@);
    let ghost rv = entries_view(res@);
    let empty_map: Vec<(String, Node)> = Vec::new();
    proof {
        assert(entries_view(empty_map@) =~= Seq::<(Seq<char>, NodeV)>::empty());
    }
    ensure_entry_x(res, "requests", Node::Mapping(empty_map));
    let ghost rv1 = entries_view(res@);
    let ridx = match get_index(res, "requests") {
        Some(i) => i,
        None => {
            proof {
                lemma_push_entry_get(rv, ("requests"@, NodeV::Mapping(Seq::empty())), "requests"@);
                lemma_find_in_props(rv1, "requests"@);
                assert(false);
            }
            return ;
        },
    };
    proof {
        lemma_find_in_props(rv1, "requests"@);
    }
    let rtaken = take_value_at(res, ridx);
    let ghost rq_view = node_view(rtaken.1);
    proof {
        assert(rv1[ridx as int] == (rtaken.0@, rq_view));
        assert(get_in(rv1, "requests"@) == Some(rq_view));
    }
    let new_rq: Node = match rtaken.1 {
        Node::Mapping(mut req) => {
            let ghost req0 = entries_view(req@);
            proof {
                assert(rq_view == NodeV::Mapping(req0));
            }
            push_absent_x(&mut req, "cpu", str_node("100m"), "Added CPU request: 100m", records);
            push_absent_x(&mut req, "memory", str_node("128Mi"), "Added memory request: 128Mi", records);
            Node::Mapping(req)
        },
        other => other,
    };
    let ghost new_rq_view = node_view(new_rq);
    restore_value_at(res, ridx, rtaken.0, new_rq);
    proof {
        assert(entries_view(res@) =~= rv1.update(ridx as int, ("requests"@, new_rq_view)));
        assert(put_in(rv1, "requests"@, new_rq_view) == rv1.update(
            ridx as int,
            ("requests"@, new_rq_view),
        ));
        match get_in(rv1, "requests"@) {
            Some(NodeV::Mapping(req)) => {
                let s1 = push_absent(req, "cpu"@, NodeV::Str("100m"@), "Added CPU request: 100m"@);
                let s2 = push_absent(s1.0, "memory"@, NodeV::Str("128Mi"@), "Added memory request: 128Mi"@);
                assert(new_rq_view == NodeV::Mapping(s2.0));
                assert(strs_view(records@) =~= before + (s1.1 + s2.1));
            },
            _ => {
                assert(new_rq_view == rq_view);
                assert(entries_view(res@) =~= rv1);
                assert(strs_view(records@) =~= before + Seq::<Seq<char>>::empty());
            },
        }
    }
}

fn opt_limits_x(res: &mut Vec<(String, Node)>, records: &mut Vec<String>)
    ensures
        entries_view(final(res)@) == opt_limits_v(entries_view(old(res)@)).0,
        strs_view(final(records)@) == strs_view(old(records)@) + opt_limits_v(
            entries_view(old(res)@),
        ).1,
{
    let ghost before = strs_view(records@);
    let ghost rv = entries_view(res@);
    let empty_map: Vec<(String, Node)> = Vec::new();
    proof {
        assert(entries_view(empty_map@) =~= Seq::<(Seq<char>, NodeV)>::empty());
    }
    ensure_entry_x(res, "limits", Node::Mapping(empty_map));
    let ghost rv2 = entries_view(res@);
    let lidx = match get_index(res, "limits") {
        Some(i) => i,
        None => {
            proof {
                lemma_push_entry_get(rv, ("limits"@, NodeV::Mapping(Seq::empty())), "limits"@);
                lemma_find_in_props(rv2, "limits"@);
                assert(false);
            }
            return ;
        },
    };
    proof {
        lemma_find_in_props(rv2, "limits"@);
    }
    let ltaken = take_value_at(res, lidx);
    let ghost lm_view = node_view(ltaken.1);
    proof {
        assert(rv2[lidx as int] == (ltaken.0@, lm_view));
        assert(get_in(rv2, "limits"@) == Some(lm_view));
    }
    let new_lim: Node = match ltaken.1 {
        Node::Mapping(mut lim) => {
            let ghost lim0 = entries_view(lim@);
            proof {
                assert(lm_view == NodeV::Mapping(lim0));
            }
            push_absent_x(&mut lim, "cpu", str_node("500m"), "Added CPU limit: 500m", records);
            push_absent_x(&mut lim, "memory", str_node("512Mi"), "Added memory limit: 512Mi", records);
            Node::Mapping(lim)
        },
        other => other,
    };
    let ghost new_lim_view = node_view(new_lim);
    restore_value_at(res, lidx, ltaken.0, new_lim);
    proof {
        assert(entries_view(res@) =~= rv2.update(lidx as int, ("limits"@, new_lim_view)));
        assert(put_in(rv2, "limits"@, new_lim_view) == rv2.update(
            lidx as int,
            ("limits"@, new_lim_view),
        ));
        match get_in(rv2, "limits"@) {
            Some(NodeV::Mapping(lim)) => {
                let s3 = push_absent(lim, "cpu"@, NodeV::Str("500m"@), "Added CPU limit: 500m"@);
                let s4 = push_absent(s3.0, "memory"@, NodeV::Str("512Mi"@), "Added memory limit: 512Mi"@);
                assert(new_lim_view == NodeV::Mapping(s4.0));
                assert(strs_view(records@) =~= before + (s3.1 + s4.1));
            },
            _ => {
                assert(new_lim_view == lm_view);
                assert(entries_view(res@) =~= rv2);
                assert(strs_view(records@) =~= before + Seq::<Seq<char>>::empty());
            },
        }
    }
}


fn opt_security_x(sc: &mut Vec<(String, Node)>, aggressive: bool, records: &mut Vec<String>)
    ensures
        entries_view(final(sc)@) == opt_security_v(entries_view(old(sc)@), aggressive).0,
        strs_view(final(records)@) == strs_view(old(records)@) + opt_security_v(
            entries_view(old(sc)@),
            aggressive,
        ).1,
{
    let ghost before = strs_view(records@);
    let ghost sc0 = entries_view(sc@);
    push_absent_x(sc, "runAsNonRoot", Node::Bool(true), "Added runAsNonRoot: true", records);
    if aggressive {
        push_absent_x(sc, "readOnlyRootFilesystem", Node::Bool(true), "Added readOnlyRootFilesystem: true", records);
    }
    proof {
        let s1 = push_absent(sc0, "runAsNonRoot"@, NodeV::Bool(true), "Added runAsNonRoot: true"@);
        let s2 = if aggressive {
            push_absent(s1.0, "readOnlyRootFilesystem"@, NodeV::Bool(true), "Added readOnlyRootFilesystem: true"@)
        } else {
            (s1.0, Seq::<Seq<char>>::empty())
        };
        assert(entries_view(sc@) == s2.0);
        assert(strs_view(records@) =~= before + (s1.1 + s2.1));
    }
}

fn opt_pull_policy_x(ces: &mut Vec<(String, Node)>, records: &mut Vec<String>)
    ensures
        entries_view(final(ces)@) == opt_pull_policy_v(entries_view(old(ces)@)).0,
        strs_view(final(records)@) == strs_view(old(records)@) + opt_pull_policy_v(
            entries_view(old(ces)@),
        ).1,
{
    let ghost before = strs_view(records@);
    let ghost ev = entries_view(ces@);
    let pidx = match get_index(ces, "imagePullPolicy") {
        Some(i) => i,
        None => {
            proof {
                lemma_find_in_props(ev, "imagePullPolicy"@);
                assert(strs_view(records@) =~= before + Seq::<Seq<char>>::empty());
            }
            return ;
        },
    };
    proof {
        lemma_find_in_props(ev, "imagePullPolicy"@);
        assert(ev[pidx as int].0 == "imagePullPolicy"@);
        assert(get_in(ev, "imagePullPolicy"@) == Some(ev[pidx as int].1));
        assert(ev[pidx as int].1 == node_view(ces@[pidx as int].1));
    }
    let is_always = match &ces[pidx].1 {
        Node::Str(p) => p.eq(&"Always".to_owned()),
        _ => false,
    };
    if is_always {
        replace_value_at(ces, pidx, "imagePullPolicy", str_node("IfNotPresent"));
        records.push("Changed imagePullPolicy from Always to IfNotPresent".to_owned());
        proof {
            assert(strs_view(records@) =~= before + seq![
                "Changed imagePullPolicy from Always to IfNotPresent"@,
            ]);
        }
    } else {
        proof {
            assert(strs_view(records@) =~= before + Seq::<Seq<char>>::empty());
        }
    }
}


/// One pass applied to one container.
pub open spec fn pass_container_v(p: Pass, c: NodeV) -> (NodeV, Seq<Seq<char>>) {
    match p {
        Pass::FixLimits => fix_limits_c_v(c),
        Pass::FixProbes => fix_probes_c_v(c),
        Pass::FixSecurity => fix_security_c_v(c),
        Pass::FixImages => fix_images_c_v(c),
        Pass::OptResources(aggressive) => opt_resources_c_v(c, aggressive),
        Pass::OptSettings(aggressive) => opt_settings_c_v(c, aggressive),
    }
}

fn fix_limits_container(c: Node, records: &mut Vec<String>) -> (r: Node)
    ensures
        node_view(r) == fix_limits_c_v(node_view(c)).0,
        strs_view(final(records)@) == strs_view(old(records)@) + fix_limits_c_v(node_view(c)).1,
{
    match c {
        Node::Mapping(mut ces) => {
            let name = entries_cname(&ces);
            let rec = msg3("Added resource requests and limits for container '", &name, "'");
            push_absent_x(&mut ces, "resources", default_resources(), rec.as_str(), records);
            Node::Mapping(ces)
        },
        other => {
            proof {
                assert(strs_view(records@) =~= strs_view(records@) + Seq::<Seq<char>>::empty());
            }
            other
        },
    }
}

fn fix_probes_container(c: Node, records: &mut Vec<String>) -> (r: Node)
    ensures
        node_view(r) == fix_probes_c_v(node_view(c)).0,
        strs_view(final(records)@) == strs_view(old(records)@) + fix_probes_c_v(node_view(c)).1,
{
    match c {
        Node::Mapping(mut ces) => {
            let ghost before = strs_view(records@);
            let name = entries_cname(&ces);
            let rec1 = msg3("Added readiness probe for container '", &name, "'");
            push_absent_x(&mut ces, "readinessProbe", default_probe(10, 10), rec1.as_str(), records);
            let rec2 = msg3("Added liveness probe for container '", &name, "'");
            push_absent_x(&mut ces, "livenessProbe", default_probe(30, 30), rec2.as_str(), records);
            proof {
                let cv = node_view(Node::Mapping(ces));
                assert(strs_view(records@) =~= before + fix_probes_c_v(node_view(c)).1);
            }
            Node::Mapping(ces)
        },
        other => {
            proof {
                assert(strs_view(records@) =~= strs_view(records@) + Seq::<Seq<char>>::empty());
            }
            other
        },
    }
}

fn fix_security_container(c: Node, records: &mut Vec<String>) -> (r: Node)
    ensures
        node_view(r) == fix_security_c_v(node_view(c)).0,
        strs_view(final(records)@) == strs_view(old(records)@) + fix_security_c_v(node_view(c)).1,
{
    match c {
        Node::Mapping(mut ces) => {
            let name = entries_cname(&ces);
            let rec = msg3("Added security context for container '", &name, "'");
            push_absent_x(&mut ces, "securityContext", default_security_context(), rec.as_str(), records);
            Node::Mapping(ces)
        },
        other => {
            proof {
                assert(strs_view(records@) =~= strs_view(records@) + Seq::<Seq<char>>::empty());
            }
            other
        },
    }
}

fn fix_images_container(c: Node, records: &mut Vec<String>) -> (r: Node)
    ensures
        node_view(r) == fix_images_c_v(node_view(c)).0,
        strs_view(final(records)@) == strs_view(old(records)@) + fix_images_c_v(node_view(c)).1,
{
    match c {
        Node::Mapping(mut ces) => {
            let ghost before = strs_view(records@);
            let idx = match get_index(&ces, "image") {
                Some(i) => i,
                None => {
                    proof {
                        assert(strs_view(records@) =~= before + Seq::<Seq<char>>::empty());
                    }
                    return Node::Mapping(ces);
                },
            };
            let needs_fix = match &ces[idx].1 {
                Node::Str(img) => image_has_latest_tag(img) || !image_has_colon(img),
                _ => false,
            };
            if needs_fix {
                let old_img = match &ces[idx].1 {
                    Node::Str(img) => img.clone(),
                    _ => {
                        proof {
                            assert(false);
                        }
                        "".to_owned()
                    },
                };
                let new_img = retag_image(&old_img);
                let rec = msg5("Changed image from '", &old_img, "' to '", &new_img, "'");
                replace_value_at(&mut ces, idx, "image", Node::Str(new_img));
                records.push(rec);
                proof {
                    assert(strs_view(records@) =~= before + fix_images_c_v(node_view(c)).1);
                }
            } else {
                proof {
                    assert(strs_view(records@) =~= before + Seq::<Seq<char>>::empty());
                }
            }
            Node::Mapping(ces)
        },
        other => {
            proof {
                assert(strs_view(records@) =~= strs_view(records@) + Seq::<Seq<char>>::empty());
            }
            other
        },
    }
}

fn opt_resources_container(c: Node, aggressive: bool, records: &mut Vec<String>) -> (r: Node)
    ensures
        node_view(r) == opt_resources_c_v(node_view(c), aggressive).0,
        strs_view(final(records)@) == strs_view(old(records)@) + opt_resources_c_v(
            node_view(c),
            aggressive,
        ).1,
{
    match c {
        Node::Mapping(mut ces) => {
            let ghost before = strs_view(records@);
            let ghost ev = entries_view(ces@);
            let empty_map: Vec<(String, Node)> = Vec::new();
            proof {
                assert(entries_view(empty_map@) =~= Seq::<(Seq<char>, NodeV)>::empty());
            }
            ensure_entry_x(&mut ces, "resources", Node::Mapping(empty_map));
            let ghost ev1 = entries_view(ces@);
            let idx = match get_index(&ces, "resources") {
                Some(i) => i,
                None => {
                    proof {
                        lemma_push_entry_get(
                            ev,
                            ("resources"@, NodeV::Mapping(Seq::empty())),
                            "resources"@,
                        );
                        lemma_find_in_props(ev1, "resources"@);
                        assert(false);
                    }
                    return Node::Mapping(ces);
                },
            };
            proof {
                lemma_find_in_props(ev1, "resources"@);
            }
            let taken = take_value_at(&mut ces, idx);
            let ghost tv_view = node_view(taken.1);
            proof {
                assert(ev1[idx as int] == (taken.0@, tv_view));
                assert(get_in(ev1, "resources"@) == Some(tv_view));
            }
            let tk = taken.0;
            let new_tv: Node = match taken.1 {
                Node::Mapping(mut res) => {
                    let ghost rv = entries_view(res@);
                    proof {
                        assert(tv_view == NodeV::Mapping(rv));
                    }
                    opt_requests_x(&mut res, records);
                    if aggressive {
                        opt_limits_x(&mut res, records);
                    }
                    proof {
                        let a = opt_requests_v(rv);
                        let b = if aggressive {
                            opt_limits_v(a.0)
                        } else {
                            (a.0, Seq::<Seq<char>>::empty())
                        };
                        assert(entries_view(res@) == b.0);
                        assert(strs_view(records@) =~= before + (a.1 + b.1));
                    }
                    Node::Mapping(res)
                },
                other => other,
            };
            let ghost new_tv_view = node_view(new_tv);
            restore_value_at(&mut ces, idx, tk, new_tv);
            proof {
                assert(node_view(c) == NodeV::Mapping(ev));
                assert(ensure_entry(ev, "resources"@, NodeV::Mapping(Seq::empty())) == ev1);
                assert(entries_view(ces@) =~= ev1.update(idx as int, ("resources"@, new_tv_view)));
                assert(put_in(ev1, "resources"@, new_tv_view) == ev1.update(
                    idx as int,
                    ("resources"@, new_tv_view),
                ));
                match get_in(ev1, "resources"@) {
                    Some(NodeV::Mapping(resv)) => {
                        let a = opt_requests_v(resv);
                        let b = if aggressive {
                            opt_limits_v(a.0)
                        } else {
                            (a.0, Seq::<Seq<char>>::empty())
                        };
                        assert(new_tv_view == NodeV::Mapping(b.0));
                        assert(strs_view(records@) =~= before + (a.1 + b.1));
                    },
                    _ => {
                        assert(new_tv_view == tv_view);
                        assert(entries_view(ces@) =~= ev1);
                        assert(strs_view(records@) =~= before + Seq::<Seq<char>>::empty());
                    },
                }
            }
            Node::Mapping(ces)
        },
        other => {
            proof {
                assert(strs_view(records@) =~= strs_view(records@) + Seq::<Seq<char>>::empty());
            }
            other
        },
    }
}

fn opt_settings_container(c: Node, aggressive: bool, records: &mut Vec<String>) -> (r: Node)
    ensures
        node_view(r) == opt_settings_c_v(node_view(c), aggressive).0,
        strs_view(final(records)@) == strs_view(old(records)@) + opt_settings_c_v(
            node_view(c),
            aggressive,
        ).1,
{
    match c {
        Node::Mapping(mut ces) => {
            let ghost before = strs_view(records@);
            let ghost ev = entries_view(ces@);
            let empty_map: Vec<(String, Node)> = Vec::new();
            proof {
                assert(entries_view(empty_map@) =~= Seq::<(Seq<char>, NodeV)>::empty());
            }
            ensure_entry_x(&mut ces, "securityContext", Node::Mapping(empty_map));
            let ghost ev1 = entries_view(ces@);
            let idx = match get_index(&ces, "securityContext") {
                Some(i) => i,
                None => {
                    proof {
                        lemma_push_entry_get(
                            ev,
                            ("securityContext"@, NodeV::Mapping(Seq::empty())),
                            "securityContext"@,
                        );
                        lemma_find_in_props(ev1, "securityContext"@);
                        assert(false);
                    }
                    return Node::Mapping(ces);
                },
            };
            proof {
                lemma_find_in_props(ev1, "securityContext"@);
            }
            let taken = take_value_at(&mut ces, idx);
            let ghost tv_view = node_view(taken.1);
            proof {
                assert(ev1[idx as int] == (taken.0@, tv_view));
                assert(get_in(ev1, "securityContext"@) == Some(tv_view));
            }
            let new_tv: Node = match taken.1 {
                Node::Mapping(mut sc) => {
                    let ghost sc0 = entries_view(sc@);
                    proof {
                        assert(tv_view == NodeV::Mapping(sc0));
                    }
                    opt_security_x(&mut sc, aggressive, records);
                    Node::Mapping(sc)
                },
                other => other,
            };
            let ghost new_tv_view = node_view(new_tv);
            restore_value_at(&mut ces, idx, taken.0, new_tv);
            let ghost after_sc: (Seq<(Seq<char>, NodeV)>, Seq<Seq<char>>) = (
                match get_in(ev1, "securityContext"@) {
                    Some(NodeV::Mapping(sc)) => (
                        put_in(ev1, "securityContext"@, NodeV::Mapping(opt_security_v(sc, aggressive).0)),
                        opt_security_v(sc, aggressive).1,
                    ),
                    _ => (ev1, Seq::<Seq<char>>::empty()),
                }
            );
            proof {
                assert(node_view(c) == NodeV::Mapping(ev));
                assert(ensure_entry(ev, "securityContext"@, NodeV::Mapping(Seq::empty())) == ev1);
                match get_in(ev1, "securityContext"@) {
                    Some(NodeV::Mapping(sc)) => {
                        assert(new_tv_view == NodeV::Mapping(opt_security_v(sc, aggressive).0));
                        assert(entries_view(ces@) =~= ev1.update(
                            idx as int,
                            ("securityContext"@, new_tv_view),
                        ));
                        assert(put_in(ev1, "securityContext"@, new_tv_view) == ev1.update(
                            idx as int,
                            ("securityContext"@, new_tv_view),
                        ));
                        assert(entries_view(ces@) == after_sc.0);
                        assert(strs_view(records@) =~= before + after_sc.1);
                    },
                    _ => {
                        assert(new_tv_view == tv_view);
                        assert(entries_view(ces@) =~= ev1.update(
                            idx as int,
                            ("securityContext"@, new_tv_view),
                        ));
                        assert(entries_view(ces@) =~= ev1);
                        assert(strs_view(records@) =~= before + after_sc.1);
                    },
                }
                assert(entries_view(ces@) == after_sc.0);
            }
            let ghost mid = strs_view(records@);
            opt_pull_policy_x(&mut ces, records);
            proof {
                let after_ipp = opt_pull_policy_v(after_sc.0);
                assert(entries_view(ces@) == after_ipp.0);
                assert(strs_view(records@) =~= mid + after_ipp.1);
                assert(strs_view(records@) =~= before + (after_sc.1 + after_ipp.1));
                assert(opt_settings_c_v(node_view(c), aggressive).1 == after_sc.1 + after_ipp.1);
            }
            Node::Mapping(ces)
        },
        other => {
            proof {
                assert(strs_view(records@) =~= strs_view(records@) + Seq::<Seq<char>>::empty());
            }
            other
        },
    }
}

/// Applies one pass to one container, appending its change records.
fn pass_container_x(c: Node, p: Pass, records: &mut Vec<String>) -> (r: Node)
    ensures
        node_view(r) == pass_container_v(p, node_view(c)).0,
        strs_view(final(records)@) == strs_view(old(records)@) + pass_container_v(
            p,
            node_view(c),
        ).1,
{
    match p {
        Pass::FixLimits => fix_limits_container(c, records),
        Pass::FixProbes => fix_probes_container(c, records),
        Pass::FixSecurity => fix_security_container(c, records),
        Pass::FixImages => fix_images_container(c, records),
        Pass::OptResources(aggressive) => opt_resources_container(c, aggressive, records),
        Pass::OptSettings(aggressive) => opt_settings_container(c, aggressive, records),
    }
}

/// One pass applied to every container of a list, in order.
pub open spec fn pass_containers_v(p: Pass, cs: Seq<NodeV>) -> (Seq<NodeV>, Seq<Seq<char>>)
    decreases cs.len(),
{
    if cs.len() == 0 {
        (Seq::empty(), Seq::empty())
    } else {
        let rest = pass_containers_v(p, cs.drop_last());
        let one = pass_container_v(p, cs.last());
        (rest.0.push(one.0), rest.1 + one.1)
    }
}

pub proof fn lemma_pass_containers_len(p: Pass, cs: Seq<NodeV>)
    ensures
        pass_containers_v(p, cs).0.len() == cs.len(),
    decreases cs.len(),
{
    if cs.len() > 0 {
        lemma_pass_containers_len(p, cs.drop_last());
    }
}

/// One pass applied to the mapping that holds the `containers` list.
pub open spec fn pass_holder_entries_v(p: Pass, hes: Seq<(Seq<char>, NodeV)>) -> (
    Seq<(Seq<char>, NodeV)>,
    Seq<Seq<char>>,
) {
    match get_in(hes, "containers"@) {
        Some(NodeV::Sequence(cs)) => {
            let m = pass_containers_v(p, cs);
            (put_in(hes, "containers"@, NodeV::Sequence(m.0)), m.1)
        },
        _ => (hes, Seq::empty()),
    }
}

pub open spec fn pass_holder_v(p: Pass, h: NodeV) -> (NodeV, Seq<Seq<char>>) {
    match h {
        NodeV::Mapping(hes) => {
            let m = pass_holder_entries_v(p, hes);
            (NodeV::Mapping(m.0), m.1)
        },
        _ => (h, Seq::empty()),
    }
}

/// One pass routed through `template.spec` of a template-wrapped document.
pub open spec fn pass_template_v(p: Pass, t: NodeV) -> (NodeV, Seq<Seq<char>>) {
    match t {
        NodeV::Mapping(tes) => match get_in(tes, "spec"@) {
            Some(ts) => {
                let m = pass_holder_v(p, ts);
                (NodeV::Mapping(put_in(tes, "spec"@, m.0)), m.1)
            },
            None => (t, Seq::empty()),
        },
        _ => (t, Seq::empty()),
    }
}

/// One pass applied to a whole document, resolving containers exactly as
/// `containers_v` does: under `spec.template.spec` when `spec.template` is
/// present, else directly under `spec`.  A document without that shape is
/// returned unchanged with no records.
pub open spec fn pass_doc_v(p: Pass, d: NodeV) -> (NodeV, Seq<Seq<char>>) {
    match d {
        NodeV::Mapping(es) => match get_in(es, "spec"@) {
            Some(sp) => {
                let has_t = match sp {
                    NodeV::Mapping(ses) => has_in(ses, "template"@),
                    _ => false,
                };
                if has_t {
                    match sp {
                        NodeV::Mapping(ses) => match get_in(ses, "template"@) {
                            Some(t) => {
                                let m = pass_template_v(p, t);
                                (
                                    NodeV::Mapping(
                                        put_in(
                                            es,
                                            "spec"@,
                                            NodeV::Mapping(put_in(ses, "template"@, m.0)),
                                        ),
                                    ),
                                    m.1,
                                )
                            },
                            None => (d, Seq::empty()),
                        },
                        _ => (d, Seq::empty()),
                    }
                } else {
                    let m = pass_holder_v(p, sp);
                    (NodeV::Mapping(put_in(es, "spec"@, m.0)), m.1)
                }
            },
            None => (d, Seq::empty()),
        },
        _ => (d, Seq::empty()),
    }
}

#[verifier::loop_isolation(false)]
#[verifier::rlimit(100)]
#[verifier::spinoff_prover]
fn pass_containers_x(cv: &mut Vec<Node>, p: Pass, records: &mut Vec<String>)
    ensures
        nodes_view(final(cv)@) == pass_containers_v(p, nodes_view(old(cv)@)).0,
        strs_view(final(records)@) == strs_view(old(records)@) + pass_containers_v(
            p,
            nodes_view(old(cv)@),
        ).1,
{
    let ghost cs0 = nodes_view(cv@);
    let ghost before = strs_view(records@);
    let mut i: usize = 0;
    proof {
        assert(nodes_view(cv@) =~= pass_containers_v(p, cs0.take(0)).0 + cs0.skip(0));
        assert(strs_view(records@) =~= before + pass_containers_v(p, cs0.take(0)).1);
    }
    while i < cv.len()
        invariant
            0 <= i <= cs0.len(),
            cv@.len() == cs0.len(),
            nodes_view(cv@) == pass_containers_v(p, cs0.take(i as int)).0 + cs0.skip(i as int),
            strs_view(records@) == before + pass_containers_v(p, cs0.take(i as int)).1,
        decreases cs0.len() - i,
    {
        proof {
            lemma_pass_containers_len(p, cs0.take(i as int));
            assert(nodes_view(cv@)[i as int] == cs0.skip(i as int)[0]);
            assert(cs0.take(i + 1).drop_last() =~= cs0.take(i as int));
            assert(cs0.take(i + 1).last() == cs0[i as int]);
        }
        let ghost cva = cv@;
        let el = cv.remove(i);
        proof {
            assert(node_view(el) == cs0[i as int]);
        }
        let el2 = pass_container_x(el, p, records);
        cv.insert(i, el2);
        proof {
            lemma_pass_containers_len(p, cs0.take(i + 1));
            assert(cv@ =~= cva.update(i as int, el2));
            assert(nodes_view(cv@) =~= nodes_view(cva).update(i as int, node_view(el2)));
            assert(nodes_view(cv@) =~= pass_containers_v(p, cs0.take(i + 1)).0 + cs0.skip(i + 1));
            assert(strs_view(records@) =~= before + pass_containers_v(p, cs0.take(i + 1)).1);
        }
        i = i + 1;
    }
    proof {
        assert(cs0.take(cs0.len() as int) =~= cs0);
        assert(cs0.skip(cs0.len() as int) =~= Seq::<NodeV>::empty());
        assert(nodes_view(cv@) =~= pass_containers_v(p, cs0).0);
    }
}

fn pass_holder_entries_x(hes: &mut Vec<(String, Node)>, p: Pass, records: &mut Vec<String>)
    ensures
        entries_view(final(hes)@) == pass_holder_entries_v(p, entries_view(old(hes)@)).0,
        strs_view(final(records)@) == strs_view(old(records)@) + pass_holder_entries_v(
            p,
            entries_view(old(hes)@),
        ).1,
{
    let ghost hv = entries_view(hes@);
    let ghost before = strs_view(records@);
    let idx = match get_index(hes, "containers") {
        Some(i) => i,
        None => {
            proof {
                lemma_find_in_props(hv, "containers"@);
                assert(strs_view(records@) =~= before + Seq::<Seq<char>>::empty());
            }
            return ;
        },
    };
    proof {
        lemma_find_in_props(hv, "containers"@);
    }
    let taken = take_value_at(hes, idx);
    let ghost tv_view = node_view(taken.1);
    proof {
        assert(hv[idx as int] == (taken.0@, tv_view));
        assert(get_in(hv, "containers"@) == Some(tv_view));
    }
    let new_tv: Node = match taken.1 {
        Node::Sequence(mut cv) => {
            let ghost cs0 = nodes_view(cv@);
            proof {
                assert(tv_view == NodeV::Sequence(cs0));
            }
            pass_containers_x(&mut cv, p, records);
            Node::Sequence(cv)
        },
        other => other,
    };
    let ghost new_tv_view = node_view(new_tv);
    restore_value_at(hes, idx, taken.0, new_tv);
    proof {
        assert(entries_view(hes@) =~= hv.update(idx as int, ("containers"@, new_tv_view)));
        assert(put_in(hv, "containers"@, new_tv_view) == hv.update(
            idx as int,
            ("containers"@, new_tv_view),
        ));
        match get_in(hv, "containers"@) {
            Some(NodeV::Sequence(cs)) => {
                assert(new_tv_view == NodeV::Sequence(pass_containers_v(p, cs).0));
                assert(strs_view(records@) =~= before + pass_containers_v(p, cs).1);
            },
            _ => {
                assert(new_tv_view == tv_view);
                assert(entries_view(hes@) =~= hv);
                assert(strs_view(records@) =~= before + Seq::<Seq<char>>::empty());
            },
        }
    }
}

fn pass_holder_x(h: Node, p: Pass, records: &mut Vec<String>) -> (r: Node)
    ensures
        node_view(r) == pass_holder_v(p, node_view(h)).0,
        strs_view(final(records)@) == strs_view(old(records)@) + pass_holder_v(
            p,
            node_view(h),
        ).1,
{
    match h {
        Node::Mapping(mut hes) => {
            pass_holder_entries_x(&mut hes, p, records);
            Node::Mapping(hes)
        },
        other => {
            proof {
                assert(strs_view(records@) =~= strs_view(records@) + Seq::<Seq<char>>::empty());
            }
            other
        },
    }
}

fn pass_template_x(t: Node, p: Pass, records: &mut Vec<String>) -> (r: Node)
    ensures
        node_view(r) == pass_template_v(p, node_view(t)).0,
        strs_view(final(records)@) == strs_view(old(records)@) + pass_template_v(
            p,
            node_view(t),
        ).1,
{
    match t {
        Node::Mapping(mut tes) => {
            let ghost tv = entries_view(tes@);
            let ghost before = strs_view(records@);
            let idx = match get_index(&tes, "spec") {
                Some(i) => i,
                None => {
                    proof {
                        lemma_find_in_props(tv, "spec"@);
                        assert(strs_view(records@) =~= before + Seq::<Seq<char>>::empty());
                    }
                    return Node::Mapping(tes);
                },
            };
            proof {
                lemma_find_in_props(tv, "spec"@);
            }
            let taken = take_value_at(&mut tes, idx);
            let ghost ts_view = node_view(taken.1);
            proof {
                assert(tv[idx as int] == (taken.0@, ts_view));
                assert(get_in(tv, "spec"@) == Some(ts_view));
            }
            let new_ts = pass_holder_x(taken.1, p, records);
            let ghost new_ts_view = node_view(new_ts);
            restore_value_at(&mut tes, idx, taken.0, new_ts);
            proof {
                assert(entries_view(tes@) =~= tv.update(idx as int, ("spec"@, new_ts_view)));
                assert(put_in(tv, "spec"@, new_ts_view) == tv.update(
                    idx as int,
                    ("spec"@, new_ts_view),
                ));
                assert(strs_view(records@) =~= before + pass_holder_v(p, ts_view).1);
            }
            Node::Mapping(tes)
        },
        other => {
            proof {
                assert(strs_view(records@) =~= strs_view(records@) + Seq::<Seq<char>>::empty());
            }
            other
        },
    }
}

/// Applies one container pass to a whole document, sharing the container
/// resolution rule with every rule and scorer.
pub(crate) fn run_container_pass(doc: Node, p: Pass, records: &mut Vec<String>) -> (r: Node)
    ensures
        node_view(r) == pass_doc_v(p, node_view(doc)).0,
        strs_view(final(records)@) == strs_view(old(records)@) + pass_doc_v(
            p,
            node_view(doc),
        ).1,
{
    match doc {
        Node::Mapping(mut es) => {
            let ghost ev = entries_view(es@);
            let ghost before = strs_view(records@);
            let idx = match get_index(&es, "spec") {
                Some(i) => i,
                None => {
                    proof {
                        lemma_find_in_props(ev, "spec"@);
                        assert(strs_view(records@) =~= before + Seq::<Seq<char>>::empty());
                    }
                    return Node::Mapping(es);
                },
            };
            proof {
                lemma_find_in_props(ev, "spec"@);
            }
            let taken = take_value_at(&mut es, idx);
            let ghost sp_view = node_view(taken.1);
            proof {
                assert(ev[idx as int] == (taken.0@, sp_view));
                assert(get_in(ev, "spec"@) == Some(sp_view));
            }
            let has_t = match &taken.1 {
                Node::Mapping(ses) => get_index(ses, "template").is_some(),
                _ => false,
            };
            let new_sp: Node = if has_t {
                match taken.1 {
                    Node::Mapping(mut ses) => {
                        let ghost sv = entries_view(ses@);
                        proof {
                            assert(sp_view == NodeV::Mapping(sv));
                        }
                        let jdx = match get_index(&ses, "template") {
                            Some(j) => j,
                            None => {
                                proof {
                                    assert(false);
                                }
                                return Node::Mapping(es);
                            },
                        };
                        proof {
                            lemma_find_in_props(sv, "template"@);
                        }
                        let t_taken = take_value_at(&mut ses, jdx);
                        let ghost t_view = node_view(t_taken.1);
                        proof {
                            assert(sv[jdx as int] == (t_taken.0@, t_view));
                            assert(get_in(sv, "template"@) == Some(t_view));
                        }
                        let new_t = pass_template_x(t_taken.1, p, records);
                        let ghost new_t_view = node_view(new_t);
                        restore_value_at(&mut ses, jdx, t_taken.0, new_t);
                        proof {
                            assert(entries_view(ses@) =~= sv.update(
                                jdx as int,
                                ("template"@, new_t_view),
                            ));
                            assert(put_in(sv, "template"@, new_t_view) == sv.update(
                                jdx as int,
                                ("template"@, new_t_view),
                            ));
                        }
                        Node::Mapping(ses)
                    },
                    other => {
                        proof {
                            assert(false);
                        }
                        other
                    },
                }
            } else {
                pass_holder_x(taken.1, p, records)
            };
            let ghost new_sp_view = node_view(new_sp);
            restore_value_at(&mut es, idx, taken.0, new_sp);
            proof {
                assert(node_view(doc) == NodeV::Mapping(ev));
                assert(entries_view(es@) =~= ev.update(idx as int, ("spec"@, new_sp_view)));
                assert(put_in(ev, "spec"@, new_sp_view) == ev.update(
                    idx as int,
                    ("spec"@, new_sp_view),
                ));
                let spec_has_t = match sp_view {
                    NodeV::Mapping(ses) => has_in(ses, "template"@),
                    _ => false,
                };
                if spec_has_t {
                    match sp_view {
                        NodeV::Mapping(ses) => {
                            lemma_find_in_props(ses, "template"@);
                            match get_in(ses, "template"@) {
                                Some(t) => {
                                    let m = pass_template_v(p, t);
                                    assert(new_sp_view == NodeV::Mapping(
                                        put_in(ses, "template"@, m.0),
                                    ));
                                    assert(strs_view(records@) =~= before + m.1);
                                },
                                None => {
                                    assert(false);
                                },
                            }
                        },
                        _ => {
                            assert(false);
                        },
                    }
                } else {
                    let m = pass_holder_v(p, sp_view);
                    assert(new_sp_view == m.0);
                    assert(strs_view(records@) =~= before + m.1);
                }
            }
            Node::Mapping(es)
        },
        other => {
            proof {
                assert(strs_view(records@) =~= strs_view(records@) + Seq::<Seq<char>>::empty());
            }
            other
        },
    }
}

/// One kind-specific pass applied to the `spec` mapping of a document.
#[derive(Debug, Clone, Copy, PartialEq, Eq, Structural)]
pub enum SpecPass {
    FixDeployment,
    FixService,
    FixPod,
    OptDeployment(bool),
    OptService,
    OptPod(bool),
}

/// The default Deployment selector the fix profile inserts.
pub open spec fn deployment_selector_v() -> NodeV {
    NodeV::Mapping(
        seq![("matchLabels"@, NodeV::Mapping(seq![("app"@, NodeV::Str("app-name"@))]))],
    )
}

/// The default Service selector the fix profile inserts.
pub open spec fn service_selector_v() -> NodeV {
    NodeV::Mapping(seq![("app"@, NodeV::Str("app-name"@))])
}

/// The default Service port list the fix profile inserts: 80 to 8080, TCP.
pub open spec fn default_ports_v() -> NodeV {
    NodeV::Sequence(
        seq![
            NodeV::Mapping(
                seq![
                    ("port"@, NodeV::Int(80)),
                    ("targetPort"@, NodeV::Int(8080)),
                    ("protocol"@, NodeV::Str("TCP"@)),
                ],
            ),
        ],
    )
}

/// The default RollingUpdate strategy the optimize profile inserts.
pub open spec fn default_strategy_v() -> NodeV {
    NodeV::Mapping(
        seq![
            ("type"@, NodeV::Str("RollingUpdate"@)),
            (
                "rollingUpdate"@,
                NodeV::Mapping(
                    seq![
                        ("maxUnavailable"@, NodeV::Str("25%"@)),
                        ("maxSurge"@, NodeV::Str("25%"@)),
                    ],
                ),
            ),
        ],
    )
}

/// One kind-specific pass over the entries of a document's `spec` mapping.
pub open spec fn spec_pass_entries_v(p: SpecPass, ses: Seq<(Seq<char>, NodeV)>) -> (
    Seq<(Seq<char>, NodeV)>,
    Seq<Seq<char>>,
) {
    match p {
        SpecPass::FixDeployment => {
            let s1 = push_absent(
                ses,
                "selector"@,
                deployment_selector_v(),
                "Added selector for Deployment"@,
            );
            let s2 = push_absent(s1.0, "replicas"@, NodeV::Int(2), "Set replicas to 2"@);
            (s2.0, s1.1 + s2.1)
        },
        SpecPass::FixService => {
            let s1 = push_absent(
                ses,
                "ports"@,
                default_ports_v(),
                "Added default port configuration"@,
            );
            let s2 = push_absent(
                s1.0,
                "selector"@,
                service_selector_v(),
                "Added selector for Service"@,
            );
            (s2.0, s1.1 + s2.1)
        },
        SpecPass::FixPod => push_absent(
            ses,
            "restartPolicy"@,
            NodeV::Str("Always"@),
            "Added restartPolicy: Always"@,
        ),
        SpecPass::OptDeployment(aggressive) => {
            let s1 = push_absent(
                ses,
                "strategy"@,
                default_strategy_v(),
                "Added RollingUpdate strategy"@,
            );
            let s2 = if aggressive {
                push_absent(
                    s1.0,
                    "replicas"@,
                    NodeV::Int(3),
                    "Set replicas to 3 for high availability"@,
                )
            } else {
                (s1.0, Seq::<Seq<char>>::empty())
            };
            (s2.0, s1.1 + s2.1)
        },
        SpecPass::OptService => push_absent(
            ses,
            "sessionAffinity"@,
            NodeV::Str("None"@),
            "Added explicit sessionAffinity: None"@,
        ),
        SpecPass::OptPod(aggressive) => {
            let s1 = push_absent(
                ses,
                "restartPolicy"@,
                NodeV::Str("Always"@),
                "Added restartPolicy: Always"@,
            );
            let s2 = if aggressive {
                push_absent(
                    s1.0,
                    "dnsPolicy"@,
                    NodeV::Str("ClusterFirst"@),
                    "Added dnsPolicy: ClusterFirst"@,
                )
            } else {
                (s1.0, Seq::<Seq<char>>::empty())
            };
            (s2.0, s1.1 + s2.1)
        },
    }
}

/// One kind-specific pass over a whole document: its `spec` mapping is
/// rewritten; any other shape is returned unchanged with no records.
pub open spec fn spec_pass_doc_v(p: SpecPass, d: NodeV) -> (NodeV, Seq<Seq<char>>) {
    match d {
        NodeV::Mapping(es) => match get_in(es, "spec"@) {
            Some(NodeV::Mapping(ses)) => {
                let m = spec_pass_entries_v(p, ses);
                (NodeV::Mapping(put_in(es, "spec"@, NodeV::Mapping(m.0))), m.1)
            },
            _ => (d, Seq::empty()),
        },
        _ => (d, Seq::empty()),
    }
}

fn deployment_selector() -> (r: Node)
    ensures
        node_view(r) == deployment_selector_v(),
{
    mapping1("matchLabels", mapping1("app", str_node("app-name")))
}

fn default_ports() -> (r: Node)
    ensures
        node_view(r) == default_ports_v(),
{
    let entry = mapping3(
        "port",
        Node::Int(80),
        "targetPort",
        Node::Int(8080),
        "protocol",
        str_node("TCP"),
    );
    let ghost entry_view = node_view(entry);
    let mut ports: Vec<Node> = Vec::new();
    ports.push(entry);
    proof {
        assert(nodes_view(ports@) =~= seq![entry_view]);
    }
    Node::Sequence(ports)
}

fn default_strategy() -> (r: Node)
    ensures
        node_view(r) == default_strategy_v(),
{
    let rolling = mapping2("maxUnavailable", str_node("25%"), "maxSurge", str_node("25%"));
    mapping2("type", str_node("RollingUpdate"), "rollingUpdate", rolling)
}

fn spec_pass_entries_x(ses: &mut Vec<(String, Node)>, p: SpecPass, records: &mut Vec<String>)
    ensures
        entries_view(final(ses)@) == spec_pass_entries_v(p, entries_view(old(ses)@)).0,
        strs_view(final(records)@) == strs_view(old(records)@) + spec_pass_entries_v(
            p,
            entries_view(old(ses)@),
        ).1,
{
    let ghost sv = entries_view(ses@);
    let ghost before = strs_view(records@);
    match p {
        SpecPass::FixDeployment => {
            push_absent_x(ses, "selector", deployment_selector(), "Added selector for Deployment", records);
            push_absent_x(ses, "replicas", Node::Int(2), "Set replicas to 2", records);
            proof {
                let s1 = push_absent(sv, "selector"@, deployment_selector_v(), "Added selector for Deployment"@);
                let s2 = push_absent(s1.0, "replicas"@, NodeV::Int(2), "Set replicas to 2"@);
                assert(strs_view(records@) =~= before + (s1.1 + s2.1));
            }
        },
        SpecPass::FixService => {
            push_absent_x(ses, "ports", default_ports(), "Added default port configuration", records);
            push_absent_x(ses, "selector", mapping1("app", str_node("app-name")), "Added selector for Service", records);
            proof {
                let s1 = push_absent(sv, "ports"@, default_ports_v(), "Added default port configuration"@);
                let s2 = push_absent(s1.0, "selector"@, service_selector_v(), "Added selector for Service"@);
                assert(strs_view(records@) =~= before + (s1.1 + s2.1));
            }
        },
        SpecPass::FixPod => {
            push_absent_x(ses, "restartPolicy", str_node("Always"), "Added restartPolicy: Always", records);
        },
        SpecPass::OptDeployment(aggressive) => {
            push_absent_x(ses, "strategy", default_strategy(), "Added RollingUpdate strategy", records);
            if aggressive {
                push_absent_x(ses, "replicas", Node::Int(3), "Set replicas to 3 for high availability", records);
            }
            proof {
                let s1 = push_absent(sv, "strategy"@, default_strategy_v(), "Added RollingUpdate strategy"@);
                let s2 = if aggressive {
                    push_absent(s1.0, "replicas"@, NodeV::Int(3), "Set replicas to 3 for high availability"@)
                } else {
                    (s1.0, Seq::<Seq<char>>::empty())
                };
                assert(entries_view(ses@) == s2.0);
                assert(strs_view(records@) =~= before + (s1.1 + s2.1));
            }
        },
        SpecPass::OptService => {
            push_absent_x(ses, "sessionAffinity", str_node("None"), "Added explicit sessionAffinity: None", records);
        },
        SpecPass::OptPod(aggressive) => {
            push_absent_x(ses, "restartPolicy", str_node("Always"), "Added restartPolicy: Always", records);
            if aggressive {
                push_absent_x(ses, "dnsPolicy", str_node("ClusterFirst"), "Added dnsPolicy: ClusterFirst", records);
            }
            proof {
                let s1 = push_absent(sv, "restartPolicy"@, NodeV::Str("Always"@), "Added restartPolicy: Always"@);
                let s2 = if aggressive {
                    push_absent(s1.0, "dnsPolicy"@, NodeV::Str("ClusterFirst"@), "Added dnsPolicy: ClusterFirst"@)
                } else {
                    (s1.0, Seq::<Seq<char>>::empty())
                };
                assert(entries_view(ses@) == s2.0);
                assert(strs_view(records@) =~= before + (s1.1 + s2.1));
            }
        },
    }
}

/// Applies one kind-specific pass to a whole document.
pub(crate) fn run_spec_pass(doc: Node, p: SpecPass, records: &mut Vec<String>) -> (r: Node)
    ensures
        node_view(r) == spec_pass_doc_v(p, node_view(doc)).0,
        strs_view(final(records)@) == strs_view(old(records)@) + spec_pass_doc_v(
            p,
            node_view(doc),
        ).1,
{
    match doc {
        Node::Mapping(mut es) => {
            let ghost ev = entries_view(es@);
            let ghost before = strs_view(records@);
            let idx = match get_index(&es, "spec") {
                Some(i) => i,
                None => {
                    proof {
                        lemma_find_in_props(ev, "spec"@);
                        assert(strs_view(records@) =~= before + Seq::<Seq<char>>::empty());
                    }
                    return Node::Mapping(es);
                },
            };
            proof {
                lemma_find_in_props(ev, "spec"@);
            }
            let taken = take_value_at(&mut es, idx);
            let ghost sp_view = node_view(taken.1);
            proof {
                assert(ev[idx as int] == (taken.0@, sp_view));
                assert(get_in(ev, "spec"@) == Some(sp_view));
            }
            let new_sp: Node = match taken.1 {
                Node::Mapping(mut ses) => {
                    let ghost sv = entries_view(ses@);
                    proof {
                        assert(sp_view == NodeV::Mapping(sv));
                    }
                    spec_pass_entries_x(&mut ses, p, records);
                    Node::Mapping(ses)
                },
                other => other,
            };
            let ghost new_sp_view = node_view(new_sp);
            restore_value_at(&mut es, idx, taken.0, new_sp);
            proof {
                assert(node_view(doc) == NodeV::Mapping(ev));
                assert(entries_view(es@) =~= ev.update(idx as int, ("spec"@, new_sp_view)));
                assert(put_in(ev, "spec"@, new_sp_view) == ev.update(
                    idx as int,
                    ("spec"@, new_sp_view),
                ));
                match get_in(ev, "spec"@) {
                    Some(NodeV::Mapping(ses)) => {
                        assert(new_sp_view == NodeV::Mapping(spec_pass_entries_v(p, ses).0));
                        assert(strs_view(records@) =~= before + spec_pass_entries_v(p, ses).1);
                    },
                    _ => {
                        assert(new_sp_view == sp_view);
                        assert(entries_view(es@) =~= ev);
                        assert(strs_view(records@) =~= before + Seq::<Seq<char>>::empty());
                    },
                }
            }
            Node::Mapping(es)
        },
        other => {
            proof {
                assert(strs_view(records@) =~= strs_view(records@) + Seq::<Seq<char>>::empty());
            }
            other
        },
    }
}

} // verus!
