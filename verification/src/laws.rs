use vstd::prelude::*;
use crate::doc::{
    NodeV, get_in, has_in, put_in, lemma_find_in_props, lemma_put_in_get, child_of, containers_v,
    kind_v,
};
use crate::util::{is_latest_image, is_untagged_image, lemma_retagged_image_is_fixed};
use crate::mutate::{
    Pass, pass_container_v, pass_containers_v, pass_holder_entries_v, pass_holder_v,
    pass_template_v, pass_doc_v, push_absent, ensure_entry, lemma_push_entry_get,
    lemma_put_in_same, fix_limits_c_v, fix_probes_c_v, fix_security_c_v, fix_images_c_v,
    opt_requests_v, opt_limits_v, opt_resources_c_v, opt_security_v, opt_pull_policy_v,
    opt_settings_c_v, SpecPass, spec_pass_entries_v, spec_pass_doc_v, default_resources_v,
    default_probe_v, default_security_context_v,
};

verus! {

/// The container-level keys the passes read and write are pairwise
/// distinct character sequences.
pub proof fn lemma_container_keys_distinct()
    ensures
        "resources"@ != "readinessProbe"@,
        "resources"@ != "livenessProbe"@,
        "resources"@ != "securityContext"@,
        "resources"@ != "image"@,
        "resources"@ != "imagePullPolicy"@,
        "readinessProbe"@ != "livenessProbe"@,
        "readinessProbe"@ != "securityContext"@,
        "readinessProbe"@ != "image"@,
        "readinessProbe"@ != "imagePullPolicy"@,
        "livenessProbe"@ != "securityContext"@,
        "livenessProbe"@ != "image"@,
        "livenessProbe"@ != "imagePullPolicy"@,
        "securityContext"@ != "image"@,
        "securityContext"@ != "imagePullPolicy"@,
        "image"@ != "imagePullPolicy"@,
        "requests"@ != "limits"@,
        "cpu"@ != "memory"@,
        "runAsNonRoot"@ != "readOnlyRootFilesystem"@,
        "Always"@ != "IfNotPresent"@,
{
    reveal_strlit("resources");
    reveal_strlit("readinessProbe");
    reveal_strlit("livenessProbe");
    reveal_strlit("securityContext");
    reveal_strlit("image");
    reveal_strlit("imagePullPolicy");
    reveal_strlit("requests");
    reveal_strlit("limits");
    reveal_strlit("cpu");
    reveal_strlit("memory");
    reveal_strlit("runAsNonRoot");
    reveal_strlit("readOnlyRootFilesystem");
    reveal_strlit("Always");
    reveal_strlit("IfNotPresent");
    assert("resources"@.len() == 9);
    assert("resources"@[0] == 'r');
    assert("resources"@[1] == 'e');
    assert("readinessProbe"@.len() == 14);
    assert("readinessProbe"@[0] == 'r');
    assert("readinessProbe"@[1] == 'e');
    assert("livenessProbe"@.len() == 13);
    assert("livenessProbe"@[0] == 'l');
    assert("livenessProbe"@[1] == 'i');
    assert("securityContext"@.len() == 15);
    assert("securityContext"@[0] == 's');
    assert("securityContext"@[1] == 'e');
    assert("image"@.len() == 5);
    assert("image"@[0] == 'i');
    assert("image"@[1] == 'm');
    assert("imagePullPolicy"@.len() == 15);
    assert("imagePullPolicy"@[0] == 'i');
    assert("imagePullPolicy"@[1] == 'm');
    assert("requests"@.len() == 8);
    assert("requests"@[0] == 'r');
    assert("requests"@[1] == 'e');
    assert("limits"@.len() == 6);
    assert("limits"@[0] == 'l');
    assert("limits"@[1] == 'i');
    assert("cpu"@.len() == 3);
    assert("cpu"@[0] == 'c');
    assert("cpu"@[1] == 'p');
    assert("memory"@.len() == 6);
    assert("memory"@[0] == 'm');
    assert("memory"@[1] == 'e');
    assert("runAsNonRoot"@.len() == 12);
    assert("runAsNonRoot"@[0] == 'r');
    assert("runAsNonRoot"@[1] == 'u');
    assert("readOnlyRootFilesystem"@.len() == 22);
    assert("readOnlyRootFilesystem"@[0] == 'r');
    assert("readOnlyRootFilesystem"@[1] == 'e');
    assert("Always"@.len() == 6);
    assert("Always"@[0] == 'A');
    assert("Always"@[1] == 'l');
    assert("IfNotPresent"@.len() == 12);
    assert("IfNotPresent"@[0] == 'I');
    assert("IfNotPresent"@[1] == 'f');
}

/// The document- and spec-level keys the passes read and write are
/// pairwise distinct character sequences where it matters.
pub proof fn lemma_doc_keys_distinct()
    ensures
        "spec"@ != "metadata"@,
        "spec"@ != "kind"@,
        "metadata"@ != "kind"@,
        "template"@ != "containers"@,
        "template"@ != "selector"@,
        "template"@ != "replicas"@,
        "template"@ != "ports"@,
        "template"@ != "strategy"@,
        "template"@ != "sessionAffinity"@,
        "template"@ != "restartPolicy"@,
        "template"@ != "dnsPolicy"@,
        "containers"@ != "selector"@,
        "containers"@ != "replicas"@,
        "containers"@ != "ports"@,
        "containers"@ != "strategy"@,
        "containers"@ != "sessionAffinity"@,
        "containers"@ != "restartPolicy"@,
        "containers"@ != "dnsPolicy"@,
        "selector"@ != "replicas"@,
        "ports"@ != "selector"@,
        "strategy"@ != "replicas"@,
        "restartPolicy"@ != "dnsPolicy"@,
        "name"@ != "labels"@,
        "name"@ != "namespace"@,
        "labels"@ != "namespace"@,
        "app"@ != "app.kubernetes.io/name"@,
        "app"@ != "app.kubernetes.io/version"@,
        "app"@ != "app.kubernetes.io/component"@,
        "app.kubernetes.io/name"@ != "app.kubernetes.io/version"@,
        "app.kubernetes.io/name"@ != "app.kubernetes.io/component"@,
        "app.kubernetes.io/version"@ != "app.kubernetes.io/component"@,
{
    reveal_strlit("spec");
    reveal_strlit("metadata");
    reveal_strlit("kind");
    reveal_strlit("template");
    reveal_strlit("containers");
    reveal_strlit("selector");
    reveal_strlit("replicas");
    reveal_strlit("ports");
    reveal_strlit("strategy");
    reveal_strlit("sessionAffinity");
    reveal_strlit("restartPolicy");
    reveal_strlit("dnsPolicy");
    reveal_strlit("name");
    reveal_strlit("labels");
    reveal_strlit("namespace");
    reveal_strlit("app");
    reveal_strlit("app.kubernetes.io/name");
    reveal_strlit("app.kubernetes.io/version");
    reveal_strlit("app.kubernetes.io/component");
    assert("spec"@.len() == 4);
    assert("spec"@[0] == 's');
    assert("spec"@[1] == 'p');
    assert("metadata"@.len() == 8);
    assert("metadata"@[0] == 'm');
    assert("metadata"@[1] == 'e');
    assert("kind"@.len() == 4);
    assert("kind"@[0] == 'k');
    assert("kind"@[1] == 'i');
    assert("template"@.len() == 8);
    assert("template"@[0] == 't');
    assert("template"@[1] == 'e');
    assert("containers"@.len() == 10);
    assert("containers"@[0] == 'c');
    assert("containers"@[1] == 'o');
    assert("selector"@.len() == 8);
    assert("selector"@[0] == 's');
    assert("selector"@[1] == 'e');
    assert("replicas"@.len() == 8);
    assert("replicas"@[0] == 'r');
    assert("replicas"@[1] == 'e');
    assert("ports"@.len() == 5);
    assert("ports"@[0] == 'p');
    assert("ports"@[1] == 'o');
    assert("strategy"@.len() == 8);
    assert("strategy"@[0] == 's');
    assert("strategy"@[1] == 't');
    assert("sessionAffinity"@.len() == 15);
    assert("sessionAffinity"@[0] == 's');
    assert("sessionAffinity"@[1] == 'e');
    assert("restartPolicy"@.len() == 13);
    assert("restartPolicy"@[0] == 'r');
    assert("restartPolicy"@[1] == 'e');
    assert("dnsPolicy"@.len() == 9);
    assert("dnsPolicy"@[0] == 'd');
    assert("dnsPolicy"@[1] == 'n');
    assert("name"@.len() == 4);
    assert("name"@[0] == 'n');
    assert("name"@[1] == 'a');
    assert("labels"@.len() == 6);
    assert("labels"@[0] == 'l');
    assert("labels"@[1] == 'a');
    assert("namespace"@.len() == 9);
    assert("namespace"@[0] == 'n');
    assert("namespace"@[1] == 'a');
    assert("app"@.len() == 3);
    assert("app"@[0] == 'a');
    assert("app"@[1] == 'p');
    assert("app.kubernetes.io/name"@.len() == 22);
    assert("app.kubernetes.io/name"@[0] == 'a');
    assert("app.kubernetes.io/name"@[1] == 'p');
    assert("app.kubernetes.io/version"@.len() == 25);
    assert("app.kubernetes.io/version"@[0] == 'a');
    assert("app.kubernetes.io/version"@[1] == 'p');
    assert("app.kubernetes.io/component"@.len() == 27);
    assert("app.kubernetes.io/component"@[0] == 'a');
    assert("app.kubernetes.io/component"@[1] == 'p');
}

/// A `push_absent` leaves its key present and every other key's value
/// untouched.
pub proof fn lemma_push_absent_get(
    es: Seq<(Seq<char>, NodeV)>,
    k: Seq<char>,
    v: NodeV,
    rec: Seq<char>,
    k2: Seq<char>,
)
    ensures
        has_in(push_absent(es, k, v, rec).0, k),
        k2 != k ==> get_in(push_absent(es, k, v, rec).0, k2) == get_in(es, k2),
        has_in(es, k) ==> push_absent(es, k, v, rec) == (es, Seq::<Seq<char>>::empty()),
        !has_in(es, k) ==> get_in(push_absent(es, k, v, rec).0, k) == Some(v),
{
    lemma_push_entry_get(es, (k, v), k2);
}

pub proof fn lemma_ensure_entry_get(
    es: Seq<(Seq<char>, NodeV)>,
    k: Seq<char>,
    v: NodeV,
    k2: Seq<char>,
)
    ensures
        has_in(ensure_entry(es, k, v), k),
        k2 != k ==> get_in(ensure_entry(es, k, v), k2) == get_in(es, k2),
        has_in(es, k) ==> ensure_entry(es, k, v) == es,
        !has_in(es, k) ==> get_in(ensure_entry(es, k, v), k) == Some(v),
{
    lemma_push_entry_get(es, (k, v), k2);
}

/// Whether the fix resource-limits pass has nothing left to do.
pub open spec fn limits_quiet(c: NodeV) -> bool {
    match c {
        NodeV::Mapping(ces) => has_in(ces, "resources"@),
        _ => true,
    }
}

/// Whether the fix probes pass has nothing left to do.
pub open spec fn probes_quiet(c: NodeV) -> bool {
    match c {
        NodeV::Mapping(ces) => has_in(ces, "readinessProbe"@) && has_in(ces, "livenessProbe"@),
        _ => true,
    }
}

/// Whether the fix security-context pass has nothing left to do.
pub open spec fn security_quiet(c: NodeV) -> bool {
    match c {
        NodeV::Mapping(ces) => has_in(ces, "securityContext"@),
        _ => true,
    }
}

/// Whether the fix image pass has nothing left to do.
pub open spec fn images_quiet(c: NodeV) -> bool {
    match c {
        NodeV::Mapping(ces) => match get_in(ces, "image"@) {
            Some(NodeV::Str(s)) => !(is_latest_image(s) || is_untagged_image(s)),
            _ => true,
        },
        _ => true,
    }
}

/// One fix pass leaves the container quiet for itself, preserves its
/// mapping shape, and leaves every key it does not own untouched.
pub proof fn lemma_fix_pass_effects(p: Pass, c: NodeV, k: Seq<char>)
    requires
        p == Pass::FixLimits || p == Pass::FixProbes || p == Pass::FixSecurity || p
            == Pass::FixImages,
    ensures
        (pass_container_v(p, c).0 is Mapping) == (c is Mapping),
        p == Pass::FixLimits ==> limits_quiet(pass_container_v(p, c).0),
        p == Pass::FixProbes ==> probes_quiet(pass_container_v(p, c).0),
        p == Pass::FixSecurity ==> security_quiet(pass_container_v(p, c).0),
        p == Pass::FixImages ==> images_quiet(pass_container_v(p, c).0),
        (p == Pass::FixLimits && k != "resources"@) ==> child_of(pass_container_v(p, c).0, k)
            == child_of(c, k),
        (p == Pass::FixProbes && k != "readinessProbe"@ && k != "livenessProbe"@) ==> child_of(
            pass_container_v(p, c).0,
            k,
        ) == child_of(c, k),
        (p == Pass::FixSecurity && k != "securityContext"@) ==> child_of(
            pass_container_v(p, c).0,
            k,
        ) == child_of(c, k),
        (p == Pass::FixImages && k != "image"@) ==> child_of(pass_container_v(p, c).0, k)
            == child_of(c, k),
{
    match c {
        NodeV::Mapping(ces) => {
            match p {
                Pass::FixLimits => {
                    lemma_push_absent_get(
                        ces,
                        "resources"@,
                        default_resources_v(),
                        fix_limits_c_v(c).1.first(),
                        k,
                    );
                    lemma_push_entry_get(ces, ("resources"@, default_resources_v()), k);
                },
                Pass::FixProbes => {
                    lemma_container_keys_distinct();
                    let s1 = push_absent(
                        ces,
                        "readinessProbe"@,
                        default_probe_v(10, 10),
                        "Added readiness probe for container '"@ + crate::doc::container_name_v(c)
                            + "'"@,
                    );
                    lemma_push_entry_get(ces, ("readinessProbe"@, default_probe_v(10, 10)), k);
                    lemma_push_entry_get(
                        ces,
                        ("readinessProbe"@, default_probe_v(10, 10)),
                        "livenessProbe"@,
                    );
                    lemma_push_entry_get(s1.0, ("livenessProbe"@, default_probe_v(30, 30)), k);
                    lemma_push_entry_get(
                        s1.0,
                        ("livenessProbe"@, default_probe_v(30, 30)),
                        "readinessProbe"@,
                    );
                },
                Pass::FixSecurity => {
                    lemma_push_entry_get(ces, ("securityContext"@, default_security_context_v()), k);
                },
                Pass::FixImages => {
                    match get_in(ces, "image"@) {
                        Some(NodeV::Str(s)) => {
                            if is_latest_image(s) || is_untagged_image(s) {
                                lemma_retagged_image_is_fixed(s);
                                lemma_put_in_get(
                                    ces,
                                    "image"@,
                                    NodeV::Str(crate::util::retagged_image(s)),
                                    k,
                                );
                                lemma_put_in_get(
                                    ces,
                                    "image"@,
                                    NodeV::Str(crate::util::retagged_image(s)),
                                    "image"@,
                                );
                            }
                        },
                        _ => {},
                    }
                },
                _ => {},
            }
        },
        _ => {},
    }
}

/// A quiet container passes through a fix pass unchanged and silently.
pub proof fn lemma_fix_pass_quiet(p: Pass, c: NodeV)
    requires
        p == Pass::FixLimits ==> limits_quiet(c),
        p == Pass::FixProbes ==> probes_quiet(c),
        p == Pass::FixSecurity ==> security_quiet(c),
        p == Pass::FixImages ==> images_quiet(c),
        p == Pass::FixLimits || p == Pass::FixProbes || p == Pass::FixSecurity || p
            == Pass::FixImages,
    ensures
        pass_container_v(p, c) == (c, Seq::<Seq<char>>::empty()),
{
    match c {
        NodeV::Mapping(ces) => {
            match p {
                Pass::FixProbes => {
                    let s1 = push_absent(
                        ces,
                        "readinessProbe"@,
                        default_probe_v(10, 10),
                        "Added readiness probe for container '"@ + crate::doc::container_name_v(c)
                            + "'"@,
                    );
                    assert(s1.0 == ces);
                    assert(fix_probes_c_v(c).1 =~= Seq::<Seq<char>>::empty());
                    assert(fix_probes_c_v(c).0 == c);
                },
                _ => {},
            }
        },
        _ => {},
    }
}

/// Whether the optimize requests step has nothing left to do.
pub open spec fn opt_requests_quiet(res: Seq<(Seq<char>, NodeV)>) -> bool {
    has_in(res, "requests"@) && (match get_in(res, "requests"@) {
        Some(NodeV::Mapping(req)) => has_in(req, "cpu"@) && has_in(req, "memory"@),
        _ => true,
    })
}

/// Whether the optimize limits step has nothing left to do.
pub open spec fn opt_limits_quiet(res: Seq<(Seq<char>, NodeV)>) -> bool {
    has_in(res, "limits"@) && (match get_in(res, "limits"@) {
        Some(NodeV::Mapping(lim)) => has_in(lim, "cpu"@) && has_in(lim, "memory"@),
        _ => true,
    })
}

pub proof fn lemma_opt_requests_effects(res: Seq<(Seq<char>, NodeV)>, k: Seq<char>)
    ensures
        opt_requests_quiet(opt_requests_v(res).0),
        k != "requests"@ ==> get_in(opt_requests_v(res).0, k) == get_in(res, k),
        opt_requests_quiet(res) ==> opt_requests_v(res) == (res, Seq::<Seq<char>>::empty()),
{
    lemma_container_keys_distinct();
    let res1 = ensure_entry(res, "requests"@, NodeV::Mapping(Seq::empty()));
    lemma_ensure_entry_get(res, "requests"@, NodeV::Mapping(Seq::empty()), k);
    match get_in(res1, "requests"@) {
        Some(NodeV::Mapping(req)) => {
            let s1 = push_absent(req, "cpu"@, NodeV::Str("100m"@), "Added CPU request: 100m"@);
            let s2 = push_absent(
                s1.0,
                "memory"@,
                NodeV::Str("128Mi"@),
                "Added memory request: 128Mi"@,
            );
            lemma_push_absent_get(req, "cpu"@, NodeV::Str("100m"@), "Added CPU request: 100m"@, "memory"@);
            lemma_push_absent_get(
                s1.0,
                "memory"@,
                NodeV::Str("128Mi"@),
                "Added memory request: 128Mi"@,
                "cpu"@,
            );
            let out = put_in(res1, "requests"@, NodeV::Mapping(s2.0));
            lemma_put_in_get(res1, "requests"@, NodeV::Mapping(s2.0), k);
            if opt_requests_quiet(res) {
                assert(res1 == res);
                assert(s1 == (req, Seq::<Seq<char>>::empty()));
                assert(s2 == (req, Seq::<Seq<char>>::empty()));
                lemma_find_in_props(res, "requests"@);
                lemma_put_in_same(res, "requests"@, NodeV::Mapping(req));
                assert(opt_requests_v(res).1 =~= Seq::<Seq<char>>::empty());
            }
        },
        _ => {
            assert(res1 == res);
        },
    }
}

pub proof fn lemma_opt_limits_effects(res: Seq<(Seq<char>, NodeV)>, k: Seq<char>)
    ensures
        opt_limits_quiet(opt_limits_v(res).0),
        k != "limits"@ ==> get_in(opt_limits_v(res).0, k) == get_in(res, k),
        opt_limits_quiet(res) ==> opt_limits_v(res) == (res, Seq::<Seq<char>>::empty()),
{
    lemma_container_keys_distinct();
    let res2 = ensure_entry(res, "limits"@, NodeV::Mapping(Seq::empty()));
    lemma_ensure_entry_get(res, "limits"@, NodeV::Mapping(Seq::empty()), k);
    match get_in(res2, "limits"@) {
        Some(NodeV::Mapping(lim)) => {
            let s3 = push_absent(lim, "cpu"@, NodeV::Str("500m"@), "Added CPU limit: 500m"@);
            let s4 = push_absent(
                s3.0,
                "memory"@,
                NodeV::Str("512Mi"@),
                "Added memory limit: 512Mi"@,
            );
            lemma_push_absent_get(lim, "cpu"@, NodeV::Str("500m"@), "Added CPU limit: 500m"@, "memory"@);
            lemma_push_absent_get(
                s3.0,
                "memory"@,
                NodeV::Str("512Mi"@),
                "Added memory limit: 512Mi"@,
                "cpu"@,
            );
            lemma_put_in_get(res2, "limits"@, NodeV::Mapping(s4.0), k);
            if opt_limits_quiet(res) {
                assert(res2 == res);
                assert(s3 == (lim, Seq::<Seq<char>>::empty()));
                assert(s4 == (lim, Seq::<Seq<char>>::empty()));
                lemma_find_in_props(res, "limits"@);
                lemma_put_in_same(res, "limits"@, NodeV::Mapping(lim));
                assert(opt_limits_v(res).1 =~= Seq::<Seq<char>>::empty());
            }
        },
        _ => {
            assert(res2 == res);
        },
    }
}

/// Whether the optimize resources pass has nothing left to do.
pub open spec fn opt_resources_quiet(c: NodeV, aggressive: bool) -> bool {
    match c {
        NodeV::Mapping(ces) => has_in(ces, "resources"@) && (match get_in(ces, "resources"@) {
            Some(NodeV::Mapping(res)) => opt_requests_quiet(res) && (aggressive
                ==> opt_limits_quiet(res)),
            _ => true,
        }),
        _ => true,
    }
}

pub proof fn lemma_opt_resources_effects(c: NodeV, aggressive: bool, k: Seq<char>)
    ensures
        (opt_resources_c_v(c, aggressive).0 is Mapping) == (c is Mapping),
        opt_resources_quiet(opt_resources_c_v(c, aggressive).0, aggressive),
        k != "resources"@ ==> child_of(opt_resources_c_v(c, aggressive).0, k) == child_of(c, k),
        opt_resources_quiet(c, aggressive) ==> opt_resources_c_v(c, aggressive) == (
            c,
            Seq::<Seq<char>>::empty(),
        ),
{
    lemma_container_keys_distinct();
    match c {
        NodeV::Mapping(ces) => {
            let ces1 = ensure_entry(ces, "resources"@, NodeV::Mapping(Seq::empty()));
            lemma_ensure_entry_get(ces, "resources"@, NodeV::Mapping(Seq::empty()), k);
            match get_in(ces1, "resources"@) {
                Some(NodeV::Mapping(res)) => {
                    let a = opt_requests_v(res);
                    lemma_opt_requests_effects(res, "limits"@);
                    lemma_opt_requests_effects(res, "requests"@);
                    let b = if aggressive {
                        opt_limits_v(a.0)
                    } else {
                        (a.0, Seq::<Seq<char>>::empty())
                    };
                    if aggressive {
                        lemma_opt_limits_effects(a.0, "requests"@);
                    }
                    assert(opt_requests_quiet(b.0)) by {
                        if aggressive {
                            lemma_opt_limits_effects(a.0, "requests"@);
                        }
                    }
                    lemma_put_in_get(ces1, "resources"@, NodeV::Mapping(b.0), k);
                    lemma_put_in_get(ces1, "resources"@, NodeV::Mapping(b.0), "resources"@);
                    if opt_resources_quiet(c, aggressive) {
                        assert(ces1 == ces);
                        assert(a == (res, Seq::<Seq<char>>::empty()));
                        assert(b == (res, Seq::<Seq<char>>::empty()));
                        lemma_find_in_props(ces, "resources"@);
                        lemma_put_in_same(ces, "resources"@, NodeV::Mapping(res));
                        assert(opt_resources_c_v(c, aggressive).1 =~= Seq::<Seq<char>>::empty());
                    }
                },
                _ => {
                    assert(ces1 == ces);
                },
            }
        },
        _ => {},
    }
}

/// Whether the optimize settings pass has nothing left to do.
pub open spec fn opt_settings_quiet(c: NodeV, aggressive: bool) -> bool {
    match c {
        NodeV::Mapping(ces) => has_in(ces, "securityContext"@) && (match get_in(
            ces,
            "securityContext"@,
        ) {
            Some(NodeV::Mapping(sc)) => has_in(sc, "runAsNonRoot"@) && (aggressive ==> has_in(
                sc,
                "readOnlyRootFilesystem"@,
            )),
            _ => true,
        }) && (match get_in(ces, "imagePullPolicy"@) {
            Some(NodeV::Str(p)) => p != "Always"@,
            _ => true,
        }),
        _ => true,
    }
}

pub proof fn lemma_opt_settings_effects(c: NodeV, aggressive: bool, k: Seq<char>)
    ensures
        (opt_settings_c_v(c, aggressive).0 is Mapping) == (c is Mapping),
        opt_settings_quiet(opt_settings_c_v(c, aggressive).0, aggressive),
        (k != "securityContext"@ && k != "imagePullPolicy"@) ==> child_of(
            opt_settings_c_v(c, aggressive).0,
            k,
        ) == child_of(c, k),
        opt_settings_quiet(c, aggressive) ==> opt_settings_c_v(c, aggressive) == (
            c,
            Seq::<Seq<char>>::empty(),
        ),
{
    lemma_container_keys_distinct();
    match c {
        NodeV::Mapping(ces) => {
            let ces1 = ensure_entry(ces, "securityContext"@, NodeV::Mapping(Seq::empty()));
            lemma_ensure_entry_get(ces, "securityContext"@, NodeV::Mapping(Seq::empty()), k);
            lemma_ensure_entry_get(
                ces,
                "securityContext"@,
                NodeV::Mapping(Seq::empty()),
                "imagePullPolicy"@,
            );
            let after_sc: (Seq<(Seq<char>, NodeV)>, Seq<Seq<char>>) = match get_in(
                ces1,
                "securityContext"@,
            ) {
                Some(NodeV::Mapping(sc)) => {
                    let st = opt_security_v(sc, aggressive);
                    (put_in(ces1, "securityContext"@, NodeV::Mapping(st.0)), st.1)
                },
                _ => (ces1, Seq::<Seq<char>>::empty()),
            };
            match get_in(ces1, "securityContext"@) {
                Some(NodeV::Mapping(sc)) => {
                    let s1 = push_absent(
                        sc,
                        "runAsNonRoot"@,
                        NodeV::Bool(true),
                        "Added runAsNonRoot: true"@,
                    );
                    lemma_push_absent_get(
                        sc,
                        "runAsNonRoot"@,
                        NodeV::Bool(true),
                        "Added runAsNonRoot: true"@,
                        "readOnlyRootFilesystem"@,
                    );
                    if aggressive {
                        lemma_push_absent_get(
                            s1.0,
                            "readOnlyRootFilesystem"@,
                            NodeV::Bool(true),
                            "Added readOnlyRootFilesystem: true"@,
                            "runAsNonRoot"@,
                        );
                    }
                    lemma_put_in_get(ces1, "securityContext"@, NodeV::Mapping(opt_security_v(sc, aggressive).0), k);
                    lemma_put_in_get(
                        ces1,
                        "securityContext"@,
                        NodeV::Mapping(opt_security_v(sc, aggressive).0),
                        "imagePullPolicy"@,
                    );
                    lemma_put_in_get(
                        ces1,
                        "securityContext"@,
                        NodeV::Mapping(opt_security_v(sc, aggressive).0),
                        "securityContext"@,
                    );
                },
                _ => {},
            }
            let after_ipp = opt_pull_policy_v(after_sc.0);
            match get_in(after_sc.0, "imagePullPolicy"@) {
                Some(NodeV::Str(p)) => {
                    if p == "Always"@ {
                        lemma_put_in_get(after_sc.0, "imagePullPolicy"@, NodeV::Str("IfNotPresent"@), k);
                        lemma_put_in_get(
                            after_sc.0,
                            "imagePullPolicy"@,
                            NodeV::Str("IfNotPresent"@),
                            "imagePullPolicy"@,
                        );
                        lemma_put_in_get(
                            after_sc.0,
                            "imagePullPolicy"@,
                            NodeV::Str("IfNotPresent"@),
                            "securityContext"@,
                        );
                    }
                },
                _ => {},
            }
            if opt_settings_quiet(c, aggressive) {
                assert(ces1 == ces);
                match get_in(ces, "securityContext"@) {
                    Some(NodeV::Mapping(sc)) => {
                        assert(opt_security_v(sc, aggressive).0 == sc);
                        assert(opt_security_v(sc, aggressive).1 =~= Seq::<Seq<char>>::empty());
                        lemma_find_in_props(ces, "securityContext"@);
                        lemma_put_in_same(ces, "securityContext"@, NodeV::Mapping(sc));
                    },
                    _ => {},
                }
                assert(after_sc.0 == ces);
                assert(after_ipp == (ces, Seq::<Seq<char>>::empty()));
                assert(opt_settings_c_v(c, aggressive).1 =~= Seq::<Seq<char>>::empty());
            }
        },
        _ => {},
    }
}

pub proof fn lemma_pass_containers_pointwise(p: Pass, cs: Seq<NodeV>)
    ensures
        pass_containers_v(p, cs).0.len() == cs.len(),
        forall|i: int|
            0 <= i < cs.len() ==> pass_containers_v(p, cs).0[i] == pass_container_v(
                p,
                #[trigger] cs[i],
            ).0,
    decreases cs.len(),
{
    if cs.len() > 0 {
        lemma_pass_containers_pointwise(p, cs.drop_last());
        assert(forall|i: int|
            0 <= i < cs.len() - 1 ==> cs.drop_last()[i] == #[trigger] cs[i]);
    }
}

pub proof fn lemma_pass_containers_quiet(p: Pass, cs: Seq<NodeV>)
    requires
        forall|i: int|
            0 <= i < cs.len() ==> #[trigger] pass_container_v(p, cs[i]) == (
                cs[i],
                Seq::<Seq<char>>::empty(),
            ),
    ensures
        pass_containers_v(p, cs) == (cs, Seq::<Seq<char>>::empty()),
    decreases cs.len(),
{
    if cs.len() == 0 {
        assert(pass_containers_v(p, cs).0 =~= cs);
        assert(pass_containers_v(p, cs).1 =~= Seq::<Seq<char>>::empty());
    } else {
        assert(forall|i: int|
            0 <= i < cs.len() - 1 ==> cs.drop_last()[i] == #[trigger] cs[i]);
        lemma_pass_containers_quiet(p, cs.drop_last());
        assert(cs.last() == cs[cs.len() - 1]);
        assert(pass_containers_v(p, cs).0 =~= cs);
        assert(pass_containers_v(p, cs).1 =~= Seq::<Seq<char>>::empty());
    }
}

/// Value under `spec.<k>`, when the document has a mapping there.
pub open spec fn spec_child(d: NodeV, k: Seq<char>) -> Option<NodeV> {
    match child_of(d, "spec"@) {
        Some(sp) => child_of(sp, k),
        None => None,
    }
}

/// Container resolution consistency: a container pass rewrites exactly the
/// containers that `containers_v` resolves — the same sequence every rule
/// and scorer reads — and touches nothing else: every other top-level child,
/// and every spec-level child other than the container path, is unchanged.
pub proof fn lemma_pass_doc_effects(p: Pass, d: NodeV, k: Seq<char>, k2: Seq<char>)
    ensures
        (pass_doc_v(p, d).0 is Mapping) == (d is Mapping),
        containers_v(pass_doc_v(p, d).0) == (match containers_v(d) {
            Some(cs) => Some(pass_containers_v(p, cs).0),
            None => None,
        }),
        k != "spec"@ ==> child_of(pass_doc_v(p, d).0, k) == child_of(d, k),
        (child_of(pass_doc_v(p, d).0, "spec"@) is Some) == (child_of(d, "spec"@) is Some),
        (k2 != "template"@ && k2 != "containers"@) ==> spec_child(pass_doc_v(p, d).0, k2)
            == spec_child(d, k2),
        (match child_of(pass_doc_v(p, d).0, "spec"@) {
            Some(sp) => sp is Mapping,
            None => false,
        }) == (match child_of(d, "spec"@) {
            Some(sp) => sp is Mapping,
            None => false,
        }),
{
    lemma_doc_keys_distinct();
    let r = pass_doc_v(p, d);
    match d {
        NodeV::Mapping(es) => {
            match get_in(es, "spec"@) {
                Some(sp) => {
                    let has_t = match sp {
                        NodeV::Mapping(ses) => has_in(ses, "template"@),
                        _ => false,
                    };
                    if has_t {
                        match sp {
                            NodeV::Mapping(ses) => {
                                match get_in(ses, "template"@) {
                                    Some(t) => {
                                        let m = pass_template_v(p, t);
                                        let ses2 = put_in(ses, "template"@, m.0);
                                        let es2 = put_in(es, "spec"@, NodeV::Mapping(ses2));
                                        lemma_put_in_get(es, "spec"@, NodeV::Mapping(ses2), k);
                                        lemma_put_in_get(ses, "template"@, m.0, k2);
                                        lemma_put_in_get(ses, "template"@, m.0, "template"@);
                                        lemma_put_in_get(ses, "template"@, m.0, "containers"@);
                                        match t {
                                            NodeV::Mapping(tes) => {
                                                match get_in(tes, "spec"@) {
                                                    Some(ts) => {
                                                        let h = pass_holder_v(p, ts);
                                                        lemma_put_in_get(tes, "spec"@, h.0, "spec"@);
                                                        match ts {
                                                            NodeV::Mapping(hes) => {
                                                                match get_in(hes, "containers"@) {
                                                                    Some(NodeV::Sequence(cs)) => {
                                                                        lemma_put_in_get(
                                                                            hes,
                                                                            "containers"@,
                                                                            NodeV::Sequence(
                                                                                pass_containers_v(p, cs).0,
                                                                            ),
                                                                            "containers"@,
                                                                        );
                                                                    },
                                                                    _ => {},
                                                                }
                                                            },
                                                            _ => {},
                                                        }
                                                    },
                                                    None => {},
                                                }
                                            },
                                            _ => {},
                                        }
                                    },
                                    None => {},
                                }
                            },
                            _ => {},
                        }
                    } else {
                        let m = pass_holder_v(p, sp);
                        let es2 = put_in(es, "spec"@, m.0);
                        lemma_put_in_get(es, "spec"@, m.0, k);
                        match sp {
                            NodeV::Mapping(hes) => {
                                match get_in(hes, "containers"@) {
                                    Some(NodeV::Sequence(cs)) => {
                                        lemma_put_in_get(
                                            hes,
                                            "containers"@,
                                            NodeV::Sequence(pass_containers_v(p, cs).0),
                                            "containers"@,
                                        );
                                        lemma_put_in_get(
                                            hes,
                                            "containers"@,
                                            NodeV::Sequence(pass_containers_v(p, cs).0),
                                            "template"@,
                                        );
                                        lemma_put_in_get(
                                            hes,
                                            "containers"@,
                                            NodeV::Sequence(pass_containers_v(p, cs).0),
                                            k2,
                                        );
                                    },
                                    _ => {},
                                }
                            },
                            _ => {},
                        }
                    }
                },
                None => {},
            }
        },
        _ => {},
    }
}

/// A container pass whose per-container steps are all silent leaves the
/// whole document unchanged and emits nothing.
pub proof fn lemma_pass_doc_quiet(p: Pass, d: NodeV)
    requires
        match containers_v(d) {
            Some(cs) => forall|i: int|
                0 <= i < cs.len() ==> #[trigger] pass_container_v(p, cs[i]) == (
                    cs[i],
                    Seq::<Seq<char>>::empty(),
                ),
            None => true,
        },
    ensures
        pass_doc_v(p, d) == (d, Seq::<Seq<char>>::empty()),
{
    lemma_doc_keys_distinct();
    match d {
        NodeV::Mapping(es) => {
            match get_in(es, "spec"@) {
                Some(sp) => {
                    lemma_find_in_props(es, "spec"@);
                    let has_t = match sp {
                        NodeV::Mapping(ses) => has_in(ses, "template"@),
                        _ => false,
                    };
                    if has_t {
                        match sp {
                            NodeV::Mapping(ses) => {
                                match get_in(ses, "template"@) {
                                    Some(t) => {
                                        lemma_find_in_props(ses, "template"@);
                                        let m = pass_template_v(p, t);
                                        match t {
                                            NodeV::Mapping(tes) => {
                                                match get_in(tes, "spec"@) {
                                                    Some(ts) => {
                                                        lemma_find_in_props(tes, "spec"@);
                                                        let h = pass_holder_v(p, ts);
                                                        match ts {
                                                            NodeV::Mapping(hes) => {
                                                                match get_in(hes, "containers"@) {
                                                                    Some(NodeV::Sequence(cs)) => {
                                                                        lemma_find_in_props(hes, "containers"@);
                                                                        assert(containers_v(d) == Some(cs));
                                                                        assert(containers_v(d)->Some_0 == cs);
                                                                        assert(forall|i: int| 0 <= i < cs.len() ==> #[trigger] pass_container_v(p, cs[i]) == (cs[i], Seq::<Seq<char>>::empty()));
                                                                        lemma_pass_containers_quiet(p, cs);
                                                                        lemma_put_in_same(
                                                                            hes,
                                                                            "containers"@,
                                                                            NodeV::Sequence(cs),
                                                                        );
                                                                        assert(h.0 == ts);
                                                                    },
                                                                    _ => {},
                                                                }
                                                            },
                                                            _ => {},
                                                        }
                                                        assert(h == (ts, Seq::<Seq<char>>::empty()));
                                                        lemma_put_in_same(tes, "spec"@, ts);
                                                        assert(m == (t, Seq::<Seq<char>>::empty()));
                                                    },
                                                    None => {},
                                                }
                                            },
                                            _ => {},
                                        }
                                        assert(m == (t, Seq::<Seq<char>>::empty()));
                                        lemma_put_in_same(ses, "template"@, t);
                                        lemma_put_in_same(es, "spec"@, NodeV::Mapping(ses));
                                        assert(pass_doc_v(p, d).0 == d);
                                        assert(pass_doc_v(p, d).1 =~= Seq::<Seq<char>>::empty());
                                    },
                                    None => {
                                        assert(false);
                                    },
                                }
                            },
                            _ => {
                                assert(false);
                            },
                        }
                    } else {
                        let m = pass_holder_v(p, sp);
                        match sp {
                            NodeV::Mapping(hes) => {
                                match get_in(hes, "containers"@) {
                                    Some(NodeV::Sequence(cs)) => {
                                        lemma_find_in_props(hes, "containers"@);
                                        assert(containers_v(d) == Some(cs));
                                        assert(containers_v(d)->Some_0 == cs);
                                        assert(forall|i: int| 0 <= i < cs.len() ==> #[trigger] pass_container_v(p, cs[i]) == (cs[i], Seq::<Seq<char>>::empty()));
                                        lemma_pass_containers_quiet(p, cs);
                                        lemma_put_in_same(hes, "containers"@, NodeV::Sequence(cs));
                                        assert(m.0 == sp);
                                    },
                                    _ => {},
                                }
                            },
                            _ => {},
                        }
                        assert(m == (sp, Seq::<Seq<char>>::empty()));
                        lemma_put_in_same(es, "spec"@, sp);
                        assert(pass_doc_v(p, d).0 == d);
                        assert(pass_doc_v(p, d).1 =~= Seq::<Seq<char>>::empty());
                    }
                },
                None => {},
            }
        },
        _ => {},
    }
}

/// Whether a kind-specific pass has nothing left to do on a spec mapping.
pub open spec fn entries_pass_quiet(p: SpecPass, ses: Seq<(Seq<char>, NodeV)>) -> bool {
    match p {
        SpecPass::FixDeployment => has_in(ses, "selector"@) && has_in(ses, "replicas"@),
        SpecPass::FixService => has_in(ses, "ports"@) && has_in(ses, "selector"@),
        SpecPass::FixPod => has_in(ses, "restartPolicy"@),
        SpecPass::OptDeployment(aggressive) => has_in(ses, "strategy"@) && (aggressive ==> has_in(
            ses,
            "replicas"@,
        )),
        SpecPass::OptService => has_in(ses, "sessionAffinity"@),
        SpecPass::OptPod(aggressive) => has_in(ses, "restartPolicy"@) && (aggressive ==> has_in(
            ses,
            "dnsPolicy"@,
        )),
    }
}

/// Whether a kind-specific pass has nothing left to do on a document.
pub open spec fn spec_pass_quiet(p: SpecPass, d: NodeV) -> bool {
    match child_of(d, "spec"@) {
        Some(NodeV::Mapping(ses)) => entries_pass_quiet(p, ses),
        _ => true,
    }
}

pub proof fn lemma_spec_entries_effects(p: SpecPass, ses: Seq<(Seq<char>, NodeV)>, k2: Seq<char>)
    requires
        k2 == "template"@ || k2 == "containers"@,
    ensures
        entries_pass_quiet(p, spec_pass_entries_v(p, ses).0),
        get_in(spec_pass_entries_v(p, ses).0, k2) == get_in(ses, k2),
        entries_pass_quiet(p, ses) ==> spec_pass_entries_v(p, ses) == (
            ses,
            Seq::<Seq<char>>::empty(),
        ),
{
    lemma_doc_keys_distinct();
    match p {
        SpecPass::FixDeployment => {
            let s1 = push_absent(
                ses,
                "selector"@,
                crate::mutate::deployment_selector_v(),
                "Added selector for Deployment"@,
            );
            lemma_push_entry_get(ses, ("selector"@, crate::mutate::deployment_selector_v()), k2);
            lemma_push_entry_get(
                ses,
                ("selector"@, crate::mutate::deployment_selector_v()),
                "replicas"@,
            );
            lemma_push_entry_get(
                ses,
                ("selector"@, crate::mutate::deployment_selector_v()),
                "selector"@,
            );
            lemma_push_entry_get(s1.0, ("replicas"@, NodeV::Int(2)), k2);
            lemma_push_entry_get(s1.0, ("replicas"@, NodeV::Int(2)), "selector"@);
            lemma_push_entry_get(s1.0, ("replicas"@, NodeV::Int(2)), "replicas"@);
            if entries_pass_quiet(p, ses) {
                assert(spec_pass_entries_v(p, ses).1 =~= Seq::<Seq<char>>::empty());
            }
        },
        SpecPass::FixService => {
            let s1 = push_absent(
                ses,
                "ports"@,
                crate::mutate::default_ports_v(),
                "Added default port configuration"@,
            );
            lemma_push_entry_get(ses, ("ports"@, crate::mutate::default_ports_v()), k2);
            lemma_push_entry_get(ses, ("ports"@, crate::mutate::default_ports_v()), "selector"@);
            lemma_push_entry_get(ses, ("ports"@, crate::mutate::default_ports_v()), "ports"@);
            lemma_push_entry_get(s1.0, ("selector"@, crate::mutate::service_selector_v()), k2);
            lemma_push_entry_get(
                s1.0,
                ("selector"@, crate::mutate::service_selector_v()),
                "ports"@,
            );
            lemma_push_entry_get(
                s1.0,
                ("selector"@, crate::mutate::service_selector_v()),
                "selector"@,
            );
            if entries_pass_quiet(p, ses) {
                assert(spec_pass_entries_v(p, ses).1 =~= Seq::<Seq<char>>::empty());
            }
        },
        SpecPass::FixPod => {
            lemma_push_entry_get(ses, ("restartPolicy"@, NodeV::Str("Always"@)), k2);
            lemma_push_entry_get(ses, ("restartPolicy"@, NodeV::Str("Always"@)), "restartPolicy"@);
        },
        SpecPass::OptDeployment(aggressive) => {
            let s1 = push_absent(
                ses,
                "strategy"@,
                crate::mutate::default_strategy_v(),
                "Added RollingUpdate strategy"@,
            );
            lemma_push_entry_get(ses, ("strategy"@, crate::mutate::default_strategy_v()), k2);
            lemma_push_entry_get(
                ses,
                ("strategy"@, crate::mutate::default_strategy_v()),
                "replicas"@,
            );
            lemma_push_entry_get(
                ses,
                ("strategy"@, crate::mutate::default_strategy_v()),
                "strategy"@,
            );
            if aggressive {
                lemma_push_entry_get(s1.0, ("replicas"@, NodeV::Int(3)), k2);
                lemma_push_entry_get(s1.0, ("replicas"@, NodeV::Int(3)), "strategy"@);
                lemma_push_entry_get(s1.0, ("replicas"@, NodeV::Int(3)), "replicas"@);
            }
            if entries_pass_quiet(p, ses) {
                assert(spec_pass_entries_v(p, ses).1 =~= Seq::<Seq<char>>::empty());
            }
        },
        SpecPass::OptService => {
            lemma_push_entry_get(ses, ("sessionAffinity"@, NodeV::Str("None"@)), k2);
            lemma_push_entry_get(
                ses,
                ("sessionAffinity"@, NodeV::Str("None"@)),
                "sessionAffinity"@,
            );
        },
        SpecPass::OptPod(aggressive) => {
            let s1 = push_absent(
                ses,
                "restartPolicy"@,
                NodeV::Str("Always"@),
                "Added restartPolicy: Always"@,
            );
            lemma_push_entry_get(ses, ("restartPolicy"@, NodeV::Str("Always"@)), k2);
            lemma_push_entry_get(ses, ("restartPolicy"@, NodeV::Str("Always"@)), "dnsPolicy"@);
            lemma_push_entry_get(ses, ("restartPolicy"@, NodeV::Str("Always"@)), "restartPolicy"@);
            if aggressive {
                lemma_push_entry_get(s1.0, ("dnsPolicy"@, NodeV::Str("ClusterFirst"@)), k2);
                lemma_push_entry_get(
                    s1.0,
                    ("dnsPolicy"@, NodeV::Str("ClusterFirst"@)),
                    "restartPolicy"@,
                );
                lemma_push_entry_get(
                    s1.0,
                    ("dnsPolicy"@, NodeV::Str("ClusterFirst"@)),
                    "dnsPolicy"@,
                );
            }
            if entries_pass_quiet(p, ses) {
                assert(spec_pass_entries_v(p, ses).1 =~= Seq::<Seq<char>>::empty());
            }
        },
    }
}

/// A kind-specific pass touches only its own spec-level keys: every other
/// top-level child, the resolved container list, and the Service type are
/// unchanged, the pass leaves a document quiet for itself, and a quiet
/// document passes through unchanged and silently.
pub proof fn lemma_spec_pass_doc_effects(p: SpecPass, d: NodeV, k: Seq<char>)
    ensures
        (spec_pass_doc_v(p, d).0 is Mapping) == (d is Mapping),
        k != "spec"@ ==> child_of(spec_pass_doc_v(p, d).0, k) == child_of(d, k),
        containers_v(spec_pass_doc_v(p, d).0) == containers_v(d),
        spec_pass_quiet(p, spec_pass_doc_v(p, d).0),
        spec_pass_quiet(p, d) ==> spec_pass_doc_v(p, d) == (d, Seq::<Seq<char>>::empty()),
{
    lemma_doc_keys_distinct();
    match d {
        NodeV::Mapping(es) => {
            match get_in(es, "spec"@) {
                Some(NodeV::Mapping(ses)) => {
                    let m = spec_pass_entries_v(p, ses);
                    lemma_spec_entries_effects(p, ses, "template"@);
                    lemma_spec_entries_effects(p, ses, "containers"@);
                    lemma_put_in_get(es, "spec"@, NodeV::Mapping(m.0), k);
                    lemma_put_in_get(es, "spec"@, NodeV::Mapping(m.0), "spec"@);
                    if spec_pass_quiet(p, d) {
                        lemma_find_in_props(es, "spec"@);
                        lemma_put_in_same(es, "spec"@, NodeV::Mapping(ses));
                        assert(spec_pass_doc_v(p, d).0 == d);
                        assert(spec_pass_doc_v(p, d).1 =~= Seq::<Seq<char>>::empty());
                    }
                    assert(containers_v(spec_pass_doc_v(p, d).0) == containers_v(d)) by {
                        let sp2 = NodeV::Mapping(m.0);
                        assert(child_of(spec_pass_doc_v(p, d).0, "spec"@) == Some(sp2));
                        assert(child_of(sp2, "template"@) == child_of(
                            NodeV::Mapping(ses),
                            "template"@,
                        ));
                        assert(child_of(sp2, "containers"@) == child_of(
                            NodeV::Mapping(ses),
                            "containers"@,
                        ));
                    }
                },
                _ => {},
            }
        },
        _ => {},
    }
}

/// Whether the fix labels pass has nothing left to do.
pub open spec fn fix_labels_done(d: NodeV) -> bool {
    match child_of(d, "metadata"@) {
        Some(NodeV::Mapping(mes)) => match get_in(mes, "name"@) {
            Some(NodeV::Str(_)) => match get_in(mes, "labels"@) {
                None => false,
                Some(NodeV::Mapping(les)) => has_in(les, "app"@),
                Some(_) => true,
            },
            _ => true,
        },
        _ => true,
    }
}

pub proof fn lemma_fix_labels_effects(d: NodeV, k: Seq<char>)
    ensures
        (crate::fix::fix_labels_v(d).0 is Mapping) == (d is Mapping),
        k != "metadata"@ ==> child_of(crate::fix::fix_labels_v(d).0, k) == child_of(d, k),
        fix_labels_done(crate::fix::fix_labels_v(d).0),
        fix_labels_done(d) ==> crate::fix::fix_labels_v(d) == (d, Seq::<Seq<char>>::empty()),
{
    lemma_doc_keys_distinct();
    let r = crate::fix::fix_labels_v(d);
    match d {
        NodeV::Mapping(es) => {
            match get_in(es, "metadata"@) {
                Some(NodeV::Mapping(mes)) => {
                    match get_in(mes, "name"@) {
                        Some(NodeV::Str(nm)) => {
                            match get_in(mes, "labels"@) {
                                None => {
                                    let lab = NodeV::Mapping(seq![("app"@, NodeV::Str(nm))]);
                                    let mes2 = mes.push(("labels"@, lab));
                                    lemma_push_entry_get(mes, ("labels"@, lab), "name"@);
                                    lemma_push_entry_get(mes, ("labels"@, lab), "labels"@);
                                    lemma_put_in_get(es, "metadata"@, NodeV::Mapping(mes2), k);
                                    lemma_put_in_get(
                                        es,
                                        "metadata"@,
                                        NodeV::Mapping(mes2),
                                        "metadata"@,
                                    );
                                    assert(has_in(seq![("app"@, NodeV::Str(nm))], "app"@));
                                },
                                Some(NodeV::Mapping(les)) => {
                                    if has_in(les, "app"@) {
                                    } else {
                                        let les2 = les.push(("app"@, NodeV::Str(nm)));
                                        lemma_push_entry_get(les, ("app"@, NodeV::Str(nm)), "app"@);
                                        let mes2 = put_in(mes, "labels"@, NodeV::Mapping(les2));
                                        lemma_put_in_get(mes, "labels"@, NodeV::Mapping(les2), "name"@);
                                        lemma_put_in_get(
                                            mes,
                                            "labels"@,
                                            NodeV::Mapping(les2),
                                            "labels"@,
                                        );
                                        lemma_put_in_get(es, "metadata"@, NodeV::Mapping(mes2), k);
                                        lemma_put_in_get(
                                            es,
                                            "metadata"@,
                                            NodeV::Mapping(mes2),
                                            "metadata"@,
                                        );
                                    }
                                },
                                Some(_) => {},
                            }
                        },
                        _ => {},
                    }
                },
                _ => {},
            }
        },
        _ => {},
    }
}

/// Whether the optimize labels pass has nothing left to do.
pub open spec fn opt_labels_done(d: NodeV) -> bool {
    match child_of(d, "metadata"@) {
        Some(NodeV::Mapping(mes)) => has_in(mes, "labels"@) && (match get_in(mes, "labels"@) {
            Some(NodeV::Mapping(les)) => has_in(les, "app.kubernetes.io/name"@) && has_in(
                les,
                "app.kubernetes.io/version"@,
            ) && has_in(les, "app.kubernetes.io/component"@),
            _ => true,
        }),
        _ => true,
    }
}

pub proof fn lemma_opt_labels_effects(d: NodeV, k: Seq<char>)
    ensures
        (crate::optimize::opt_labels_v(d).0 is Mapping) == (d is Mapping),
        k != "metadata"@ ==> child_of(crate::optimize::opt_labels_v(d).0, k) == child_of(d, k),
        opt_labels_done(crate::optimize::opt_labels_v(d).0),
        opt_labels_done(d) ==> crate::optimize::opt_labels_v(d) == (d, Seq::<Seq<char>>::empty()),
{
    lemma_doc_keys_distinct();
    match d {
        NodeV::Mapping(es) => {
            match get_in(es, "metadata"@) {
                Some(NodeV::Mapping(mes)) => {
                    let mes1 = ensure_entry(mes, "labels"@, NodeV::Mapping(Seq::empty()));
                    lemma_ensure_entry_get(mes, "labels"@, NodeV::Mapping(Seq::empty()), "name"@);
                    match get_in(mes1, "labels"@) {
                        Some(NodeV::Mapping(les)) => {
                            let st = crate::optimize::opt_label_steps_v(les);
                            let s1 = push_absent(
                                les,
                                "app.kubernetes.io/name"@,
                                NodeV::Str("TODO-application-name"@),
                                "Added recommended label: app.kubernetes.io/name"@,
                            );
                            let s2 = push_absent(
                                s1.0,
                                "app.kubernetes.io/version"@,
                                NodeV::Str("TODO-1.0.0"@),
                                "Added recommended label: app.kubernetes.io/version"@,
                            );
                            lemma_push_absent_get(
                                les,
                                "app.kubernetes.io/name"@,
                                NodeV::Str("TODO-application-name"@),
                                "Added recommended label: app.kubernetes.io/name"@,
                                "app.kubernetes.io/version"@,
                            );
                            lemma_push_absent_get(
                                les,
                                "app.kubernetes.io/name"@,
                                NodeV::Str("TODO-application-name"@),
                                "Added recommended label: app.kubernetes.io/name"@,
                                "app.kubernetes.io/component"@,
                            );
                            lemma_push_absent_get(
                                s1.0,
                                "app.kubernetes.io/version"@,
                                NodeV::Str("TODO-1.0.0"@),
                                "Added recommended label: app.kubernetes.io/version"@,
                                "app.kubernetes.io/name"@,
                            );
                            lemma_push_absent_get(
                                s1.0,
                                "app.kubernetes.io/version"@,
                                NodeV::Str("TODO-1.0.0"@),
                                "Added recommended label: app.kubernetes.io/version"@,
                                "app.kubernetes.io/component"@,
                            );
                            lemma_push_absent_get(
                                s2.0,
                                "app.kubernetes.io/component"@,
                                NodeV::Str("TODO-component"@),
                                "Added recommended label: app.kubernetes.io/component"@,
                                "app.kubernetes.io/name"@,
                            );
                            lemma_push_absent_get(
                                s2.0,
                                "app.kubernetes.io/component"@,
                                NodeV::Str("TODO-component"@),
                                "Added recommended label: app.kubernetes.io/component"@,
                                "app.kubernetes.io/version"@,
                            );
                            let mes2 = put_in(mes1, "labels"@, NodeV::Mapping(st.0));
                            lemma_put_in_get(mes1, "labels"@, NodeV::Mapping(st.0), "labels"@);
                            lemma_put_in_get(es, "metadata"@, NodeV::Mapping(mes2), k);
                            lemma_put_in_get(es, "metadata"@, NodeV::Mapping(mes2), "metadata"@);
                            if opt_labels_done(d) {
                                assert(mes1 == mes);
                                assert(st.0 == les);
                                assert(st.1 =~= Seq::<Seq<char>>::empty());
                                lemma_find_in_props(mes, "labels"@);
                                lemma_put_in_same(mes, "labels"@, NodeV::Mapping(les));
                                lemma_find_in_props(es, "metadata"@);
                                lemma_put_in_same(es, "metadata"@, NodeV::Mapping(mes));
                            }
                        },
                        _ => {},
                    }
                },
                _ => {},
            }
        },
        _ => {},
    }
}

/// After the four fix container passes run in order, every one of them is
/// quiet on the resulting container.
pub proof fn lemma_fix_container_chain(c: NodeV)
    ensures
        ({
            let c1 = pass_container_v(Pass::FixLimits, c).0;
            let c2 = pass_container_v(Pass::FixProbes, c1).0;
            let c3 = pass_container_v(Pass::FixSecurity, c2).0;
            let c4 = pass_container_v(Pass::FixImages, c3).0;
            &&& pass_container_v(Pass::FixLimits, c4) == (c4, Seq::<Seq<char>>::empty())
            &&& pass_container_v(Pass::FixProbes, c4) == (c4, Seq::<Seq<char>>::empty())
            &&& pass_container_v(Pass::FixSecurity, c4) == (c4, Seq::<Seq<char>>::empty())
            &&& pass_container_v(Pass::FixImages, c4) == (c4, Seq::<Seq<char>>::empty())
        }),
{
    lemma_container_keys_distinct();
    let c1 = pass_container_v(Pass::FixLimits, c).0;
    let c2 = pass_container_v(Pass::FixProbes, c1).0;
    let c3 = pass_container_v(Pass::FixSecurity, c2).0;
    let c4 = pass_container_v(Pass::FixImages, c3).0;
    lemma_fix_pass_effects(Pass::FixLimits, c, "resources"@);
    lemma_fix_pass_effects(Pass::FixProbes, c1, "resources"@);
    lemma_fix_pass_effects(Pass::FixSecurity, c2, "resources"@);
    lemma_fix_pass_effects(Pass::FixImages, c3, "resources"@);
    assert(limits_quiet(c4));
    lemma_fix_pass_effects(Pass::FixProbes, c1, "readinessProbe"@);
    lemma_fix_pass_effects(Pass::FixSecurity, c2, "readinessProbe"@);
    lemma_fix_pass_effects(Pass::FixImages, c3, "readinessProbe"@);
    lemma_fix_pass_effects(Pass::FixSecurity, c2, "livenessProbe"@);
    lemma_fix_pass_effects(Pass::FixImages, c3, "livenessProbe"@);
    assert(probes_quiet(c4));
    lemma_fix_pass_effects(Pass::FixSecurity, c2, "securityContext"@);
    lemma_fix_pass_effects(Pass::FixImages, c3, "securityContext"@);
    assert(security_quiet(c4));
    lemma_fix_pass_effects(Pass::FixImages, c3, "image"@);
    assert(images_quiet(c4));
    lemma_fix_pass_quiet(Pass::FixLimits, c4);
    lemma_fix_pass_quiet(Pass::FixProbes, c4);
    lemma_fix_pass_quiet(Pass::FixSecurity, c4);
    lemma_fix_pass_quiet(Pass::FixImages, c4);
}

/// After the two optimize container passes run in order, both are quiet on
/// the resulting container.
pub proof fn lemma_opt_container_chain(c: NodeV, aggressive: bool)
    ensures
        ({
            let c1 = pass_container_v(Pass::OptResources(aggressive), c).0;
            let c2 = pass_container_v(Pass::OptSettings(aggressive), c1).0;
            &&& pass_container_v(Pass::OptResources(aggressive), c2) == (
                c2,
                Seq::<Seq<char>>::empty(),
            )
            &&& pass_container_v(Pass::OptSettings(aggressive), c2) == (
                c2,
                Seq::<Seq<char>>::empty(),
            )
        }),
{
    lemma_container_keys_distinct();
    let c1 = pass_container_v(Pass::OptResources(aggressive), c).0;
    let c2 = pass_container_v(Pass::OptSettings(aggressive), c1).0;
    lemma_opt_resources_effects(c, aggressive, "resources"@);
    lemma_opt_settings_effects(c1, aggressive, "resources"@);
    assert(opt_resources_quiet(c2, aggressive));
    lemma_opt_settings_effects(c1, aggressive, "securityContext"@);
    assert(opt_settings_quiet(c2, aggressive));
    lemma_opt_resources_effects(c2, aggressive, "resources"@);
    lemma_opt_settings_effects(c2, aggressive, "securityContext"@);
}

/// Idempotence of the fix profile: a second run over a fixed document makes
/// no change and produces no change records.
pub proof fn lemma_fix_idempotent(d: NodeV)
    ensures
        crate::fix::fix_v(crate::fix::fix_v(d).0).1 == Seq::<Seq<char>>::empty(),
{
    lemma_doc_keys_distinct();
    let k0 = kind_v(d);
    let s0 = crate::fix::fix_labels_v(d);
    let s1 = pass_doc_v(Pass::FixLimits, s0.0);
    let s2 = pass_doc_v(Pass::FixProbes, s1.0);
    let s3 = pass_doc_v(Pass::FixSecurity, s2.0);
    let s4 = pass_doc_v(Pass::FixImages, s3.0);
    let s5 = if k0 == "Deployment"@ {
        spec_pass_doc_v(SpecPass::FixDeployment, s4.0)
    } else if k0 == "Service"@ {
        spec_pass_doc_v(SpecPass::FixService, s4.0)
    } else if k0 == "Pod"@ {
        spec_pass_doc_v(SpecPass::FixPod, s4.0)
    } else {
        (s4.0, Seq::<Seq<char>>::empty())
    };
    let d1 = s5.0;
    assert(crate::fix::fix_v(d).0 == d1);
    lemma_fix_labels_effects(d, "kind"@);
    lemma_fix_labels_effects(d, "spec"@);
    lemma_pass_doc_effects(Pass::FixLimits, s0.0, "kind"@, "type"@);
    lemma_pass_doc_effects(Pass::FixLimits, s0.0, "metadata"@, "type"@);
    lemma_pass_doc_effects(Pass::FixProbes, s1.0, "kind"@, "type"@);
    lemma_pass_doc_effects(Pass::FixProbes, s1.0, "metadata"@, "type"@);
    lemma_pass_doc_effects(Pass::FixSecurity, s2.0, "kind"@, "type"@);
    lemma_pass_doc_effects(Pass::FixSecurity, s2.0, "metadata"@, "type"@);
    lemma_pass_doc_effects(Pass::FixImages, s3.0, "kind"@, "type"@);
    lemma_pass_doc_effects(Pass::FixImages, s3.0, "metadata"@, "type"@);
    if k0 == "Deployment"@ {
        lemma_spec_pass_doc_effects(SpecPass::FixDeployment, s4.0, "kind"@);
        lemma_spec_pass_doc_effects(SpecPass::FixDeployment, s4.0, "metadata"@);
    } else if k0 == "Service"@ {
        lemma_spec_pass_doc_effects(SpecPass::FixService, s4.0, "kind"@);
        lemma_spec_pass_doc_effects(SpecPass::FixService, s4.0, "metadata"@);
    } else if k0 == "Pod"@ {
        lemma_spec_pass_doc_effects(SpecPass::FixPod, s4.0, "kind"@);
        lemma_spec_pass_doc_effects(SpecPass::FixPod, s4.0, "metadata"@);
    }
    assert(child_of(d1, "kind"@) == child_of(d, "kind"@));
    assert(kind_v(d1) == k0);
    assert(child_of(d1, "metadata"@) == child_of(s0.0, "metadata"@));
    assert(fix_labels_done(d1));
    assert(containers_v(s0.0) == containers_v(d));
    assert(containers_v(d1) == containers_v(s4.0));
    match containers_v(s0.0) {
        Some(cs) => {
            let cs1 = pass_containers_v(Pass::FixLimits, cs).0;
            let cs2 = pass_containers_v(Pass::FixProbes, cs1).0;
            let cs3 = pass_containers_v(Pass::FixSecurity, cs2).0;
            let cs4 = pass_containers_v(Pass::FixImages, cs3).0;
            lemma_pass_containers_pointwise(Pass::FixLimits, cs);
            lemma_pass_containers_pointwise(Pass::FixProbes, cs1);
            lemma_pass_containers_pointwise(Pass::FixSecurity, cs2);
            lemma_pass_containers_pointwise(Pass::FixImages, cs3);
            assert(containers_v(s4.0) == Some(cs4));
            assert(containers_v(d1) == Some(cs4));
            assert(containers_v(d1)->Some_0 == cs4);
            assert forall|i: int|
                0 <= i < cs4.len() implies #[trigger] pass_container_v(Pass::FixLimits, cs4[i]) == (
                cs4[i],
                Seq::<Seq<char>>::empty(),
            ) by {
                lemma_fix_container_chain(cs[i]);
            }
            assert forall|i: int|
                0 <= i < cs4.len() implies #[trigger] pass_container_v(Pass::FixProbes, cs4[i]) == (
                cs4[i],
                Seq::<Seq<char>>::empty(),
            ) by {
                lemma_fix_container_chain(cs[i]);
            }
            assert forall|i: int|
                0 <= i < cs4.len() implies #[trigger] pass_container_v(Pass::FixSecurity, cs4[i])
                == (cs4[i], Seq::<Seq<char>>::empty()) by {
                lemma_fix_container_chain(cs[i]);
            }
            assert forall|i: int|
                0 <= i < cs4.len() implies #[trigger] pass_container_v(Pass::FixImages, cs4[i]) == (
                cs4[i],
                Seq::<Seq<char>>::empty(),
            ) by {
                lemma_fix_container_chain(cs[i]);
            }
        },
        None => {
            assert(containers_v(d1) is None);
        },
    }
    let t0 = crate::fix::fix_labels_v(d1);
    lemma_fix_labels_effects(d1, "kind"@);
    assert(t0 == (d1, Seq::<Seq<char>>::empty()));
    lemma_pass_doc_quiet(Pass::FixLimits, d1);
    lemma_pass_doc_quiet(Pass::FixProbes, d1);
    lemma_pass_doc_quiet(Pass::FixSecurity, d1);
    lemma_pass_doc_quiet(Pass::FixImages, d1);
    if k0 == "Deployment"@ {
        assert(spec_pass_quiet(SpecPass::FixDeployment, d1));
        lemma_spec_pass_doc_effects(SpecPass::FixDeployment, d1, "kind"@);
        assert(spec_pass_doc_v(SpecPass::FixDeployment, d1) == (d1, Seq::<Seq<char>>::empty()));
    } else if k0 == "Service"@ {
        assert(spec_pass_quiet(SpecPass::FixService, d1));
        lemma_spec_pass_doc_effects(SpecPass::FixService, d1, "kind"@);
        assert(spec_pass_doc_v(SpecPass::FixService, d1) == (d1, Seq::<Seq<char>>::empty()));
    } else if k0 == "Pod"@ {
        assert(spec_pass_quiet(SpecPass::FixPod, d1));
        lemma_spec_pass_doc_effects(SpecPass::FixPod, d1, "kind"@);
        assert(spec_pass_doc_v(SpecPass::FixPod, d1) == (d1, Seq::<Seq<char>>::empty()));
    }
    assert(crate::fix::fix_v(d1).1 =~= Seq::<Seq<char>>::empty());
}

/// Idempotence of the optimize profile under a fixed aggressiveness flag: a
/// second run makes no change and produces no records.
pub proof fn lemma_optimize_idempotent(d: NodeV, aggressive: bool)
    ensures
        crate::optimize::optimize_v(
            crate::optimize::optimize_v(d, aggressive).0,
            aggressive,
        ).1 == Seq::<Seq<char>>::empty(),
{
    lemma_doc_keys_distinct();
    let k0 = kind_v(d);
    let s0 = crate::optimize::opt_labels_v(d);
    let s1 = pass_doc_v(Pass::OptResources(aggressive), s0.0);
    let s2 = pass_doc_v(Pass::OptSettings(aggressive), s1.0);
    let s3 = if k0 == "Deployment"@ {
        spec_pass_doc_v(SpecPass::OptDeployment(aggressive), s2.0)
    } else if k0 == "Service"@ {
        spec_pass_doc_v(SpecPass::OptService, s2.0)
    } else if k0 == "Pod"@ {
        spec_pass_doc_v(SpecPass::OptPod(aggressive), s2.0)
    } else {
        (s2.0, Seq::<Seq<char>>::empty())
    };
    let d1 = s3.0;
    assert(crate::optimize::optimize_v(d, aggressive).0 == d1);
    lemma_opt_labels_effects(d, "kind"@);
    lemma_opt_labels_effects(d, "spec"@);
    lemma_pass_doc_effects(Pass::OptResources(aggressive), s0.0, "kind"@, "type"@);
    lemma_pass_doc_effects(Pass::OptResources(aggressive), s0.0, "metadata"@, "type"@);
    lemma_pass_doc_effects(Pass::OptSettings(aggressive), s1.0, "kind"@, "type"@);
    lemma_pass_doc_effects(Pass::OptSettings(aggressive), s1.0, "metadata"@, "type"@);
    if k0 == "Deployment"@ {
        lemma_spec_pass_doc_effects(SpecPass::OptDeployment(aggressive), s2.0, "kind"@);
        lemma_spec_pass_doc_effects(SpecPass::OptDeployment(aggressive), s2.0, "metadata"@);
    } else if k0 == "Service"@ {
        lemma_spec_pass_doc_effects(SpecPass::OptService, s2.0, "kind"@);
        lemma_spec_pass_doc_effects(SpecPass::OptService, s2.0, "metadata"@);
    } else if k0 == "Pod"@ {
        lemma_spec_pass_doc_effects(SpecPass::OptPod(aggressive), s2.0, "kind"@);
        lemma_spec_pass_doc_effects(SpecPass::OptPod(aggressive), s2.0, "metadata"@);
    }
    assert(child_of(d1, "kind"@) == child_of(d, "kind"@));
    assert(kind_v(d1) == k0);
    assert(child_of(d1, "metadata"@) == child_of(s0.0, "metadata"@));
    assert(opt_labels_done(d1));
    assert(containers_v(s0.0) == containers_v(d));
    assert(containers_v(d1) == containers_v(s2.0));
    match containers_v(s0.0) {
        Some(cs) => {
            let cs1 = pass_containers_v(Pass::OptResources(aggressive), cs).0;
            let cs2 = pass_containers_v(Pass::OptSettings(aggressive), cs1).0;
            lemma_pass_containers_pointwise(Pass::OptResources(aggressive), cs);
            lemma_pass_containers_pointwise(Pass::OptSettings(aggressive), cs1);
            assert(containers_v(s2.0) == Some(cs2));
            assert(containers_v(d1) == Some(cs2));
            assert(containers_v(d1)->Some_0 == cs2);
            assert forall|i: int|
                0 <= i < cs2.len() implies #[trigger] pass_container_v(
                Pass::OptResources(aggressive),
                cs2[i],
            ) == (cs2[i], Seq::<Seq<char>>::empty()) by {
                lemma_opt_container_chain(cs[i], aggressive);
            }
            assert forall|i: int|
                0 <= i < cs2.len() implies #[trigger] pass_container_v(
                Pass::OptSettings(aggressive),
                cs2[i],
            ) == (cs2[i], Seq::<Seq<char>>::empty()) by {
                lemma_opt_container_chain(cs[i], aggressive);
            }
        },
        None => {
            assert(containers_v(d1) is None);
        },
    }
    let t0 = crate::optimize::opt_labels_v(d1);
    lemma_opt_labels_effects(d1, "kind"@);
    assert(t0 == (d1, Seq::<Seq<char>>::empty()));
    lemma_pass_doc_quiet(Pass::OptResources(aggressive), d1);
    lemma_pass_doc_quiet(Pass::OptSettings(aggressive), d1);
    if k0 == "Deployment"@ {
        assert(spec_pass_quiet(SpecPass::OptDeployment(aggressive), d1));
        lemma_spec_pass_doc_effects(SpecPass::OptDeployment(aggressive), d1, "kind"@);
        assert(spec_pass_doc_v(SpecPass::OptDeployment(aggressive), d1) == (
            d1,
            Seq::<Seq<char>>::empty(),
        ));
    } else if k0 == "Service"@ {
        assert(spec_pass_quiet(SpecPass::OptService, d1));
        lemma_spec_pass_doc_effects(SpecPass::OptService, d1, "kind"@);
        assert(spec_pass_doc_v(SpecPass::OptService, d1) == (d1, Seq::<Seq<char>>::empty()));
    } else if k0 == "Pod"@ {
        assert(spec_pass_quiet(SpecPass::OptPod(aggressive), d1));
        lemma_spec_pass_doc_effects(SpecPass::OptPod(aggressive), d1, "kind"@);
        assert(spec_pass_doc_v(SpecPass::OptPod(aggressive), d1) == (
            d1,
            Seq::<Seq<char>>::empty(),
        ));
    }
    assert(crate::optimize::optimize_v(d1, aggressive).1 =~= Seq::<Seq<char>>::empty());
}

} // verus!
