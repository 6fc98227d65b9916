use vstd::prelude::*;
use vstd::string::StringExecFns;
use crate::doc::{Node, NodeV, node_view, child_of, str_child, get_child, get_str_child};
use crate::rules::strs_view;

verus! {

/// Structural errors of a Pod: a missing `spec`, or a spec without
/// `containers`.
pub open spec fn pod_errors_v(d: NodeV) -> Seq<Seq<char>> {
    match child_of(d, "spec"@) {
        Some(s) => if child_of(s, "containers"@) is None {
            seq!["Pod spec missing 'containers' field"@]
        } else {
            Seq::empty()
        },
        None => seq!["Pod missing 'spec' field"@],
    }
}

/// Structural errors of a Deployment: a missing `spec`, or a spec without
/// `selector` and/or `template` — one error per missing field.
pub open spec fn deployment_errors_v(d: NodeV) -> Seq<Seq<char>> {
    match child_of(d, "spec"@) {
        Some(s) => (if child_of(s, "selector"@) is None {
            seq!["Deployment spec missing 'selector' field"@]
        } else {
            Seq::empty()
        }) + (if child_of(s, "template"@) is None {
            seq!["Deployment spec missing 'template' field"@]
        } else {
            Seq::empty()
        }),
        None => seq!["Deployment missing 'spec' field"@],
    }
}

/// Structural errors of a Service: a missing `spec`, or a spec without
/// `ports`.
pub open spec fn service_errors_v(d: NodeV) -> Seq<Seq<char>> {
    match child_of(d, "spec"@) {
        Some(s) => if child_of(s, "ports"@) is None {
            seq!["Service spec missing 'ports' field"@]
        } else {
            Seq::empty()
        },
        None => seq!["Service missing 'spec' field"@],
    }
}

/// Kind-specific required substructure; ConfigMap, Secret and unknown kinds
/// add nothing.
pub open spec fn kind_errors_v(d: NodeV) -> Seq<Seq<char>> {
    match str_child(d, "kind"@) {
        Some(k) => if k == "Pod"@ {
            pod_errors_v(d)
        } else if k == "Deployment"@ {
            deployment_errors_v(d)
        } else if k == "Service"@ {
            service_errors_v(d)
        } else {
            Seq::empty()
        },
        None => Seq::empty(),
    }
}

/// Every structural error of one document, in report order: the required
/// top-level fields first, then the kind-specific requirements.  A document
/// is valid exactly when this sequence is empty.
pub open spec fn validate_v(d: NodeV) -> Seq<Seq<char>> {
    (if child_of(d, "apiVersion"@) is None {
        seq!["Missing required field 'apiVersion'"@]
    } else {
        Seq::empty()
    }) + (if child_of(d, "kind"@) is None {
        seq!["Missing required field 'kind'"@]
    } else {
        Seq::empty()
    }) + (match child_of(d, "metadata"@) {
        Some(m) => if child_of(m, "name"@) is None {
            seq!["Missing required field 'metadata.name'"@]
        } else {
            Seq::empty()
        },
        None => seq!["Missing required field 'metadata'"@],
    }) + kind_errors_v(d)
}

/// Structural validation of one document: one error string for every
/// missing required field, in report order; an empty result means valid.
#[verifier::rlimit(60)]
pub fn validate(doc: &Node) -> (r: Vec<String>)
    ensures
        strs_view(r@) == validate_v(node_view(*doc)),
{
    let ghost d = node_view(*doc);
    let mut errors: Vec<String> = Vec::new();
    assert(strs_view(errors@) =~= Seq::empty());
    if get_child(doc, "apiVersion").is_none() {
        errors.push("Missing required field 'apiVersion'".to_owned());
    }
    assert(strs_view(errors@) =~= (if child_of(d, "apiVersion"@) is None {
        seq!["Missing required field 'apiVersion'"@]
    } else {
        Seq::<Seq<char>>::empty()
    }));
    let ghost p1 = strs_view(errors@);
    if get_child(doc, "kind").is_none() {
        errors.push("Missing required field 'kind'".to_owned());
    }
    assert(strs_view(errors@) =~= p1 + (if child_of(d, "kind"@) is None {
        seq!["Missing required field 'kind'"@]
    } else {
        Seq::<Seq<char>>::empty()
    }));
    let ghost p2 = strs_view(errors@);
    match get_child(doc, "metadata") {
        Some(m) => {
            if get_child(m, "name").is_none() {
                errors.push("Missing required field 'metadata.name'".to_owned());
            }
        },
        None => {
            errors.push("Missing required field 'metadata'".to_owned());
        },
    }
    assert(strs_view(errors@) =~= p2 + (match child_of(d, "metadata"@) {
        Some(m) => if child_of(m, "name"@) is None {
            seq!["Missing required field 'metadata.name'"@]
        } else {
            Seq::<Seq<char>>::empty()
        },
        None => seq!["Missing required field 'metadata'"@],
    }));
    let ghost p3 = strs_view(errors@);
    match get_str_child(doc, "kind") {
        Some(k) => {
            if k.eq(&"Pod".to_owned()) {
                match get_child(doc, "spec") {
                    Some(s) => {
                        if get_child(s, "containers").is_none() {
                            errors.push("Pod spec missing 'containers' field".to_owned());
                        }
                    },
                    None => {
                        errors.push("Pod missing 'spec' field".to_owned());
                    },
                }
            } else if k.eq(&"Deployment".to_owned()) {
                match get_child(doc, "spec") {
                    Some(s) => {
                        if get_child(s, "selector").is_none() {
                            errors.push("Deployment spec missing 'selector' field".to_owned());
                        }
                        if get_child(s, "template").is_none() {
                            errors.push("Deployment spec missing 'template' field".to_owned());
                        }
                    },
                    None => {
                        errors.push("Deployment missing 'spec' field".to_owned());
                    },
                }
            } else if k.eq(&"Service".to_owned()) {
                match get_child(doc, "spec") {
                    Some(s) => {
                        if get_child(s, "ports").is_none() {
                            errors.push("Service spec missing 'ports' field".to_owned());
                        }
                    },
                    None => {
                        errors.push("Service missing 'spec' field".to_owned());
                    },
                }
            }
        },
        None => {},
    }
    assert(strs_view(errors@) =~= p3 + kind_errors_v(d));
    assert(strs_view(errors@) =~= validate_v(d));
    errors
}

} // verus!
