use vstd::prelude::*;
use vstd::string::StringExecFns;
use crate::doc::{
    Node, NodeV, node_view, entries_view, get_in, put_in, child_of, str_child, lemma_find_in_props,
    get_index, get_child, get_str_child, get_resource_info, kind_v,
};
use crate::mutate::{
    Pass, pass_doc_v, SpecPass, spec_pass_doc_v, push_absent, ensure_entry, run_container_pass,
    run_spec_pass, push_absent_x, ensure_entry_x, lemma_push_entry_get, str_node, take_value_at,
    restore_value_at,
};
use crate::rules::strs_view;

verus! {

/// The three recommended labels the optimize profile ensures, with their
/// placeholder values, in insertion order.
pub open spec fn opt_label_steps_v(les: Seq<(Seq<char>, NodeV)>) -> (
    Seq<(Seq<char>, NodeV)>,
    Seq<Seq<char>>,
) {
    let s1 = push_absent(
        les,
        "app.kubernetes.io/name"@,
        NodeV::Str("TODO-application-name"@),
        "Added recommended label: app.kubernetes.io/name"@,
    );
    let s2 = push_absent(
        s1.0,
        "app.kubernetes.io/version"@,
        NodeV::Str("TODO-1.0.0"@),
        "Added recommended label: app.kubernetes.io/version"@,
    );
    let s3 = push_absent(
        s2.0,
        "app.kubernetes.io/component"@,
        NodeV::Str("TODO-component"@),
        "Added recommended label: app.kubernetes.io/component"@,
    );
    (s3.0, s1.1 + s2.1 + s3.1)
}

/// Optimize pass on metadata: a labels mapping is ensured and the
/// recommended labels are added where absent, one record each; shapes
/// without a metadata mapping, or with non-mapping labels, are untouched.
pub open spec fn opt_labels_v(d: NodeV) -> (NodeV, Seq<Seq<char>>) {
    match d {
        NodeV::Mapping(es) => match get_in(es, "metadata"@) {
            Some(NodeV::Mapping(mes)) => {
                let mes1 = ensure_entry(mes, "labels"@, NodeV::Mapping(Seq::empty()));
                match get_in(mes1, "labels"@) {
                    Some(NodeV::Mapping(les)) => {
                        let st = opt_label_steps_v(les);
                        (
                            NodeV::Mapping(
                                put_in(
                                    es,
                                    "metadata"@,
                                    NodeV::Mapping(put_in(mes1, "labels"@, NodeV::Mapping(st.0))),
                                ),
                            ),
                            st.1,
                        )
                    },
                    _ => (d, Seq::empty()),
                }
            },
            _ => (d, Seq::empty()),
        },
        _ => (d, Seq::empty()),
    }
}

fn opt_label_steps_x(les: &mut Vec<(String, Node)>, records: &mut Vec<String>)
    ensures
        entries_view(final(les)@) == opt_label_steps_v(entries_view(old(les)@)).0,
        strs_view(final(records)@) == strs_view(old(records)@) + opt_label_steps_v(
            entries_view(old(les)@),
        ).1,
{
    let ghost lv = entries_view(les@);
    let ghost before = strs_view(records@);
    push_absent_x(
        les,
        "app.kubernetes.io/name",
        str_node("TODO-application-name"),
        "Added recommended label: app.kubernetes.io/name",
        records,
    );
    push_absent_x(
        les,
        "app.kubernetes.io/version",
        str_node("TODO-1.0.0"),
        "Added recommended label: app.kubernetes.io/version",
        records,
    );
    push_absent_x(
        les,
        "app.kubernetes.io/component",
        str_node("TODO-component"),
        "Added recommended label: app.kubernetes.io/component",
        records,
    );
    proof {
        let s1 = push_absent(
            lv,
            "app.kubernetes.io/name"@,
            NodeV::Str("TODO-application-name"@),
            "Added recommended label: app.kubernetes.io/name"@,
        );
        let s2 = push_absent(
            s1.0,
            "app.kubernetes.io/version"@,
            NodeV::Str("TODO-1.0.0"@),
            "Added recommended label: app.kubernetes.io/version"@,
        );
        let s3 = push_absent(
            s2.0,
            "app.kubernetes.io/component"@,
            NodeV::Str("TODO-component"@),
            "Added recommended label: app.kubernetes.io/component"@,
        );
        assert(entries_view(les@) == s3.0);
        assert(strs_view(records@) =~= before + (s1.1 + s2.1 + s3.1));
    }
}

fn opt_labels(doc: Node, records: &mut Vec<String>) -> (r: Node)
    ensures
        node_view(r) == opt_labels_v(node_view(doc)).0,
        strs_view(final(records)@) == strs_view(old(records)@) + opt_labels_v(node_view(doc)).1,
{
    let ghost before = strs_view(records@);
    match doc {
        Node::Mapping(mut es) => {
            let ghost ev = entries_view(es@);
            let midx = match get_index(&es, "metadata") {
                Some(i) => i,
                None => {
                    proof {
                        lemma_find_in_props(ev, "metadata"@);
                        assert(strs_view(records@) =~= before + Seq::<Seq<char>>::empty());
                    }
                    return Node::Mapping(es);
                },
            };
            proof {
                lemma_find_in_props(ev, "metadata"@);
            }
            let taken = take_value_at(&mut es, midx);
            let ghost md_view = node_view(taken.1);
            proof {
                assert(ev[midx as int] == (taken.0@, md_view));
                assert(get_in(ev, "metadata"@) == Some(md_view));
            }
            let new_md: Node = match taken.1 {
                Node::Mapping(mut mes) => {
                    let ghost mv = entries_view(mes@);
                    proof {
                        assert(md_view == NodeV::Mapping(mv));
                    }
                    let empty_map: Vec<(String, Node)> = Vec::new();
                    proof {
                        assert(entries_view(empty_map@) =~= Seq::<(Seq<char>, NodeV)>::empty());
                    }
                    ensure_entry_x(&mut mes, "labels", Node::Mapping(empty_map));
                    let ghost mv1 = entries_view(mes@);
                    let lidx = match get_index(&mes, "labels") {
                        Some(i) => i,
                        None => {
                            proof {
                                lemma_push_entry_get(
                                    mv,
                                    ("labels"@, NodeV::Mapping(Seq::empty())),
                                    "labels"@,
                                );
                                lemma_find_in_props(mv1, "labels"@);
                                assert(false);
                            }
                            return Node::Mapping(es);
                        },
                    };
                    proof {
                        lemma_find_in_props(mv1, "labels"@);
                    }
                    let ltaken = take_value_at(&mut mes, lidx);
                    let ghost lb_view = node_view(ltaken.1);
                    proof {
                        assert(mv1[lidx as int] == (ltaken.0@, lb_view));
                        assert(get_in(mv1, "labels"@) == Some(lb_view));
                    }
                    let new_lb: Node = match ltaken.1 {
                        Node::Mapping(mut les) => {
                            let ghost lv = entries_view(les@);
                            proof {
                                assert(lb_view == NodeV::Mapping(lv));
                            }
                            opt_label_steps_x(&mut les, records);
                            Node::Mapping(les)
                        },
                        other => other,
                    };
                    let ghost new_lb_view = node_view(new_lb);
                    restore_value_at(&mut mes, lidx, ltaken.0, new_lb);
                    proof {
                        assert(entries_view(mes@) =~= mv1.update(
                            lidx as int,
                            ("labels"@, new_lb_view),
                        ));
                        assert(put_in(mv1, "labels"@, new_lb_view) == mv1.update(
                            lidx as int,
                            ("labels"@, new_lb_view),
                        ));
                        if new_lb_view == lb_view && mv1 == mv {
                            assert(entries_view(mes@) =~= mv);
                        }
                    }
                    Node::Mapping(mes)
                },
                other => {
                    proof {
                        assert(strs_view(records@) =~= before + Seq::<Seq<char>>::empty());
                    }
                    other
                },
            };
            let ghost new_md_view = node_view(new_md);
            restore_value_at(&mut es, midx, taken.0, new_md);
            proof {
                assert(node_view(doc) == NodeV::Mapping(ev));
                assert(entries_view(es@) =~= ev.update(midx as int, ("metadata"@, new_md_view)));
                assert(put_in(ev, "metadata"@, new_md_view) == ev.update(
                    midx as int,
                    ("metadata"@, new_md_view),
                ));
                match get_in(ev, "metadata"@) {
                    Some(NodeV::Mapping(mes)) => {
                        let mes1 = ensure_entry(mes, "labels"@, NodeV::Mapping(Seq::empty()));
                        lemma_push_entry_get(mes, ("labels"@, NodeV::Mapping(Seq::empty())), "labels"@);
                        match get_in(mes1, "labels"@) {
                            Some(NodeV::Mapping(les)) => {
                                let st = opt_label_steps_v(les);
                                assert(new_md_view == NodeV::Mapping(
                                    put_in(mes1, "labels"@, NodeV::Mapping(st.0)),
                                ));
                                assert(strs_view(records@) =~= before + st.1);
                            },
                            _ => {
                                assert(mes1 == mes);
                                assert(new_md_view == md_view);
                                assert(entries_view(es@) =~= ev);
                                assert(strs_view(records@) =~= before + Seq::<Seq<char>>::empty());
                            },
                        }
                    },
                    _ => {
                        assert(new_md_view == md_view);
                        assert(entries_view(es@) =~= ev);
                        assert(strs_view(records@) =~= before + Seq::<Seq<char>>::empty());
                    },
                }
            }
            Node::Mapping(es)
        },
        other => {
            proof {
                assert(strs_view(records@) =~= before + Seq::<Seq<char>>::empty());
            }
            other
        },
    }
}

/// The whole optimize profile under one aggressiveness flag: recommended
/// labels, resource requests (and aggressive limits), container settings,
/// then the kind-specific optimizations, with its records in application
/// order.
pub open spec fn optimize_v(d: NodeV, aggressive: bool) -> (NodeV, Seq<Seq<char>>) {
    let k = kind_v(d);
    let s0 = opt_labels_v(d);
    let s1 = pass_doc_v(Pass::OptResources(aggressive), s0.0);
    let s2 = pass_doc_v(Pass::OptSettings(aggressive), s1.0);
    let s3 = if k == "Deployment"@ {
        spec_pass_doc_v(SpecPass::OptDeployment(aggressive), s2.0)
    } else if k == "Service"@ {
        spec_pass_doc_v(SpecPass::OptService, s2.0)
    } else if k == "Pod"@ {
        spec_pass_doc_v(SpecPass::OptPod(aggressive), s2.0)
    } else {
        (s2.0, Seq::<Seq<char>>::empty())
    };
    (s3.0, s0.1 + s1.1 + s2.1 + s3.1)
}

/// Advisory notes the optimize workflow reports without applying any
/// mutation: one note for a Service whose type is `LoadBalancer`.  Kept
/// apart from the change records, which describe applied mutations only.
pub open spec fn advisories_v(d: NodeV) -> Seq<Seq<char>> {
    if kind_v(d) == "Service"@ && (match child_of(d, "spec"@) {
        Some(sp) => str_child(sp, "type"@) == Some("LoadBalancer"@),
        None => false,
    }) {
        seq![
            "Consider using ClusterIP instead of LoadBalancer if external access not required"@,
        ]
    } else {
        Seq::empty()
    }
}

/// The non-mutating advisory notes for one document.
pub fn optimize_advisories(doc: &Node) -> (r: Vec<String>)
    ensures
        strs_view(r@) == advisories_v(node_view(*doc)),
{
    let mut notes: Vec<String> = Vec::new();
    proof {
        assert(strs_view(notes@) =~= Seq::<Seq<char>>::empty());
    }
    let is_service = match get_str_child(doc, "kind") {
        Some(k) => k.eq(&"Service".to_owned()),
        None => false,
    };
    let is_lb = match get_child(doc, "spec") {
        Some(sp) => match get_str_child(sp, "type") {
            Some(t) => t.eq(&"LoadBalancer".to_owned()),
            None => false,
        },
        None => false,
    };
    if is_service && is_lb {
        notes.push(
            "Consider using ClusterIP instead of LoadBalancer if external access not required".to_owned(),
        );
        proof {
            assert(strs_view(notes@) =~= advisories_v(node_view(*doc)));
        }
    } else {
        proof {
            reveal_strlit("Unknown");
            reveal_strlit("Service");
            assert("Unknown"@.len() == 7);
            assert("Service"@.len() == 7);
            assert("Unknown"@[0] == 'U');
            assert("Service"@[0] == 'S');
            assert(strs_view(notes@) =~= advisories_v(node_view(*doc)));
        }
    }
    notes
}

/// Applies the optimize profile to one document, returning the rewritten
/// document and one record per applied change; the non-mutating advisory
/// notes come separately from [`optimize_advisories`].
pub fn optimize_resource(doc: Node, aggressive: bool) -> (r: (Node, Vec<String>))
    ensures
        node_view(r.0) == optimize_v(node_view(doc), aggressive).0,
        strs_view(r.1@) == optimize_v(node_view(doc), aggressive).1,
{
    let ghost d0 = node_view(doc);
    let info = get_resource_info(&doc);
    let mut records: Vec<String> = Vec::new();
    proof {
        assert(strs_view(records@) =~= Seq::<Seq<char>>::empty());
    }
    let doc = opt_labels(doc, &mut records);
    let doc = run_container_pass(doc, Pass::OptResources(aggressive), &mut records);
    let doc = run_container_pass(doc, Pass::OptSettings(aggressive), &mut records);
    let ghost mid = strs_view(records@);
    let doc = if info.kind.eq(&"Deployment".to_owned()) {
        run_spec_pass(doc, SpecPass::OptDeployment(aggressive), &mut records)
    } else if info.kind.eq(&"Service".to_owned()) {
        run_spec_pass(doc, SpecPass::OptService, &mut records)
    } else if info.kind.eq(&"Pod".to_owned()) {
        run_spec_pass(doc, SpecPass::OptPod(aggressive), &mut records)
    } else {
        doc
    };
    proof {
        let s0 = opt_labels_v(d0);
        let s1 = pass_doc_v(Pass::OptResources(aggressive), s0.0);
        let s2 = pass_doc_v(Pass::OptSettings(aggressive), s1.0);
        assert(mid =~= s0.1 + s1.1 + s2.1);
        assert(strs_view(records@) =~= optimize_v(d0, aggressive).1);
    }
    (doc, records)
}

} // verus!
