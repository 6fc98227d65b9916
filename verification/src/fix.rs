use vstd::prelude::*;
use vstd::string::StringExecFns;
use crate::doc::{
    Node, NodeV, node_view, entries_view, get_in, has_in, put_in, lemma_find_in_props, get_index,
    get_entry, get_resource_info, kind_v,
};
use crate::mutate::{
    Pass, pass_doc_v, SpecPass, spec_pass_doc_v, run_container_pass, run_spec_pass, mapping1,
    take_value_at, restore_value_at,
};
use crate::rules::strs_view;

verus! {

/// Fix pass on metadata: when the resource has a string name, an `app`
/// label carrying that name is added to absent labels or to labels lacking
/// `app`, with one record; any other shape is left untouched.
pub open spec fn fix_labels_v(d: NodeV) -> (NodeV, Seq<Seq<char>>) {
    match d {
        NodeV::Mapping(es) => match get_in(es, "metadata"@) {
            Some(NodeV::Mapping(mes)) => match get_in(mes, "name"@) {
                Some(NodeV::Str(nm)) => match get_in(mes, "labels"@) {
                    None => (
                        NodeV::Mapping(
                            put_in(
                                es,
                                "metadata"@,
                                NodeV::Mapping(
                                    mes.push(
                                        ("labels"@, NodeV::Mapping(seq![("app"@, NodeV::Str(nm))])),
                                    ),
                                ),
                            ),
                        ),
                        seq!["Added 'app' label based on resource name"@],
                    ),
                    Some(NodeV::Mapping(les)) => if has_in(les, "app"@) {
                        (d, Seq::empty())
                    } else {
                        (
                            NodeV::Mapping(
                                put_in(
                                    es,
                                    "metadata"@,
                                    NodeV::Mapping(
                                        put_in(
                                            mes,
                                            "labels"@,
                                            NodeV::Mapping(les.push(("app"@, NodeV::Str(nm)))),
                                        ),
                                    ),
                                ),
                            ),
                            seq!["Added 'app' label based on resource name"@],
                        )
                    },
                    Some(_) => (d, Seq::empty()),
                },
                _ => (d, Seq::empty()),
            },
            _ => (d, Seq::empty()),
        },
        _ => (d, Seq::empty()),
    }
}

fn fix_labels(doc: Node, records: &mut Vec<String>) -> (r: Node)
    ensures
        node_view(r) == fix_labels_v(node_view(doc)).0,
        strs_view(final(records)@) == strs_view(old(records)@) + fix_labels_v(node_view(doc)).1,
{
    let ghost before = strs_view(records@);
    match doc {
        Node::Mapping(mut es) => {
            let ghost ev = entries_view(es@);
            let midx = match get_index(&es, "metadata") {
                Some(i) => i,
                None => {
                    proof {
                        lemma_find_in_props(ev, "metadata"@);
                        assert(strs_view(records@) =~= before + Seq::<Seq<char>>::empty());
                    }
                    return Node::Mapping(es);
                },
            };
            proof {
                lemma_find_in_props(ev, "metadata"@);
            }
            let taken = take_value_at(&mut es, midx);
            let ghost md_view = node_view(taken.1);
            proof {
                assert(ev[midx as int] == (taken.0@, md_view));
                assert(get_in(ev, "metadata"@) == Some(md_view));
            }
            let new_md: Node = match taken.1 {
                Node::Mapping(mut mes) => {
                    let ghost mv = entries_view(mes@);
                    proof {
                        assert(md_view == NodeV::Mapping(mv));
                    }
                    let name: Option<String> = match get_entry(&mes, "name") {
                        Some(Node::Str(s)) => Some(s.clone()),
                        _ => None,
                    };
                    match name {
                        Some(nm) => {
                            let lidx = get_index(&mes, "labels");
                            match lidx {
                                None => {
                                    let labels = mapping1("app", Node::Str(nm));
                                    let ghost labels_view = node_view(labels);
                                    mes.push(("labels".to_owned(), labels));
                                    records.push(
                                        "Added 'app' label based on resource name".to_owned(),
                                    );
                                    proof {
                                        assert(entries_view(mes@) =~= mv.push(
                                            ("labels"@, labels_view),
                                        ));
                                        assert(strs_view(records@) =~= before + seq![
                                            "Added 'app' label based on resource name"@,
                                        ]);
                                    }
                                },
                                Some(li) => {
                                    proof {
                                        lemma_find_in_props(mv, "labels"@);
                                    }
                                    let ltaken = take_value_at(&mut mes, li);
                                    let ghost lb_view = node_view(ltaken.1);
                                    proof {
                                        assert(mv[li as int] == (ltaken.0@, lb_view));
                                        assert(get_in(mv, "labels"@) == Some(lb_view));
                                    }
                                    let new_lb: Node = match ltaken.1 {
                                        Node::Mapping(mut les) => {
                                            let ghost lv = entries_view(les@);
                                            proof {
                                                assert(lb_view == NodeV::Mapping(lv));
                                            }
                                            if get_index(&les, "app").is_none() {
                                                let ghost nmv = nm@;
                                                les.push(("app".to_owned(), Node::Str(nm)));
                                                records.push(
                                                    "Added 'app' label based on resource name".to_owned(),
                                                );
                                                proof {
                                                    assert(entries_view(les@) =~= lv.push(
                                                        ("app"@, NodeV::Str(nmv)),
                                                    ));
                                                    assert(strs_view(records@) =~= before + seq![
                                                        "Added 'app' label based on resource name"@,
                                                    ]);
                                                }
                                            } else {
                                                proof {
                                                    assert(strs_view(records@) =~= before + Seq::<
                                                        Seq<char>,
                                                    >::empty());
                                                }
                                            }
                                            Node::Mapping(les)
                                        },
                                        other => {
                                            proof {
                                                assert(strs_view(records@) =~= before + Seq::<
                                                    Seq<char>,
                                                >::empty());
                                            }
                                            other
                                        },
                                    };
                                    let ghost new_lb_view = node_view(new_lb);
                                    restore_value_at(&mut mes, li, ltaken.0, new_lb);
                                    proof {
                                        assert(entries_view(mes@) =~= mv.update(
                                            li as int,
                                            ("labels"@, new_lb_view),
                                        ));
                                        assert(put_in(mv, "labels"@, new_lb_view) == mv.update(
                                            li as int,
                                            ("labels"@, new_lb_view),
                                        ));
                                        if new_lb_view == lb_view {
                                            assert(entries_view(mes@) =~= mv);
                                        }
                                    }
                                },
                            }
                        },
                        None => {
                            proof {
                                assert(strs_view(records@) =~= before + Seq::<Seq<char>>::empty());
                            }
                        },
                    }
                    Node::Mapping(mes)
                },
                other => {
                    proof {
                        assert(strs_view(records@) =~= before + Seq::<Seq<char>>::empty());
                    }
                    other
                },
            };
            let ghost new_md_view = node_view(new_md);
            restore_value_at(&mut es, midx, taken.0, new_md);
            proof {
                assert(node_view(doc) == NodeV::Mapping(ev));
                assert(entries_view(es@) =~= ev.update(midx as int, ("metadata"@, new_md_view)));
                assert(put_in(ev, "metadata"@, new_md_view) == ev.update(
                    midx as int,
                    ("metadata"@, new_md_view),
                ));
                match get_in(ev, "metadata"@) {
                    Some(NodeV::Mapping(mes)) => {
                        match get_in(mes, "name"@) {
                            Some(NodeV::Str(nm)) => {
                                match get_in(mes, "labels"@) {
                                    None => {
                                        assert(new_md_view == NodeV::Mapping(
                                            mes.push(
                                                (
                                                    "labels"@,
                                                    NodeV::Mapping(
                                                        seq![("app"@, NodeV::Str(nm))],
                                                    ),
                                                ),
                                            ),
                                        ));
                                    },
                                    Some(NodeV::Mapping(les)) => {
                                        if has_in(les, "app"@) {
                                            assert(new_md_view == md_view);
                                            assert(entries_view(es@) =~= ev);
                                        } else {
                                            assert(new_md_view == NodeV::Mapping(
                                                put_in(
                                                    mes,
                                                    "labels"@,
                                                    NodeV::Mapping(
                                                        les.push(("app"@, NodeV::Str(nm))),
                                                    ),
                                                ),
                                            ));
                                        }
                                    },
                                    Some(_) => {
                                        assert(new_md_view == md_view);
                                        assert(entries_view(es@) =~= ev);
                                    },
                                }
                            },
                            _ => {
                                assert(new_md_view == md_view);
                                assert(entries_view(es@) =~= ev);
                            },
                        }
                    },
                    _ => {
                        assert(new_md_view == md_view);
                        assert(entries_view(es@) =~= ev);
                    },
                }
            }
            Node::Mapping(es)
        },
        other => {
            proof {
                assert(strs_view(records@) =~= before + Seq::<Seq<char>>::empty());
            }
            other
        },
    }
}

/// The whole fix profile: the `app` label, default resources, probes,
/// security context and image retagging container by container, then the
/// kind-specific defaults, with its records in application order.
pub open spec fn fix_v(d: NodeV) -> (NodeV, Seq<Seq<char>>) {
    let k = kind_v(d);
    let s0 = fix_labels_v(d);
    let s1 = pass_doc_v(Pass::FixLimits, s0.0);
    let s2 = pass_doc_v(Pass::FixProbes, s1.0);
    let s3 = pass_doc_v(Pass::FixSecurity, s2.0);
    let s4 = pass_doc_v(Pass::FixImages, s3.0);
    let s5 = if k == "Deployment"@ {
        spec_pass_doc_v(SpecPass::FixDeployment, s4.0)
    } else if k == "Service"@ {
        spec_pass_doc_v(SpecPass::FixService, s4.0)
    } else if k == "Pod"@ {
        spec_pass_doc_v(SpecPass::FixPod, s4.0)
    } else {
        (s4.0, Seq::<Seq<char>>::empty())
    };
    (s5.0, s0.1 + s1.1 + s2.1 + s3.1 + s4.1 + s5.1)
}

/// Applies the fix profile to one document, returning the rewritten
/// document and one record per inserted or rewritten field; no record is
/// emitted without a change.
pub fn fix_resource(doc: Node) -> (r: (Node, Vec<String>))
    ensures
        node_view(r.0) == fix_v(node_view(doc)).0,
        strs_view(r.1@) == fix_v(node_view(doc)).1,
{
    let ghost d0 = node_view(doc);
    let info = get_resource_info(&doc);
    let mut records: Vec<String> = Vec::new();
    proof {
        assert(strs_view(records@) =~= Seq::<Seq<char>>::empty());
    }
    let doc = fix_labels(doc, &mut records);
    let doc = run_container_pass(doc, Pass::FixLimits, &mut records);
    let doc = run_container_pass(doc, Pass::FixProbes, &mut records);
    let doc = run_container_pass(doc, Pass::FixSecurity, &mut records);
    let doc = run_container_pass(doc, Pass::FixImages, &mut records);
    let ghost mid = strs_view(records@);
    let doc = if info.kind.eq(&"Deployment".to_owned()) {
        run_spec_pass(doc, SpecPass::FixDeployment, &mut records)
    } else if info.kind.eq(&"Service".to_owned()) {
        run_spec_pass(doc, SpecPass::FixService, &mut records)
    } else if info.kind.eq(&"Pod".to_owned()) {
        run_spec_pass(doc, SpecPass::FixPod, &mut records)
    } else {
        doc
    };
    proof {
        let s0 = fix_labels_v(d0);
        let s1 = pass_doc_v(Pass::FixLimits, s0.0);
        let s2 = pass_doc_v(Pass::FixProbes, s1.0);
        let s3 = pass_doc_v(Pass::FixSecurity, s2.0);
        let s4 = pass_doc_v(Pass::FixImages, s3.0);
        assert(mid =~= s0.1 + s1.1 + s2.1 + s3.1 + s4.1);
        assert(strs_view(records@) =~= fix_v(d0).1);
    }
    (doc, records)
}

} // verus!
