use vstd::prelude::*;
use vstd::string::StringExecFns;

verus! {

broadcast use vstd::std_specs::vec::axiom_vec_index_decreases, vstd::std_specs::vec::axiom_vec_decreases_to_view, vstd::seq::axiom_seq_index_decreases;

/// One node of a parsed resource document: a scalar, a sequence, or a
/// mapping with string keys in document order.
#[derive(Debug, PartialEq)]
pub enum Node {
    Null,
    Bool(bool),
    Int(i64),
    Str(String),
    Sequence(Vec<Node>),
    Mapping(Vec<(String, Node)>),
}

/// Mathematical shape of a [`Node`]; every contract speaks over this form.
pub enum NodeV {
    Null,
    Bool(bool),
    Int(int),
    Str(Seq<char>),
    Sequence(Seq<NodeV>),
    Mapping(Seq<(Seq<char>, NodeV)>),
}

pub open spec fn node_view(n: Node) -> NodeV
    decreases n,
{
    match n {
        Node::Null => NodeV::Null,
        Node::Bool(b) => NodeV::Bool(b),
        Node::Int(i) => NodeV::Int(i as int),
        Node::Str(s) => NodeV::Str(s@),
        Node::Sequence(v) => NodeV::Sequence(nodes_view(v@)),
        Node::Mapping(v) => NodeV::Mapping(entries_view(v@)),
    }
}

pub open spec fn nodes_view(s: Seq<Node>) -> Seq<NodeV>
    decreases s,
{
    Seq::new(s.len(), |i: int| if 0 <= i < s.len() { node_view(s[i]) } else { NodeV::Null })
}

pub open spec fn entries_view(s: Seq<(String, Node)>) -> Seq<(Seq<char>, NodeV)>
    decreases s,
{
    Seq::new(
        s.len(),
        |i: int| if 0 <= i < s.len() { (s[i].0@, node_view(s[i].1)) } else { (Seq::empty(), NodeV::Null) },
    )
}

/// Index of the first entry whose key is `k`, or -1 when no entry has it.
pub open spec fn find_in(es: Seq<(Seq<char>, NodeV)>, k: Seq<char>) -> int
    decreases es.len(),
{
    if es.len() == 0 {
        -1
    } else if es[0].0 == k {
        0
    } else {
        let r = find_in(es.drop_first(), k);
        if r == -1 {
            -1
        } else {
            r + 1
        }
    }
}

/// Value of the first entry keyed `k`, if any.
pub open spec fn get_in(es: Seq<(Seq<char>, NodeV)>, k: Seq<char>) -> Option<NodeV> {
    let i = find_in(es, k);
    if i == -1 {
        None
    } else {
        Some(es[i].1)
    }
}

pub open spec fn has_in(es: Seq<(Seq<char>, NodeV)>, k: Seq<char>) -> bool {
    get_in(es, k) is Some
}

/// Replace the first entry keyed `k`, or append one when the key is absent.
pub open spec fn put_in(
    es: Seq<(Seq<char>, NodeV)>,
    k: Seq<char>,
    v: NodeV,
) -> Seq<(Seq<char>, NodeV)> {
    let i = find_in(es, k);
    if i == -1 {
        es.push((k, v))
    } else {
        es.update(i, (k, v))
    }
}

pub proof fn lemma_find_in_props(es: Seq<(Seq<char>, NodeV)>, k: Seq<char>)
    ensures
        find_in(es, k) == -1 ==> forall|j: int| 0 <= j < es.len() ==> (#[trigger] es[j]).0 != k,
        find_in(es, k) != -1 ==> {
            let i = find_in(es, k);
            &&& 0 <= i < es.len()
            &&& es[i].0 == k
            &&& forall|j: int| 0 <= j < i ==> (#[trigger] es[j]).0 != k
        },
    decreases es.len(),
{
    if es.len() == 0 {
    } else if es[0].0 == k {
    } else {
        let tail = es.drop_first();
        lemma_find_in_props(tail, k);
        let r = find_in(tail, k);
        if r == -1 {
            assert forall|j: int| 0 <= j < es.len() implies (#[trigger] es[j]).0 != k by {
                if j > 0 {
                    assert(es[j] == tail[j - 1]);
                }
            }
        } else {
            assert(es[r + 1] == tail[r]);
            assert forall|j: int| 0 <= j < r + 1 implies (#[trigger] es[j]).0 != k by {
                if j > 0 {
                    assert(es[j] == tail[j - 1]);
                }
            }
        }
    }
}

pub proof fn lemma_find_in_is(es: Seq<(Seq<char>, NodeV)>, k: Seq<char>, i: int)
    requires
        0 <= i < es.len(),
        es[i].0 == k,
        forall|j: int| 0 <= j < i ==> (#[trigger] es[j]).0 != k,
    ensures
        find_in(es, k) == i,
{
    lemma_find_in_props(es, k);
}

pub proof fn lemma_find_in_none(es: Seq<(Seq<char>, NodeV)>, k: Seq<char>)
    requires
        forall|j: int| 0 <= j < es.len() ==> (#[trigger] es[j]).0 != k,
    ensures
        find_in(es, k) == -1,
{
    lemma_find_in_props(es, k);
}

/// `put_in` stores its value under its key and leaves every other key alone.
pub proof fn lemma_put_in_get(
    es: Seq<(Seq<char>, NodeV)>,
    k: Seq<char>,
    v: NodeV,
    k2: Seq<char>,
)
    ensures
        get_in(put_in(es, k, v), k) == Some(v),
        k2 != k ==> get_in(put_in(es, k, v), k2) == get_in(es, k2),
{
    lemma_find_in_props(es, k);
    let es2 = put_in(es, k, v);
    let i = find_in(es, k);
    if i == -1 {
        lemma_find_in_is(es2, k, es.len() as int);
        lemma_find_in_props(es, k2);
        lemma_find_in_props(es2, k2);
        if k2 != k {
            let j2 = find_in(es, k2);
            if j2 == -1 {
                lemma_find_in_none(es2, k2);
            } else {
                lemma_find_in_is(es2, k2, j2);
            }
        }
    } else {
        lemma_find_in_is(es2, k, i);
        if k2 != k {
            assert(forall|j: int| 0 <= j < es.len() ==> (#[trigger] es2[j]).0 == es[j].0);
            lemma_find_in_props(es, k2);
            let j2 = find_in(es, k2);
            if j2 == -1 {
                lemma_find_in_none(es2, k2);
            } else {
                lemma_find_in_is(es2, k2, j2);
                assert(es2[j2].1 == es[j2].1);
            }
        }
    }
}

/// Child of a mapping node; `None` on any other shape or an absent key.
pub open spec fn child_of(n: NodeV, k: Seq<char>) -> Option<NodeV> {
    match n {
        NodeV::Mapping(es) => get_in(es, k),
        _ => None,
    }
}

pub open spec fn str_child(n: NodeV, k: Seq<char>) -> Option<Seq<char>> {
    match child_of(n, k) {
        Some(NodeV::Str(s)) => Some(s),
        _ => None,
    }
}

pub open spec fn int_child(n: NodeV, k: Seq<char>) -> Option<int> {
    match child_of(n, k) {
        Some(NodeV::Int(i)) => Some(i),
        _ => None,
    }
}

pub open spec fn bool_child(n: NodeV, k: Seq<char>) -> Option<bool> {
    match child_of(n, k) {
        Some(NodeV::Bool(b)) => Some(b),
        _ => None,
    }
}

/// Container name used in findings and change records, defaulting to
/// `unknown`.
pub open spec fn container_name_v(c: NodeV) -> Seq<char> {
    match str_child(c, "name"@) {
        Some(n) => n,
        None => "unknown"@,
    }
}

/// The pod-level spec: `spec.template.spec` when `spec.template` is
/// present, else `spec` itself.  Every consumer of pod-level fields —
/// containers, restart policy — resolves through this one function.
pub open spec fn pod_spec_v(d: NodeV) -> Option<NodeV> {
    match child_of(d, "spec"@) {
        Some(s) => if child_of(s, "template"@) is Some {
            match child_of(s, "template"@) {
                Some(t) => child_of(t, "spec"@),
                None => None,
            }
        } else {
            Some(s)
        },
        None => None,
    }
}

/// Resolved container list: under `spec.template.spec.containers` when
/// `spec.template` is present, else under `spec.containers`.  `None` when the
/// shape yields no sequence there; callers treat that as "no containers".
pub open spec fn containers_v(d: NodeV) -> Option<Seq<NodeV>> {
    match pod_spec_v(d) {
        Some(h) => match child_of(h, "containers"@) {
            Some(NodeV::Sequence(cs)) => Some(cs),
            _ => None,
        },
        None => None,
    }
}

pub open spec fn kind_v(d: NodeV) -> Seq<char> {
    match str_child(d, "kind"@) {
        Some(k) => k,
        None => "Unknown"@,
    }
}

pub open spec fn name_v(d: NodeV) -> Seq<char> {
    match child_of(d, "metadata"@) {
        Some(m) => match str_child(m, "name"@) {
            Some(n) => n,
            None => "Unnamed"@,
        },
        None => "Unnamed"@,
    }
}

pub open spec fn namespace_v(d: NodeV) -> Seq<char> {
    match child_of(d, "metadata"@) {
        Some(m) => match str_child(m, "namespace"@) {
            Some(n) => n,
            None => "default"@,
        },
        None => "default"@,
    }
}

/// Identity triple of one resource document, with the documented defaults.
#[derive(Debug, PartialEq)]
pub struct ResourceIdentity {
    pub kind: String,
    pub name: String,
    pub namespace: String,
}

/// Index of the first entry keyed `k` in a mapping's entry list.
pub fn get_index(es: &Vec<(String, Node)>, k: &str) -> (r: Option<usize>)
    ensures
        match r {
            Some(i) => i < es.len() && find_in(entries_view(es@), k@) == i as int,
            None => find_in(entries_view(es@), k@) == -1,
        },
{
    let key: String = k.to_owned();
    let ghost ev = entries_view(es@);
    let mut i: usize = 0;
    while i < es.len()
        invariant
            0 <= i <= es.len(),
            key@ == k@,
            ev == entries_view(es@),
            forall|j: int| 0 <= j < i ==> (#[trigger] ev[j]).0 != k@,
        decreases es.len() - i,
    {
        if es[i].0.eq(&key) {
            proof {
                lemma_find_in_is(ev, k@, i as int);
            }
            return Some(i);
        }
        i = i + 1;
    }
    proof {
        lemma_find_in_none(ev, k@);
    }
    None
}

/// First entry keyed `k` in a mapping's entry list.
pub fn get_entry<'a>(es: &'a Vec<(String, Node)>, k: &str) -> (r: Option<&'a Node>)
    ensures
        match r {
            Some(n) => get_in(entries_view(es@), k@) == Some(node_view(*n)),
            None => get_in(entries_view(es@), k@) is None,
        },
{
    match get_index(es, k) {
        Some(i) => Some(&es[i].1),
        None => None,
    }
}

/// Child of a document node; `None` when the node is not a mapping or the
/// key is absent.
pub fn get_child<'a>(n: &'a Node, k: &str) -> (r: Option<&'a Node>)
    ensures
        match r {
            Some(c) => child_of(node_view(*n), k@) == Some(node_view(*c)),
            None => child_of(node_view(*n), k@) is None,
        },
{
    match n {
        Node::Mapping(es) => get_entry(es, k),
        _ => None,
    }
}

pub fn get_str_child<'a>(n: &'a Node, k: &str) -> (r: Option<&'a String>)
    ensures
        match r {
            Some(s) => str_child(node_view(*n), k@) == Some(s@),
            None => str_child(node_view(*n), k@) is None,
        },
{
    match get_child(n, k) {
        Some(Node::Str(s)) => Some(s),
        _ => None,
    }
}

pub fn get_int_child(n: &Node, k: &str) -> (r: Option<i64>)
    ensures
        match r {
            Some(i) => int_child(node_view(*n), k@) == Some(i as int),
            None => int_child(node_view(*n), k@) is None,
        },
{
    match get_child(n, k) {
        Some(Node::Int(i)) => Some(*i),
        _ => None,
    }
}

pub fn get_bool_child(n: &Node, k: &str) -> (r: Option<bool>)
    ensures
        match r {
            Some(b) => bool_child(node_view(*n), k@) == Some(b),
            None => bool_child(node_view(*n), k@) is None,
        },
{
    match get_child(n, k) {
        Some(Node::Bool(b)) => Some(*b),
        _ => None,
    }
}

/// Pod-level spec of `doc`, resolved exactly as [`pod_spec_v`] says.
pub fn pod_spec<'a>(doc: &'a Node) -> (r: Option<&'a Node>)
    ensures
        match r {
            Some(h) => pod_spec_v(node_view(*doc)) == Some(node_view(*h)),
            None => pod_spec_v(node_view(*doc)) is None,
        },
{
    let spec_node = match get_child(doc, "spec") {
        Some(s) => s,
        None => {
            return None;
        },
    };
    match get_child(spec_node, "template") {
        Some(t) => match get_child(t, "spec") {
            Some(ts) => Some(ts),
            None => None,
        },
        None => Some(spec_node),
    }
}

/// Resolved container list of `doc`, shared with every rule, scorer and
/// mutation pass; `None` stands for "this shape has no containers".
pub fn containers<'a>(doc: &'a Node) -> (r: Option<&'a Vec<Node>>)
    ensures
        match r {
            Some(cs) => containers_v(node_view(*doc)) == Some(nodes_view(cs@)),
            None => containers_v(node_view(*doc)) is None,
        },
{
    let holder = match pod_spec(doc) {
        Some(h) => h,
        None => {
            return None;
        },
    };
    match get_child(holder, "containers") {
        Some(Node::Sequence(cs)) => Some(cs),
        _ => None,
    }
}

/// Kind, name and namespace of a document, defaulting to `Unknown`,
/// `Unnamed` and `default` where the fields are absent.
pub fn get_resource_info(doc: &Node) -> (r: ResourceIdentity)
    ensures
        r.kind@ == kind_v(node_view(*doc)),
        r.name@ == name_v(node_view(*doc)),
        r.namespace@ == namespace_v(node_view(*doc)),
{
    let kind: String = match get_str_child(doc, "kind") {
        Some(s) => s.clone(),
        None => "Unknown".to_owned(),
    };
    let (name, namespace): (String, String) = match get_child(doc, "metadata") {
        Some(m) => {
            let n: String = match get_str_child(m, "name") {
                Some(s) => s.clone(),
                None => "Unnamed".to_owned(),
            };
            let ns: String = match get_str_child(m, "namespace") {
                Some(s) => s.clone(),
                None => "default".to_owned(),
            };
            (n, ns)
        },
        None => ("Unnamed".to_owned(), "default".to_owned()),
    };
    ResourceIdentity { kind, name, namespace }
}

} // verus!
