use vstd::prelude::*;
use vstd::string::StringExecFns;
use crate::doc::{
    Node, NodeV, node_view, nodes_view, containers, containers_v, child_of, str_child, get_child,
    get_str_child,
};
use crate::util::{is_latest_image, is_untagged_image, image_has_latest_tag, image_has_colon};

verus! {

/// Relation between an optional finding message and its mathematical form.
pub open spec fn opt_str_matches(r: Option<String>, v: Option<Seq<char>>) -> bool {
    match r {
        Some(s) => v == Some(s@),
        None => v is None,
    }
}

/// One detector of the rule catalog: inspects a document and produces at
/// most one finding message, never an error, whatever the document's shape.
pub trait LintRule {
    fn check(&self, doc: &Node) -> (r: Option<String>);
}

pub open spec fn labels_missing(d: NodeV) -> bool {
    match child_of(d, "metadata"@) {
        Some(m) => child_of(m, "labels"@) is None,
        None => false,
    }
}

/// The document has metadata but no labels.
pub open spec fn missing_labels_rule_v(d: NodeV) -> Option<Seq<char>> {
    if labels_missing(d) {
        Some("Resource is missing labels."@)
    } else {
        None
    }
}

pub open spec fn limits_missing(c: NodeV) -> bool {
    match child_of(c, "resources"@) {
        Some(r) => child_of(r, "limits"@) is None,
        None => true,
    }
}

pub open spec fn any_limits_missing(cs: Seq<NodeV>) -> bool {
    exists|i: int| 0 <= i < cs.len() && limits_missing(#[trigger] cs[i])
}

/// Some container carries no resource limits.
pub open spec fn resource_limits_rule_v(d: NodeV) -> Option<Seq<char>> {
    match containers_v(d) {
        Some(cs) => if any_limits_missing(cs) {
            Some("Container is missing resource limits."@)
        } else {
            None
        },
        None => None,
    }
}

pub open spec fn liveness_missing(c: NodeV) -> bool {
    child_of(c, "livenessProbe"@) is None
}

pub open spec fn any_liveness_missing(cs: Seq<NodeV>) -> bool {
    exists|i: int| 0 <= i < cs.len() && liveness_missing(#[trigger] cs[i])
}

/// Some container carries no liveness probe.
pub open spec fn liveness_probe_rule_v(d: NodeV) -> Option<Seq<char>> {
    match containers_v(d) {
        Some(cs) => if any_liveness_missing(cs) {
            Some("Container is missing livenessProbe."@)
        } else {
            None
        },
        None => None,
    }
}

pub open spec fn readiness_missing(c: NodeV) -> bool {
    child_of(c, "readinessProbe"@) is None
}

pub open spec fn any_readiness_missing(cs: Seq<NodeV>) -> bool {
    exists|i: int| 0 <= i < cs.len() && readiness_missing(#[trigger] cs[i])
}

/// Some container carries no readiness probe.
pub open spec fn readiness_probe_rule_v(d: NodeV) -> Option<Seq<char>> {
    match containers_v(d) {
        Some(cs) => if any_readiness_missing(cs) {
            Some("Container is missing readinessProbe."@)
        } else {
            None
        },
        None => None,
    }
}

pub open spec fn run_as_non_root_unset(c: NodeV) -> bool {
    match child_of(c, "securityContext"@) {
        Some(sc) => child_of(sc, "runAsNonRoot"@) is None,
        None => false,
    }
}

pub open spec fn any_run_as_non_root_unset(cs: Seq<NodeV>) -> bool {
    exists|i: int| 0 <= i < cs.len() && run_as_non_root_unset(#[trigger] cs[i])
}

/// Some container has a security context that leaves `runAsNonRoot` unset.
pub open spec fn run_as_non_root_rule_v(d: NodeV) -> Option<Seq<char>> {
    match containers_v(d) {
        Some(cs) => if any_run_as_non_root_unset(cs) {
            Some("Container does not have runAsNonRoot set."@)
        } else {
            None
        },
        None => None,
    }
}

pub open spec fn read_only_root_unset(c: NodeV) -> bool {
    match child_of(c, "securityContext"@) {
        Some(sc) => child_of(sc, "readOnlyRootFilesystem"@) is None,
        None => false,
    }
}

pub open spec fn any_read_only_root_unset(cs: Seq<NodeV>) -> bool {
    exists|i: int| 0 <= i < cs.len() && read_only_root_unset(#[trigger] cs[i])
}

/// Some container has a security context that leaves
/// `readOnlyRootFilesystem` unset.
pub open spec fn read_only_root_rule_v(d: NodeV) -> Option<Seq<char>> {
    match containers_v(d) {
        Some(cs) => if any_read_only_root_unset(cs) {
            Some("Container does not have readOnlyRootFilesystem set."@)
        } else {
            None
        },
        None => None,
    }
}

pub open spec fn latest_or_untagged(c: NodeV) -> bool {
    match str_child(c, "image"@) {
        Some(img) => is_latest_image(img) || is_untagged_image(img),
        None => false,
    }
}

pub open spec fn any_latest_or_untagged(cs: Seq<NodeV>) -> bool {
    exists|i: int| 0 <= i < cs.len() && latest_or_untagged(#[trigger] cs[i])
}

/// Some container runs a `:latest` or untagged image.
pub open spec fn latest_image_tag_rule_v(d: NodeV) -> Option<Seq<char>> {
    match containers_v(d) {
        Some(cs) => if any_latest_or_untagged(cs) {
            Some("Container uses a 'latest' image tag. Which should be avoided. "@)
        } else {
            None
        },
        None => None,
    }
}

fn limits_missing_x(c: &Node) -> (r: bool)
    ensures
        r == limits_missing(node_view(*c)),
{
    match get_child(c, "resources") {
        Some(res) => match get_child(res, "limits") {
            Some(_) => false,
            None => true,
        },
        None => true,
    }
}

fn latest_or_untagged_x(c: &Node) -> (r: bool)
    ensures
        r == latest_or_untagged(node_view(*c)),
{
    match get_str_child(c, "image") {
        Some(img) => image_has_latest_tag(img) || !image_has_colon(img),
        None => false,
    }
}

/// Flags a document whose metadata carries no labels.
pub struct MissingLabelsRule;

impl LintRule for MissingLabelsRule {
    fn check(&self, doc: &Node) -> (r: Option<String>)
        ensures
            opt_str_matches(r, missing_labels_rule_v(node_view(*doc))),
    {
        match get_child(doc, "metadata") {
            Some(m) => match get_child(m, "labels") {
                Some(_) => None,
                None => Some("Resource is missing labels.".to_owned()),
            },
            None => None,
        }
    }
}

/// Flags a container without resource limits.
pub struct ResourceLimitsRule;

impl LintRule for ResourceLimitsRule {
    #[verifier::loop_isolation(false)]
    fn check(&self, doc: &Node) -> (r: Option<String>)
        ensures
            opt_str_matches(r, resource_limits_rule_v(node_view(*doc))),
    {
        let cs = match containers(doc) {
            Some(cs) => cs,
            None => {
                return None;
            },
        };
        let ghost cv = nodes_view(cs@);
        let mut i: usize = 0;
        while i < cs.len()
            invariant
                0 <= i <= cs.len(),
                forall|j: int| 0 <= j < i ==> !limits_missing(#[trigger] cv[j]),
            decreases cs.len() - i,
        {
            if limits_missing_x(&cs[i]) {
                proof {
                    assert(limits_missing(cv[i as int]));
                    assert(any_limits_missing(cv));
                }
                return Some("Container is missing resource limits.".to_owned());
            }
            i = i + 1;
        }
        None
    }
}

/// Flags a container without a liveness probe.
pub struct LivenessProbeRule;

impl LintRule for LivenessProbeRule {
    #[verifier::loop_isolation(false)]
    fn check(&self, doc: &Node) -> (r: Option<String>)
        ensures
            opt_str_matches(r, liveness_probe_rule_v(node_view(*doc))),
    {
        let cs = match containers(doc) {
            Some(cs) => cs,
            None => {
                return None;
            },
        };
        let ghost cv = nodes_view(cs@);
        let mut i: usize = 0;
        while i < cs.len()
            invariant
                0 <= i <= cs.len(),
                forall|j: int| 0 <= j < i ==> !liveness_missing(#[trigger] cv[j]),
            decreases cs.len() - i,
        {
            if get_child(&cs[i], "livenessProbe").is_none() {
                proof {
                    assert(liveness_missing(cv[i as int]));
                    assert(any_liveness_missing(cv));
                }
                return Some("Container is missing livenessProbe.".to_owned());
            }
            i = i + 1;
        }
        None
    }
}

/// Flags a container without a readiness probe.
pub struct ReadinessProbeRule;

impl LintRule for ReadinessProbeRule {
    #[verifier::loop_isolation(false)]
    fn check(&self, doc: &Node) -> (r: Option<String>)
        ensures
            opt_str_matches(r, readiness_probe_rule_v(node_view(*doc))),
    {
        let cs = match containers(doc) {
            Some(cs) => cs,
            None => {
                return None;
            },
        };
        let ghost cv = nodes_view(cs@);
        let mut i: usize = 0;
        while i < cs.len()
            invariant
                0 <= i <= cs.len(),
                forall|j: int| 0 <= j < i ==> !readiness_missing(#[trigger] cv[j]),
            decreases cs.len() - i,
        {
            if get_child(&cs[i], "readinessProbe").is_none() {
                proof {
                    assert(readiness_missing(cv[i as int]));
                    assert(any_readiness_missing(cv));
                }
                return Some("Container is missing readinessProbe.".to_owned());
            }
            i = i + 1;
        }
        None
    }
}

/// Flags a security context that leaves `runAsNonRoot` unset.
pub struct RunAsNonRootRule;

impl LintRule for RunAsNonRootRule {
    #[verifier::loop_isolation(false)]
    fn check(&self, doc: &Node) -> (r: Option<String>)
        ensures
            opt_str_matches(r, run_as_non_root_rule_v(node_view(*doc))),
    {
        let cs = match containers(doc) {
            Some(cs) => cs,
            None => {
                return None;
            },
        };
        let ghost cv = nodes_view(cs@);
        let mut i: usize = 0;
        while i < cs.len()
            invariant
                0 <= i <= cs.len(),
                forall|j: int| 0 <= j < i ==> !run_as_non_root_unset(#[trigger] cv[j]),
            decreases cs.len() - i,
        {
            let hit = match get_child(&cs[i], "securityContext") {
                Some(sc) => get_child(sc, "runAsNonRoot").is_none(),
                None => false,
            };
            if hit {
                proof {
                    assert(run_as_non_root_unset(cv[i as int]));
                    assert(any_run_as_non_root_unset(cv));
                }
                return Some("Container does not have runAsNonRoot set.".to_owned());
            }
            i = i + 1;
        }
        None
    }
}

/// Flags a security context that leaves `readOnlyRootFilesystem` unset.
pub struct ReadOnlyRootFilesystemRule;

impl LintRule for ReadOnlyRootFilesystemRule {
    #[verifier::loop_isolation(false)]
    fn check(&self, doc: &Node) -> (r: Option<String>)
        ensures
            opt_str_matches(r, read_only_root_rule_v(node_view(*doc))),
    {
        let cs = match containers(doc) {
            Some(cs) => cs,
            None => {
                return None;
            },
        };
        let ghost cv = nodes_view(cs@);
        let mut i: usize = 0;
        while i < cs.len()
            invariant
                0 <= i <= cs.len(),
                forall|j: int| 0 <= j < i ==> !read_only_root_unset(#[trigger] cv[j]),
            decreases cs.len() - i,
        {
            let hit = match get_child(&cs[i], "securityContext") {
                Some(sc) => get_child(sc, "readOnlyRootFilesystem").is_none(),
                None => false,
            };
            if hit {
                proof {
                    assert(read_only_root_unset(cv[i as int]));
                    assert(any_read_only_root_unset(cv));
                }
                return Some("Container does not have readOnlyRootFilesystem set.".to_owned());
            }
            i = i + 1;
        }
        None
    }
}

/// Flags a container whose image is tagged `:latest` or not tagged at all.
pub struct LatestImageTagRule;

impl LintRule for LatestImageTagRule {
    #[verifier::loop_isolation(false)]
    fn check(&self, doc: &Node) -> (r: Option<String>)
        ensures
            opt_str_matches(r, latest_image_tag_rule_v(node_view(*doc))),
    {
        let cs = match containers(doc) {
            Some(cs) => cs,
            None => {
                return None;
            },
        };
        let ghost cv = nodes_view(cs@);
        let mut i: usize = 0;
        while i < cs.len()
            invariant
                0 <= i <= cs.len(),
                forall|j: int| 0 <= j < i ==> !latest_or_untagged(#[trigger] cv[j]),
            decreases cs.len() - i,
        {
            if latest_or_untagged_x(&cs[i]) {
                proof {
                    assert(latest_or_untagged(cv[i as int]));
                    assert(any_latest_or_untagged(cv));
                }
                return Some("Container uses a 'latest' image tag. Which should be avoided. ".to_owned());
            }
            i = i + 1;
        }
        None
    }
}

/// View of a list of (rule name, message) pairs.
pub open spec fn pairs_view(s: Seq<(String, String)>) -> Seq<(Seq<char>, Seq<char>)> {
    Seq::new(s.len(), |i: int| (s[i].0@, s[i].1@))
}

pub open spec fn strs_view(s: Seq<String>) -> Seq<Seq<char>> {
    Seq::new(s.len(), |i: int| s[i]@)
}

/// A rule takes part in a run when no subset was asked for, or when its
/// name stands in the subset.
pub open spec fn rule_active(name: Seq<char>, filter: Option<Seq<Seq<char>>>) -> bool {
    match filter {
        None => true,
        Some(names) => names.contains(name),
    }
}

pub open spec fn lint_entry(
    name: Seq<char>,
    res: Option<Seq<char>>,
    filter: Option<Seq<Seq<char>>>,
) -> Seq<(Seq<char>, Seq<char>)> {
    if rule_active(name, filter) {
        match res {
            Some(m) => seq![(name, m)],
            None => Seq::empty(),
        }
    } else {
        Seq::empty()
    }
}

/// One lint run: every active rule of the catalog, in catalog order, with
/// the finding it produced.
pub open spec fn lint_v(d: NodeV, filter: Option<Seq<Seq<char>>>) -> Seq<(Seq<char>, Seq<char>)> {
    lint_entry("missing-labels"@, missing_labels_rule_v(d), filter) + lint_entry(
        "resource-limits"@,
        resource_limits_rule_v(d),
        filter,
    ) + lint_entry("liveness-probe"@, liveness_probe_rule_v(d), filter) + lint_entry(
        "readiness-probe"@,
        readiness_probe_rule_v(d),
        filter,
    ) + lint_entry("run-as-non-root"@, run_as_non_root_rule_v(d), filter) + lint_entry(
        "read-only-root-filesystem"@,
        read_only_root_rule_v(d),
        filter,
    ) + lint_entry("latest-image-tag"@, latest_image_tag_rule_v(d), filter)
}

pub open spec fn opt_filter_view(filter: Option<Seq<String>>) -> Option<Seq<Seq<char>>> {
    match filter {
        Some(names) => Some(strs_view(names)),
        None => None,
    }
}

fn names_contain(names: &Vec<String>, n: &String) -> (r: bool)
    ensures
        r == strs_view(names@).contains(n@),
{
    let ghost nv = strs_view(names@);
    let mut i: usize = 0;
    while i < names.len()
        invariant
            0 <= i <= names.len(),
            nv == strs_view(names@),
            nv.len() == names@.len(),
            forall|j: int| 0 <= j < i ==> nv[j] != n@,
        decreases names.len() - i,
    {
        if names[i].eq(n) {
            proof {
                assert(nv[i as int] == n@);
            }
            return true;
        }
        i = i + 1;
    }
    proof {
        if nv.contains(n@) {
            let j = choose|j: int| 0 <= j < nv.len() && nv[j] == n@;
            assert(nv[j] != n@);
        }
    }
    false
}

fn rule_active_x(name: &str, filter: Option<&Vec<String>>) -> (r: bool)
    ensures
        r == rule_active(
            name@,
            match filter {
                Some(names) => Some(strs_view(names@)),
                None => None,
            },
        ),
{
    match filter {
        Some(names) => names_contain(names, &name.to_owned()),
        None => true,
    }
}

/// Runs the catalog (or the named subset of it) over one document and
/// returns each finding as a (rule name, message) pair, in catalog order.
#[verifier::rlimit(60)]
pub fn lint(doc: &Node, filter: Option<&Vec<String>>) -> (r: Vec<(String, String)>)
    ensures
        pairs_view(r@) == lint_v(
            node_view(*doc),
            match filter {
                Some(names) => Some(strs_view(names@)),
                None => None,
            },
        ),
{
    let ghost d = node_view(*doc);
    let ghost fv: Option<Seq<Seq<char>>> = match filter {
        Some(names) => Some(strs_view(names@)),
        None => None,
    };
    let mut out: Vec<(String, String)> = Vec::new();
    assert(pairs_view(out@) =~= Seq::empty());
    if rule_active_x("missing-labels", filter) {
        if let Some(m) = (MissingLabelsRule).check(doc) {
            out.push(("missing-labels".to_owned(), m));
        }
    }
    assert(pairs_view(out@) =~= lint_entry("missing-labels"@, missing_labels_rule_v(d), fv));
    let ghost p1 = pairs_view(out@);
    if rule_active_x("resource-limits", filter) {
        if let Some(m) = (ResourceLimitsRule).check(doc) {
            out.push(("resource-limits".to_owned(), m));
        }
    }
    assert(pairs_view(out@) =~= p1 + lint_entry("resource-limits"@, resource_limits_rule_v(d), fv));
    let ghost p2 = pairs_view(out@);
    if rule_active_x("liveness-probe", filter) {
        if let Some(m) = (LivenessProbeRule).check(doc) {
            out.push(("liveness-probe".to_owned(), m));
        }
    }
    assert(pairs_view(out@) =~= p2 + lint_entry("liveness-probe"@, liveness_probe_rule_v(d), fv));
    let ghost p3 = pairs_view(out@);
    if rule_active_x("readiness-probe", filter) {
        if let Some(m) = (ReadinessProbeRule).check(doc) {
            out.push(("readiness-probe".to_owned(), m));
        }
    }
    assert(pairs_view(out@) =~= p3 + lint_entry("readiness-probe"@, readiness_probe_rule_v(d), fv));
    let ghost p4 = pairs_view(out@);
    if rule_active_x("run-as-non-root", filter) {
        if let Some(m) = (RunAsNonRootRule).check(doc) {
            out.push(("run-as-non-root".to_owned(), m));
        }
    }
    assert(pairs_view(out@) =~= p4 + lint_entry("run-as-non-root"@, run_as_non_root_rule_v(d), fv));
    let ghost p5 = pairs_view(out@);
    if rule_active_x("read-only-root-filesystem", filter) {
        if let Some(m) = (ReadOnlyRootFilesystemRule).check(doc) {
            out.push(("read-only-root-filesystem".to_owned(), m));
        }
    }
    assert(pairs_view(out@) =~= p5 + lint_entry(
        "read-only-root-filesystem"@,
        read_only_root_rule_v(d),
        fv,
    ));
    let ghost p6 = pairs_view(out@);
    if rule_active_x("latest-image-tag", filter) {
        if let Some(m) = (LatestImageTagRule).check(doc) {
            out.push(("latest-image-tag".to_owned(), m));
        }
    }
    assert(pairs_view(out@) =~= p6 + lint_entry("latest-image-tag"@, latest_image_tag_rule_v(d), fv));
    assert(pairs_view(out@) =~= lint_v(d, fv));
    out
}


} // verus!
