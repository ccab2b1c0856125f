//! `svn status --xml`, read. The XML parser turns the output into a flat
//! list of nodes; which `<entry>` says what is read from that list here.

use vstd::prelude::*;

use crate::sorting::same_text;

use super::{RawStatus, raw_view, status_entries, status_entry_of, StatusEntry, SvnError};

verus! {

broadcast use vstd::string::group_string_axioms;

/// One node of a parsed XML document, in document order: the index of its
/// parent node (the document node itself has none), whether it is an
/// element, its local tag name (empty for other nodes), and its attributes
/// as local name and value, in document order.
pub struct XmlNode {
    pub parent: Option<usize>,
    pub element: bool,
    pub tag: String,
    pub attributes: Vec<(String, String)>,
}

/// A node's plain values.
pub open spec fn node_view(n: XmlNode) -> (Option<usize>, bool, Seq<char>, Seq<(Seq<char>, Seq<char>)>) {
    (n.parent, n.element, n.tag@, n.attributes@.map_values(|a: (String, String)| (a.0@, a.1@)))
}

/// The nodes of a list, as plain values.
pub open spec fn nodes_view(ns: Seq<XmlNode>) -> Seq<(Option<usize>, bool, Seq<char>, Seq<(Seq<char>, Seq<char>)>)> {
    ns.map_values(|n: XmlNode| node_view(n))
}

/// What the XML parser makes of a text: the nodes of the document in
/// document order (as `parse_xml` lists them), or the parser's message.
pub uninterp spec fn xml_document(xml: Seq<char>) -> Result<
    Seq<(Option<usize>, bool, Seq<char>, Seq<(Seq<char>, Seq<char>)>)>,
    Seq<char>,
>;

/// Parses `xml` with `roxmltree::Document::parse` and lists every node of
/// the document in document order (the document node first, so a node's
/// index is its `NodeId`), each with its parent's index, whether it is an
/// element, its local tag name and its attributes by local name; or the
/// parser's error message. What it returns is named, not stated: it is
/// whatever `roxmltree` makes of the text.
#[verifier::external_body]
fn parse_xml(xml: &str) -> (r: Result<Vec<XmlNode>, String>)
    ensures
        match xml_document(xml@) {
            Ok(ns) => r matches Ok(nodes) && nodes_view(nodes@) == ns,
            Err(m) => r matches Err(e) && e@ == m,
        },
{
    match roxmltree::Document::parse(xml) {
        Ok(doc) => Ok(doc.descendants().map(|n| XmlNode {
            parent: n.parent().map(|p| p.id().get_usize()),
            element: n.is_element(),
            tag: n.tag_name().name().to_owned(),
            attributes: n.attributes().map(|a| (a.name().to_owned(), a.value().to_owned())).collect(),
        }).collect()),
        Err(e) => Err(e.to_string()),
    }
}

/// The value of the first attribute called `name`.
pub open spec fn attribute_of(attrs: Seq<(Seq<char>, Seq<char>)>, name: Seq<char>) -> Option<Seq<char>>
    decreases attrs.len(),
{
    if attrs.len() == 0 {
        None
    } else if attrs[0].0 == name {
        Some(attrs[0].1)
    } else {
        attribute_of(attrs.skip(1), name)
    }
}

/// Whether node `j` is an element child of node `p` tagged `tag`.
pub open spec fn child_tagged(
    ns: Seq<(Option<usize>, bool, Seq<char>, Seq<(Seq<char>, Seq<char>)>)>,
    j: int,
    p: int,
    tag: Seq<char>,
) -> bool {
    ns[j].0 == Some(p as usize) && ns[j].1 && ns[j].2 == tag
}

/// The first of the first `k` nodes that is an element child of `p` tagged `tag`.
pub open spec fn first_child(
    ns: Seq<(Option<usize>, bool, Seq<char>, Seq<(Seq<char>, Seq<char>)>)>,
    p: int,
    tag: Seq<char>,
    k: int,
) -> Option<int>
    decreases k,
{
    if k <= 0 {
        None
    } else {
        match first_child(ns, p, tag, k - 1) {
            Some(j) => Some(j),
            None => if child_tagged(ns, k - 1, p, tag) {
                Some(k - 1)
            } else {
                None
            },
        }
    }
}

/// An attribute of the first child of `p` tagged `tag`, if both exist.
pub open spec fn child_attribute(
    ns: Seq<(Option<usize>, bool, Seq<char>, Seq<(Seq<char>, Seq<char>)>)>,
    p: int,
    tag: Seq<char>,
    name: Seq<char>,
) -> Option<Seq<char>> {
    match first_child(ns, p, tag, ns.len() as int) {
        Some(j) => attribute_of(ns[j].3, name),
        None => None,
    }
}

/// What node `i` says as an `<entry>`: its `path`, and the attributes of
/// its `wc-status` and `repos-status` children; `None` unless it is an
/// `entry` element with a `path`.
pub open spec fn entry_at(ns: Seq<(Option<usize>, bool, Seq<char>, Seq<(Seq<char>, Seq<char>)>)>, i: int) -> Option<
    (Seq<char>, Option<Seq<char>>, Option<Seq<char>>, Option<Seq<char>>, Option<Seq<char>>, Option<Seq<char>>),
> {
    if ns[i].1 && ns[i].2 == "entry"@ {
        match attribute_of(ns[i].3, "path"@) {
            Some(path) => Some(
                (
                    path,
                    child_attribute(ns, i, "wc-status"@, "item"@),
                    child_attribute(ns, i, "wc-status"@, "props"@),
                    child_attribute(ns, i, "wc-status"@, "tree-conflicted"@),
                    child_attribute(ns, i, "repos-status"@, "item"@),
                    child_attribute(ns, i, "repos-status"@, "props"@),
                ),
            ),
            None => None,
        }
    } else {
        None
    }
}

/// The entries among the first `k` nodes, in document order.
pub open spec fn entries_in(ns: Seq<(Option<usize>, bool, Seq<char>, Seq<(Seq<char>, Seq<char>)>)>, k: int) -> Seq<
    (Seq<char>, Option<Seq<char>>, Option<Seq<char>>, Option<Seq<char>>, Option<Seq<char>>, Option<Seq<char>>),
>
    decreases k,
{
    if k <= 0 {
        seq![]
    } else {
        match entry_at(ns, k - 1) {
            Some(e) => entries_in(ns, k - 1).push(e),
            None => entries_in(ns, k - 1),
        }
    }
}

/// The entries of a document, in document order.
pub open spec fn status_raws(ns: Seq<(Option<usize>, bool, Seq<char>, Seq<(Seq<char>, Seq<char>)>)>) -> Seq<
    (Seq<char>, Option<Seq<char>>, Option<Seq<char>>, Option<Seq<char>>, Option<Seq<char>>, Option<Seq<char>>),
> {
    entries_in(ns, ns.len() as int)
}

proof fn lemma_attribute_step(attrs: Seq<(Seq<char>, Seq<char>)>, name: Seq<char>, i: int)
    requires
        0 <= i < attrs.len(),
        attribute_of(attrs.take(i), name) is None,
    ensures
        attribute_of(attrs.take(i + 1), name) == (if attrs[i].0 == name {
            Some(attrs[i].1)
        } else {
            None::<Seq<char>>
        }),
    decreases i,
{
    if i > 0 {
        assert(attrs.take(i)[0] == attrs[0]);
        assert(attrs.take(i + 1)[0] == attrs[0]);
        assert(attrs[0].0 != name);
        assert(attrs.take(i).skip(1) =~= attrs.skip(1).take(i - 1));
        assert(attrs.take(i + 1).skip(1) =~= attrs.skip(1).take(i));
        assert(attrs.skip(1)[i - 1] == attrs[i]);
        lemma_attribute_step(attrs.skip(1), name, i - 1);
    } else {
        assert(attrs.take(1)[0] == attrs[0]);
        assert(attrs.take(1).skip(1) =~= Seq::<(Seq<char>, Seq<char>)>::empty());
        assert(attribute_of(attrs.take(1).skip(1), name) is None);
    }
}

proof fn lemma_attribute_prefix(attrs: Seq<(Seq<char>, Seq<char>)>, name: Seq<char>, i: int)
    requires
        0 <= i <= attrs.len(),
        attribute_of(attrs.take(i), name) is Some,
    ensures
        attribute_of(attrs, name) == attribute_of(attrs.take(i), name),
    decreases i,
{
    assert(attrs.take(i)[0] == attrs[0]);
    if attrs[0].0 != name {
        assert(attrs.take(i).skip(1) =~= attrs.skip(1).take(i - 1));
        lemma_attribute_prefix(attrs.skip(1), name, i - 1);
    }
}

/// The value of the first attribute called `name`.
fn attribute(attrs: &Vec<(String, String)>, name: &str) -> (r: Option<String>)
    ensures
        crate::tools::opt_view(r) == attribute_of(attrs@.map_values(|a: (String, String)| (a.0@, a.1@)), name@),
{
    let ghost view = attrs@.map_values(|a: (String, String)| (a.0@, a.1@));
    let mut i: usize = 0;
    while i < attrs.len()
        invariant
            i <= attrs@.len(),
            view == attrs@.map_values(|a: (String, String)| (a.0@, a.1@)),
            attribute_of(view.take(i as int), name@) is None,
        decreases attrs@.len() - i,
    {
        proof {
            lemma_attribute_step(view, name@, i as int);
        }
        if same_text(attrs[i].0.as_str(), name) {
            proof {
                lemma_attribute_prefix(view, name@, i + 1);
            }
            return Some(attrs[i].1.clone());
        }
        i = i + 1;
    }
    proof {
        assert(view.take(attrs@.len() as int) =~= view);
    }
    None
}

/// The first child tagged `tag` of each node: one pass over the nodes.
fn first_children(nodes: &[XmlNode], tag: &str) -> (r: Vec<Option<usize>>)
    ensures
        r@.len() == nodes@.len(),
        forall|p: int|
            0 <= p < nodes@.len() ==> (match #[trigger] r@[p] {
                Some(j) => first_child(nodes_view(nodes@), p, tag@, nodes@.len() as int) == Some(j as int),
                None => first_child(nodes_view(nodes@), p, tag@, nodes@.len() as int) is None,
            }),
{
    let ghost ns = nodes_view(nodes@);
    let n = nodes.len();
    let mut r: Vec<Option<usize>> = Vec::new();
    let mut k: usize = 0;
    while k < n
        invariant
            k <= n,
            n == nodes@.len(),
            r@.len() == k,
            forall|p: int| 0 <= p < k ==> #[trigger] r@[p] is None,
        decreases n - k,
    {
        r.push(None);
        k = k + 1;
    }
    let mut j: usize = 0;
    while j < n
        invariant
            j <= n,
            n == nodes@.len(),
            ns == nodes_view(nodes@),
            r@.len() == n,
            forall|p: int|
                0 <= p < n ==> (match #[trigger] r@[p] {
                    Some(x) => first_child(ns, p, tag@, j as int) == Some(x as int),
                    None => first_child(ns, p, tag@, j as int) is None,
                }),
        decreases n - j,
    {
        let node = &nodes[j];
        let mut hit: Option<usize> = None;
        if node.element && same_text(node.tag.as_str(), tag) {
            match node.parent {
                Some(p) => {
                    if p < n {
                        if r[p].is_none() {
                            hit = Some(p);
                        }
                    }
                },
                None => {},
            }
        }
        let ghost before = r@;
        match hit {
            Some(p) => {
                r.set(p, Some(j));
            },
            None => {},
        }
        proof {
            assert(ns[j as int] == node_view(nodes@[j as int]));
            assert forall|q: int| 0 <= q < n implies (match #[trigger] r@[q] {
                Some(x) => first_child(ns, q, tag@, j + 1) == Some(x as int),
                None => first_child(ns, q, tag@, j + 1) is None,
            }) by {
                assert(before[q] == before[q]);
                if hit == Some(q as usize) {
                    assert(child_tagged(ns, j as int, q, tag@));
                } else {
                    assert(r@[q] == before[q]);
                    if before[q] is None {
                        if child_tagged(ns, j as int, q, tag@) {
                            assert(node.parent == Some(q as usize));
                            assert(r[q as int] is None);
                        }
                    }
                }
            }
        }
        j = j + 1;
    }
    r
}

/// An attribute of the node `child` points at, if any.
fn attribute_at(nodes: &[XmlNode], child: Option<usize>, name: &str) -> (r: Option<String>)
    requires
        child matches Some(j) ==> j < nodes@.len(),
    ensures
        crate::tools::opt_view(r) == (match child {
            Some(j) => attribute_of(nodes_view(nodes@)[j as int].3, name@),
            None => None,
        }),
{
    match child {
        Some(j) => attribute(&nodes[j].attributes, name),
        None => None,
    }
}

/// The `<entry>` elements of a parsed `svn status --xml` document, in
/// document order, with the attributes their status is read from.
pub fn raw_statuses(nodes: &[XmlNode]) -> (r: Vec<RawStatus>)
    ensures
        r@.map_values(|s: RawStatus| raw_view(s)) == status_raws(nodes_view(nodes@)),
{
    let ghost ns = nodes_view(nodes@);
    let n = nodes.len();
    let wc = first_children(nodes, "wc-status");
    let repos = first_children(nodes, "repos-status");
    let mut out: Vec<RawStatus> = Vec::new();
    let mut i: usize = 0;
    while i < n
        invariant
            i <= n,
            n == nodes@.len(),
            ns == nodes_view(nodes@),
            wc@.len() == n,
            repos@.len() == n,
            forall|p: int|
                0 <= p < n ==> (match #[trigger] wc@[p] {
                    Some(j) => first_child(ns, p, "wc-status"@, n as int) == Some(j as int),
                    None => first_child(ns, p, "wc-status"@, n as int) is None,
                }),
            forall|p: int|
                0 <= p < n ==> (match #[trigger] repos@[p] {
                    Some(j) => first_child(ns, p, "repos-status"@, n as int) == Some(j as int),
                    None => first_child(ns, p, "repos-status"@, n as int) is None,
                }),
            out@.map_values(|s: RawStatus| raw_view(s)) == entries_in(ns, i as int),
        decreases n - i,
    {
        let node = &nodes[i];
        proof {
            assert(ns[i as int] == node_view(nodes@[i as int]));
            assert(ns.len() == n);
        }
        if node.element && same_text(node.tag.as_str(), "entry") {
            match attribute(&node.attributes, "path") {
                Some(path) => {
                    let w = wc[i];
                    let rp = repos[i];
                    proof {
                        assert(wc@[i as int] == w);
                        assert(repos@[i as int] == rp);
                        match w {
                            Some(j) => {
                                assert(first_child(ns, i as int, "wc-status"@, n as int) == Some(j as int));
                                lemma_first_child_in(ns, i as int, "wc-status"@, n as int);
                            },
                            None => {},
                        }
                        match rp {
                            Some(j) => {
                                assert(first_child(ns, i as int, "repos-status"@, n as int) == Some(j as int));
                                lemma_first_child_in(ns, i as int, "repos-status"@, n as int);
                            },
                            None => {},
                        }
                    }
                    let raw = RawStatus {
                        path,
                        wc_item: attribute_at(nodes, w, "item"),
                        wc_props: attribute_at(nodes, w, "props"),
                        tree_conflicted: attribute_at(nodes, w, "tree-conflicted"),
                        repos_item: attribute_at(nodes, rp, "item"),
                        repos_props: attribute_at(nodes, rp, "props"),
                    };
                    let ghost before = out@;
                    out.push(raw);
                    proof {
                        assert(entry_at(ns, i as int) == Some(raw_view(raw)));
                        assert(out@.map_values(|s: RawStatus| raw_view(s)) =~= before.map_values(
                            |s: RawStatus| raw_view(s),
                        ).push(raw_view(raw)));
                    }
                },
                None => {
                    proof {
                        assert(entry_at(ns, i as int) is None);
                    }
                },
            }
        } else {
            proof {
                assert(entry_at(ns, i as int) is None);
            }
        }
        i = i + 1;
    }
    out
}

proof fn lemma_first_child_in(
    ns: Seq<(Option<usize>, bool, Seq<char>, Seq<(Seq<char>, Seq<char>)>)>,
    p: int,
    tag: Seq<char>,
    k: int,
)
    ensures
        first_child(ns, p, tag, k) matches Some(j) ==> 0 <= j < k,
    decreases k,
{
    if k > 0 {
        lemma_first_child_in(ns, p, tag, k - 1);
    }
}

/// Reads `svn status --xml` output: each `<entry>`'s status, in document
/// order, with paths relative to `wc_root`. Output the XML parser rejects
/// is a parse error carrying the parser's message.
pub fn parse_status(xml: &str, wc_root: &str) -> (r: Result<Vec<StatusEntry>, SvnError>)
    ensures
        match xml_document(xml@) {
            Err(m) => r matches Err(SvnError::Parse { detail }) && detail@ == m,
            Ok(ns) => r matches Ok(es) && es@.len() == status_raws(ns).len() && forall|i: int|
                0 <= i < es@.len() ==> ((#[trigger] es@[i]).path@, es@[i].item, es@[i].props_only,
                    es@[i].tree_conflict, es@[i].out_of_date) == status_entry_of(status_raws(ns)[i], wc_root@),
        },
{
    match parse_xml(xml) {
        Ok(nodes) => {
            let raws = raw_statuses(nodes.as_slice());
            let entries = status_entries(raws.as_slice(), wc_root);
            proof {
                assert forall|i: int| 0 <= i < entries@.len() implies raw_view(raws@[i]) == status_raws(
                    nodes_view(nodes@),
                )[i] by {
                    assert(raws@.map_values(|s: RawStatus| raw_view(s))[i] == raw_view(raws@[i]));
                }
            }
            Ok(entries)
        },
        Err(detail) => Err(SvnError::Parse { detail }),
    }
}

} // verus!
