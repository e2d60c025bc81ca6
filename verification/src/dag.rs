//! A directed acyclic graph of dependencies. Every edge points from an
//! existing node to a newly created one, so edges always lead to strictly
//! larger ids: the graph is acyclic by construction, and walks terminate.
//! The root node always has id 0.

use vstd::prelude::*;

verus! {

/// An id referring to a node; ids are local to their graph.
#[derive(Clone, Copy, Debug, PartialEq, Eq, Structural)]
pub struct DAGNodeId(pub usize);

/// What kind of work a dependency stands for.
pub enum DependencyType {
    /// A CSS style chunk.
    StyleChunk,
    /// A markdown page.
    Page,
    /// An image.
    Image {
        /// Whether the image needs to be converted to WebP.
        needs_reprocessing: bool,
    },
}

/// A dependency: an input path and its kind.
pub struct Dependency {
    /// The input path of the dependency.
    pub path: String,
    /// The type of dependency.
    pub ty: DependencyType,
}

/// The dependency graph.
pub struct DependencyDAG {
    /// The nodes in this graph.
    nodes: Vec<Dependency>,
    /// The edges between the nodes, directional, indexed by source node:
    /// `edges[i]` holds the targets of node `i`'s edges.
    edges: Vec<Vec<DAGNodeId>>,
}

/// Every edge leads from a node to a strictly larger, existing node.
pub open spec fn edges_ascending(edges: Seq<Seq<DAGNodeId>>, n: int) -> bool {
    forall|i: int, k: int|
        0 <= i < edges.len() && 0 <= k < edges[i].len() ==> i < #[trigger] edges[i][k].0 < n
}

/// The nodes visited from `node`: the node itself, then, for each of its
/// edges in order, the target's own walk. A node is repeated only when it
/// is reachable along several paths — once per path.
pub open spec fn walk_spec(edges: Seq<Seq<DAGNodeId>>, node: int) -> Seq<int>
    decreases edges.len() - node, 1int, 0int,
{
    if 0 <= node < edges.len() {
        seq![node] + walk_deps(edges, node, 0)
    } else {
        seq![node]
    }
}

/// The visits contributed by `edges[node][k..]`.
pub open spec fn walk_deps(edges: Seq<Seq<DAGNodeId>>, node: int, k: int) -> Seq<int>
    decreases edges.len() - node, 0int, edges[node].len() - k,
{
    if 0 <= node < edges.len() && 0 <= k < edges[node].len() {
        let dep = edges[node][k].0 as int;
        if node < dep < edges.len() {
            walk_spec(edges, dep) + walk_deps(edges, node, k + 1)
        } else {
            walk_deps(edges, node, k + 1)
        }
    } else {
        Seq::<int>::empty()
    }
}

impl DependencyDAG {
    /// The graph's nodes.
    pub closed spec fn nodes_seq(&self) -> Seq<Dependency> {
        self.nodes@
    }

    /// The graph's edges, by source node.
    pub closed spec fn edges_seq(&self) -> Seq<Seq<DAGNodeId>> {
        self.edges@.map_values(|v: Vec<DAGNodeId>| v@)
    }

    /// Well-formed: one edge list per node, every edge ascending.
    pub open spec fn wf(&self) -> bool {
        &&& self.edges_seq().len() == self.nodes_seq().len()
        &&& edges_ascending(self.edges_seq(), self.nodes_seq().len() as int)
    }

    /// Creates a new graph holding only the root.
    pub fn new(root: Dependency) -> (d: DependencyDAG)
        ensures
            d.wf(),
            d.nodes_seq().len() == 1,
            d.nodes_seq()[0] == root,
            d.edges_seq()[0].len() == 0,
    {
        let mut nodes: Vec<Dependency> = Vec::new();
        nodes.push(root);
        let mut edges: Vec<Vec<DAGNodeId>> = Vec::new();
        edges.push(Vec::new());
        let d = DependencyDAG { nodes, edges };
        proof {
            assert(d.edges_seq() =~= seq![Seq::<DAGNodeId>::empty()]);
        }
        d
    }

    /// Adds a new dependency under `from`. This can never create a cycle,
    /// because the dependency gets a node of its own, larger than every
    /// existing id.
    pub fn add_dependency(&mut self, from: DAGNodeId, dep: Dependency) -> (new_id: DAGNodeId)
        requires
            old(self).wf(),
            from.0 < old(self).nodes_seq().len(),
        ensures
            final(self).wf(),
            new_id.0 == old(self).nodes_seq().len(),
            final(self).nodes_seq() == old(self).nodes_seq().push(dep),
            final(self).edges_seq()[from.0 as int] == old(self).edges_seq()[from.0 as int].push(
                new_id,
            ),
            forall|i: int|
                0 <= i < old(self).edges_seq().len() && i != from.0 ==> final(self).edges_seq()[i]
                    == old(self).edges_seq()[i],
            final(self).edges_seq().len() == old(self).edges_seq().len() + 1,
    {
        let new_id = DAGNodeId(self.nodes.len());
        self.nodes.push(dep);
        self.edges.push(Vec::new());
        let ghost mid = self.edges@.map_values(|v: Vec<DAGNodeId>| v@);
        let mut list = self.edges.remove(from.0);
        list.push(new_id);
        self.edges.insert(from.0, list);
        proof {
            assert(final(self).edges_seq() =~= mid.update(
                from.0 as int,
                mid[from.0 as int].push(new_id),
            ));
            assert(final(self).nodes_seq() == old(self).nodes_seq().push(dep));
            assert(final(self).edges_seq()[from.0 as int] =~= old(self).edges_seq()[
                from.0 as int].push(new_id));
            let es2 = final(self).edges_seq();
            let n2 = final(self).nodes_seq().len() as int;
            assert forall|i: int, k: int|
                0 <= i < es2.len() && 0 <= k < es2[i].len() implies i < #[trigger] es2[i][k].0
                < n2 by {
                if i == from.0 as int && k == es2[i].len() - 1 {
                } else if i < old(self).edges_seq().len() {
                    assert(es2[i][k] == old(self).edges_seq()[i][k]);
                }
            }
        }
        new_id
    }

    /// Walks the graph from the given node, as `walk_spec` describes;
    /// nodes may be visited more than once when several nodes depend on
    /// them.
    pub fn walk(&self, node: DAGNodeId) -> (r: Vec<DAGNodeId>)
        requires
            self.wf(),
            node.0 < self.nodes_seq().len(),
        ensures
            r@.map_values(|d: DAGNodeId| d.0 as int) == walk_spec(
                self.edges_seq(),
                node.0 as int,
            ),
        decreases self.nodes_seq().len() - node.0,
    {
        let mut r: Vec<DAGNodeId> = Vec::new();
        r.push(node);
        proof {
            assert(r@.map_values(|d: DAGNodeId| d.0 as int) =~= seq![node.0 as int]);
        }
        let deps_len = self.edges[node.0].len();
        let mut k: usize = 0;
        proof {
            assert(self.edges_seq()[node.0 as int] == self.edges@[node.0 as int]@);
        }
        while k < deps_len
            invariant
                self.wf(),
                node.0 < self.nodes_seq().len(),
                k <= deps_len,
                deps_len == self.edges_seq()[node.0 as int].len(),
                r@.map_values(|d: DAGNodeId| d.0 as int) + walk_deps(
                    self.edges_seq(),
                    node.0 as int,
                    k as int,
                ) == walk_spec(self.edges_seq(), node.0 as int),
            decreases deps_len - k,
        {
            let dep = self.edges[node.0][k];
            proof {
                assert(self.edges_seq()[node.0 as int][k as int] == dep);
                assert(node.0 < dep.0 < self.nodes_seq().len());
            }
            let ghost r0 = r@.map_values(|d: DAGNodeId| d.0 as int);
            let sub = self.walk(dep);
            let mut si: usize = 0;
            let ghost subv = sub@.map_values(|d: DAGNodeId| d.0 as int);
            while si < sub.len()
                invariant
                    si <= sub@.len(),
                    subv == sub@.map_values(|d: DAGNodeId| d.0 as int),
                    r@.map_values(|d: DAGNodeId| d.0 as int) =~= r0 + subv.subrange(
                        0,
                        si as int,
                    ),
                decreases sub@.len() - si,
            {
                let ghost rb = r@.map_values(|d: DAGNodeId| d.0 as int);
                let x = sub[si];
                r.push(x);
                proof {
                    assert(r@.map_values(|d: DAGNodeId| d.0 as int) =~= rb.push(
                        subv[si as int],
                    ));
                }
                si = si + 1;
            }
            proof {
                assert(subv.subrange(0, subv.len() as int) =~= subv);
                assert(r@.map_values(|d: DAGNodeId| d.0 as int) + walk_deps(
                    self.edges_seq(),
                    node.0 as int,
                    k + 1,
                ) =~= r0 + walk_deps(self.edges_seq(), node.0 as int, k as int));
            }
            k = k + 1;
        }
        proof {
            assert(walk_deps(self.edges_seq(), node.0 as int, deps_len as int)
                == Seq::<int>::empty());
            assert(r@.map_values(|d: DAGNodeId| d.0 as int) =~= r@.map_values(
                |d: DAGNodeId| d.0 as int,
            ) + Seq::<int>::empty());
        }
        r
    }

    /// Destructively walks the graph from the root, visiting every node
    /// exactly once and handing the dependencies out in id order — the
    /// root first, and each node after the node it was attached under,
    /// since edges only lead to larger ids.
    pub fn destructive_walk(self) -> (r: Vec<Dependency>)
        requires
            self.wf(),
        ensures
            r@ == self.nodes_seq(),
    {
        self.nodes
    }

    /// The node a given id refers to.
    pub fn get(&self, id: DAGNodeId) -> (r: &Dependency)
        requires
            self.wf(),
            id.0 < self.nodes_seq().len(),
        ensures
            *r == self.nodes_seq()[id.0 as int],
    {
        &self.nodes[id.0]
    }
}

} // verus!
