//! The graph document: an arena of nodes, input ports, output ports and connections,
//! addressed by integer handles.
use vstd::prelude::*;

use crate::nodes::MyNodeData;
use crate::types::{MyDataType, MyValueType};

verus! {

/// Handle of a node: its index in `Graph::nodes`.
pub type NodeId = usize;

/// Handle of an input port: its index in `Graph::inputs`.
pub type InputId = usize;

/// Handle of an output port: its index in `Graph::outputs`.
pub type OutputId = usize;

/// Whether an input takes a connection, an inline constant, or either.
#[derive(Clone, Copy, Debug, PartialEq, Eq, Structural)]
pub enum InputParamKind {
    ConnectionOnly,
    ConstantOnly,
    ConnectionOrConstant,
}

impl InputParamKind {
    /// Whether an input of this kind offers an editor for its inline value.
    pub fn shows_inline_value(&self) -> (r: bool)
        ensures
            r == !(*self is ConnectionOnly),
    {
        !matches!(self, InputParamKind::ConnectionOnly)
    }
}

pub struct InputParam {
    pub node: NodeId,
    pub name: String,
    pub typ: MyDataType,
    pub value: MyValueType,
    pub kind: InputParamKind,
}

pub struct OutputParam {
    pub node: NodeId,
    pub name: String,
    pub typ: MyDataType,
}

/// A node with its ports, in declaration order.
pub struct Node {
    pub label: String,
    pub user_data: MyNodeData,
    pub inputs: Vec<InputId>,
    pub outputs: Vec<OutputId>,
}

/// A graph document. `connections[i]` is the output that feeds input `i`, if any, so an
/// input has at most one incoming connection while an output may feed many inputs.
pub struct Graph {
    pub nodes: Vec<Node>,
    pub inputs: Vec<InputParam>,
    pub outputs: Vec<OutputParam>,
    pub connections: Vec<Option<OutputId>>,
}

/// Whether `id` occurs in `ids`.
pub fn contains_id(ids: &Vec<usize>, id: usize) -> (r: bool)
    ensures
        r == ids@.contains(id),
{
    let mut k: usize = 0;
    while k < ids.len()
        invariant
            k <= ids.len(),
            forall|j: int| 0 <= j < k ==> ids@[j] != id,
        decreases ids.len() - k,
    {
        if ids[k] == id {
            return true;
        }
        k += 1;
    }
    false
}

impl Graph {
    /// Input `i` is listed among its owner's inputs.
    pub open spec fn input_attached(&self, i: int) -> bool {
        self.nodes@[self.inputs@[i].node as int].inputs@.contains(i as usize)
    }

    /// Output `o` is listed among its owner's outputs.
    pub open spec fn output_attached(&self, o: int) -> bool {
        self.nodes@[self.outputs@[o].node as int].outputs@.contains(o as usize)
    }

    /// Every handle is in range, a node lists only ports it owns, and every connection joins
    /// an existing output to an input, both listed by their owners. (A port that its node no
    /// longer lists stays in the arena, unconnected.)
    pub open spec fn wf(&self) -> bool {
        &&& self.connections.len() == self.inputs.len()
        &&& forall|i: int| 0 <= i < self.inputs.len() ==> #[trigger] self.inputs@[i].node < self.nodes.len()
        &&& forall|o: int| 0 <= o < self.outputs.len() ==> #[trigger] self.outputs@[o].node < self.nodes.len()
        &&& forall|n: int, k: int| 0 <= n < self.nodes.len() && 0 <= k < self.nodes@[n].inputs.len()
            ==> {
            &&& #[trigger] self.nodes@[n].inputs@[k] < self.inputs.len()
            &&& self.inputs@[self.nodes@[n].inputs@[k] as int].node == n
        }
        &&& forall|n: int, k: int| 0 <= n < self.nodes.len() && 0 <= k < self.nodes@[n].outputs.len()
            ==> {
            &&& #[trigger] self.nodes@[n].outputs@[k] < self.outputs.len()
            &&& self.outputs@[self.nodes@[n].outputs@[k] as int].node == n
        }
        &&& forall|i: int| 0 <= i < self.connections.len() && (#[trigger] self.connections@[i]).is_some()
            ==> {
            &&& self.connections@[i].unwrap() < self.outputs.len()
            &&& self.input_attached(i)
            &&& self.output_attached(self.connections@[i].unwrap() as int)
        }
    }

    /// Checks `wf`.
    pub fn is_well_formed(&self) -> (r: bool)
        ensures
            r == self.wf(),
    {
        if self.connections.len() != self.inputs.len() {
            return false;
        }
        let mut i: usize = 0;
        while i < self.inputs.len()
            invariant
                i <= self.inputs.len(),
                forall|j: int| 0 <= j < i ==> #[trigger] self.inputs@[j].node < self.nodes.len(),
            decreases self.inputs.len() - i,
        {
            if self.inputs[i].node >= self.nodes.len() {
                return false;
            }
            i += 1;
        }
        let mut o: usize = 0;
        while o < self.outputs.len()
            invariant
                o <= self.outputs.len(),
                forall|j: int| 0 <= j < o ==> #[trigger] self.outputs@[j].node < self.nodes.len(),
            decreases self.outputs.len() - o,
        {
            if self.outputs[o].node >= self.nodes.len() {
                return false;
            }
            o += 1;
        }
        let mut n: usize = 0;
        while n < self.nodes.len()
            invariant
                n <= self.nodes.len(),
                forall|m: int, k: int| 0 <= m < n && 0 <= k < self.nodes@[m].inputs.len() ==> {
                    &&& #[trigger] self.nodes@[m].inputs@[k] < self.inputs.len()
                    &&& self.inputs@[self.nodes@[m].inputs@[k] as int].node == m
                },
                forall|m: int, k: int| 0 <= m < n && 0 <= k < self.nodes@[m].outputs.len() ==> {
                    &&& #[trigger] self.nodes@[m].outputs@[k] < self.outputs.len()
                    &&& self.outputs@[self.nodes@[m].outputs@[k] as int].node == m
                },
            decreases self.nodes.len() - n,
        {
            let node = &self.nodes[n];
            let mut k: usize = 0;
            while k < node.inputs.len()
                invariant
                    k <= node.inputs.len(),
                    n < self.nodes.len(),
                    *node == self.nodes@[n as int],
                    forall|j: int| 0 <= j < k ==> {
                        &&& #[trigger] node.inputs@[j] < self.inputs.len()
                        &&& self.inputs@[node.inputs@[j] as int].node == n
                    },
                decreases node.inputs.len() - k,
            {
                let i = node.inputs[k];
                if i >= self.inputs.len() || self.inputs[i].node != n {
                    assert(self.nodes@[n as int].inputs@[k as int] == i);
                    return false;
                }
                k += 1;
            }
            let mut k: usize = 0;
            while k < node.outputs.len()
                invariant
                    k <= node.outputs.len(),
                    n < self.nodes.len(),
                    *node == self.nodes@[n as int],
                    forall|j: int| 0 <= j < k ==> {
                        &&& #[trigger] node.outputs@[j] < self.outputs.len()
                        &&& self.outputs@[node.outputs@[j] as int].node == n
                    },
                decreases node.outputs.len() - k,
            {
                let o = node.outputs[k];
                if o >= self.outputs.len() || self.outputs[o].node != n {
                    assert(self.nodes@[n as int].outputs@[k as int] == o);
                    return false;
                }
                k += 1;
            }
            n += 1;
        }
        let mut i: usize = 0;
        while i < self.connections.len()
            invariant
                i <= self.connections.len(),
                self.connections.len() == self.inputs.len(),
                forall|j: int| 0 <= j < self.inputs.len() ==> #[trigger] self.inputs@[j].node < self.nodes.len(),
                forall|j: int| 0 <= j < self.outputs.len() ==> #[trigger] self.outputs@[j].node < self.nodes.len(),
                forall|j: int| 0 <= j < i && (#[trigger] self.connections@[j]).is_some() ==> {
                    &&& self.connections@[j].unwrap() < self.outputs.len()
                    &&& self.input_attached(j)
                    &&& self.output_attached(self.connections@[j].unwrap() as int)
                },
            decreases self.connections.len() - i,
        {
            if let Some(o) = self.connections[i] {
                if o >= self.outputs.len() || !contains_id(&self.nodes[self.inputs[i].node].inputs, i)
                    || !contains_id(&self.nodes[self.outputs[o].node].outputs, o) {
                    return false;
                }
            }
            i += 1;
        }
        true
    }

    /// An empty graph.
    pub fn new() -> (r: Graph)
        ensures
            r.wf(),
            r.nodes.len() == 0,
            r.inputs.len() == 0,
            r.outputs.len() == 0,
    {
        Graph { nodes: Vec::new(), inputs: Vec::new(), outputs: Vec::new(), connections: Vec::new() }
    }

    /// Adds a node without ports and returns its handle.
    pub fn add_node(&mut self, label: String, user_data: MyNodeData) -> (r: NodeId)
        requires
            old(self).wf(),
            old(self).nodes.len() < usize::MAX,
        ensures
            final(self).wf(),
            r == old(self).nodes.len(),
            final(self).nodes.len() == old(self).nodes.len() + 1,
            forall|n: int| 0 <= n < r ==> #[trigger] final(self).nodes@[n] == old(self).nodes@[n],
            final(self).nodes@[r as int].user_data == user_data,
            final(self).nodes@[r as int].label@ == label@,
            final(self).nodes@[r as int].inputs@.len() == 0,
            final(self).nodes@[r as int].outputs@.len() == 0,
            final(self).inputs@ == old(self).inputs@,
            final(self).outputs@ == old(self).outputs@,
            final(self).connections@ == old(self).connections@,
    {
        let r = self.nodes.len();
        self.nodes.push(Node { label, user_data, inputs: Vec::new(), outputs: Vec::new() });
        proof {
            assert forall|i: int| 0 <= i < self.connections.len() && (#[trigger] self.connections@[i]).is_some() implies {
                &&& self.connections@[i].unwrap() < self.outputs.len()
                &&& self.input_attached(i)
                &&& self.output_attached(self.connections@[i].unwrap() as int)
            } by {
                assert(old(self).input_attached(i));
                assert(old(self).output_attached(self.connections@[i].unwrap() as int));
            }
        }
        r
    }

    /// Adds an input port at the end of `node`'s inputs, unconnected, and returns its handle.
    pub fn add_input_param(
        &mut self,
        node: NodeId,
        name: String,
        typ: MyDataType,
        value: MyValueType,
        kind: InputParamKind,
    ) -> (r: InputId)
        requires
            old(self).wf(),
            node < old(self).nodes.len(),
            old(self).inputs.len() < usize::MAX,
        ensures
            final(self).wf(),
            r == old(self).inputs.len(),
            final(self).inputs@ == old(self).inputs@.push(final(self).inputs@[r as int]),
            final(self).inputs@[r as int].node == node,
            final(self).inputs@[r as int].name@ == name@,
            final(self).inputs@[r as int].typ == typ,
            final(self).inputs@[r as int].value == value,
            final(self).inputs@[r as int].kind == kind,
            final(self).connections@ == old(self).connections@.push(None),
            final(self).outputs@ == old(self).outputs@,
            final(self).nodes.len() == old(self).nodes.len(),
            forall|n: int| 0 <= n < final(self).nodes.len() && n != node ==>
                #[trigger] final(self).nodes@[n] == old(self).nodes@[n],
            final(self).nodes@[node as int].inputs@ == old(self).nodes@[node as int].inputs@.push(r),
            final(self).nodes@[node as int].outputs@ == old(self).nodes@[node as int].outputs@,
            final(self).nodes@[node as int].user_data == old(self).nodes@[node as int].user_data,
            final(self).nodes@[node as int].label@ == old(self).nodes@[node as int].label@,
    {
        let r = self.inputs.len();
        self.inputs.push(InputParam { node, name, typ, value, kind });
        self.connections.push(None);
        let mut n = self.nodes.remove(node);
        n.inputs.push(r);
        self.nodes.insert(node, n);
        proof {
            let on = old(self).nodes@;
            assert(self.nodes@ =~= on.update(node as int, self.nodes@[node as int]));
            assert forall|m: int, k: int| 0 <= m < self.nodes.len() && 0 <= k < self.nodes@[m].inputs.len()
                implies #[trigger] self.nodes@[m].inputs@[k] < self.inputs.len()
                && self.inputs@[self.nodes@[m].inputs@[k] as int].node == m by {
                if m == node && k == on[m].inputs.len() {
                } else {
                    assert(on[m].inputs@[k] < old(self).inputs.len());
                }
            }
            assert forall|m: int, k: int| 0 <= m < self.nodes.len() && 0 <= k < self.nodes@[m].outputs.len()
                implies #[trigger] self.nodes@[m].outputs@[k] < self.outputs.len()
                && self.outputs@[self.nodes@[m].outputs@[k] as int].node == m by {
                assert(on[m].outputs@[k] < old(self).outputs.len());
            }
            assert forall|i: int| 0 <= i < self.connections.len() && (#[trigger] self.connections@[i]).is_some() implies {
                &&& self.connections@[i].unwrap() < self.outputs.len()
                &&& self.input_attached(i)
                &&& self.output_attached(self.connections@[i].unwrap() as int)
            } by {
                assert(i < r);
                assert(old(self).connections@[i].is_some());
                assert(old(self).input_attached(i));
                assert(old(self).output_attached(self.connections@[i].unwrap() as int));
                let m = old(self).inputs@[i].node as int;
                if m == node {
                    let k = choose|k: int| 0 <= k < on[m].inputs@.len() && on[m].inputs@[k] == i as usize;
                    assert(self.nodes@[m].inputs@[k] == i as usize);
                }
            }
        }
        r
    }

    /// Adds an output port at the end of `node`'s outputs and returns its handle.
    pub fn add_output_param(&mut self, node: NodeId, name: String, typ: MyDataType) -> (r: OutputId)
        requires
            old(self).wf(),
            node < old(self).nodes.len(),
            old(self).outputs.len() < usize::MAX,
        ensures
            final(self).wf(),
            r == old(self).outputs.len(),
            final(self).outputs@ == old(self).outputs@.push(final(self).outputs@[r as int]),
            final(self).outputs@[r as int].node == node,
            final(self).outputs@[r as int].name@ == name@,
            final(self).outputs@[r as int].typ == typ,
            final(self).inputs@ == old(self).inputs@,
            final(self).connections@ == old(self).connections@,
            final(self).nodes.len() == old(self).nodes.len(),
            forall|n: int| 0 <= n < final(self).nodes.len() && n != node ==>
                #[trigger] final(self).nodes@[n] == old(self).nodes@[n],
            final(self).nodes@[node as int].outputs@ == old(self).nodes@[node as int].outputs@.push(r),
            final(self).nodes@[node as int].inputs@ == old(self).nodes@[node as int].inputs@,
            final(self).nodes@[node as int].user_data == old(self).nodes@[node as int].user_data,
            final(self).nodes@[node as int].label@ == old(self).nodes@[node as int].label@,
    {
        let r = self.outputs.len();
        self.outputs.push(OutputParam { node, name, typ });
        let mut n = self.nodes.remove(node);
        n.outputs.push(r);
        self.nodes.insert(node, n);
        proof {
            let on = old(self).nodes@;
            assert(self.nodes@ =~= on.update(node as int, self.nodes@[node as int]));
            assert forall|m: int, k: int| 0 <= m < self.nodes.len() && 0 <= k < self.nodes@[m].outputs.len()
                implies #[trigger] self.nodes@[m].outputs@[k] < self.outputs.len()
                && self.outputs@[self.nodes@[m].outputs@[k] as int].node == m by {
                if m == node && k == on[m].outputs.len() {
                } else {
                    assert(on[m].outputs@[k] < old(self).outputs.len());
                }
            }
            assert forall|m: int, k: int| 0 <= m < self.nodes.len() && 0 <= k < self.nodes@[m].inputs.len()
                implies #[trigger] self.nodes@[m].inputs@[k] < self.inputs.len()
                && self.inputs@[self.nodes@[m].inputs@[k] as int].node == m by {
                assert(on[m].inputs@[k] < old(self).inputs.len());
            }
            assert forall|i: int| 0 <= i < self.connections.len() && (#[trigger] self.connections@[i]).is_some() implies {
                &&& self.connections@[i].unwrap() < self.outputs.len()
                &&& self.input_attached(i)
                &&& self.output_attached(self.connections@[i].unwrap() as int)
            } by {
                let o = self.connections@[i].unwrap() as int;
                assert(old(self).input_attached(i));
                assert(old(self).output_attached(o));
                let m = old(self).outputs@[o].node as int;
                if m == node {
                    let k = choose|k: int| 0 <= k < on[m].outputs@.len() && on[m].outputs@[k] == o as usize;
                    assert(self.nodes@[m].outputs@[k] == o as usize);
                }
            }
        }
        r
    }

    /// Connects `output` to `input`, replacing any connection the input had.
    pub fn add_connection(&mut self, output: OutputId, input: InputId)
        requires
            old(self).wf(),
            output < old(self).outputs.len(),
            input < old(self).inputs.len(),
            old(self).output_attached(output as int),
            old(self).input_attached(input as int),
        ensures
            final(self).wf(),
            final(self).connections@ == old(self).connections@.update(input as int, Some(output)),
            final(self).nodes@ == old(self).nodes@,
            final(self).inputs@ == old(self).inputs@,
            final(self).outputs@ == old(self).outputs@,
    {
        self.connections.set(input, Some(output));
        proof {
            assert forall|i: int| 0 <= i < self.connections.len() && (#[trigger] self.connections@[i]).is_some() implies {
                &&& self.connections@[i].unwrap() < self.outputs.len()
                &&& self.input_attached(i)
                &&& self.output_attached(self.connections@[i].unwrap() as int)
            } by {
                if i != input {
                    assert(old(self).connections@[i].is_some());
                }
            }
        }
    }

    /// The output that feeds `input`, if any.
    pub fn connection(&self, input: InputId) -> (r: Option<OutputId>)
        requires
            input < self.connections.len(),
        ensures
            r == self.connections@[input as int],
    {
        self.connections[input]
    }

    /// Connection `j` touches a port of `node`: its input, or the output feeding it, belongs
    /// to `node`.
    pub open spec fn touches(&self, j: int, node: NodeId) -> bool {
        self.inputs@[j].node == node || (self.connections@[j] matches Some(o) && self.outputs@[o as int].node == node)
    }

    /// Connects `output` to `input` as the editor does: the input's previous connection is
    /// replaced, and an execution output keeps no other connection than this one.
    pub fn connect(&mut self, output: OutputId, input: InputId)
        requires
            old(self).wf(),
            output < old(self).outputs.len(),
            input < old(self).inputs.len(),
            old(self).output_attached(output as int),
            old(self).input_attached(input as int),
        ensures
            final(self).wf(),
            final(self).connections.len() == old(self).connections.len(),
            final(self).connections@[input as int] == Some(output),
            forall|j: int| 0 <= j < final(self).connections.len() && j != input ==> #[trigger] final(self).connections@[j]
                == if old(self).outputs@[output as int].typ == MyDataType::Execution && old(self).connections@[j] == Some(output) {
                    None
                } else {
                    old(self).connections@[j]
                },
            final(self).nodes@ == old(self).nodes@,
            final(self).inputs@ == old(self).inputs@,
            final(self).outputs@ == old(self).outputs@,
    {
        self.add_connection(output, input);
        if self.outputs[output].typ == MyDataType::Execution {
            let ghost c1 = self.connections@;
            let mut j: usize = 0;
            while j < self.connections.len()
                invariant
                    self.wf(),
                    j <= self.connections.len(),
                    self.connections.len() == c1.len(),
                    input < c1.len(),
                    c1[input as int] == Some(output),
                    self.nodes@ == old(self).nodes@,
                    self.inputs@ == old(self).inputs@,
                    self.outputs@ == old(self).outputs@,
                    forall|q: int| 0 <= q < c1.len() ==> #[trigger] self.connections@[q] == if q < j && q != input
                        && c1[q] == Some(output) {
                        None
                    } else {
                        c1[q]
                    },
                decreases self.connections.len() - j,
            {
                if j != input && self.connections[j] == Some(output) {
                    self.clear_connection(j);
                }
                j += 1;
            }
        }
    }

    /// Removes the connection into `input`, if any.
    pub fn clear_connection(&mut self, input: InputId)
        requires
            old(self).wf(),
            input < old(self).inputs.len(),
        ensures
            final(self).wf(),
            final(self).connections@ == old(self).connections@.update(input as int, None),
            final(self).nodes@ == old(self).nodes@,
            final(self).inputs@ == old(self).inputs@,
            final(self).outputs@ == old(self).outputs@,
    {
        self.connections.set(input, None);
        proof {
            assert forall|i: int| 0 <= i < self.connections.len() && (#[trigger] self.connections@[i]).is_some() implies {
                &&& self.connections@[i].unwrap() < self.outputs.len()
                &&& self.input_attached(i)
                &&& self.output_attached(self.connections@[i].unwrap() as int)
            } by {
                assert(old(self).connections@[i].is_some());
            }
        }
    }

    /// Removes every connection that touches a port of `node`.
    pub fn disconnect_node(&mut self, node: NodeId)
        requires
            old(self).wf(),
        ensures
            final(self).wf(),
            final(self).connections.len() == old(self).connections.len(),
            forall|j: int| 0 <= j < final(self).connections.len() ==> #[trigger] final(self).connections@[j]
                == if old(self).touches(j, node) { None } else { old(self).connections@[j] },
            final(self).nodes@ == old(self).nodes@,
            final(self).inputs@ == old(self).inputs@,
            final(self).outputs@ == old(self).outputs@,
    {
        let mut j: usize = 0;
        while j < self.connections.len()
            invariant
                self.wf(),
                j <= self.connections.len(),
                self.connections.len() == old(self).connections.len(),
                self.nodes@ == old(self).nodes@,
                self.inputs@ == old(self).inputs@,
                self.outputs@ == old(self).outputs@,
                forall|q: int| 0 <= q < self.connections.len() ==> #[trigger] self.connections@[q] == if q < j && old(self).touches(q, node) {
                    None
                } else {
                    old(self).connections@[q]
                },
            decreases self.connections.len() - j,
        {
            let hit = self.inputs[j].node == node || match self.connections[j] {
                Some(o) => self.outputs[o].node == node,
                None => false,
            };
            if hit {
                self.clear_connection(j);
            }
            j += 1;
        }
    }

    /// Empties the port lists of `node`, to whose ports nothing is connected. The ports stay
    /// in the arena, detached.
    pub fn clear_ports(&mut self, node: NodeId)
        requires
            old(self).wf(),
            node < old(self).nodes.len(),
            forall|j: int| 0 <= j < old(self).connections.len() && old(self).connections@[j].is_some()
                ==> !#[trigger] old(self).touches(j, node),
        ensures
            final(self).wf(),
            final(self).nodes.len() == old(self).nodes.len(),
            forall|n: int| 0 <= n < final(self).nodes.len() && n != node ==> #[trigger] final(self).nodes@[n] == old(self).nodes@[n],
            final(self).nodes@[node as int].inputs@.len() == 0,
            final(self).nodes@[node as int].outputs@.len() == 0,
            final(self).nodes@[node as int].user_data == old(self).nodes@[node as int].user_data,
            final(self).nodes@[node as int].label@ == old(self).nodes@[node as int].label@,
            final(self).inputs@ == old(self).inputs@,
            final(self).outputs@ == old(self).outputs@,
            final(self).connections@ == old(self).connections@,
    {
        let mut n = self.nodes.remove(node);
        n.inputs = Vec::new();
        n.outputs = Vec::new();
        self.nodes.insert(node, n);
        proof {
            let on = old(self).nodes@;
            assert(self.nodes@ =~= on.update(node as int, self.nodes@[node as int]));
            assert forall|i: int| 0 <= i < self.connections.len() && (#[trigger] self.connections@[i]).is_some() implies {
                &&& self.connections@[i].unwrap() < self.outputs.len()
                &&& self.input_attached(i)
                &&& self.output_attached(self.connections@[i].unwrap() as int)
            } by {
                assert(!old(self).touches(i, node));
                assert(old(self).input_attached(i));
                assert(old(self).output_attached(self.connections@[i].unwrap() as int));
            }
            assert forall|m: int, k: int| 0 <= m < self.nodes.len() && 0 <= k < self.nodes@[m].inputs.len()
                implies #[trigger] self.nodes@[m].inputs@[k] < self.inputs.len()
                && self.inputs@[self.nodes@[m].inputs@[k] as int].node == m by {
                assert(on[m].inputs@[k] < old(self).inputs.len());
            }
            assert forall|m: int, k: int| 0 <= m < self.nodes.len() && 0 <= k < self.nodes@[m].outputs.len()
                implies #[trigger] self.nodes@[m].outputs@[k] < self.outputs.len()
                && self.outputs@[self.nodes@[m].outputs@[k] as int].node == m by {
                assert(on[m].outputs@[k] < old(self).outputs.len());
            }
        }
    }

    /// Replaces the label and the data of `node`.
    pub fn relabel_node(&mut self, node: NodeId, label: String, user_data: MyNodeData)
        requires
            old(self).wf(),
            node < old(self).nodes.len(),
        ensures
            final(self).wf(),
            final(self).nodes.len() == old(self).nodes.len(),
            forall|n: int| 0 <= n < final(self).nodes.len() && n != node ==> #[trigger] final(self).nodes@[n] == old(self).nodes@[n],
            final(self).nodes@[node as int].label@ == label@,
            final(self).nodes@[node as int].user_data == user_data,
            final(self).nodes@[node as int].inputs@ == old(self).nodes@[node as int].inputs@,
            final(self).nodes@[node as int].outputs@ == old(self).nodes@[node as int].outputs@,
            final(self).inputs@ == old(self).inputs@,
            final(self).outputs@ == old(self).outputs@,
            final(self).connections@ == old(self).connections@,
    {
        let mut n = self.nodes.remove(node);
        n.label = label;
        n.user_data = user_data;
        self.nodes.insert(node, n);
        proof {
            let on = old(self).nodes@;
            assert(self.nodes@ =~= on.update(node as int, self.nodes@[node as int]));
            assert forall|i: int| 0 <= i < self.connections.len() && (#[trigger] self.connections@[i]).is_some() implies {
                &&& self.connections@[i].unwrap() < self.outputs.len()
                &&& self.input_attached(i)
                &&& self.output_attached(self.connections@[i].unwrap() as int)
            } by {
                assert(old(self).input_attached(i));
                assert(old(self).output_attached(self.connections@[i].unwrap() as int));
            }
            assert forall|m: int, k: int| 0 <= m < self.nodes.len() && 0 <= k < self.nodes@[m].inputs.len()
                implies #[trigger] self.nodes@[m].inputs@[k] < self.inputs.len()
                && self.inputs@[self.nodes@[m].inputs@[k] as int].node == m by {
                assert(on[m].inputs@[k] < old(self).inputs.len());
            }
            assert forall|m: int, k: int| 0 <= m < self.nodes.len() && 0 <= k < self.nodes@[m].outputs.len()
                implies #[trigger] self.nodes@[m].outputs@[k] < self.outputs.len()
                && self.outputs@[self.nodes@[m].outputs@[k] as int].node == m by {
                assert(on[m].outputs@[k] < old(self).outputs.len());
            }
        }
    }
}

} // verus!
