//! Creating the ports of a new node from its kind.
use vstd::prelude::*;

use crate::functions::{FunctionId, FunctionIO, GraphFunction};
use crate::graph::{Graph, InputParam, InputParamKind, NodeId, OutputParam};
use crate::nodes::MyNodeTemplate;
use crate::types::{MyDataType, MyValueType, ValueView, VariableValue};

verus! {

/// An input port as values: name, data type, inline value and connection kind.
pub type InputSpec = (Seq<char>, MyDataType, ValueView, InputParamKind);

/// An output port as values: name and data type.
pub type OutputSpec = (Seq<char>, MyDataType);

/// The description of an input port to create.
pub type InputDesc = (String, MyDataType, MyValueType, InputParamKind);

/// The description of an output port to create.
pub type OutputDesc = (String, MyDataType);

pub open spec fn input_view(p: InputParam) -> InputSpec {
    (p.name@, p.typ, p.value@, p.kind)
}

pub open spec fn output_view(p: OutputParam) -> OutputSpec {
    (p.name@, p.typ)
}

pub open spec fn input_desc_view(d: InputDesc) -> InputSpec {
    (d.0@, d.1, d.2@, d.3)
}

pub open spec fn output_desc_view(d: OutputDesc) -> OutputSpec {
    (d.0@, d.1)
}

/// An execution input: connection only, with no value.
pub open spec fn exec_input(name: Seq<char>) -> InputSpec {
    (name, MyDataType::Execution, ValueView::Execution(Seq::empty()), InputParamKind::ConnectionOnly)
}

/// A data input that takes a connection or an inline constant.
pub open spec fn classic_input(name: Seq<char>, typ: MyDataType, v: ValueView) -> InputSpec {
    (name, typ, v, InputParamKind::ConnectionOrConstant)
}

/// The data type of a signature entry's value.
pub open spec fn data_type_of(v: VariableValue) -> MyDataType {
    match v {
        VariableValue::String(_) => MyDataType::String,
        VariableValue::Integer(_) => MyDataType::Integer,
        VariableValue::Float(_) => MyDataType::Float,
        VariableValue::Boolean(_) => MyDataType::Boolean,
        VariableValue::Execution => MyDataType::Execution,
    }
}

/// The input port of a function node for one entry of the callee's input signature; an
/// integer default is narrowed to 32 bits.
pub open spec fn signature_input(io: FunctionIO) -> InputSpec {
    match io.value {
        VariableValue::String(s) => classic_input(io.name@, MyDataType::String, ValueView::String(s@)),
        VariableValue::Integer(i) => classic_input(io.name@, MyDataType::Integer, ValueView::Integer(i as i32)),
        VariableValue::Float(t) => classic_input(io.name@, MyDataType::Float, ValueView::Float(t@)),
        VariableValue::Boolean(b) => classic_input(io.name@, MyDataType::Boolean, ValueView::Boolean(b)),
        VariableValue::Execution => exec_input(io.name@),
    }
}

pub open spec fn signature_output(io: FunctionIO) -> OutputSpec {
    (io.name@, data_type_of(io.value))
}

/// The function a node of kind `t` calls, when it names one of `fs`.
pub open spec fn callee_of(t: MyNodeTemplate, fs: Seq<GraphFunction>) -> Option<GraphFunction> {
    match t {
        MyNodeTemplate::Function(Some(f)) => if f < fs.len() { Some(fs[f as int]) } else { None },
        _ => None,
    }
}

/// The input ports of a new node of kind `t`, in order. A function node mirrors its
/// callee's input signature after its execution input, and has no port when it names no
/// function of `fs`.
pub open spec fn input_ports(t: MyNodeTemplate, fs: Seq<GraphFunction>) -> Seq<InputSpec> {
    let what_string = classic_input("What ?"@, MyDataType::String, ValueView::String(Seq::empty()));
    let what_integer = classic_input("What ?"@, MyDataType::Integer, ValueView::Integer(0));
    match t {
        MyNodeTemplate::Enter => Seq::empty(),
        MyNodeTemplate::Print => seq![exec_input(""@), what_string],
        MyNodeTemplate::Ask => seq![exec_input(""@), what_string],
        MyNodeTemplate::If => seq![exec_input(""@), classic_input(""@, MyDataType::Integer, ValueView::Integer(0))],
        MyNodeTemplate::CategoryAdd => Seq::empty(),
        MyNodeTemplate::AddNumber => seq![what_integer, what_integer],
        MyNodeTemplate::AddString => seq![what_string, what_string],
        MyNodeTemplate::Function(_) => match callee_of(t, fs) {
            Some(g) => seq![exec_input(""@)] + g.input@.map_values(|io: FunctionIO| signature_input(io)),
            None => Seq::empty(),
        },
    }
}

/// The output ports of a new node of kind `t`, in order.
pub open spec fn output_ports(t: MyNodeTemplate, fs: Seq<GraphFunction>) -> Seq<OutputSpec> {
    match t {
        MyNodeTemplate::Enter => seq![("Enter"@, MyDataType::Execution)],
        MyNodeTemplate::Print => seq![(""@, MyDataType::Execution)],
        MyNodeTemplate::Ask => seq![(""@, MyDataType::Execution), ("Answer"@, MyDataType::String)],
        MyNodeTemplate::If => seq![
            ("Continue"@, MyDataType::Execution),
            ("If"@, MyDataType::Execution),
            ("Else"@, MyDataType::Execution),
        ],
        MyNodeTemplate::CategoryAdd => Seq::empty(),
        MyNodeTemplate::AddNumber => seq![("What ?"@, MyDataType::Integer)],
        MyNodeTemplate::AddString => seq![("What ?"@, MyDataType::String)],
        MyNodeTemplate::Function(_) => match callee_of(t, fs) {
            Some(g) => seq![(""@, MyDataType::Execution)] + g.output@.map_values(|io: FunctionIO| signature_output(io)),
            None => Seq::empty(),
        },
    }
}

fn exec_in(name: &str) -> (r: InputDesc)
    ensures
        input_desc_view(r) == exec_input(name@),
{
    (String::from_str(name), MyDataType::Execution, MyValueType::Execution { value: String::new() }, InputParamKind::ConnectionOnly)
}

fn classic_in(name: &str, typ: MyDataType, value: MyValueType) -> (r: InputDesc)
    ensures
        input_desc_view(r) == classic_input(name@, typ, value@),
{
    (String::from_str(name), typ, value, InputParamKind::ConnectionOrConstant)
}

fn signature_in(io: &FunctionIO) -> (r: InputDesc)
    ensures
        input_desc_view(r) == signature_input(*io),
{
    let name = io.name.clone();
    match &io.value {
        VariableValue::String(s) => (name, MyDataType::String, MyValueType::String { value: s.clone() }, InputParamKind::ConnectionOrConstant),
        VariableValue::Integer(i) => (name, MyDataType::Integer, MyValueType::Integer { value: *i as i32 }, InputParamKind::ConnectionOrConstant),
        VariableValue::Float(t) => (name, MyDataType::Float, MyValueType::Float { text: t.clone() }, InputParamKind::ConnectionOrConstant),
        VariableValue::Boolean(b) => (name, MyDataType::Boolean, MyValueType::Boolean { value: *b }, InputParamKind::ConnectionOrConstant),
        VariableValue::Execution => (name, MyDataType::Execution, MyValueType::Execution { value: String::new() }, InputParamKind::ConnectionOnly),
    }
}

fn signature_out(io: &FunctionIO) -> (r: OutputDesc)
    ensures
        output_desc_view(r) == signature_output(*io),
{
    let typ = match &io.value {
        VariableValue::String(_) => MyDataType::String,
        VariableValue::Integer(_) => MyDataType::Integer,
        VariableValue::Float(_) => MyDataType::Float,
        VariableValue::Boolean(_) => MyDataType::Boolean,
        VariableValue::Execution => MyDataType::Execution,
    };
    (io.name.clone(), typ)
}

fn what_string() -> (r: InputDesc)
    ensures
        input_desc_view(r) == classic_input("What ?"@, MyDataType::String, ValueView::String(Seq::empty())),
{
    classic_in("What ?", MyDataType::String, MyValueType::String { value: String::new() })
}

fn what_integer() -> (r: InputDesc)
    ensures
        input_desc_view(r) == classic_input("What ?"@, MyDataType::Integer, ValueView::Integer(0)),
{
    classic_in("What ?", MyDataType::Integer, MyValueType::Integer { value: 0 })
}

impl MyNodeTemplate {
    /// The input ports a new node of this kind gets.
    pub fn input_descriptors(&self, functions: &Vec<GraphFunction>) -> (r: Vec<InputDesc>)
        ensures
            r@.map_values(|d: InputDesc| input_desc_view(d)) == input_ports(*self, functions@),
    {
        let mut r: Vec<InputDesc> = Vec::new();
        match self {
            MyNodeTemplate::Print | MyNodeTemplate::Ask => {
                r.push(exec_in(""));
                r.push(what_string());
            },
            MyNodeTemplate::If => {
                r.push(exec_in(""));
                r.push(classic_in("", MyDataType::Integer, MyValueType::Integer { value: 0 }));
            },
            MyNodeTemplate::AddNumber => {
                r.push(what_integer());
                r.push(what_integer());
            },
            MyNodeTemplate::AddString => {
                r.push(what_string());
                r.push(what_string());
            },
            MyNodeTemplate::Function(Some(f)) => {
                if *f < functions.len() {
                    r.push(exec_in(""));
                    let sig = &functions[*f].input;
                    let mut k: usize = 0;
                    while k < sig.len()
                        invariant
                            k <= sig.len(),
                            r.len() == k + 1,
                            input_desc_view(r@[0]) == exec_input(""@),
                            forall|q: int| 0 <= q < k ==> input_desc_view(#[trigger] r@[q + 1]) == signature_input(sig@[q]),
                        decreases sig.len() - k,
                    {
                        r.push(signature_in(&sig[k]));
                        k += 1;
                    }
                }
            },
            _ => {},
        }
        proof {
            let want = input_ports(*self, functions@);
            let got = r@.map_values(|d: InputDesc| input_desc_view(d));
            if let MyNodeTemplate::Function(Some(f)) = *self {
                if f < functions.len() {
                    assert forall|q: int| 0 <= q < want.len() implies got[q] == want[q] by {
                        if q > 0 {
                            assert(input_desc_view(r@[(q - 1) + 1]) == signature_input(functions@[f as int].input@[q - 1]));
                        }
                    }
                }
            }
            assert(got =~= want);
        }
        r
    }

    /// The output ports a new node of this kind gets.
    pub fn output_descriptors(&self, functions: &Vec<GraphFunction>) -> (r: Vec<OutputDesc>)
        ensures
            r@.map_values(|d: OutputDesc| output_desc_view(d)) == output_ports(*self, functions@),
    {
        let mut r: Vec<OutputDesc> = Vec::new();
        match self {
            MyNodeTemplate::Enter => {
                r.push((String::from_str("Enter"), MyDataType::Execution));
            },
            MyNodeTemplate::Print => {
                r.push((String::from_str(""), MyDataType::Execution));
            },
            MyNodeTemplate::Ask => {
                r.push((String::from_str(""), MyDataType::Execution));
                r.push((String::from_str("Answer"), MyDataType::String));
            },
            MyNodeTemplate::If => {
                r.push((String::from_str("Continue"), MyDataType::Execution));
                r.push((String::from_str("If"), MyDataType::Execution));
                r.push((String::from_str("Else"), MyDataType::Execution));
            },
            MyNodeTemplate::AddNumber => {
                r.push((String::from_str("What ?"), MyDataType::Integer));
            },
            MyNodeTemplate::AddString => {
                r.push((String::from_str("What ?"), MyDataType::String));
            },
            MyNodeTemplate::Function(Some(f)) => {
                if *f < functions.len() {
                    r.push((String::from_str(""), MyDataType::Execution));
                    let sig = &functions[*f].output;
                    let mut k: usize = 0;
                    while k < sig.len()
                        invariant
                            k <= sig.len(),
                            r.len() == k + 1,
                            output_desc_view(r@[0]) == (""@, MyDataType::Execution),
                            forall|q: int| 0 <= q < k ==> output_desc_view(#[trigger] r@[q + 1]) == signature_output(sig@[q]),
                        decreases sig.len() - k,
                    {
                        r.push(signature_out(&sig[k]));
                        k += 1;
                    }
                }
            },
            _ => {},
        }
        proof {
            let want = output_ports(*self, functions@);
            let got = r@.map_values(|d: OutputDesc| output_desc_view(d));
            if let MyNodeTemplate::Function(Some(f)) = *self {
                if f < functions.len() {
                    assert forall|q: int| 0 <= q < want.len() implies got[q] == want[q] by {
                        if q > 0 {
                            assert(output_desc_view(r@[(q - 1) + 1]) == signature_output(functions@[f as int].output@[q - 1]));
                        }
                    }
                }
            }
            assert(got =~= want);
        }
        r
    }
}

/// Adds an input port to `node` for each description, in order.
fn add_inputs(graph: &mut Graph, node: NodeId, descs: Vec<InputDesc>)
    requires
        old(graph).wf(),
        node < old(graph).nodes.len(),
        old(graph).inputs.len() + descs.len() < usize::MAX,
    ensures
        final(graph).wf(),
        final(graph).nodes.len() == old(graph).nodes.len(),
        forall|n: int| 0 <= n < final(graph).nodes.len() && n != node ==> #[trigger] final(graph).nodes@[n] == old(graph).nodes@[n],
        final(graph).nodes@[node as int].user_data == old(graph).nodes@[node as int].user_data,
        final(graph).nodes@[node as int].label@ == old(graph).nodes@[node as int].label@,
        final(graph).nodes@[node as int].outputs@ == old(graph).nodes@[node as int].outputs@,
        final(graph).nodes@[node as int].inputs@ == old(graph).nodes@[node as int].inputs@ + Seq::new(
            descs.len() as nat,
            |k: int| (old(graph).inputs.len() + k) as usize,
        ),
        final(graph).inputs.len() == old(graph).inputs.len() + descs.len(),
        final(graph).inputs@.subrange(0, old(graph).inputs.len() as int) == old(graph).inputs@,
        forall|k: int| 0 <= k < descs.len() ==> {
            &&& input_view(#[trigger] final(graph).inputs@[old(graph).inputs.len() + k]) == input_desc_view(descs@[k])
            &&& final(graph).inputs@[old(graph).inputs.len() + k].node == node
        },
        final(graph).outputs@ == old(graph).outputs@,
        final(graph).connections@ == old(graph).connections@ + Seq::new(descs.len() as nat, |k: int| None::<usize>),
{
    let ghost all = descs@;
    let ghost g0 = *graph;
    let ghost base = graph.inputs.len();
    let mut descs = descs;
    let mut k: usize = 0;
    while descs.len() > 0
        invariant
            graph.wf(),
            node < graph.nodes.len(),
            k <= all.len(),
            base == g0.inputs.len(),
            g0 == *old(graph),
            base + all.len() < usize::MAX,
            descs@ == all.subrange(k as int, all.len() as int),
            graph.nodes.len() == g0.nodes.len(),
            forall|n: int| 0 <= n < graph.nodes.len() && n != node ==> #[trigger] graph.nodes@[n] == g0.nodes@[n],
            graph.nodes@[node as int].user_data == g0.nodes@[node as int].user_data,
            graph.nodes@[node as int].label@ == g0.nodes@[node as int].label@,
            graph.nodes@[node as int].outputs@ == g0.nodes@[node as int].outputs@,
            graph.nodes@[node as int].inputs@ == g0.nodes@[node as int].inputs@ + Seq::new(k as nat, |q: int| (base + q) as usize),
            graph.inputs.len() == base + k,
            graph.inputs@.subrange(0, base as int) == g0.inputs@,
            forall|q: int| 0 <= q < k ==> {
                &&& input_view(#[trigger] graph.inputs@[base + q]) == input_desc_view(all[q])
                &&& graph.inputs@[base + q].node == node
            },
            graph.outputs@ == g0.outputs@,
            graph.connections@ == g0.connections@ + Seq::new(k as nat, |q: int| None::<usize>),
        decreases descs.len(),
    {
        let ghost before = *graph;
        let (name, typ, value, kind) = descs.remove(0);
        graph.add_input_param(node, name, typ, value, kind);
        k += 1;
        proof {
            assert(descs@ =~= all.subrange(k as int, all.len() as int));
            assert(graph.nodes@[node as int].inputs@ =~= g0.nodes@[node as int].inputs@ + Seq::new(k as nat, |q: int| (base + q) as usize));
            assert(graph.inputs@.subrange(0, base as int) =~= g0.inputs@) by {
                assert(graph.inputs@.subrange(0, base as int) =~= before.inputs@.subrange(0, base as int));
            }
            assert forall|q: int| 0 <= q < k implies {
                &&& input_view(#[trigger] graph.inputs@[base + q]) == input_desc_view(all[q])
                &&& graph.inputs@[base + q].node == node
            } by {
                if q < k - 1 {
                    assert(graph.inputs@[base + q] == before.inputs@[base + q]);
                }
            }
            assert(graph.connections@ =~= g0.connections@ + Seq::new(k as nat, |q: int| None::<usize>));
        }
    }
    proof {
        assert(k == all.len());
    }
}

/// Adds an output port to `node` for each description, in order.
fn add_outputs(graph: &mut Graph, node: NodeId, descs: Vec<OutputDesc>)
    requires
        old(graph).wf(),
        node < old(graph).nodes.len(),
        old(graph).outputs.len() + descs.len() < usize::MAX,
    ensures
        final(graph).wf(),
        final(graph).nodes.len() == old(graph).nodes.len(),
        forall|n: int| 0 <= n < final(graph).nodes.len() && n != node ==> #[trigger] final(graph).nodes@[n] == old(graph).nodes@[n],
        final(graph).nodes@[node as int].user_data == old(graph).nodes@[node as int].user_data,
        final(graph).nodes@[node as int].label@ == old(graph).nodes@[node as int].label@,
        final(graph).nodes@[node as int].inputs@ == old(graph).nodes@[node as int].inputs@,
        final(graph).nodes@[node as int].outputs@ == old(graph).nodes@[node as int].outputs@ + Seq::new(
            descs.len() as nat,
            |k: int| (old(graph).outputs.len() + k) as usize,
        ),
        final(graph).outputs.len() == old(graph).outputs.len() + descs.len(),
        final(graph).outputs@.subrange(0, old(graph).outputs.len() as int) == old(graph).outputs@,
        forall|k: int| 0 <= k < descs.len() ==> {
            &&& output_view(#[trigger] final(graph).outputs@[old(graph).outputs.len() + k]) == output_desc_view(descs@[k])
            &&& final(graph).outputs@[old(graph).outputs.len() + k].node == node
        },
        final(graph).inputs@ == old(graph).inputs@,
        final(graph).connections@ == old(graph).connections@,
{
    let ghost all = descs@;
    let ghost g0 = *graph;
    let ghost base = graph.outputs.len();
    let mut descs = descs;
    let mut k: usize = 0;
    while descs.len() > 0
        invariant
            graph.wf(),
            node < graph.nodes.len(),
            k <= all.len(),
            base == g0.outputs.len(),
            g0 == *old(graph),
            base + all.len() < usize::MAX,
            descs@ == all.subrange(k as int, all.len() as int),
            graph.nodes.len() == g0.nodes.len(),
            forall|n: int| 0 <= n < graph.nodes.len() && n != node ==> #[trigger] graph.nodes@[n] == g0.nodes@[n],
            graph.nodes@[node as int].user_data == g0.nodes@[node as int].user_data,
            graph.nodes@[node as int].label@ == g0.nodes@[node as int].label@,
            graph.nodes@[node as int].inputs@ == g0.nodes@[node as int].inputs@,
            graph.nodes@[node as int].outputs@ == g0.nodes@[node as int].outputs@ + Seq::new(k as nat, |q: int| (base + q) as usize),
            graph.outputs.len() == base + k,
            graph.outputs@.subrange(0, base as int) == g0.outputs@,
            forall|q: int| 0 <= q < k ==> {
                &&& output_view(#[trigger] graph.outputs@[base + q]) == output_desc_view(all[q])
                &&& graph.outputs@[base + q].node == node
            },
            graph.inputs@ == g0.inputs@,
            graph.connections@ == g0.connections@,
        decreases descs.len(),
    {
        let ghost before = *graph;
        let (name, typ) = descs.remove(0);
        graph.add_output_param(node, name, typ);
        k += 1;
        proof {
            assert(descs@ =~= all.subrange(k as int, all.len() as int));
            assert(graph.nodes@[node as int].outputs@ =~= g0.nodes@[node as int].outputs@ + Seq::new(k as nat, |q: int| (base + q) as usize));
            assert(graph.outputs@.subrange(0, base as int) =~= g0.outputs@) by {
                assert(graph.outputs@.subrange(0, base as int) =~= before.outputs@.subrange(0, base as int));
            }
            assert forall|q: int| 0 <= q < k implies {
                &&& output_view(#[trigger] graph.outputs@[base + q]) == output_desc_view(all[q])
                &&& graph.outputs@[base + q].node == node
            } by {
                if q < k - 1 {
                    assert(graph.outputs@[base + q] == before.outputs@[base + q]);
                }
            }
        }
    }
}

impl MyNodeTemplate {
    /// Creates the ports of node `node_id`, a node of this kind, after any it already has:
    /// first its inputs, then its outputs, each as `input_ports` and `output_ports` list them.
    /// `functions` is the catalog a function node takes its callee's signature from.
    pub fn build_node(&self, graph: &mut Graph, functions: &Vec<GraphFunction>, node_id: NodeId)
        requires
            old(graph).wf(),
            node_id < old(graph).nodes.len(),
            old(graph).inputs.len() + input_ports(*self, functions@).len() < usize::MAX,
            old(graph).outputs.len() + output_ports(*self, functions@).len() < usize::MAX,
        ensures
            final(graph).wf(),
            final(graph).nodes.len() == old(graph).nodes.len(),
            forall|n: int| 0 <= n < final(graph).nodes.len() && n != node_id ==> #[trigger] final(graph).nodes@[n] == old(graph).nodes@[n],
            final(graph).nodes@[node_id as int].user_data == old(graph).nodes@[node_id as int].user_data,
            final(graph).nodes@[node_id as int].label@ == old(graph).nodes@[node_id as int].label@,
            final(graph).nodes@[node_id as int].inputs@ == old(graph).nodes@[node_id as int].inputs@ + Seq::new(
                input_ports(*self, functions@).len(),
                |k: int| (old(graph).inputs.len() + k) as usize,
            ),
            final(graph).nodes@[node_id as int].outputs@ == old(graph).nodes@[node_id as int].outputs@ + Seq::new(
                output_ports(*self, functions@).len(),
                |k: int| (old(graph).outputs.len() + k) as usize,
            ),
            final(graph).inputs@.subrange(0, old(graph).inputs.len() as int) == old(graph).inputs@,
            final(graph).inputs@.subrange(old(graph).inputs.len() as int, final(graph).inputs.len() as int).map_values(
                |p: InputParam| input_view(p),
            ) == input_ports(*self, functions@),
            final(graph).outputs@.subrange(0, old(graph).outputs.len() as int) == old(graph).outputs@,
            final(graph).outputs@.subrange(old(graph).outputs.len() as int, final(graph).outputs.len() as int).map_values(
                |p: OutputParam| output_view(p),
            ) == output_ports(*self, functions@),
            final(graph).connections@ == old(graph).connections@ + Seq::new(
                input_ports(*self, functions@).len(),
                |k: int| None::<usize>,
            ),
    {
        let ins = self.input_descriptors(functions);
        let outs = self.output_descriptors(functions);
        let ghost iv = ins@;
        let ghost ov = outs@;
        let ghost g0 = *graph;
        add_inputs(graph, node_id, ins);
        let ghost g1 = *graph;
        add_outputs(graph, node_id, outs);
        proof {
            let want_in = input_ports(*self, functions@);
            assert(iv.map_values(|d: InputDesc| input_desc_view(d)) == want_in);
            let got_in = graph.inputs@.subrange(g0.inputs.len() as int, graph.inputs.len() as int).map_values(
                |p: InputParam| input_view(p));
            assert forall|k: int| 0 <= k < want_in.len() implies got_in[k] == want_in[k] by {
                assert(input_view(g1.inputs@[g0.inputs.len() + k]) == input_desc_view(iv[k]));
            }
            assert(got_in =~= want_in);
            let want_out = output_ports(*self, functions@);
            assert(ov.map_values(|d: OutputDesc| output_desc_view(d)) == want_out);
            let got_out = graph.outputs@.subrange(g0.outputs.len() as int, graph.outputs.len() as int).map_values(
                |p: OutputParam| output_view(p));
            assert forall|k: int| 0 <= k < want_out.len() implies got_out[k] == want_out[k] by {
                assert(output_view(graph.outputs@[g1.outputs.len() + k]) == output_desc_view(ov[k]));
            }
            assert(got_out =~= want_out);
        }
    }
}

impl MyNodeTemplate {
    /// Adds a node of this kind, labelled after it, with the ports `build_node` creates, and
    /// returns its handle.
    pub fn create_node(&self, graph: &mut Graph, functions: &Vec<GraphFunction>) -> (r: NodeId)
        requires
            old(graph).wf(),
            old(graph).nodes.len() < usize::MAX,
            old(graph).inputs.len() + input_ports(*self, functions@).len() < usize::MAX,
            old(graph).outputs.len() + output_ports(*self, functions@).len() < usize::MAX,
        ensures
            final(graph).wf(),
            r == old(graph).nodes.len(),
            final(graph).nodes.len() == old(graph).nodes.len() + 1,
            forall|n: int| 0 <= n < r ==> #[trigger] final(graph).nodes@[n] == old(graph).nodes@[n],
            final(graph).nodes@[r as int].user_data.template == *self,
            final(graph).nodes@[r as int].inputs@ == Seq::new(
                input_ports(*self, functions@).len(),
                |k: int| (old(graph).inputs.len() + k) as usize,
            ),
            final(graph).nodes@[r as int].outputs@ == Seq::new(
                output_ports(*self, functions@).len(),
                |k: int| (old(graph).outputs.len() + k) as usize,
            ),
            final(graph).inputs@.subrange(0, old(graph).inputs.len() as int) == old(graph).inputs@,
            final(graph).inputs@.subrange(old(graph).inputs.len() as int, final(graph).inputs.len() as int).map_values(
                |p: InputParam| input_view(p),
            ) == input_ports(*self, functions@),
            final(graph).outputs@.subrange(0, old(graph).outputs.len() as int) == old(graph).outputs@,
            final(graph).outputs@.subrange(old(graph).outputs.len() as int, final(graph).outputs.len() as int).map_values(
                |p: OutputParam| output_view(p),
            ) == output_ports(*self, functions@),
            final(graph).connections@ == old(graph).connections@ + Seq::new(
                input_ports(*self, functions@).len(),
                |k: int| None::<usize>,
            ),
    {
        let id = graph.add_node(self.node_graph_label(), self.user_data());
        self.build_node(graph, functions, id);
        proof {
            assert(graph.nodes@[id as int].inputs@ =~= Seq::new(
                input_ports(*self, functions@).len(),
                |k: int| (old(graph).inputs.len() + k) as usize,
            ));
            assert(graph.nodes@[id as int].outputs@ =~= Seq::new(
                output_ports(*self, functions@).len(),
                |k: int| (old(graph).outputs.len() + k) as usize,
            ));
        }
        id
    }
}

/// The label of a node that calls `function`: `Function ` followed by its name, if it names
/// a function of `fs`.
pub open spec fn function_label(function: Option<FunctionId>, fs: Seq<GraphFunction>) -> Seq<char> {
    "Function "@ + match function {
        Some(f) => if f < fs.len() { fs[f as int].name@ } else { Seq::empty() },
        None => Seq::empty(),
    }
}

/// Makes `node` a function node calling `function`, as the editor does when a function is
/// chosen for it: its connections are removed, its old ports detached, and it gets the
/// ports of the callee's signature.
pub fn assign_function(graph: &mut Graph, node: NodeId, function: Option<FunctionId>, functions: &Vec<GraphFunction>)
    requires
        old(graph).wf(),
        node < old(graph).nodes.len(),
        old(graph).inputs.len() + input_ports(MyNodeTemplate::Function(function), functions@).len() < usize::MAX,
        old(graph).outputs.len() + output_ports(MyNodeTemplate::Function(function), functions@).len() < usize::MAX,
    ensures
        final(graph).wf(),
        final(graph).nodes.len() == old(graph).nodes.len(),
        forall|n: int| 0 <= n < final(graph).nodes.len() && n != node ==> #[trigger] final(graph).nodes@[n] == old(graph).nodes@[n],
        final(graph).nodes@[node as int].user_data.template == MyNodeTemplate::Function(function),
        final(graph).nodes@[node as int].label@ == function_label(function, functions@),
        final(graph).nodes@[node as int].inputs@ == Seq::new(
            input_ports(MyNodeTemplate::Function(function), functions@).len(),
            |k: int| (old(graph).inputs.len() + k) as usize,
        ),
        final(graph).nodes@[node as int].outputs@ == Seq::new(
            output_ports(MyNodeTemplate::Function(function), functions@).len(),
            |k: int| (old(graph).outputs.len() + k) as usize,
        ),
        final(graph).inputs@.subrange(0, old(graph).inputs.len() as int) == old(graph).inputs@,
        final(graph).inputs@.subrange(old(graph).inputs.len() as int, final(graph).inputs.len() as int).map_values(
            |p: InputParam| input_view(p),
        ) == input_ports(MyNodeTemplate::Function(function), functions@),
        final(graph).outputs@.subrange(0, old(graph).outputs.len() as int) == old(graph).outputs@,
        final(graph).outputs@.subrange(old(graph).outputs.len() as int, final(graph).outputs.len() as int).map_values(
            |p: OutputParam| output_view(p),
        ) == output_ports(MyNodeTemplate::Function(function), functions@),
        final(graph).connections.len() == final(graph).inputs.len(),
        forall|j: int| 0 <= j < old(graph).connections.len() ==> #[trigger] final(graph).connections@[j]
            == if old(graph).touches(j, node) { None } else { old(graph).connections@[j] },
        forall|j: int| old(graph).connections.len() <= j < final(graph).connections.len() ==> #[trigger] final(graph).connections@[j] is None,
{
    let t = MyNodeTemplate::Function(function);
    graph.disconnect_node(node);
    graph.clear_ports(node);
    let mut label = String::from_str("Function ");
    match function {
        Some(f) => {
            if f < functions.len() {
                label.append(functions[f].name.as_str());
            }
        },
        None => {},
    }
    graph.relabel_node(node, label, t.user_data());
    let ghost g2 = *graph;
    t.build_node(graph, functions, node);
    proof {
        assert(graph.nodes@[node as int].inputs@ =~= Seq::new(
            input_ports(t, functions@).len(),
            |k: int| (old(graph).inputs.len() + k) as usize,
        ));
        assert(graph.nodes@[node as int].outputs@ =~= Seq::new(
            output_ports(t, functions@).len(),
            |k: int| (old(graph).outputs.len() + k) as usize,
        ));
        assert forall|j: int| 0 <= j < old(graph).connections.len() implies #[trigger] graph.connections@[j]
            == if old(graph).touches(j, node) { None } else { old(graph).connections@[j] } by {
            assert(graph.connections@[j] == g2.connections@[j]);
        }
        assert forall|j: int| old(graph).connections.len() <= j < graph.connections.len() implies #[trigger] graph.connections@[j] is None by {
            assert(graph.connections@[j] == Seq::new(input_ports(t, functions@).len(), |k: int| None::<usize>)[j - g2.connections.len()]);
        }
    }
}

} // verus!
