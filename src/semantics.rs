//! What compiling a graph means: the expression of each input, the script of each control
//! node, and the result of a whole compile, as spec functions.
//!
//! The output cache is threaded through these functions exactly as the compiler threads it,
//! so that the text they describe is the text the compiler produces, temporaries and
//! memoised expressions included. `vis` marks the data nodes being evaluated and `path` the
//! control nodes on the current execution path; a connection into a marked node is the edge
//! that closes a cycle. The fuel arguments bound the recursion; they never run out before a
//! marked node is met, since each step marks a fresh node.
use vstd::prelude::*;

use crate::functions::{AppState, FunctionId, GraphFunction, Variable};
use crate::graph::{Graph, InputId, Node, NodeId, OutputId};
use crate::nodes::{
    MyNodeTemplate, composed, composition_of, data_text, is_data_kind, local_decls, statement_text,
};
use crate::types::{MyDataType, decimal, literal, variable_literal};

verus! {

/// Why a compile fails.
#[derive(Clone, Copy, Debug, PartialEq, Eq, Structural)]
pub enum CompileError {
    MissingEnterNode,
    MultipleEnterNodes,
    EnterInFunction,
    /// The connection from `output` into `input` closes a cycle.
    CycleDetected { output: OutputId, input: InputId },
    RecursiveFunctionDisabled,
    UnknownFunctionReference,
    MissingRequiredOperand,
}

/// Settings of a compile.
#[derive(Clone, Copy, Debug, PartialEq, Eq, Structural)]
pub struct CompileConfig {
    /// When set, a catalog where some function's graph calls that same function is refused
    /// before any generation, whether or not the call is reached. A call that would re-enter
    /// a function being inlined is refused in any case, since inlining cannot unfold it.
    pub disable_recursive_functions: bool,
}

/// The output cache as values: the text already computed for each output, if any.
pub type CacheView = Seq<Option<Seq<char>>>;

pub open spec fn strs(v: Seq<String>) -> Seq<Seq<char>> {
    v.map_values(|s: String| s@)
}

pub open spec fn cache_view(c: Seq<Option<String>>) -> CacheView {
    c.map_values(|x: Option<String>| match x {
        Some(s) => Some(s@),
        None => None,
    })
}

pub open spec fn empty_cache(n: nat) -> CacheView {
    Seq::new(n, |j: int| None)
}

pub open spec fn unmarked(n: nat) -> Seq<bool> {
    Seq::new(n, |j: int| false)
}

/// The temporary bound to output `o` of a control node of function `f`.
pub open spec fn temp_name(f: nat, o: nat) -> Seq<char> {
    "var_"@ + decimal(f) + "_"@ + decimal(o)
}

/// `c` with every output of `outs` that has no text yet mapped to `t`. An entry, once
/// written, is never changed.
pub open spec fn fill(c: CacheView, outs: Seq<OutputId>, t: Seq<char>) -> CacheView {
    Seq::new(c.len(), |j: int| if outs.contains(j as usize) && c[j] is None { Some(t) } else { c[j] })
}

/// `c` with every output of `outs` that has no text yet mapped to its temporary.
pub open spec fn preregister(c: CacheView, f: nat, outs: Seq<OutputId>) -> CacheView {
    Seq::new(
        c.len(),
        |j: int| if outs.contains(j as usize) && c[j] is None { Some(temp_name(f, j as nat)) } else { c[j] },
    )
}

/// The inputs of `ins` that are not execution ports, in order.
pub open spec fn data_inputs(g: Graph, ins: Seq<InputId>) -> Seq<InputId>
    decreases ins.len(),
{
    if ins.len() == 0 {
        Seq::empty()
    } else {
        let rest = data_inputs(g, ins.drop_last());
        if g.inputs@[ins.last() as int].typ == MyDataType::Execution { rest } else { rest.push(ins.last()) }
    }
}

/// The outputs of `outs` that are not execution ports, in order.
pub open spec fn data_outputs(g: Graph, outs: Seq<OutputId>) -> Seq<OutputId>
    decreases outs.len(),
{
    if outs.len() == 0 {
        Seq::empty()
    } else {
        let rest = data_outputs(g, outs.drop_last());
        if g.outputs@[outs.last() as int].typ == MyDataType::Execution { rest } else { rest.push(outs.last()) }
    }
}

pub open spec fn input_names(g: Graph, ins: Seq<InputId>) -> Seq<Seq<char>> {
    ins.map_values(|i: InputId| g.inputs@[i as int].name@)
}

pub open spec fn output_names(g: Graph, outs: Seq<OutputId>) -> Seq<Seq<char>> {
    outs.map_values(|o: OutputId| g.outputs@[o as int].name@)
}

pub open spec fn temp_names(f: nat, outs: Seq<OutputId>) -> Seq<Seq<char>> {
    outs.map_values(|o: OutputId| temp_name(f, o as nat))
}

/// The expression text of input `i`, and the cache after computing it.
pub open spec fn input_text(
    g: Graph,
    f: nat,
    i: InputId,
    c: CacheView,
    vis: Seq<bool>,
    fuel: nat,
) -> Result<(Seq<char>, CacheView), CompileError>
    decreases fuel, 0nat, 0nat,
{
    match g.connections@[i as int] {
        None => Ok((literal(g.inputs@[i as int].value), c)),
        Some(o) => {
            if c[o as int] is Some {
                Ok((c[o as int].unwrap(), c))
            } else {
                let m = g.outputs@[o as int].node;
                if !is_data_kind(g.nodes@[m as int].user_data.template) {
                    Ok((temp_name(f, o as nat), c))
                } else if vis[m as int] || fuel == 0 {
                    Err(CompileError::CycleDetected { output: o, input: i })
                } else {
                    node_text(g, f, m, c, vis.update(m as int, true), (fuel - 1) as nat)
                }
            }
        },
    }
}

/// The expression computed by data node `m`, and the cache after it is stored under
/// every output of `m`.
pub open spec fn node_text(
    g: Graph,
    f: nat,
    m: NodeId,
    c: CacheView,
    vis: Seq<bool>,
    fuel: nat,
) -> Result<(Seq<char>, CacheView), CompileError>
    decreases fuel, 2nat, 0nat,
{
    match operand_texts(g, f, g.nodes@[m as int].inputs@, 0, Seq::empty(), c, vis, fuel) {
        Err(e) => Err(e),
        Ok((ops, c1)) => match data_text(g.nodes@[m as int].user_data.template, ops) {
            None => Err(CompileError::MissingRequiredOperand),
            Some(t) => Ok((t, fill(c1, g.nodes@[m as int].outputs@, t))),
        },
    }
}

/// `acc` followed by the texts of the data inputs of `ins` from index `k` on.
pub open spec fn operand_texts(
    g: Graph,
    f: nat,
    ins: Seq<InputId>,
    k: nat,
    acc: Seq<Seq<char>>,
    c: CacheView,
    vis: Seq<bool>,
    fuel: nat,
) -> Result<(Seq<Seq<char>>, CacheView), CompileError>
    decreases fuel, 1nat, ins.len() - k,
{
    if k >= ins.len() {
        Ok((acc, c))
    } else if g.inputs@[ins[k as int] as int].typ == MyDataType::Execution {
        operand_texts(g, f, ins, k + 1, acc, c, vis, fuel)
    } else {
        match input_text(g, f, ins[k as int], c, vis, fuel) {
            Err(e) => Err(e),
            Ok((t, c1)) => operand_texts(g, f, ins, k + 1, acc.push(t), c1, vis, fuel),
        }
    }
}

/// The first input, from index `k` on, that output `o` feeds.
pub open spec fn first_target(g: Graph, o: OutputId, k: nat) -> Option<InputId>
    decreases g.connections.len() - k,
{
    if k >= g.connections.len() {
        None
    } else if g.connections@[k as int] == Some(o) {
        Some(k as usize)
    } else {
        first_target(g, o, k + 1)
    }
}

/// A node where a called function's body starts: a control node other than Enter whose
/// execution inputs are all unconnected.
pub open spec fn is_entry(g: Graph, n: int) -> bool {
    let node = g.nodes@[n];
    &&& !is_data_kind(node.user_data.template)
    &&& node.user_data.template != MyNodeTemplate::Enter
    &&& forall|k: int| 0 <= k < node.inputs.len() && g.inputs@[node.inputs@[k] as int].typ
        == MyDataType::Execution ==> (#[trigger] g.connections@[node.inputs@[k] as int]) is None
}

/// The first entry node from index `k` on.
pub open spec fn first_entry(g: Graph, k: nat) -> Option<NodeId>
    decreases g.nodes.len() - k,
{
    if k >= g.nodes.len() {
        None
    } else if is_entry(g, k as int) {
        Some(k as usize)
    } else {
        first_entry(g, k + 1)
    }
}

/// The script of control node `n` of function `f` and everything downstream of it, and
/// the cache afterwards.
pub open spec fn node_script(
    a: AppState,
    f: FunctionId,
    n: NodeId,
    c: CacheView,
    path: Seq<bool>,
    stack: Seq<bool>,
    ff: nat,
    nf: nat,
) -> Result<(Seq<char>, CacheView), CompileError>
    decreases ff, nf, 1nat, 0nat,
{
    let g = a.functions@[f as int].graph;
    let node = g.nodes@[n as int];
    let t = node.user_data.template;
    match operand_texts(g, f as nat, node.inputs@, 0, Seq::empty(), c, unmarked(g.nodes.len() as nat), g.nodes.len() as nat) {
        Err(e) => Err(e),
        Ok((ops, c1)) => {
            let douts = data_outputs(g, node.outputs@);
            let c2 = preregister(c1, f as nat, douts);
            match branch_scripts(a, f, node.outputs@, 0, Seq::empty(), c2, path, stack, ff, nf) {
                Err(e) => Err(e),
                Ok((execs, c3)) => match callee_script(a, t, stack, ff) {
                    Err(e) => Err(e),
                    Ok(body) => match statement_text(
                        t,
                        temp_names(f as nat, douts),
                        execs,
                        ops,
                        input_names(g, data_inputs(g, node.inputs@)),
                        output_names(g, douts),
                        body,
                    ) {
                        None => Err(CompileError::MissingRequiredOperand),
                        Some(frag) => Ok((composed(composition_of(t), frag, execs), c3)),
                    },
                },
            }
        },
    }
}

/// `acc` followed by the scripts of the execution outputs of `outs` from index `k` on,
/// the empty script for an unconnected one.
pub open spec fn branch_scripts(
    a: AppState,
    f: FunctionId,
    outs: Seq<OutputId>,
    k: nat,
    acc: Seq<Seq<char>>,
    c: CacheView,
    path: Seq<bool>,
    stack: Seq<bool>,
    ff: nat,
    nf: nat,
) -> Result<(Seq<Seq<char>>, CacheView), CompileError>
    decreases ff, nf, 0nat, outs.len() - k,
{
    let g = a.functions@[f as int].graph;
    if k >= outs.len() {
        Ok((acc, c))
    } else if g.outputs@[outs[k as int] as int].typ != MyDataType::Execution {
        branch_scripts(a, f, outs, k + 1, acc, c, path, stack, ff, nf)
    } else {
        let o = outs[k as int];
        match first_target(g, o, 0) {
            None => branch_scripts(a, f, outs, k + 1, acc.push(Seq::empty()), c, path, stack, ff, nf),
            Some(i) => {
                let tn = g.inputs@[i as int].node;
                if path[tn as int] || nf == 0 {
                    Err(CompileError::CycleDetected { output: o, input: i })
                } else {
                    match node_script(a, f, tn, c, path.update(tn as int, true), stack, ff, (nf - 1) as nat) {
                        Err(e) => Err(e),
                        Ok((s, c1)) => branch_scripts(a, f, outs, k + 1, acc.push(s), c1, path, stack, ff, nf),
                    }
                }
            },
        }
    }
}

/// The inlined body of the function a node of kind `t` calls (empty for other kinds).
pub open spec fn callee_script(a: AppState, t: MyNodeTemplate, stack: Seq<bool>, ff: nat) -> Result<
    Seq<char>,
    CompileError,
>
    decreases ff, 0nat, 0nat, 0nat,
{
    match t {
        MyNodeTemplate::Function(None) => Err(CompileError::UnknownFunctionReference),
        MyNodeTemplate::Function(Some(cf)) => {
            if cf >= a.functions.len() {
                Err(CompileError::UnknownFunctionReference)
            } else if stack[cf as int] || ff == 0 {
                Err(CompileError::RecursiveFunctionDisabled)
            } else {
                let cg = a.functions@[cf as int].graph;
                match first_entry(cg, 0) {
                    None => Ok(Seq::empty()),
                    Some(e) => match node_script(
                        a,
                        cf,
                        e,
                        empty_cache(cg.outputs.len() as nat),
                        unmarked(cg.nodes.len() as nat).update(e as int, true),
                        stack.update(cf as int, true),
                        (ff - 1) as nat,
                        cg.nodes.len() as nat,
                    ) {
                        Err(err) => Err(err),
                        Ok((s, c)) => Ok(s),
                    },
                }
            }
        },
        _ => Ok(Seq::empty()),
    }
}

/// The number of Enter nodes among `nodes`.
pub open spec fn enter_count(nodes: Seq<Node>) -> nat
    decreases nodes.len(),
{
    if nodes.len() == 0 {
        0
    } else {
        enter_count(nodes.drop_last()) + if nodes.last().user_data.template == MyNodeTemplate::Enter {
            1nat
        } else {
            0nat
        }
    }
}

/// The number of Enter nodes over all the graphs of `fs`.
pub open spec fn total_enter_count(fs: Seq<GraphFunction>) -> nat
    decreases fs.len(),
{
    if fs.len() == 0 {
        0
    } else {
        total_enter_count(fs.drop_last()) + enter_count(fs.last().graph.nodes@)
    }
}

/// The index of the first Enter node of `nodes` from `k` on.
pub open spec fn first_enter(nodes: Seq<Node>, k: nat) -> nat
    decreases nodes.len() - k,
{
    if k >= nodes.len() {
        k
    } else if nodes[k as int].user_data.template == MyNodeTemplate::Enter {
        k
    } else {
        first_enter(nodes, k + 1)
    }
}

/// Some function's graph holds a node that calls that same function.
pub open spec fn has_self_call(a: AppState) -> bool {
    exists|f: int, n: int|
        0 <= f < a.functions.len() && 0 <= n < a.functions@[f].graph.nodes.len()
            && (#[trigger] a.functions@[f].graph.nodes@[n]).user_data.template
            == MyNodeTemplate::Function(Some(f as usize))
}

pub open spec fn variable_names(vs: Seq<Variable>) -> Seq<Seq<char>> {
    vs.map_values(|v: Variable| v.name@)
}

pub open spec fn variable_literals(vs: Seq<Variable>) -> Seq<Seq<char>> {
    vs.map_values(|v: Variable| variable_literal(v.value))
}

/// The variables of `vs` that hold a value, in order: an Execution-typed variable holds none.
pub open spec fn declared_variables(vs: Seq<Variable>) -> Seq<Variable>
    decreases vs.len(),
{
    if vs.len() == 0 {
        Seq::empty()
    } else {
        let rest = declared_variables(vs.drop_last());
        if vs.last().value is Execution { rest } else { rest.push(vs.last()) }
    }
}

/// The declarations of Main's variables, ` (local name value)` each; an Execution-typed
/// variable contributes no text.
pub open spec fn prelude(a: AppState) -> Seq<char> {
    let vs = declared_variables(a.functions@[a.main_graph_id as int].variables_list@);
    local_decls(variable_names(vs), variable_literals(vs))
}

/// The script of Main's body, walked from its Enter node.
pub open spec fn main_script(a: AppState) -> Result<Seq<char>, CompileError> {
    let main = a.main_graph_id;
    let g = a.functions@[main as int].graph;
    let e = first_enter(g.nodes@, 0);
    match node_script(
        a,
        main,
        e as usize,
        empty_cache(g.outputs.len() as nat),
        unmarked(g.nodes.len() as nat).update(e as int, true),
        unmarked(a.functions.len() as nat).update(main as int, true),
        a.functions.len() as nat,
        g.nodes.len() as nat,
    ) {
        Err(err) => Err(err),
        Ok((s, c)) => Ok(s),
    }
}

/// The outcome of compiling `a`: the checks on Enter nodes, then the check on
/// self-calling functions, then the prelude followed by Main's body.
pub open spec fn compile_result(a: AppState, cfg: CompileConfig) -> Result<Seq<char>, CompileError> {
    let total = total_enter_count(a.functions@);
    if total == 0 {
        Err(CompileError::MissingEnterNode)
    } else if total > 1 {
        Err(CompileError::MultipleEnterNodes)
    } else if enter_count(a.functions@[a.main_graph_id as int].graph.nodes@) == 0 {
        Err(CompileError::EnterInFunction)
    } else if cfg.disable_recursive_functions && has_self_call(a) {
        Err(CompileError::RecursiveFunctionDisabled)
    } else {
        match main_script(a) {
            Err(e) => Err(e),
            Ok(body) => Ok(prelude(a) + " "@ + body),
        }
    }
}

/// An input fed by an output that already has a text takes that text, and the cache is left
/// as it is: a shared output is computed once, however many inputs it feeds.
pub proof fn cached_output_is_shared(
    g: Graph,
    f: nat,
    i: InputId,
    o: OutputId,
    c: CacheView,
    vis: Seq<bool>,
    fuel: nat,
)
    requires
        g.connections@[i as int] == Some(o),
        c[o as int] is Some,
    ensures
        input_text(g, f, i, c, vis, fuel) == Ok::<(Seq<char>, CacheView), CompileError>((c[o as int].unwrap(), c)),
{
}

/// An input fed by an uncomputed output of a data node that is being evaluated fails with
/// `CycleDetected`, naming that output and that input: the connection that closes the loop.
pub proof fn reentry_reports_closing_connection(
    g: Graph,
    f: nat,
    i: InputId,
    o: OutputId,
    c: CacheView,
    vis: Seq<bool>,
    fuel: nat,
)
    requires
        g.connections@[i as int] == Some(o),
        c[o as int] is None,
        is_data_kind(g.nodes@[g.outputs@[o as int].node as int].user_data.template),
        vis[g.outputs@[o as int].node as int],
    ensures
        input_text(g, f, i, c, vis, fuel) == Err::<(Seq<char>, CacheView), CompileError>(
            CompileError::CycleDetected { output: o, input: i },
        ),
{
}

/// An input fed by a data output of a control node reads that node's temporary, whether the
/// node has already bound it or not; the expression is never inlined again.
pub proof fn control_output_reads_its_temporary(
    g: Graph,
    f: nat,
    i: InputId,
    o: OutputId,
    c: CacheView,
    vis: Seq<bool>,
    fuel: nat,
)
    requires
        g.connections@[i as int] == Some(o),
        !is_data_kind(g.nodes@[g.outputs@[o as int].node as int].user_data.template),
        c[o as int] is None || c[o as int] == Some(temp_name(f, o as nat)),
    ensures
        input_text(g, f, i, c, vis, fuel) == Ok::<(Seq<char>, CacheView), CompileError>((temp_name(f, o as nat), c)),
{
}

/// Binding the temporaries of a control node's data outputs makes each of them the text of
/// that output, unless the output already had one.
pub proof fn preregister_binds_temporaries(c: CacheView, f: nat, outs: Seq<OutputId>, o: OutputId)
    requires
        outs.contains(o),
        o < c.len(),
        c[o as int] is None,
    ensures
        preregister(c, f, outs)[o as int] == Some(temp_name(f, o as nat)),
{
}

} // verus!
