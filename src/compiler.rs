//! The graph compiler: the memoised data-expression evaluator, the execution-flow walker
//! and the compile entry point, each proved to produce what `semantics` describes.
use vstd::prelude::*;
use vstd::set_lib::{lemma_int_range, lemma_len_subset, set_int_range};

use crate::functions::{AppState, FunctionId, GraphFunction, Variable};
use crate::graph::{Graph, InputId, Node, NodeId, OutputId};
use crate::nodes::{
    Composition, MyNodeTemplate, append_local_decls, branch_str, is_data_kind, is_entry_kind, local_decls,
};
use crate::semantics::{
    CacheView, CompileConfig, CompileError, branch_scripts, cache_view, callee_script,
    compile_result, data_inputs, data_outputs, empty_cache, enter_count, fill, first_enter,
    first_entry, first_target, has_self_call, input_names, input_text, is_entry, node_script,
    node_text, operand_texts, output_names, preregister, strs, temp_name, temp_names,
    total_enter_count, unmarked, variable_literals, variable_names, declared_variables,
};
use crate::types::{MyDataType, VariableValue, render_nat};

verus! {

/// `r` is the outcome `s` describes, with `c` the cache it leaves.
pub open spec fn agrees(
    r: Result<String, CompileError>,
    c: Seq<Option<String>>,
    s: Result<(Seq<char>, CacheView), CompileError>,
) -> bool {
    match s {
        Ok((t, cv)) => match r {
            Ok(x) => x@ == t && cache_view(c) == cv,
            Err(_) => false,
        },
        Err(e) => r == Err::<String, CompileError>(e),
    }
}

/// `r` is the list of texts `s` describes, with `c` the cache it leaves.
pub open spec fn agrees_all(
    r: Result<Vec<String>, CompileError>,
    c: Seq<Option<String>>,
    s: Result<(Seq<Seq<char>>, CacheView), CompileError>,
) -> bool {
    match s {
        Ok((t, cv)) => match r {
            Ok(x) => strs(x@) == t && cache_view(c) == cv,
            Err(_) => false,
        },
        Err(e) => r == Err::<Vec<String>, CompileError>(e),
    }
}

/// The evaluation log: data nodes only, none twice, and every output of a logged node is
/// cached.
pub open spec fn log_ok(g: Graph, c: CacheView, log: Seq<NodeId>) -> bool {
    &&& forall|a: int, b: int| 0 <= a < b < log.len() ==> log[a] != log[b]
    &&& forall|a: int| 0 <= a < log.len() ==> #[trigger] log[a] < g.nodes.len()
        && is_data_kind(g.nodes@[log[a] as int].user_data.template)
    &&& forall|a: int, k: int|
        0 <= a < log.len() && 0 <= k < g.nodes@[log[a] as int].outputs.len() ==> c[#[trigger] g.nodes@[log[a] as int].outputs@[k] as int] is Some
}

/// Connection `i` joins an output of node `a` to an input of node `b`.
pub open spec fn joins(g: Graph, i: int, a: NodeId, b: NodeId) -> bool {
    &&& 0 <= i < g.connections.len()
    &&& g.inputs@[i].node == b
    &&& g.connections@[i] is Some
    &&& g.outputs@[g.connections@[i].unwrap() as int].node == a
}

/// Some connection joins an output of node `a` to an input of node `b`.
pub open spec fn feeds(g: Graph, a: NodeId, b: NodeId) -> bool {
    exists|i: int| #[trigger] joins(g, i, a, b)
}

/// Each node of `s` feeds the next.
pub open spec fn is_path(g: Graph, s: Seq<NodeId>) -> bool {
    &&& s.len() >= 1
    &&& forall|k: int| 0 <= k < s.len() - 1 ==> #[trigger] feeds(g, s[k], s[k + 1])
}

/// The connection from output `o` into input `i` closes a cycle: the node owning `i`
/// reaches, through connections, the node owning `o`.
pub open spec fn closes_cycle(g: Graph, o: OutputId, i: InputId) -> bool {
    &&& i < g.connections.len()
    &&& g.connections@[i as int] == Some(o)
    &&& exists|s: Seq<NodeId>|
        is_path(g, s) && s[0] == g.inputs@[i as int].node && s.last() == #[trigger] g.outputs@[o as int].node
}

/// A cycle error of `g` names a connection that closes a cycle.
pub open spec fn cycle_of(g: Graph, e: CompileError) -> bool {
    e matches CompileError::CycleDetected { output, input } ==> closes_cycle(g, output, input)
}

/// A cycle error names a connection that closes a cycle in one of the catalog's graphs.
pub open spec fn cycle_in(a: AppState, e: CompileError) -> bool {
    e matches CompileError::CycleDetected { .. } ==> exists|f: int|
        0 <= f < a.functions.len() && cycle_of(#[trigger] a.functions@[f].graph, e)
}

/// `stack` lists the data nodes being evaluated, outermost first, each fed by the next;
/// `vis` marks exactly them.
pub open spec fn stack_ok(g: Graph, vis: Seq<bool>, stack: Seq<NodeId>) -> bool {
    &&& stack.no_duplicates()
    &&& forall|k: int| 0 <= k < stack.len() ==> #[trigger] stack[k] < g.nodes.len()
    &&& forall|m: int| 0 <= m < vis.len() ==> (#[trigger] vis[m] <==> stack.contains(m as usize))
    &&& forall|k: int| 0 <= k < stack.len() - 1 ==> #[trigger] feeds(g, stack[k + 1], stack[k])
}

/// `trail` lists the control nodes on the current execution path, each feeding the next;
/// `path` marks exactly them.
pub open spec fn trail_ok(g: Graph, path: Seq<bool>, trail: Seq<NodeId>) -> bool {
    &&& trail.no_duplicates()
    &&& forall|k: int| 0 <= k < trail.len() ==> #[trigger] trail[k] < g.nodes.len()
    &&& forall|m: int| 0 <= m < path.len() ==> (#[trigger] path[m] <==> trail.contains(m as usize))
    &&& forall|k: int| 0 <= k < trail.len() - 1 ==> #[trigger] feeds(g, trail[k], trail[k + 1])
}

/// Distinct nodes below `n`, `m` not among them, are fewer than `n`.
proof fn lemma_room(s: Seq<NodeId>, n: nat, m: NodeId)
    requires
        s.no_duplicates(),
        forall|k: int| 0 <= k < s.len() ==> #[trigger] s[k] < n,
        m < n,
        !s.contains(m),
    ensures
        s.len() < n,
{
    let t = s.push(m).map_values(|x: NodeId| x as int);
    assert(t.no_duplicates()) by {
        assert forall|a: int, b: int| 0 <= a < t.len() && 0 <= b < t.len() && a != b implies t[a] != t[b] by {
            if a < s.len() && b < s.len() {
            } else if a < s.len() {
                assert(s.push(m)[b] == m);
                assert(s[a] != m);
            } else if b < s.len() {
                assert(s.push(m)[a] == m);
                assert(s[b] != m);
            }
        }
    }
    t.unique_seq_to_set();
    lemma_int_range(0, n as int);
    assert(t.to_set().subset_of(set_int_range(0, n as int))) by {
        assert forall|x: int| t.to_set().contains(x) implies set_int_range(0, n as int).contains(x) by {
            let k = choose|k: int| 0 <= k < t.len() && t[k] == x;
            if k < s.len() {
                assert(s[k] < n);
            }
        }
    }
    lemma_len_subset(t.to_set(), set_int_range(0, n as int));
}

/// `c1` keeps every entry of `c0`, text unchanged: the cache is written once per output.
pub open spec fn grows(c0: CacheView, c1: CacheView) -> bool {
    &&& c1.len() == c0.len()
    &&& forall|o: int| 0 <= o < c0.len() && (#[trigger] c0[o]) is Some ==> c1[o] == c0[o]
}

/// `l1` extends `l0` with nodes that are not marked in `vis`.
pub open spec fn log_extends(l0: Seq<NodeId>, l1: Seq<NodeId>, vis: Seq<bool>) -> bool {
    &&& l0.len() <= l1.len()
    &&& l1.subrange(0, l0.len() as int) == l0
    &&& forall|j: int| l0.len() <= j < l1.len() ==> !vis[#[trigger] l1[j] as int]
}

/// The temporary bound to output `o` of a control node of function `f`.
fn make_temp_name(f: usize, o: usize) -> (r: String)
    ensures
        r@ == temp_name(f as nat, o as nat),
{
    let mut s = String::from_str("var_");
    let fs = render_nat(f as u64);
    s.append(fs.as_str());
    s.append("_");
    let os = render_nat(o as u64);
    s.append(os.as_str());
    s
}

/// The expression text of input `i`: its literal when unconnected, else the text of the
/// output feeding it, taken from the cache or computed and cached.
fn evaluate_input(
    g: &Graph,
    f: usize,
    i: InputId,
    cache: &mut Vec<Option<String>>,
    vis: &mut Vec<bool>,
    log: &mut Vec<NodeId>,
    fuel: usize,
    Ghost(stack): Ghost<Seq<NodeId>>,
) -> (r: Result<String, CompileError>)
    requires
        g.wf(),
        i < g.inputs.len(),
        stack_ok(*g, old(vis)@, stack),
        fuel + stack.len() >= g.nodes.len(),
        stack.len() > 0 ==> g.inputs@[i as int].node == stack.last(),
        old(cache).len() == g.outputs.len(),
        old(vis).len() == g.nodes.len(),
        log_ok(*g, cache_view(old(cache)@), old(log)@),
    ensures
        final(vis)@ == old(vis)@,
        agrees(r, final(cache)@, input_text(*g, f as nat, i, cache_view(old(cache)@), old(vis)@, fuel as nat)),
        r is Ok ==> {
            &&& log_ok(*g, cache_view(final(cache)@), final(log)@)
            &&& grows(cache_view(old(cache)@), cache_view(final(cache)@))
            &&& log_extends(old(log)@, final(log)@, old(vis)@)
        },
        r matches Err(e) ==> cycle_of(*g, e),
    decreases fuel, 0nat, 0nat,
{
    let ghost c0 = cache_view(cache@);
    match g.connections[i] {
        None => {
            let t = g.inputs[i].value.render_literal();
            proof {
                assert(log@.subrange(0, log@.len() as int) =~= log@);
            }
            Ok(t)
        },
        Some(o) => {
            match &cache[o] {
                Some(t) => {
                    proof {
                        assert(log@.subrange(0, log@.len() as int) =~= log@);
                        assert(c0[o as int] == Some(t@));
                    }
                    return Ok(t.clone());
                },
                None => {},
            }
            let m = g.outputs[o].node;
            if !g.nodes[m].user_data.template.is_data() {
                proof {
                    assert(log@.subrange(0, log@.len() as int) =~= log@);
                }
                return Ok(make_temp_name(f, o));
            }
            if vis[m] || fuel == 0 {
                proof {
                    if !vis@[m as int] {
                        lemma_room(stack, g.nodes.len() as nat, m);
                    }
                    assert(stack.contains(m));
                    let j = choose|j: int| 0 <= j < stack.len() && stack[j] == m;
                    let len = stack.len() as int;
                    let s = Seq::new((len - j) as nat, |t: int| stack[len - 1 - t]);
                    assert forall|t: int| 0 <= t < s.len() - 1 implies #[trigger] feeds(*g, s[t], s[t + 1]) by {
                        let k = len - 2 - t;
                        assert(feeds(*g, stack[k + 1], stack[k]));
                    }
                    assert(is_path(*g, s) && s[0] == g.inputs@[i as int].node && s.last() == g.outputs@[o as int].node);
                }
                return Err(CompileError::CycleDetected { output: o, input: i });
            }
            proof {
                assert(c0[o as int] is None);
                assert(g.nodes@[m as int].outputs@.contains(o));
                let k = choose|k: int| 0 <= k < g.nodes@[m as int].outputs@.len() && g.nodes@[m as int].outputs@[k] == o;
                if log@.contains(m) {
                    let a = choose|a: int| 0 <= a < log@.len() && log@[a] == m;
                    assert(c0[g.nodes@[log@[a] as int].outputs@[k] as int] is Some);
                }
            }
            let ghost vis0 = vis@;
            vis.set(m, true);
            let ghost stack1 = stack.push(m);
            proof {
                assert(!stack.contains(m));
                assert forall|x: int| 0 <= x < vis@.len() implies (#[trigger] vis@[x] <==> stack1.contains(x as usize)) by {
                    if stack1.contains(x as usize) && x != m {
                        let k = choose|k: int| 0 <= k < stack1.len() && stack1[k] == x as usize;
                        assert(stack[k] == x as usize);
                    }
                    if stack.contains(x as usize) {
                        let k = choose|k: int| 0 <= k < stack.len() && stack[k] == x as usize;
                        assert(stack1[k] == x as usize);
                    }
                    if x == m {
                        assert(stack1[stack.len() as int] == m);
                    }
                }
                if stack.len() > 0 {
                    assert(joins(*g, i as int, m, stack.last()));
                    assert(feeds(*g, stack1[stack.len() as int], stack1[stack.len() - 1]));
                }
                assert forall|k: int| 0 <= k < stack1.len() - 1 implies #[trigger] feeds(*g, stack1[k + 1], stack1[k]) by {
                    if k < stack.len() - 1 {
                        assert(feeds(*g, stack[k + 1], stack[k]));
                    }
                }
                assert(stack_ok(*g, vis@, stack1));
            }
            let r = evaluate_output(g, f, m, cache, vis, log, fuel - 1, Ghost(stack1));
            vis.set(m, false);
            proof {
                assert(vis@ =~= vis0);
                if r is Ok {
                    assert forall|j: int| old(log)@.len() <= j < log@.len() implies !vis0[#[trigger] log@[j] as int] by {
                        assert(log@[j] == m || !vis0.update(m as int, true)[log@[j] as int]);
                    }
                }
            }
            r
        },
    }
}

/// The expression computed by data node `m`, stored in the cache under each of its outputs
/// and recorded in the evaluation log.
fn evaluate_output(
    g: &Graph,
    f: usize,
    m: NodeId,
    cache: &mut Vec<Option<String>>,
    vis: &mut Vec<bool>,
    log: &mut Vec<NodeId>,
    fuel: usize,
    Ghost(stack): Ghost<Seq<NodeId>>,
) -> (r: Result<String, CompileError>)
    requires
        g.wf(),
        m < g.nodes.len(),
        stack_ok(*g, old(vis)@, stack),
        stack.len() > 0,
        stack.last() == m,
        fuel + stack.len() >= g.nodes.len(),
        is_data_kind(g.nodes@[m as int].user_data.template),
        old(cache).len() == g.outputs.len(),
        old(vis).len() == g.nodes.len(),
        old(vis)@[m as int],
        !old(log)@.contains(m),
        log_ok(*g, cache_view(old(cache)@), old(log)@),
    ensures
        final(vis)@ == old(vis)@,
        agrees(r, final(cache)@, node_text(*g, f as nat, m, cache_view(old(cache)@), old(vis)@, fuel as nat)),
        r is Ok ==> {
            &&& log_ok(*g, cache_view(final(cache)@), final(log)@)
            &&& grows(cache_view(old(cache)@), cache_view(final(cache)@))
            &&& log_extends(old(log)@, final(log)@, old(vis)@.update(m as int, false))
        },
        r matches Err(e) ==> cycle_of(*g, e),
    decreases fuel, 2nat, 0nat,
{
    let ghost vis0 = vis@;
    let ghost log0 = log@;
    let ghost c0 = cache_view(cache@);
    let ops = match evaluate_operands(g, f, &g.nodes[m].inputs, cache, vis, log, fuel, Ghost(stack)) {
        Ok(ops) => ops,
        Err(e) => {
            return Err(e);
        },
    };
    let ghost c1 = cache_view(cache@);
    let ghost log1 = log@;
    let t = match g.nodes[m].user_data.template.evaluate_data(&ops) {
        Some(t) => t,
        None => {
            return Err(CompileError::MissingRequiredOperand);
        },
    };
    let outs = &g.nodes[m].outputs;
    let mut k: usize = 0;
    while k < outs.len()
        invariant
            g.wf(),
            m < g.nodes.len(),
            *outs == g.nodes@[m as int].outputs,
            k <= outs.len(),
            cache.len() == g.outputs.len(),
            c1.len() == cache.len(),
            cache_view(cache@).len() == c1.len(),
            forall|q: int| 0 <= q < k ==> cache_view(cache@)[#[trigger] outs@[q] as int] == if c1[outs@[q] as int] is None {
                Some(t@)
            } else {
                c1[outs@[q] as int]
            },
            forall|j: int| 0 <= j < c1.len() && (forall|q: int| 0 <= q < k ==> #[trigger] outs@[q] != j as usize)
                ==> cache_view(cache@)[j] == c1[j],
        decreases outs.len() - k,
    {
        proof {
            assert(outs@[k as int] < g.outputs.len());
        }
        let ghost before = cache_view(cache@);
        let o = outs[k];
        proof {
            if exists|q: int| 0 <= q < k && outs@[q] == o {
                let q = choose|q: int| 0 <= q < k && outs@[q] == o;
                assert(before[outs@[q] as int] == if c1[o as int] is None { Some(t@) } else { c1[o as int] });
            } else {
                assert(forall|q: int| 0 <= q < k ==> #[trigger] outs@[q] != o);
                assert(before[o as int] == c1[o as int]);
            }
        }
        if cache[o].is_none() {
            cache.set(o, Some(t.clone()));
        }
        k += 1;
        proof {
            assert forall|j: int| 0 <= j < c1.len() && (forall|q: int| 0 <= q < k ==> #[trigger] outs@[q] != j as usize)
                implies cache_view(cache@)[j] == c1[j] by {
                assert(outs@[k - 1] != j as usize);
            }
            assert forall|q: int| 0 <= q < k implies cache_view(cache@)[#[trigger] outs@[q] as int] == if c1[outs@[q] as int] is None {
                Some(t@)
            } else {
                c1[outs@[q] as int]
            } by {
                if q < k - 1 && outs@[q] != o {
                    assert(cache_view(cache@)[outs@[q] as int] == before[outs@[q] as int]);
                }
            }
        }
    }
    proof {
        assert forall|j: int| 0 <= j < c1.len() implies cache_view(cache@)[j] == fill(c1, outs@, t@)[j] by {
            if outs@.contains(j as usize) {
                let q = choose|q: int| 0 <= q < outs@.len() && outs@[q] == j as usize;
                assert(cache_view(cache@)[outs@[q] as int] == if c1[j] is None { Some(t@) } else { c1[j] });
            } else {
                assert forall|q: int| 0 <= q < k implies #[trigger] outs@[q] != j as usize by {
                    if outs@[q] == j as usize {
                        assert(outs@.contains(j as usize));
                    }
                }
            }
        }
        assert(cache_view(cache@) =~= fill(c1, outs@, t@));
    }
    log.push(m);
    proof {
        let c2 = cache_view(cache@);
        assert forall|a: int, b: int| 0 <= a < b < log@.len() implies log@[a] != log@[b] by {
            if b == log@.len() - 1 && a >= log0.len() {
                assert(!vis0[log1[a] as int]);
            } else if b == log@.len() - 1 {
                assert(log1.subrange(0, log0.len() as int)[a] == log0[a]);
            }
        }
        assert forall|a: int, q: int|
            0 <= a < log@.len() && 0 <= q < g.nodes@[log@[a] as int].outputs.len() implies
            c2[#[trigger] g.nodes@[log@[a] as int].outputs@[q] as int] is Some by {
            if a < log1.len() {
                let o = g.nodes@[log1[a] as int].outputs@[q];
                assert(c1[o as int] is Some);
                assert(g.nodes@[log1[a] as int].outputs@[q] < g.outputs.len());
            } else {
                assert(outs@.contains(outs@[q]));
            }
        }
        assert(log@.subrange(0, log0.len() as int) =~= log1.subrange(0, log0.len() as int));
        assert forall|j: int| log0.len() <= j < log@.len() implies !vis0.update(m as int, false)[#[trigger] log@[j] as int] by {
            if j < log1.len() {
                assert(!vis0[log1[j] as int]);
            }
        }
    }
    Ok(t)
}

/// The texts of the data inputs among `ins`, in order.
fn evaluate_operands(
    g: &Graph,
    f: usize,
    ins: &Vec<InputId>,
    cache: &mut Vec<Option<String>>,
    vis: &mut Vec<bool>,
    log: &mut Vec<NodeId>,
    fuel: usize,
    Ghost(stack): Ghost<Seq<NodeId>>,
) -> (r: Result<Vec<String>, CompileError>)
    requires
        g.wf(),
        stack_ok(*g, old(vis)@, stack),
        fuel + stack.len() >= g.nodes.len(),
        stack.len() > 0 ==> forall|k: int| 0 <= k < ins.len() ==> #[trigger] g.inputs@[ins@[k] as int].node == stack.last(),
        forall|k: int| 0 <= k < ins.len() ==> #[trigger] ins@[k] < g.inputs.len(),
        old(cache).len() == g.outputs.len(),
        old(vis).len() == g.nodes.len(),
        log_ok(*g, cache_view(old(cache)@), old(log)@),
    ensures
        final(vis)@ == old(vis)@,
        agrees_all(r, final(cache)@, operand_texts(*g, f as nat, ins@, 0, Seq::empty(), cache_view(old(cache)@), old(vis)@, fuel as nat)),
        r is Ok ==> {
            &&& log_ok(*g, cache_view(final(cache)@), final(log)@)
            &&& grows(cache_view(old(cache)@), cache_view(final(cache)@))
            &&& log_extends(old(log)@, final(log)@, old(vis)@)
        },
        r matches Err(e) ==> cycle_of(*g, e),
    decreases fuel, 1nat, 0nat,
{
    let ghost vis0 = vis@;
    let ghost log0 = log@;
    let ghost c0 = cache_view(cache@);
    let ghost whole = operand_texts(*g, f as nat, ins@, 0, Seq::empty(), c0, vis0, fuel as nat);
    let mut acc: Vec<String> = Vec::new();
    let mut k: usize = 0;
    proof {
        assert(log@.subrange(0, log@.len() as int) =~= log@);
        assert(strs(acc@) =~= Seq::<Seq<char>>::empty());
    }
    while k < ins.len()
        invariant
            g.wf(),
            forall|q: int| 0 <= q < ins.len() ==> #[trigger] ins@[q] < g.inputs.len(),
            k <= ins.len(),
            cache.len() == g.outputs.len(),
            vis@ == vis0,
            vis0 == old(vis)@,
            stack_ok(*g, vis0, stack),
            fuel + stack.len() >= g.nodes.len(),
            stack.len() > 0 ==> forall|q: int| 0 <= q < ins.len() ==> #[trigger] g.inputs@[ins@[q] as int].node == stack.last(),
            c0 == cache_view(old(cache)@),
            log0 == old(log)@,
            vis0.len() == g.nodes.len(),
            whole == operand_texts(*g, f as nat, ins@, 0, Seq::empty(), c0, vis0, fuel as nat),
            whole == operand_texts(*g, f as nat, ins@, k as nat, strs(acc@), cache_view(cache@), vis0, fuel as nat),
            log_ok(*g, cache_view(cache@), log@),
            grows(c0, cache_view(cache@)),
            log_extends(log0, log@, vis0),
        decreases ins.len() - k,
    {
        let i = ins[k];
        if g.inputs[i].typ == MyDataType::Execution {
            k += 1;
        } else {
            let ghost cb = cache_view(cache@);
            let ghost lb = log@;
            match evaluate_input(g, f, i, cache, vis, log, fuel, Ghost(stack)) {
                Ok(t) => {
                    proof {
                        assert(strs(acc@.push(t)) =~= strs(acc@).push(t@));
                        assert(log@.subrange(0, log0.len() as int) =~= lb.subrange(0, log0.len() as int));
                        assert forall|j: int| log0.len() <= j < log@.len() implies !vis0[#[trigger] log@[j] as int] by {
                            if j < lb.len() {
                                assert(log@[j] == lb[j]);
                            }
                        }
                    }
                    acc.push(t);
                    k += 1;
                },
                Err(e) => {
                    return Err(e);
                },
            }
        }
    }
    Ok(acc)
}

/// `r` is the script `s` describes.
pub open spec fn agrees_text(r: Result<String, CompileError>, s: Result<Seq<char>, CompileError>) -> bool {
    match s {
        Ok(t) => match r {
            Ok(x) => x@ == t,
            Err(_) => false,
        },
        Err(e) => r == Err::<String, CompileError>(e),
    }
}

fn unmarked_vec(n: usize) -> (r: Vec<bool>)
    ensures
        r@ == unmarked(n as nat),
{
    let mut r: Vec<bool> = Vec::new();
    while r.len() < n
        invariant
            r.len() <= n,
            forall|j: int| 0 <= j < r.len() ==> !#[trigger] r@[j],
        decreases n - r.len(),
    {
        r.push(false);
    }
    assert(r@ =~= unmarked(n as nat));
    r
}

fn empty_cache_vec(n: usize) -> (r: Vec<Option<String>>)
    ensures
        r.len() == n,
        cache_view(r@) == empty_cache(n as nat),
{
    let mut r: Vec<Option<String>> = Vec::new();
    while r.len() < n
        invariant
            r.len() <= n,
            forall|j: int| 0 <= j < r.len() ==> #[trigger] r@[j] is None,
        decreases n - r.len(),
    {
        r.push(None);
    }
    assert(cache_view(r@) =~= empty_cache(n as nat));
    r
}

/// The first input that output `o` feeds.
fn find_first_target(g: &Graph, o: OutputId) -> (r: Option<InputId>)
    ensures
        r == first_target(*g, o, 0),
        r matches Some(i) ==> i < g.connections.len() && g.connections@[i as int] == Some(o),
{
    let mut k: usize = 0;
    while k < g.connections.len()
        invariant
            k <= g.connections.len(),
            first_target(*g, o, 0) == first_target(*g, o, k as nat),
        decreases g.connections.len() - k,
    {
        if g.connections[k] == Some(o) {
            return Some(k);
        }
        k += 1;
    }
    None
}

/// The first node where a called function's body starts.
fn find_first_entry(g: &Graph) -> (r: Option<NodeId>)
    requires
        g.wf(),
    ensures
        r == first_entry(*g, 0),
        r matches Some(e) ==> e < g.nodes.len(),
{
    let mut n: usize = 0;
    while n < g.nodes.len()
        invariant
            g.wf(),
            n <= g.nodes.len(),
            first_entry(*g, 0) == first_entry(*g, n as nat),
        decreases g.nodes.len() - n,
    {
        let node = &g.nodes[n];
        if is_entry_kind(node.user_data.template) {
            let mut k: usize = 0;
            let mut free = true;
            while k < node.inputs.len()
                invariant
                    g.wf(),
                    n < g.nodes.len(),
                    *node == g.nodes@[n as int],
                    k <= node.inputs.len(),
                    free ==> forall|q: int| 0 <= q < k && g.inputs@[node.inputs@[q] as int].typ
                        == MyDataType::Execution ==> (#[trigger] g.connections@[node.inputs@[q] as int]) is None,
                    !free ==> !is_entry(*g, n as int),
                decreases node.inputs.len() - k,
            {
                let i = node.inputs[k];
                assert(i < g.inputs.len());
                if free && g.inputs[i].typ == MyDataType::Execution && g.connections[i].is_some() {
                    free = false;
                    assert(g.connections@[node.inputs@[k as int] as int] is Some);
                }
                k += 1;
            }
            if free {
                return Some(n);
            }
        }
        n += 1;
    }
    None
}

/// The data ports among `ins`, in order.
fn collect_data_inputs(g: &Graph, ins: &Vec<InputId>) -> (r: Vec<InputId>)
    requires
        forall|k: int| 0 <= k < ins.len() ==> #[trigger] ins@[k] < g.inputs.len(),
    ensures
        r@ == data_inputs(*g, ins@),
        forall|k: int| 0 <= k < r.len() ==> #[trigger] r@[k] < g.inputs.len(),
{
    let mut r: Vec<InputId> = Vec::new();
    let mut k: usize = 0;
    while k < ins.len()
        invariant
            forall|q: int| 0 <= q < ins.len() ==> #[trigger] ins@[q] < g.inputs.len(),
            k <= ins.len(),
            r@ == data_inputs(*g, ins@.take(k as int)),
            forall|q: int| 0 <= q < r.len() ==> #[trigger] r@[q] < g.inputs.len(),
        decreases ins.len() - k,
    {
        assert(ins@.take(k as int + 1).drop_last() =~= ins@.take(k as int));
        if g.inputs[ins[k]].typ != MyDataType::Execution {
            r.push(ins[k]);
        }
        k += 1;
    }
    assert(ins@.take(ins.len() as int) =~= ins@);
    r
}

/// The data ports among `outs`, in order.
fn collect_data_outputs(g: &Graph, outs: &Vec<OutputId>) -> (r: Vec<OutputId>)
    requires
        forall|k: int| 0 <= k < outs.len() ==> #[trigger] outs@[k] < g.outputs.len(),
    ensures
        r@ == data_outputs(*g, outs@),
        forall|k: int| 0 <= k < r.len() ==> #[trigger] r@[k] < g.outputs.len(),
{
    let mut r: Vec<OutputId> = Vec::new();
    let mut k: usize = 0;
    while k < outs.len()
        invariant
            forall|q: int| 0 <= q < outs.len() ==> #[trigger] outs@[q] < g.outputs.len(),
            k <= outs.len(),
            r@ == data_outputs(*g, outs@.take(k as int)),
            forall|q: int| 0 <= q < r.len() ==> #[trigger] r@[q] < g.outputs.len(),
        decreases outs.len() - k,
    {
        assert(outs@.take(k as int + 1).drop_last() =~= outs@.take(k as int));
        if g.outputs[outs[k]].typ != MyDataType::Execution {
            r.push(outs[k]);
        }
        k += 1;
    }
    assert(outs@.take(outs.len() as int) =~= outs@);
    r
}

/// Binds a fresh temporary to each output of `douts` in the cache, and returns them.
fn preregister_temps(
    g: &Graph,
    f: usize,
    douts: &Vec<OutputId>,
    cache: &mut Vec<Option<String>>,
) -> (r: Vec<String>)
    requires
        old(cache).len() == g.outputs.len(),
        forall|k: int| 0 <= k < douts.len() ==> #[trigger] douts@[k] < g.outputs.len(),
    ensures
        final(cache).len() == old(cache).len(),
        cache_view(final(cache)@) == preregister(cache_view(old(cache)@), f as nat, douts@),
        strs(r@) == temp_names(f as nat, douts@),
{
    let ghost c1 = cache_view(cache@);
    let mut temps: Vec<String> = Vec::new();
    let mut k: usize = 0;
    while k < douts.len()
        invariant
            forall|q: int| 0 <= q < douts.len() ==> #[trigger] douts@[q] < g.outputs.len(),
            k <= douts.len(),
            cache.len() == g.outputs.len(),
            c1 == cache_view(old(cache)@),
            c1.len() == cache.len(),
            strs(temps@) == temp_names(f as nat, douts@.take(k as int)),
            temps.len() == k,
            forall|q: int| 0 <= q < k ==> cache_view(cache@)[#[trigger] douts@[q] as int] == if c1[douts@[q] as int] is None {
                Some(temp_name(f as nat, douts@[q] as nat))
            } else {
                c1[douts@[q] as int]
            },
            forall|j: int| 0 <= j < c1.len() && (forall|q: int| 0 <= q < k ==> #[trigger] douts@[q] != j as usize)
                ==> cache_view(cache@)[j] == c1[j],
        decreases douts.len() - k,
    {
        let o = douts[k];
        let t = make_temp_name(f, o);
        let ghost before = cache_view(cache@);
        proof {
            if exists|q: int| 0 <= q < k && douts@[q] == o {
                let q = choose|q: int| 0 <= q < k && douts@[q] == o;
                assert(before[douts@[q] as int] == if c1[o as int] is None {
                    Some(temp_name(f as nat, o as nat))
                } else {
                    c1[o as int]
                });
            } else {
                assert(forall|q: int| 0 <= q < k ==> #[trigger] douts@[q] != o);
                assert(before[o as int] == c1[o as int]);
            }
        }
        if cache[o].is_none() {
            cache.set(o, Some(t.clone()));
        }
        let ghost t0 = temps@;
        temps.push(t);
        k += 1;
        proof {
            assert forall|j: int| 0 <= j < k implies strs(temps@)[j] == temp_names(f as nat, douts@.take(k as int))[j] by {
                if j < k - 1 {
                    assert(strs(t0)[j] == temp_names(f as nat, douts@.take(k as int - 1))[j]);
                }
            }
            assert(strs(temps@) =~= temp_names(f as nat, douts@.take(k as int)));
            assert forall|j: int| 0 <= j < c1.len() && (forall|q: int| 0 <= q < k ==> #[trigger] douts@[q] != j as usize)
                implies cache_view(cache@)[j] == c1[j] by {
                assert(douts@[k - 1] != j as usize);
            }
            assert forall|q: int| 0 <= q < k implies cache_view(cache@)[#[trigger] douts@[q] as int] == if c1[douts@[q] as int] is None {
                Some(temp_name(f as nat, douts@[q] as nat))
            } else {
                c1[douts@[q] as int]
            } by {
                if q < k - 1 && douts@[q] != o {
                    assert(cache_view(cache@)[douts@[q] as int] == before[douts@[q] as int]);
                }
            }
        }
    }
    proof {
        assert(douts@.take(douts.len() as int) =~= douts@);
        assert forall|j: int| 0 <= j < c1.len() implies cache_view(cache@)[j] == preregister(c1, f as nat, douts@)[j] by {
            if douts@.contains(j as usize) {
                let q = choose|q: int| 0 <= q < douts@.len() && douts@[q] == j as usize;
                assert(cache_view(cache@)[douts@[q] as int] == if c1[j] is None {
                    Some(temp_name(f as nat, j as nat))
                } else {
                    c1[j]
                });
            } else {
                assert forall|q: int| 0 <= q < k implies #[trigger] douts@[q] != j as usize by {
                    if douts@[q] == j as usize {
                        assert(douts@.contains(j as usize));
                    }
                }
            }
        }
        assert(cache_view(cache@) =~= preregister(c1, f as nat, douts@));
    }
    temps
}

/// The names of the inputs `ins`.
fn collect_input_names(g: &Graph, ins: &Vec<InputId>) -> (r: Vec<String>)
    requires
        forall|k: int| 0 <= k < ins.len() ==> #[trigger] ins@[k] < g.inputs.len(),
    ensures
        strs(r@) == input_names(*g, ins@),
{
    let mut r: Vec<String> = Vec::new();
    let mut k: usize = 0;
    while k < ins.len()
        invariant
            forall|q: int| 0 <= q < ins.len() ==> #[trigger] ins@[q] < g.inputs.len(),
            k <= ins.len(),
            strs(r@) == input_names(*g, ins@.take(k as int)),
            r.len() == k,
        decreases ins.len() - k,
    {
        let ghost r0 = r@;
        r.push(g.inputs[ins[k]].name.clone());
        k += 1;
        proof {
            assert forall|j: int| 0 <= j < k implies strs(r@)[j] == input_names(*g, ins@.take(k as int))[j] by {
                if j < k - 1 {
                    assert(strs(r0)[j] == input_names(*g, ins@.take(k as int - 1))[j]);
                }
            }
            assert(strs(r@) =~= input_names(*g, ins@.take(k as int)));
        }
    }
    assert(ins@.take(ins.len() as int) =~= ins@);
    r
}

/// The names of the outputs `outs`.
fn collect_output_names(g: &Graph, outs: &Vec<OutputId>) -> (r: Vec<String>)
    requires
        forall|k: int| 0 <= k < outs.len() ==> #[trigger] outs@[k] < g.outputs.len(),
    ensures
        strs(r@) == output_names(*g, outs@),
{
    let mut r: Vec<String> = Vec::new();
    let mut k: usize = 0;
    while k < outs.len()
        invariant
            forall|q: int| 0 <= q < outs.len() ==> #[trigger] outs@[q] < g.outputs.len(),
            k <= outs.len(),
            strs(r@) == output_names(*g, outs@.take(k as int)),
            r.len() == k,
        decreases outs.len() - k,
    {
        let ghost r0 = r@;
        r.push(g.outputs[outs[k]].name.clone());
        k += 1;
        proof {
            assert forall|j: int| 0 <= j < k implies strs(r@)[j] == output_names(*g, outs@.take(k as int))[j] by {
                if j < k - 1 {
                    assert(strs(r0)[j] == output_names(*g, outs@.take(k as int - 1))[j]);
                }
            }
            assert(strs(r@) =~= output_names(*g, outs@.take(k as int)));
        }
    }
    assert(outs@.take(outs.len() as int) =~= outs@);
    r
}

proof fn lemma_log_ok_grows(g: Graph, c1: CacheView, c2: CacheView, log: Seq<NodeId>)
    requires
        g.wf(),
        c1.len() == g.outputs.len(),
        log_ok(g, c1, log),
        grows(c1, c2),
    ensures
        log_ok(g, c2, log),
{
    assert forall|a: int, k: int|
        0 <= a < log.len() && 0 <= k < g.nodes@[log[a] as int].outputs.len() implies
        c2[#[trigger] g.nodes@[log[a] as int].outputs@[k] as int] is Some by {
        assert(c1[g.nodes@[log[a] as int].outputs@[k] as int] is Some);
    }
}

/// The script of control node `n` of function `f` and of everything downstream of it:
/// its operands are resolved, temporaries bound to its data outputs, its execution outputs
/// compiled in order, a called function inlined, and its statement composed with them.
fn evaluate_function(
    a: &AppState,
    f: FunctionId,
    n: NodeId,
    cache: &mut Vec<Option<String>>,
    path: &mut Vec<bool>,
    stack: &mut Vec<bool>,
    log: &mut Vec<NodeId>,
    ff: usize,
    nf: usize,
    Ghost(trail): Ghost<Seq<NodeId>>,
) -> (r: Result<String, CompileError>)
    requires
        a.wf(),
        f < a.functions.len(),
        n < a.functions@[f as int].graph.nodes.len(),
        trail_ok(a.functions@[f as int].graph, old(path)@, trail),
        trail.len() > 0,
        trail.last() == n,
        nf + trail.len() >= a.functions@[f as int].graph.nodes.len(),
        old(cache).len() == a.functions@[f as int].graph.outputs.len(),
        old(path).len() == a.functions@[f as int].graph.nodes.len(),
        old(stack).len() == a.functions.len(),
        log_ok(a.functions@[f as int].graph, cache_view(old(cache)@), old(log)@),
    ensures
        final(path)@ == old(path)@,
        final(stack)@ == old(stack)@,
        agrees(r, final(cache)@, node_script(*a, f, n, cache_view(old(cache)@), old(path)@, old(stack)@, ff as nat, nf as nat)),
        r is Ok ==> {
            &&& log_ok(a.functions@[f as int].graph, cache_view(final(cache)@), final(log)@)
            &&& grows(cache_view(old(cache)@), cache_view(final(cache)@))
        },
        r matches Err(e) ==> cycle_in(*a, e),
    decreases ff, nf, 1nat, 0nat,
{
    let g = &a.functions[f].graph;
    let node = &g.nodes[n];
    let t = node.user_data.template;
    proof {
        assert(g.wf());
        assert forall|k: int| 0 <= k < node.inputs.len() implies #[trigger] node.inputs@[k] < g.inputs.len() by {
            assert(g.nodes@[n as int].inputs@[k] < g.inputs.len());
        }
        assert forall|k: int| 0 <= k < node.outputs.len() implies #[trigger] node.outputs@[k] < g.outputs.len() by {
            assert(g.nodes@[n as int].outputs@[k] < g.outputs.len());
        }
    }
    let ghost c0 = cache_view(cache@);
    let mut vis = unmarked_vec(g.nodes.len());
    proof {
        assert(stack_ok(*g, vis@, Seq::empty()));
    }
    let ops = match evaluate_operands(g, f, &node.inputs, cache, &mut vis, log, g.nodes.len(), Ghost(Seq::empty())) {
        Ok(x) => x,
        Err(e) => {
            return Err(e);
        },
    };
    let ghost c1 = cache_view(cache@);
    let douts = collect_data_outputs(g, &node.outputs);
    let temps = preregister_temps(g, f, &douts, cache);
    proof {
        let c2 = cache_view(cache@);
        assert(grows(c1, c2));
        lemma_log_ok_grows(*g, c1, c2, log@);
    }
    let ghost c2 = cache_view(cache@);
    proof {
        assert forall|k: int| 0 <= k < node.outputs.len() implies #[trigger] g.outputs@[node.outputs@[k] as int].node == trail.last() by {
            assert(g.outputs@[g.nodes@[n as int].outputs@[k] as int].node == n);
        }
    }
    let execs = match evaluate_branches(a, f, &node.outputs, cache, path, stack, log, ff, nf, Ghost(trail)) {
        Ok(x) => x,
        Err(e) => {
            return Err(e);
        },
    };
    let body = match evaluate_callee(a, t, stack, ff) {
        Ok(x) => x,
        Err(e) => {
            return Err(e);
        },
    };
    let dins = collect_data_inputs(g, &node.inputs);
    let in_names = collect_input_names(g, &dins);
    let out_names = collect_output_names(g, &douts);
    let frag = match t.compile_to(&temps, &execs, &ops, &in_names, &out_names, &body) {
        Some(x) => x,
        None => {
            return Err(CompileError::MissingRequiredOperand);
        },
    };
    match t.get_node_params().composition {
        Composition::Sequential => {
            let mut s = frag;
            s.append(" ");
            s.append(branch_str(&execs, 0));
            Ok(s)
        },
        Composition::Embedded => Ok(frag),
    }
}

/// The scripts of the execution outputs among `outs`, in order; the empty script for an
/// unconnected one.
fn evaluate_branches(
    a: &AppState,
    f: FunctionId,
    outs: &Vec<OutputId>,
    cache: &mut Vec<Option<String>>,
    path: &mut Vec<bool>,
    stack: &mut Vec<bool>,
    log: &mut Vec<NodeId>,
    ff: usize,
    nf: usize,
    Ghost(trail): Ghost<Seq<NodeId>>,
) -> (r: Result<Vec<String>, CompileError>)
    requires
        a.wf(),
        f < a.functions.len(),
        trail_ok(a.functions@[f as int].graph, old(path)@, trail),
        trail.len() > 0,
        forall|k: int| 0 <= k < outs.len() ==> #[trigger] a.functions@[f as int].graph.outputs@[outs@[k] as int].node == trail.last(),
        nf + trail.len() >= a.functions@[f as int].graph.nodes.len(),
        forall|k: int| 0 <= k < outs.len() ==> #[trigger] outs@[k] < a.functions@[f as int].graph.outputs.len(),
        old(cache).len() == a.functions@[f as int].graph.outputs.len(),
        old(path).len() == a.functions@[f as int].graph.nodes.len(),
        old(stack).len() == a.functions.len(),
        log_ok(a.functions@[f as int].graph, cache_view(old(cache)@), old(log)@),
    ensures
        final(path)@ == old(path)@,
        final(stack)@ == old(stack)@,
        agrees_all(r, final(cache)@, branch_scripts(*a, f, outs@, 0, Seq::empty(), cache_view(old(cache)@), old(path)@, old(stack)@, ff as nat, nf as nat)),
        r is Ok ==> {
            &&& log_ok(a.functions@[f as int].graph, cache_view(final(cache)@), final(log)@)
            &&& grows(cache_view(old(cache)@), cache_view(final(cache)@))
        },
        r matches Err(e) ==> cycle_in(*a, e),
    decreases ff, nf, 0nat, 0nat,
{
    let g = &a.functions[f].graph;
    let ghost c0 = cache_view(cache@);
    let ghost path0 = path@;
    let ghost stack0 = stack@;
    let ghost whole = branch_scripts(*a, f, outs@, 0, Seq::empty(), c0, path0, stack0, ff as nat, nf as nat);
    let mut acc: Vec<String> = Vec::new();
    let mut k: usize = 0;
    proof {
        assert(strs(acc@) =~= Seq::<Seq<char>>::empty());
        assert(g.wf());
    }
    while k < outs.len()
        invariant
            a.wf(),
            f < a.functions.len(),
            *g == a.functions@[f as int].graph,
            g.wf(),
            forall|q: int| 0 <= q < outs.len() ==> #[trigger] outs@[q] < g.outputs.len(),
            k <= outs.len(),
            cache.len() == g.outputs.len(),
            path@ == path0,
            path0 == old(path)@,
            path0.len() == g.nodes.len(),
            trail_ok(*g, path0, trail),
            trail.len() > 0,
            forall|q: int| 0 <= q < outs.len() ==> #[trigger] g.outputs@[outs@[q] as int].node == trail.last(),
            nf + trail.len() >= g.nodes.len(),
            stack@ == stack0,
            stack0 == old(stack)@,
            stack0.len() == a.functions.len(),
            c0 == cache_view(old(cache)@),
            whole == branch_scripts(*a, f, outs@, 0, Seq::empty(), c0, path0, stack0, ff as nat, nf as nat),
            whole == branch_scripts(*a, f, outs@, k as nat, strs(acc@), cache_view(cache@), path0, stack0, ff as nat, nf as nat),
            log_ok(*g, cache_view(cache@), log@),
            grows(c0, cache_view(cache@)),
        decreases outs.len() - k,
    {
        let o = outs[k];
        if g.outputs[o].typ != MyDataType::Execution {
            k += 1;
        } else {
            match find_first_target(g, o) {
                None => {
                    let e = String::new();
                    proof {
                        assert(strs(acc@.push(e)) =~= strs(acc@).push(Seq::empty()));
                    }
                    acc.push(e);
                    k += 1;
                },
                Some(i) => {
                    let tn = g.inputs[i].node;
                    if path[tn] || nf == 0 {
                        proof {
                            if !path@[tn as int] {
                                lemma_room(trail, g.nodes.len() as nat, tn);
                            }
                            assert(trail.contains(tn));
                            let j = choose|j: int| 0 <= j < trail.len() && trail[j] == tn;
                            let s = trail.subrange(j, trail.len() as int);
                            assert forall|t: int| 0 <= t < s.len() - 1 implies #[trigger] feeds(*g, s[t], s[t + 1]) by {
                                assert(feeds(*g, trail[j + t], trail[j + t + 1]));
                            }
                            assert(is_path(*g, s) && s[0] == g.inputs@[i as int].node && s.last() == g.outputs@[o as int].node);
                            assert(cycle_of(a.functions@[f as int].graph, CompileError::CycleDetected { output: o, input: i }));
                        }
                        return Err(CompileError::CycleDetected { output: o, input: i });
                    }
                    let ghost cb = cache_view(cache@);
                    let ghost trail1 = trail.push(tn);
                    path.set(tn, true);
                    proof {
                        assert(!trail.contains(tn));
                        assert forall|x: int| 0 <= x < path@.len() implies (#[trigger] path@[x] <==> trail1.contains(x as usize)) by {
                            if trail1.contains(x as usize) && x != tn {
                                let q = choose|q: int| 0 <= q < trail1.len() && trail1[q] == x as usize;
                                assert(trail[q] == x as usize);
                            }
                            if trail.contains(x as usize) {
                                let q = choose|q: int| 0 <= q < trail.len() && trail[q] == x as usize;
                                assert(trail1[q] == x as usize);
                            }
                            if x == tn {
                                assert(trail1[trail.len() as int] == tn);
                            }
                        }
                        assert(joins(*g, i as int, trail.last(), tn));
                        assert forall|q: int| 0 <= q < trail1.len() - 1 implies #[trigger] feeds(*g, trail1[q], trail1[q + 1]) by {
                            if q < trail.len() - 1 {
                                assert(feeds(*g, trail[q], trail[q + 1]));
                            } else {
                                assert(feeds(*g, trail.last(), tn));
                            }
                        }
                        assert(trail_ok(*g, path@, trail1));
                    }
                    let r = evaluate_function(a, f, tn, cache, path, stack, log, ff, nf - 1, Ghost(trail1));
                    path.set(tn, false);
                    proof {
                        assert(path@ =~= path0);
                    }
                    match r {
                        Ok(s) => {
                            proof {
                                assert(strs(acc@.push(s)) =~= strs(acc@).push(s@));
                            }
                            acc.push(s);
                            k += 1;
                        },
                        Err(e) => {
                            return Err(e);
                        },
                    }
                },
            }
        }
    }
    Ok(acc)
}

/// The inlined body of the function that a node of kind `t` calls; empty for other kinds.
/// `stack` marks the functions being inlined.
fn evaluate_callee(a: &AppState, t: MyNodeTemplate, stack: &mut Vec<bool>, ff: usize) -> (r: Result<String, CompileError>)
    requires
        a.wf(),
        old(stack).len() == a.functions.len(),
    ensures
        final(stack)@ == old(stack)@,
        agrees_text(r, callee_script(*a, t, old(stack)@, ff as nat)),
        r matches Err(e) ==> cycle_in(*a, e),
    decreases ff, 0nat, 0nat, 0nat,
{
    match t {
        MyNodeTemplate::Function(None) => Err(CompileError::UnknownFunctionReference),
        MyNodeTemplate::Function(Some(cf)) => {
            if cf >= a.functions.len() {
                return Err(CompileError::UnknownFunctionReference);
            }
            if stack[cf] || ff == 0 {
                return Err(CompileError::RecursiveFunctionDisabled);
            }
            let cg = &a.functions[cf].graph;
            proof {
                assert(cg.wf());
            }
            match find_first_entry(cg) {
                None => Ok(String::new()),
                Some(e) => {
                    let mut cache = empty_cache_vec(cg.outputs.len());
                    let mut path = unmarked_vec(cg.nodes.len());
                    path.set(e, true);
                    let mut log: Vec<NodeId> = Vec::new();
                    let ghost stack0 = stack@;
                    stack.set(cf, true);
                    proof {
                        assert forall|x: int| 0 <= x < path@.len() implies (#[trigger] path@[x] <==> seq![e].contains(x as usize)) by {
                            if x == e {
                                assert(seq![e][0] == e);
                            }
                        }
                        assert(trail_ok(*cg, path@, seq![e]));
                    }
                    let ghost first = seq![e];
                    let r = evaluate_function(a, cf, e, &mut cache, &mut path, stack, &mut log, ff - 1, cg.nodes.len(), Ghost(first));
                    stack.set(cf, false);
                    proof {
                        assert(stack@ =~= stack0);
                    }
                    r
                },
            }
        },
        _ => Ok(String::new()),
    }
}

/// `x`, counted up to two.
pub open spec fn min2(x: nat) -> nat {
    if x < 2 { x } else { 2 }
}

/// The number of Enter nodes among `nodes`, counted up to two.
fn count_enter_nodes(nodes: &Vec<Node>) -> (r: usize)
    ensures
        r == min2(enter_count(nodes@)),
{
    let mut c: usize = 0;
    let mut k: usize = 0;
    while k < nodes.len()
        invariant
            k <= nodes.len(),
            c == min2(enter_count(nodes@.take(k as int))),
        decreases nodes.len() - k,
    {
        assert(nodes@.take(k as int + 1).drop_last() =~= nodes@.take(k as int));
        if nodes[k].user_data.template == MyNodeTemplate::Enter {
            c = if c < 2 { c + 1 } else { 2 };
        }
        k += 1;
    }
    assert(nodes@.take(nodes.len() as int) =~= nodes@);
    c
}

/// The number of Enter nodes over all the functions, counted up to two.
fn count_enter_functions(fs: &Vec<GraphFunction>) -> (r: usize)
    ensures
        r == min2(total_enter_count(fs@)),
{
    let mut c: usize = 0;
    let mut k: usize = 0;
    while k < fs.len()
        invariant
            k <= fs.len(),
            c == min2(total_enter_count(fs@.take(k as int))),
        decreases fs.len() - k,
    {
        assert(fs@.take(k as int + 1).drop_last() =~= fs@.take(k as int));
        let d = count_enter_nodes(&fs[k].graph.nodes);
        c = if c + d < 2 { c + d } else { 2 };
        k += 1;
    }
    assert(fs@.take(fs.len() as int) =~= fs@);
    c
}

proof fn lemma_no_enter(nodes: Seq<Node>)
    requires
        forall|k: int| 0 <= k < nodes.len() ==> (#[trigger] nodes[k]).user_data.template != MyNodeTemplate::Enter,
    ensures
        enter_count(nodes) == 0,
    decreases nodes.len(),
{
    if nodes.len() > 0 {
        lemma_no_enter(nodes.drop_last());
    }
}

/// The index of the first Enter node of `nodes`, which holds one.
fn find_first_enter(nodes: &Vec<Node>) -> (r: usize)
    requires
        enter_count(nodes@) > 0,
    ensures
        r == first_enter(nodes@, 0),
        r < nodes.len(),
{
    let mut k: usize = 0;
    while k < nodes.len()
        invariant
            k <= nodes.len(),
            first_enter(nodes@, 0) == first_enter(nodes@, k as nat),
            forall|q: int| 0 <= q < k ==> (#[trigger] nodes@[q]).user_data.template != MyNodeTemplate::Enter,
        decreases nodes.len() - k,
    {
        if nodes[k].user_data.template == MyNodeTemplate::Enter {
            return k;
        }
        k += 1;
    }
    proof {
        lemma_no_enter(nodes@);
    }
    0
}

/// Whether some function's graph holds a node that calls that same function.
fn find_self_call(a: &AppState) -> (r: bool)
    ensures
        r == has_self_call(*a),
{
    let mut f: usize = 0;
    while f < a.functions.len()
        invariant
            f <= a.functions.len(),
            forall|g: int, n: int|
                0 <= g < f && 0 <= n < a.functions@[g].graph.nodes.len() ==> (#[trigger] a.functions@[g].graph.nodes@[n]).user_data.template
                    != MyNodeTemplate::Function(Some(g as usize)),
        decreases a.functions.len() - f,
    {
        let nodes = &a.functions[f].graph.nodes;
        let mut n: usize = 0;
        while n < nodes.len()
            invariant
                f < a.functions.len(),
                *nodes == a.functions@[f as int].graph.nodes,
                n <= nodes.len(),
                forall|m: int| 0 <= m < n ==> (#[trigger] nodes@[m]).user_data.template != MyNodeTemplate::Function(Some(f)),
            decreases nodes.len() - n,
        {
            if nodes[n].user_data.template == MyNodeTemplate::Function(Some(f)) {
                return true;
            }
            n += 1;
        }
        f += 1;
    }
    false
}

/// The declarations of Main's variables; an Execution-typed variable contributes no text.
fn make_prelude(vs: &Vec<Variable>) -> (r: String)
    ensures
        r@ == local_decls(variable_names(declared_variables(vs@)), variable_literals(declared_variables(vs@))),
{
    let mut names: Vec<String> = Vec::new();
    let mut vals: Vec<String> = Vec::new();
    let mut k: usize = 0;
    while k < vs.len()
        invariant
            k <= vs.len(),
            names.len() == declared_variables(vs@.take(k as int)).len(),
            vals.len() == names.len(),
            strs(names@) == variable_names(declared_variables(vs@.take(k as int))),
            strs(vals@) == variable_literals(declared_variables(vs@.take(k as int))),
        decreases vs.len() - k,
    {
        let ghost n0 = names@;
        let ghost v0 = vals@;
        let ghost d0 = declared_variables(vs@.take(k as int));
        assert(vs@.take(k as int + 1).drop_last() =~= vs@.take(k as int));
        assert(vs@.take(k as int + 1).last() == vs@[k as int]);
        if !matches!(vs[k].value, VariableValue::Execution) {
            names.push(vs[k].name.clone());
            vals.push(vs[k].value.render_literal());
            proof {
                let d1 = declared_variables(vs@.take(k as int + 1));
                assert(d1 == d0.push(vs@[k as int]));
                assert forall|j: int| 0 <= j < d1.len() implies strs(names@)[j] == variable_names(d1)[j] by {
                    if j < d0.len() {
                        assert(strs(n0)[j] == variable_names(d0)[j]);
                    }
                }
                assert forall|j: int| 0 <= j < d1.len() implies strs(vals@)[j] == variable_literals(d1)[j] by {
                    if j < d0.len() {
                        assert(strs(v0)[j] == variable_literals(d0)[j]);
                    }
                }
                assert(strs(names@) =~= variable_names(d1));
                assert(strs(vals@) =~= variable_literals(d1));
            }
        }
        k += 1;
    }
    assert(vs@.take(vs.len() as int) =~= vs@);
    let mut r = String::new();
    append_local_decls(&mut r, &names, &vals);
    r
}

/// Compiles the catalog into a script, as `compile` does, and also returns the data nodes
/// of Main whose expression was computed, in the order they were computed. No node occurs
/// twice there: a data node is evaluated at most once per compile, however many inputs its
/// outputs feed.
pub fn compile_traced(app_state: &AppState, config: &CompileConfig) -> (r: Result<(String, Vec<NodeId>), CompileError>)
    requires
        app_state.wf(),
    ensures
        match compile_result(*app_state, *config) {
            Ok(s) => r matches Ok((t, _)) && t@ == s,
            Err(e) => r == Err::<(String, Vec<NodeId>), CompileError>(e),
        },
        r matches Ok((_, log)) ==> {
            &&& forall|a: int, b: int| 0 <= a < b < log.len() ==> log@[a] != log@[b]
            &&& forall|a: int| 0 <= a < log.len() ==> #[trigger] log@[a]
                < app_state.functions@[app_state.main_graph_id as int].graph.nodes.len()
                && is_data_kind(app_state.functions@[app_state.main_graph_id as int].graph.nodes@[log@[a] as int].user_data.template)
        },
        r matches Err(e) ==> cycle_in(*app_state, e),
{
    let total = count_enter_functions(&app_state.functions);
    if total == 0 {
        return Err(CompileError::MissingEnterNode);
    }
    if total > 1 {
        return Err(CompileError::MultipleEnterNodes);
    }
    let main = app_state.main_graph_id;
    let mf = &app_state.functions[main];
    if count_enter_nodes(&mf.graph.nodes) == 0 {
        return Err(CompileError::EnterInFunction);
    }
    if config.disable_recursive_functions && find_self_call(app_state) {
        return Err(CompileError::RecursiveFunctionDisabled);
    }
    let g = &mf.graph;
    proof {
        assert(g.wf());
    }
    let e = find_first_enter(&g.nodes);
    let mut cache = empty_cache_vec(g.outputs.len());
    let mut path = unmarked_vec(g.nodes.len());
    path.set(e, true);
    let mut stack = unmarked_vec(app_state.functions.len());
    stack.set(main, true);
    let mut log: Vec<NodeId> = Vec::new();
    proof {
        assert forall|x: int| 0 <= x < path@.len() implies (#[trigger] path@[x] <==> seq![e].contains(x as usize)) by {
            if x == e {
                assert(seq![e][0] == e);
            }
        }
        assert(trail_ok(*g, path@, seq![e]));
    }
    let ghost first = seq![e];
    let body = match evaluate_function(
        app_state,
        main,
        e,
        &mut cache,
        &mut path,
        &mut stack,
        &mut log,
        app_state.functions.len(),
        g.nodes.len(),
        Ghost(first),
    ) {
        Ok(b) => b,
        Err(err) => {
            return Err(err);
        },
    };
    let mut result = make_prelude(&mf.variables_list);
    result.append(" ");
    result.append(body.as_str());
    Ok((result, log))
}

/// Compiles the catalog into a script: the declarations of Main's variables followed by
/// the script walked from Main's Enter node.
///
/// Fails when there is no Enter node, more than one, or one outside Main; when recursion is
/// disabled and a function calls itself; and with the first error met while generating. A
/// `CycleDetected` error names a connection that closes a cycle: the node owning its input
/// reaches, through connections, the node owning its output.
pub fn compile(app_state: &AppState, config: &CompileConfig) -> (r: Result<String, CompileError>)
    requires
        app_state.wf(),
    ensures
        agrees_text(r, compile_result(*app_state, *config)),
        total_enter_count(app_state.functions@) == 0 ==> r == Err::<String, CompileError>(CompileError::MissingEnterNode),
        total_enter_count(app_state.functions@) > 1 ==> r == Err::<String, CompileError>(CompileError::MultipleEnterNodes),
        total_enter_count(app_state.functions@) == 1 && enter_count(app_state.functions@[app_state.main_graph_id as int].graph.nodes@) == 0
            ==> r == Err::<String, CompileError>(CompileError::EnterInFunction),
        r matches Err(e) ==> cycle_in(*app_state, e),
{
    match compile_traced(app_state, config) {
        Ok((s, _)) => Ok(s),
        Err(e) => Err(e),
    }
}

/// Compiling an unmodified catalog twice gives the same outcome: two results that each
/// agree with what compiling the same catalog with the same settings yields are the same
/// script, character for character, or the same error.
pub proof fn compile_is_idempotent(
    a: AppState,
    cfg: CompileConfig,
    r1: Result<String, CompileError>,
    r2: Result<String, CompileError>,
)
    requires
        agrees_text(r1, compile_result(a, cfg)),
        agrees_text(r2, compile_result(a, cfg)),
    ensures
        match r1 {
            Ok(s1) => r2 matches Ok(s2) && s1@ == s2@,
            Err(e) => r2 == Err::<String, CompileError>(e),
        },
{
}

} // verus!
