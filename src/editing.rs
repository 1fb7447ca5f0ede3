//! Editing the catalog: creating functions with a signature, renaming and removing
//! functions and variables, with names kept unique.
use vstd::prelude::*;

use crate::functions::{AppState, FunctionIO, FunctionId, GraphFunction, Variable};
use crate::graph::Graph;
use crate::nodes::MyNodeTemplate;
use crate::types::VariableValue;
use crate::utils::{first_free_candidate, names_of, underscored, uniquify_name};

verus! {

/// A function being defined: its name and signature.
pub struct CreateFunctionDialog {
    pub name: String,
    pub input: Vec<FunctionIO>,
    pub output: Vec<FunctionIO>,
}

/// A new signature entry named uniquely after `base` among `list`.
fn new_entry(base: &str, list: &Vec<FunctionIO>) -> (r: FunctionIO)
    ensures
        first_free_candidate(underscored(base@), names_of(list@), r.name@),
        r.value == VariableValue::Boolean(true),
{
    FunctionIO { name: uniquify_name(String::from_str(base), list), value: VariableValue::Boolean(true) }
}

/// `list` with entry `k` renamed uniquely after `name` among the entries as they were.
fn rename_entry(list: &mut Vec<FunctionIO>, k: usize, name: String)
    requires
        k < old(list).len(),
    ensures
        final(list).len() == old(list).len(),
        first_free_candidate(underscored(name@), names_of(old(list)@), final(list)@[k as int].name@),
        final(list)@[k as int].value == old(list)@[k as int].value,
        forall|j: int| 0 <= j < final(list).len() && j != k ==> #[trigger] final(list)@[j] == old(list)@[j],
{
    let unique = uniquify_name(name, list);
    let mut e = list.remove(k);
    e.name = unique;
    list.insert(k, e);
}

impl Default for CreateFunctionDialog {
    fn default() -> (r: CreateFunctionDialog)
        ensures
            r.name@ == "new_function"@,
            r.input.len() == 0,
            r.output.len() == 0,
    {
        CreateFunctionDialog::new()
    }
}

impl CreateFunctionDialog {
    /// A dialog for a function named `new_function`, with an empty signature.
    pub fn new() -> (r: CreateFunctionDialog)
        ensures
            r.name@ == "new_function"@,
            r.input.len() == 0,
            r.output.len() == 0,
    {
        CreateFunctionDialog { name: String::from_str("new_function"), input: Vec::new(), output: Vec::new() }
    }

    /// Adds a boolean input named uniquely after `new_input`.
    pub fn add_input(&mut self)
        ensures
            final(self).input@.len() == old(self).input@.len() + 1,
            final(self).input@.drop_last() == old(self).input@,
            first_free_candidate(underscored("new_input"@), names_of(old(self).input@), final(self).input@.last().name@),
            final(self).input@.last().value == VariableValue::Boolean(true),
            final(self).output@ == old(self).output@,
            final(self).name == old(self).name,
    {
        let e = new_entry("new_input", &self.input);
        self.input.push(e);
        assert(self.input@.drop_last() =~= old(self).input@);
    }

    /// Adds a boolean output named uniquely after `new_output`.
    pub fn add_output(&mut self)
        ensures
            final(self).output@.len() == old(self).output@.len() + 1,
            final(self).output@.drop_last() == old(self).output@,
            first_free_candidate(underscored("new_output"@), names_of(old(self).output@), final(self).output@.last().name@),
            final(self).output@.last().value == VariableValue::Boolean(true),
            final(self).input@ == old(self).input@,
            final(self).name == old(self).name,
    {
        let e = new_entry("new_output", &self.output);
        self.output.push(e);
        assert(self.output@.drop_last() =~= old(self).output@);
    }

    /// Renames input `k` uniquely after `name`.
    pub fn rename_input(&mut self, k: usize, name: String)
        requires
            k < old(self).input.len(),
        ensures
            final(self).input.len() == old(self).input.len(),
            first_free_candidate(underscored(name@), names_of(old(self).input@), final(self).input@[k as int].name@),
            final(self).input@[k as int].value == old(self).input@[k as int].value,
            forall|j: int| 0 <= j < final(self).input.len() && j != k ==> #[trigger] final(self).input@[j] == old(self).input@[j],
            final(self).output@ == old(self).output@,
    {
        rename_entry(&mut self.input, k, name);
    }

    /// Renames output `k` uniquely after `name`.
    pub fn rename_output(&mut self, k: usize, name: String)
        requires
            k < old(self).output.len(),
        ensures
            final(self).output.len() == old(self).output.len(),
            first_free_candidate(underscored(name@), names_of(old(self).output@), final(self).output@[k as int].name@),
            final(self).output@[k as int].value == old(self).output@[k as int].value,
            forall|j: int| 0 <= j < final(self).output.len() && j != k ==> #[trigger] final(self).output@[j] == old(self).output@[j],
            final(self).input@ == old(self).input@,
    {
        rename_entry(&mut self.output, k, name);
    }

    /// Removes input `k`.
    pub fn remove_input(&mut self, k: usize)
        requires
            k < old(self).input.len(),
        ensures
            final(self).input@ == old(self).input@.remove(k as int),
            final(self).output@ == old(self).output@,
    {
        self.input.remove(k);
    }

    /// Removes output `k`.
    pub fn remove_output(&mut self, k: usize)
        requires
            k < old(self).output.len(),
        ensures
            final(self).output@ == old(self).output@.remove(k as int),
            final(self).input@ == old(self).input@,
    {
        self.output.remove(k);
    }

    /// Adds the function being defined to `functions`, named uniquely after the dialog's
    /// name, with an empty graph and no variables, and returns its handle. The dialog is left
    /// empty.
    pub fn create_function(&mut self, functions: &mut Vec<GraphFunction>) -> (r: FunctionId)
        requires
            old(functions).len() < usize::MAX,
        ensures
            r == old(functions).len(),
            final(functions)@.drop_last() == old(functions)@,
            final(functions).len() == old(functions).len() + 1,
            first_free_candidate(underscored(old(self).name@), names_of(old(functions)@), final(functions)@[r as int].name@),
            final(functions)@[r as int].input@ == old(self).input@,
            final(functions)@[r as int].output@ == old(self).output@,
            final(functions)@[r as int].variables_list.len() == 0,
            final(functions)@[r as int].graph.wf(),
            final(functions)@[r as int].graph.nodes.len() == 0,
            final(functions)@[r as int].removable,
            final(functions)@[r as int].modifiable_name,
            final(self).name@.len() == 0,
            final(self).input.len() == 0,
            final(self).output.len() == 0,
    {
        let name = uniquify_name(self.name.clone(), functions);
        let mut input: Vec<FunctionIO> = Vec::new();
        let mut output: Vec<FunctionIO> = Vec::new();
        std::mem::swap(&mut input, &mut self.input);
        std::mem::swap(&mut output, &mut self.output);
        self.name = String::new();
        let r = functions.len();
        functions.push(GraphFunction {
            graph: Graph::new(),
            name,
            removable: true,
            modifiable_name: true,
            variables_list: Vec::new(),
            input,
            output,
        });
        assert(functions@.drop_last() =~= old(functions)@);
        r
    }
}

/// `t` after function `f` is removed from the catalog: a call of `f` names no function, and
/// a call of a later function names it by its new handle.
pub open spec fn renumbered(t: MyNodeTemplate, f: FunctionId) -> MyNodeTemplate {
    match t {
        MyNodeTemplate::Function(Some(x)) => if x == f {
            MyNodeTemplate::Function(None)
        } else if x > f {
            MyNodeTemplate::Function(Some((x - 1) as usize))
        } else {
            t
        },
        _ => t,
    }
}

/// `g1` is `g0` with every node's kind renumbered after the removal of `f`.
pub open spec fn graph_renumbered(g0: Graph, g1: Graph, f: FunctionId) -> bool {
    &&& g1.nodes.len() == g0.nodes.len()
    &&& forall|n: int| 0 <= n < g0.nodes.len() ==> {
        &&& (#[trigger] g1.nodes@[n]).user_data.template == renumbered(g0.nodes@[n].user_data.template, f)
        &&& g1.nodes@[n].label@ == g0.nodes@[n].label@
        &&& g1.nodes@[n].inputs@ == g0.nodes@[n].inputs@
        &&& g1.nodes@[n].outputs@ == g0.nodes@[n].outputs@
    }
    &&& g1.inputs@ == g0.inputs@
    &&& g1.outputs@ == g0.outputs@
    &&& g1.connections@ == g0.connections@
}

fn renumber_template(t: MyNodeTemplate, f: FunctionId) -> (r: MyNodeTemplate)
    ensures
        r == renumbered(t, f),
{
    match t {
        MyNodeTemplate::Function(Some(x)) => if x == f {
            MyNodeTemplate::Function(None)
        } else if x > f {
            MyNodeTemplate::Function(Some(x - 1))
        } else {
            t
        },
        _ => t,
    }
}

/// Renumbers every call in `graph` after the removal of function `f`.
fn renumber_graph(graph: &mut Graph, f: FunctionId)
    requires
        old(graph).wf(),
    ensures
        final(graph).wf(),
        graph_renumbered(*old(graph), *final(graph), f),
{
    let mut n: usize = 0;
    while n < graph.nodes.len()
        invariant
            graph.wf(),
            n <= graph.nodes.len(),
            graph.nodes.len() == old(graph).nodes.len(),
            forall|m: int| 0 <= m < graph.nodes.len() ==> {
                &&& (#[trigger] graph.nodes@[m]).user_data.template == if m < n {
                    renumbered(old(graph).nodes@[m].user_data.template, f)
                } else {
                    old(graph).nodes@[m].user_data.template
                }
                &&& graph.nodes@[m].label@ == old(graph).nodes@[m].label@
                &&& graph.nodes@[m].inputs@ == old(graph).nodes@[m].inputs@
                &&& graph.nodes@[m].outputs@ == old(graph).nodes@[m].outputs@
            },
            graph.inputs@ == old(graph).inputs@,
            graph.outputs@ == old(graph).outputs@,
            graph.connections@ == old(graph).connections@,
        decreases graph.nodes.len() - n,
    {
        let t = renumber_template(graph.nodes[n].user_data.template, f);
        let label = graph.nodes[n].label.clone();
        graph.relabel_node(n, label, t.user_data());
        n += 1;
    }
}

impl AppState {
    /// Adds to the current function a boolean variable named uniquely after `new`.
    pub fn add_variable(&mut self)
        requires
            old(self).wf(),
        ensures
            final(self).wf(),
            final(self).functions.len() == old(self).functions.len(),
            forall|f: int| 0 <= f < final(self).functions.len() && f != old(self).current_function ==>
                #[trigger] final(self).functions@[f] == old(self).functions@[f],
            ({
                let c = old(self).current_function as int;
                let vs0 = old(self).functions@[c].variables_list@;
                let vs1 = final(self).functions@[c].variables_list@;
                &&& vs1.len() == vs0.len() + 1
                &&& vs1.drop_last() == vs0
                &&& first_free_candidate(underscored("new"@), names_of(vs0), vs1.last().name@)
                &&& vs1.last().value == VariableValue::Boolean(true)
                &&& vs1.last().removable
                &&& final(self).functions@[c].graph == old(self).functions@[c].graph
                &&& final(self).functions@[c].name == old(self).functions@[c].name
            }),
            final(self).current_function == old(self).current_function,
            final(self).main_graph_id == old(self).main_graph_id,
    {
        let c = self.current_function;
        let name = uniquify_name(String::from_str("new"), &self.functions[c].variables_list);
        let mut gf = self.functions.remove(c);
        gf.variables_list.push(Variable { name, value: VariableValue::Boolean(true), removable: true });
        self.functions.insert(c, gf);
        proof {
            assert(self.functions@ =~= old(self).functions@.update(c as int, self.functions@[c as int]));
            assert(self.functions@[c as int].variables_list@.drop_last() =~= old(self).functions@[c as int].variables_list@);
            assert forall|f: int| 0 <= f < self.functions.len() implies (#[trigger] self.functions@[f]).graph.wf() by {
                assert(old(self).functions@[f].graph.wf());
            }
        }
    }

    /// Removes variable `k` of the current function if it is removable, and says whether it
    /// did; otherwise nothing changes.
    pub fn remove_variable(&mut self, k: usize) -> (r: bool)
        requires
            old(self).wf(),
            k < old(self).functions@[old(self).current_function as int].variables_list.len(),
        ensures
            final(self).wf(),
            r == old(self).functions@[old(self).current_function as int].variables_list@[k as int].removable,
            !r ==> final(self).functions@ == old(self).functions@,
            final(self).functions.len() == old(self).functions.len(),
            forall|f: int| 0 <= f < final(self).functions.len() && f != old(self).current_function ==>
                #[trigger] final(self).functions@[f] == old(self).functions@[f],
            r ==> final(self).functions@[old(self).current_function as int].variables_list@
                == old(self).functions@[old(self).current_function as int].variables_list@.remove(k as int),
            final(self).functions@[old(self).current_function as int].graph == old(self).functions@[old(self).current_function as int].graph,
            final(self).current_function == old(self).current_function,
            final(self).main_graph_id == old(self).main_graph_id,
    {
        let c = self.current_function;
        if !self.functions[c].variables_list[k].removable {
            return false;
        }
        let mut gf = self.functions.remove(c);
        gf.variables_list.remove(k);
        self.functions.insert(c, gf);
        proof {
            assert(self.functions@ =~= old(self).functions@.update(c as int, self.functions@[c as int]));
            assert forall|f: int| 0 <= f < self.functions.len() implies (#[trigger] self.functions@[f]).graph.wf() by {
                assert(old(self).functions@[f].graph.wf());
            }
        }
        true
    }

    /// Renames variable `k` of the current function uniquely after `name` among the
    /// variables as they were.
    pub fn rename_variable(&mut self, k: usize, name: String)
        requires
            old(self).wf(),
            k < old(self).functions@[old(self).current_function as int].variables_list.len(),
        ensures
            final(self).wf(),
            final(self).functions.len() == old(self).functions.len(),
            forall|f: int| 0 <= f < final(self).functions.len() && f != old(self).current_function ==>
                #[trigger] final(self).functions@[f] == old(self).functions@[f],
            ({
                let c = old(self).current_function as int;
                let vs0 = old(self).functions@[c].variables_list@;
                let vs1 = final(self).functions@[c].variables_list@;
                &&& vs1.len() == vs0.len()
                &&& first_free_candidate(underscored(name@), names_of(vs0), vs1[k as int].name@)
                &&& vs1[k as int].value == vs0[k as int].value
                &&& forall|j: int| 0 <= j < vs1.len() && j != k ==> #[trigger] vs1[j] == vs0[j]
                &&& final(self).functions@[c].graph == old(self).functions@[c].graph
            }),
            final(self).current_function == old(self).current_function,
            final(self).main_graph_id == old(self).main_graph_id,
    {
        let c = self.current_function;
        let unique = uniquify_name(name, &self.functions[c].variables_list);
        let mut gf = self.functions.remove(c);
        let mut v = gf.variables_list.remove(k);
        v.name = unique;
        gf.variables_list.insert(k, v);
        self.functions.insert(c, gf);
        proof {
            assert(self.functions@ =~= old(self).functions@.update(c as int, self.functions@[c as int]));
            assert forall|f: int| 0 <= f < self.functions.len() implies (#[trigger] self.functions@[f]).graph.wf() by {
                assert(old(self).functions@[f].graph.wf());
            }
        }
    }

    /// Renames function `f` uniquely after `name` among the functions as they were, if its
    /// name may be changed, and says whether it did; otherwise nothing changes.
    pub fn rename_function(&mut self, f: FunctionId, name: String) -> (r: bool)
        requires
            old(self).wf(),
            f < old(self).functions.len(),
        ensures
            final(self).wf(),
            r == old(self).functions@[f as int].modifiable_name,
            !r ==> final(self).functions@ == old(self).functions@,
            final(self).functions.len() == old(self).functions.len(),
            forall|g: int| 0 <= g < final(self).functions.len() && g != f ==> #[trigger] final(self).functions@[g] == old(self).functions@[g],
            r ==> first_free_candidate(underscored(name@), names_of(old(self).functions@), final(self).functions@[f as int].name@),
            final(self).functions@[f as int].graph == old(self).functions@[f as int].graph,
            final(self).functions@[f as int].variables_list == old(self).functions@[f as int].variables_list,
            final(self).functions@[f as int].input == old(self).functions@[f as int].input,
            final(self).functions@[f as int].output == old(self).functions@[f as int].output,
            final(self).functions@[f as int].removable == old(self).functions@[f as int].removable,
            final(self).functions@[f as int].modifiable_name == old(self).functions@[f as int].modifiable_name,
            final(self).current_function == old(self).current_function,
            final(self).main_graph_id == old(self).main_graph_id,
    {
        if !self.functions[f].modifiable_name {
            return false;
        }
        let unique = uniquify_name(name, &self.functions);
        let mut gf = self.functions.remove(f);
        gf.name = unique;
        self.functions.insert(f, gf);
        proof {
            assert(self.functions@ =~= old(self).functions@.update(f as int, self.functions@[f as int]));
            assert forall|g: int| 0 <= g < self.functions.len() implies (#[trigger] self.functions@[g]).graph.wf() by {
                assert(old(self).functions@[g].graph.wf());
            }
        }
        true
    }

    /// Makes `f` the function being edited.
    pub fn select_function(&mut self, f: FunctionId)
        requires
            old(self).wf(),
            f < old(self).functions.len(),
        ensures
            final(self).wf(),
            final(self).current_function == f,
            final(self).functions@ == old(self).functions@,
            final(self).main_graph_id == old(self).main_graph_id,
    {
        self.current_function = f;
    }

    /// Removes function `f` if it is removable and not Main, and says whether it did;
    /// otherwise nothing changes. The handles of later functions move down by one, every
    /// call is renumbered accordingly (a call of `f` then names no function), and the last
    /// function becomes the one being edited.
    pub fn remove_function(&mut self, f: FunctionId) -> (r: bool)
        requires
            old(self).wf(),
            f < old(self).functions.len(),
        ensures
            final(self).wf(),
            r == (old(self).functions@[f as int].removable && f != old(self).main_graph_id),
            !r ==> final(self).functions@ == old(self).functions@ && final(self).main_graph_id == old(self).main_graph_id
                && final(self).current_function == old(self).current_function,
            r ==> final(self).functions.len() == old(self).functions.len() - 1,
            r ==> final(self).main_graph_id == if old(self).main_graph_id > f {
                (old(self).main_graph_id - 1) as usize
            } else {
                old(self).main_graph_id
            },
            r ==> final(self).current_function == final(self).functions.len() - 1,
            r ==> forall|g: int| 0 <= g < final(self).functions.len() ==> {
                let before = old(self).functions@.remove(f as int)[g];
                &&& graph_renumbered(before.graph, (#[trigger] final(self).functions@[g]).graph, f)
                &&& final(self).functions@[g].name == before.name
                &&& final(self).functions@[g].variables_list == before.variables_list
                &&& final(self).functions@[g].input == before.input
                &&& final(self).functions@[g].output == before.output
                &&& final(self).functions@[g].removable == before.removable
                &&& final(self).functions@[g].modifiable_name == before.modifiable_name
            },
    {
        if !self.functions[f].removable || f == self.main_graph_id {
            return false;
        }
        self.functions.remove(f);
        let ghost fs1 = self.functions@;
        proof {
            assert forall|g: int| 0 <= g < fs1.len() implies (#[trigger] fs1[g]).graph.wf() by {
                if g < f {
                    assert(old(self).functions@[g].graph.wf());
                } else {
                    assert(old(self).functions@[g + 1].graph.wf());
                }
            }
        }
        let mut g: usize = 0;
        while g < self.functions.len()
            invariant
                g <= self.functions.len(),
                self.functions.len() == fs1.len(),
                fs1 == old(self).functions@.remove(f as int),
                fs1.len() + 1 == old(self).functions.len(),
                self.main_graph_id == old(self).main_graph_id,
                old(self).main_graph_id < old(self).functions.len(),
                old(self).main_graph_id != f,
                forall|h: int| 0 <= h < fs1.len() ==> (#[trigger] fs1[h]).graph.wf(),
                forall|h: int| 0 <= h < self.functions.len() ==> {
                    &&& (#[trigger] self.functions@[h]).graph.wf()
                    &&& if h < g {
                        graph_renumbered(fs1[h].graph, self.functions@[h].graph, f)
                    } else {
                        self.functions@[h].graph == fs1[h].graph
                    }
                    &&& self.functions@[h].name == fs1[h].name
                    &&& self.functions@[h].variables_list == fs1[h].variables_list
                    &&& self.functions@[h].input == fs1[h].input
                    &&& self.functions@[h].output == fs1[h].output
                    &&& self.functions@[h].removable == fs1[h].removable
                    &&& self.functions@[h].modifiable_name == fs1[h].modifiable_name
                },
            decreases self.functions.len() - g,
        {
            let mut gf = self.functions.remove(g);
            renumber_graph(&mut gf.graph, f);
            self.functions.insert(g, gf);
            g += 1;
        }
        if self.main_graph_id > f {
            self.main_graph_id = self.main_graph_id - 1;
        }
        self.current_function = self.functions.len() - 1;
        true
    }
}

/// The functions a function node in the graph of `graph_id` may call: every function but
/// Main, and but `graph_id` itself when recursion is disabled.
pub open spec fn callable(f: int, graph_id: FunctionId, main_id: FunctionId, disable_recursive: bool) -> bool {
    f != main_id && !(disable_recursive && f == graph_id)
}

/// The functions of `functions` that a function node in the graph of `graph_id` may call,
/// in order.
pub fn function_choices(
    functions: &Vec<GraphFunction>,
    graph_id: FunctionId,
    main_id: FunctionId,
    disable_recursive: bool,
) -> (r: Vec<FunctionId>)
    ensures
        forall|k: int| 0 <= k < r.len() ==> #[trigger] r@[k] < functions.len() && callable(
            r@[k] as int,
            graph_id,
            main_id,
            disable_recursive,
        ),
        forall|f: int| 0 <= f < functions.len() && callable(f, graph_id, main_id, disable_recursive)
            ==> r@.contains(f as usize),
        forall|a: int, b: int| 0 <= a < b < r.len() ==> r@[a] < r@[b],
{
    let mut r: Vec<FunctionId> = Vec::new();
    let mut f: usize = 0;
    while f < functions.len()
        invariant
            f <= functions.len(),
            forall|k: int| 0 <= k < r.len() ==> #[trigger] r@[k] < f && callable(r@[k] as int, graph_id, main_id, disable_recursive),
            forall|g: int| 0 <= g < f && callable(g, graph_id, main_id, disable_recursive) ==> r@.contains(g as usize),
            forall|a: int, b: int| 0 <= a < b < r.len() ==> r@[a] < r@[b],
        decreases functions.len() - f,
    {
        if f != main_id && !(disable_recursive && f == graph_id) {
            let ghost r0 = r@;
            r.push(f);
            proof {
                assert(r@[r.len() - 1] == f);
                assert forall|g: int| 0 <= g < f + 1 && callable(g, graph_id, main_id, disable_recursive) implies r@.contains(g as usize) by {
                    if g < f {
                        assert(r0.contains(g as usize));
                        let k = choose|k: int| 0 <= k < r0.len() && r0[k] == g as usize;
                        assert(r@[k] == g as usize);
                    }
                }
            }
        }
        f += 1;
    }
    r
}

/// The first of `name`, `name_1`, `name_2`, ... (spaces turned into underscores) that no
/// function of the catalog is named.
pub fn uniquify_name_slot(input_name: String, slot: &Vec<GraphFunction>) -> (r: String)
    ensures
        first_free_candidate(underscored(input_name@), names_of(slot@), r@),
{
    uniquify_name(input_name, slot)
}

impl AppState {
    /// The catalog a session starts with: Main alone, neither removable nor renamable,
    /// declaring the string variable `Hello` ("World !") and the boolean `Hello_World` (true).
    pub fn initial() -> (r: AppState)
        ensures
            r.wf(),
            r.functions.len() == 1,
            r.main_graph_id == 0,
            r.current_function == 0,
            r.functions@[0].name@ == "Main"@,
            !r.functions@[0].removable,
            !r.functions@[0].modifiable_name,
            r.functions@[0].graph.nodes.len() == 0,
            r.functions@[0].variables_list.len() == 2,
            r.functions@[0].variables_list@[0].name@ == "Hello"@,
            r.functions@[0].variables_list@[0].value matches VariableValue::String(s) && s@ == "World !"@,
            r.functions@[0].variables_list@[1].name@ == "Hello_World"@,
            r.functions@[0].variables_list@[1].value == VariableValue::Boolean(true),
            r.functions@[0].input.len() == 0,
            r.functions@[0].output.len() == 0,
    {
        let mut main = GraphFunction::new(String::from_str("Main"));
        main.removable = false;
        main.modifiable_name = false;
        main.variables_list.push(Variable {
            name: String::from_str("Hello"),
            value: VariableValue::String(String::from_str("World !")),
            removable: true,
        });
        main.variables_list.push(Variable {
            name: String::from_str("Hello_World"),
            value: VariableValue::Boolean(true),
            removable: true,
        });
        let mut functions: Vec<GraphFunction> = Vec::new();
        functions.push(main);
        AppState { current_function: 0, functions, main_graph_id: 0 }
    }
}

} // verus!
