//! User functions: named sub-graphs with a signature and local variables, and the catalog
//! that holds them.
use vstd::prelude::*;

use crate::graph::Graph;
use crate::types::VariableValue;
use crate::utils::GetName;

verus! {

/// Handle of a function in an `AppState`'s catalog: its index there.
pub type FunctionId = usize;

/// One entry of a function's input or output signature.
pub struct FunctionIO {
    pub name: String,
    pub value: VariableValue,
}

/// A local variable declaration with its typed default.
pub struct Variable {
    pub name: String,
    pub value: VariableValue,
    pub removable: bool,
}

/// A named sub-graph with its signature and local variables.
pub struct GraphFunction {
    pub graph: Graph,
    pub name: String,
    pub removable: bool,
    pub modifiable_name: bool,
    pub variables_list: Vec<Variable>,
    pub input: Vec<FunctionIO>,
    pub output: Vec<FunctionIO>,
}

/// The function catalog: every function, the one being edited and the designated Main.
pub struct AppState {
    pub current_function: FunctionId,
    pub functions: Vec<GraphFunction>,
    pub main_graph_id: FunctionId,
}

impl GraphFunction {
    /// A function with an empty graph and no signature or variables.
    pub fn new(name: String) -> (r: GraphFunction)
        ensures
            r.graph.wf(),
            r.graph.nodes.len() == 0,
            r.name@ == name@,
            r.variables_list.len() == 0,
            r.input.len() == 0,
            r.output.len() == 0,
    {
        GraphFunction {
            graph: Graph::new(),
            name,
            removable: true,
            modifiable_name: true,
            variables_list: Vec::new(),
            input: Vec::new(),
            output: Vec::new(),
        }
    }
}

impl AppState {
    /// Main and the current function exist, and every graph is well formed.
    pub open spec fn wf(&self) -> bool {
        &&& self.main_graph_id < self.functions.len()
        &&& self.current_function < self.functions.len()
        &&& forall|f: int| 0 <= f < self.functions.len() ==> (#[trigger] self.functions@[f]).graph.wf()
    }

    /// Checks `wf`.
    pub fn is_well_formed(&self) -> (r: bool)
        ensures
            r == self.wf(),
    {
        if self.main_graph_id >= self.functions.len() || self.current_function >= self.functions.len() {
            return false;
        }
        let mut f: usize = 0;
        while f < self.functions.len()
            invariant
                f <= self.functions.len(),
                forall|g: int| 0 <= g < f ==> (#[trigger] self.functions@[g]).graph.wf(),
            decreases self.functions.len() - f,
        {
            if !self.functions[f].graph.is_well_formed() {
                return false;
            }
            f += 1;
        }
        true
    }
}

impl GetName for GraphFunction {
    open spec fn name_view(&self) -> Seq<char> {
        self.name@
    }

    fn get_name(&self) -> (r: String) {
        self.name.clone()
    }
}

impl GetName for FunctionIO {
    open spec fn name_view(&self) -> Seq<char> {
        self.name@
    }

    fn get_name(&self) -> (r: String) {
        self.name.clone()
    }
}

impl GetName for Variable {
    open spec fn name_view(&self) -> Seq<char> {
        self.name@
    }

    fn get_name(&self) -> (r: String) {
        self.name.clone()
    }
}

} // verus!
