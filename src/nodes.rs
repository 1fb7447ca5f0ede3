//! Node kinds: their port shapes and their code-generation hooks.
use vstd::prelude::*;

use crate::functions::FunctionId;

verus! {

/// The kinds of node a graph can hold.
#[derive(Clone, Copy, Debug, PartialEq, Eq, Structural)]
pub enum MyNodeTemplate {
    Enter,
    Print,
    Ask,
    If,
    CategoryAdd,
    AddNumber,
    AddString,
    Function(Option<FunctionId>),
}

/// Data stored inside each node: the kind it was built from.
#[derive(Clone, Copy, Debug, PartialEq, Eq, Structural)]
pub struct MyNodeData {
    pub template: MyNodeTemplate,
}

/// The execution-port shape of a kind, with the names of its execution ports.
#[derive(Clone, Copy, Debug)]
pub enum NodeType {
    /// One execution input and one execution output.
    ExecutedAndExecute(&'static str, &'static str),
    /// Only an execution input.
    Executed(&'static str),
    /// Only an execution output.
    Execute(&'static str),
    /// No execution port: a pure expression node.
    Data,
}

/// How the text of a control node is joined with the scripts of its execution outputs.
#[derive(Clone, Copy, Debug, PartialEq, Eq, Structural)]
pub enum Composition {
    /// The node's own text, a space, then the script of its first execution output.
    Sequential,
    /// The node's own text embeds every branch; nothing is appended.
    Embedded,
}

/// Kinds that can replace one another in the editor.
#[derive(Clone, Copy, Debug, PartialEq, Eq, Structural)]
pub enum ShapeShiftCategory {
    Add,
}

/// The static description of a kind.
#[derive(Clone, Copy, Debug)]
pub struct NodeParams {
    pub node_type: NodeType,
    pub composition: Composition,
    pub label: &'static str,
    pub shape_shift_category: Option<ShapeShiftCategory>,
}

/// Data kinds are evaluated as expressions; every other kind is a control node.
pub open spec fn is_data_kind(t: MyNodeTemplate) -> bool {
    matches!(t, MyNodeTemplate::CategoryAdd | MyNodeTemplate::AddNumber | MyNodeTemplate::AddString)
}

/// Control kinds other than Enter: the kinds a called function's body can start with.
pub open spec fn is_entry_kind_spec(t: MyNodeTemplate) -> bool {
    !is_data_kind(t) && t != MyNodeTemplate::Enter
}

/// Whether a called function's body can start with a node of kind `t`.
pub fn is_entry_kind(t: MyNodeTemplate) -> (r: bool)
    ensures
        r == is_entry_kind_spec(t),
{
    !matches!(t, MyNodeTemplate::CategoryAdd | MyNodeTemplate::AddNumber | MyNodeTemplate::AddString | MyNodeTemplate::Enter)
}

/// The execution-port shape of kind `t`, with the names of its execution ports.
pub open spec fn has_shape(t: MyNodeTemplate, nt: NodeType) -> bool {
    match t {
        MyNodeTemplate::Enter => nt matches NodeType::Execute(x) && x@ == "Enter"@,
        MyNodeTemplate::If => nt matches NodeType::ExecutedAndExecute(a, b) && a@ == ""@ && b@ == "Continue"@,
        MyNodeTemplate::Print | MyNodeTemplate::Ask | MyNodeTemplate::Function(_) => nt matches NodeType::ExecutedAndExecute(
            a,
            b,
        ) && a@ == ""@ && b@ == ""@,
        MyNodeTemplate::CategoryAdd | MyNodeTemplate::AddNumber | MyNodeTemplate::AddString => nt is Data,
    }
}

pub open spec fn composition_of(t: MyNodeTemplate) -> Composition {
    match t {
        MyNodeTemplate::If => Composition::Embedded,
        _ => Composition::Sequential,
    }
}

/// The `k`-th branch script, or the empty script when there is none.
pub open spec fn branch(execs: Seq<Seq<char>>, k: int) -> Seq<char> {
    if 0 <= k < execs.len() { execs[k] } else { Seq::empty() }
}

/// ` (local n v)` for each name `n` and value `v`, in order.
pub open spec fn local_decls(names: Seq<Seq<char>>, vals: Seq<Seq<char>>) -> Seq<char>
    decreases names.len(),
{
    if names.len() == 0 {
        Seq::empty()
    } else {
        let k = names.len() - 1;
        local_decls(names.drop_last(), vals) + " (local "@ + names[k] + " "@ + vals[k] + ")"@
    }
}

/// The expression a data kind computes from its resolved operands; `None` when an operand
/// is missing.
pub open spec fn data_text(t: MyNodeTemplate, ops: Seq<Seq<char>>) -> Option<Seq<char>> {
    match t {
        MyNodeTemplate::AddNumber => if ops.len() >= 2 {
            Some("(+ "@ + ops[0] + " "@ + ops[1] + ")"@)
        } else {
            None
        },
        MyNodeTemplate::AddString => if ops.len() >= 2 {
            Some("(.. "@ + ops[0] + " "@ + ops[1] + ")"@)
        } else {
            None
        },
        _ => Some(Seq::empty()),
    }
}

/// The statement text of a control kind.
///
/// `temps` are the temporaries bound to the node's data outputs, `execs` the scripts of its
/// execution outputs, `ops` its resolved data operands. For a function call, `in_names` and
/// `out_names` are the names of its data inputs and outputs and `body` the callee's script.
/// `None` when a required operand is missing.
pub open spec fn statement_text(
    t: MyNodeTemplate,
    temps: Seq<Seq<char>>,
    execs: Seq<Seq<char>>,
    ops: Seq<Seq<char>>,
    in_names: Seq<Seq<char>>,
    out_names: Seq<Seq<char>>,
    body: Seq<char>,
) -> Option<Seq<char>> {
    match t {
        MyNodeTemplate::Print => if ops.len() >= 1 {
            Some("(io.write "@ + ops[0] + ")"@)
        } else {
            None
        },
        MyNodeTemplate::Ask => if ops.len() >= 1 && temps.len() >= 1 {
            Some("(io.write "@ + ops[0] + ") (local "@ + temps[0] + " (io.read))"@)
        } else {
            None
        },
        MyNodeTemplate::If => if ops.len() >= 1 {
            Some("(if (= "@ + ops[0] + " 1) (do "@ + branch(execs, 1) + ") (do "@ + branch(execs, 2)
                + ")) "@ + branch(execs, 0))
        } else {
            None
        },
        MyNodeTemplate::Function(_) => if in_names.len() == ops.len() && out_names.len() == temps.len() {
            Some(local_decls(in_names, ops) + body + local_decls(temps, out_names))
        } else {
            None
        },
        _ => Some(Seq::empty()),
    }
}

/// The script of a control node's subtree, from its own text and its branch scripts.
pub open spec fn composed(c: Composition, frag: Seq<char>, execs: Seq<Seq<char>>) -> Seq<char> {
    match c {
        Composition::Sequential => frag + " "@ + branch(execs, 0),
        Composition::Embedded => frag,
    }
}

pub fn branch_str(execs: &Vec<String>, k: usize) -> (r: &str)
    ensures
        r@ == branch(execs@.map_values(|s: String| s@), k as int),
{
    if k < execs.len() {
        execs[k].as_str()
    } else {
        proof {
            reveal_strlit("");
        }
        ""
    }
}

/// Appends ` (local n v)` for each name and value.
pub fn append_local_decls(out: &mut String, names: &Vec<String>, vals: &Vec<String>)
    requires
        vals.len() >= names.len(),
    ensures
        final(out)@ == old(out)@ + local_decls(
            names@.map_values(|s: String| s@),
            vals@.map_values(|s: String| s@),
        ),
{
    let ghost ns = names@.map_values(|s: String| s@);
    let ghost vs = vals@.map_values(|s: String| s@);
    let mut k: usize = 0;
    while k < names.len()
        invariant
            k <= names.len() <= vals.len(),
            ns == names@.map_values(|s: String| s@),
            vs == vals@.map_values(|s: String| s@),
            out@ == old(out)@ + local_decls(ns.take(k as int), vs),
        decreases names.len() - k,
    {
        proof {
            assert(ns.take(k as int + 1).drop_last() =~= ns.take(k as int));
        }
        out.append(" (local ");
        out.append(names[k].as_str());
        out.append(" ");
        out.append(vals[k].as_str());
        out.append(")");
        k += 1;
    }
    proof {
        assert(ns.take(names.len() as int) =~= ns);
    }
}

impl MyNodeTemplate {
    /// The static description of this kind.
    pub fn get_node_params(&self) -> (r: NodeParams)
        ensures
            has_shape(*self, r.node_type),
            r.composition == composition_of(*self),
            is_data_kind(*self) <==> r.node_type is Data,
            r.label@ == label_of(*self),
            r.shape_shift_category == shift_category(*self),
    {
        match self {
            MyNodeTemplate::Enter => NodeParams {
                shape_shift_category: None,
                node_type: NodeType::Execute("Enter"),
                composition: Composition::Sequential,
                label: "Enter",
            },
            MyNodeTemplate::Print => NodeParams {
                shape_shift_category: None,
                node_type: NodeType::ExecutedAndExecute("", ""),
                composition: Composition::Sequential,
                label: "Print",
            },
            MyNodeTemplate::Ask => NodeParams {
                shape_shift_category: None,
                node_type: NodeType::ExecutedAndExecute("", ""),
                composition: Composition::Sequential,
                label: "Ask",
            },
            MyNodeTemplate::If => NodeParams {
                shape_shift_category: None,
                node_type: NodeType::ExecutedAndExecute("", "Continue"),
                composition: Composition::Embedded,
                label: "If",
            },
            MyNodeTemplate::CategoryAdd => NodeParams {
                shape_shift_category: Some(ShapeShiftCategory::Add),
                node_type: NodeType::Data,
                composition: Composition::Sequential,
                label: "Add two types together",
            },
            MyNodeTemplate::AddNumber => NodeParams {
                shape_shift_category: Some(ShapeShiftCategory::Add),
                node_type: NodeType::Data,
                composition: Composition::Sequential,
                label: "Add Number",
            },
            MyNodeTemplate::AddString => NodeParams {
                shape_shift_category: Some(ShapeShiftCategory::Add),
                node_type: NodeType::Data,
                composition: Composition::Sequential,
                label: "Add String",
            },
            MyNodeTemplate::Function(_) => NodeParams {
                shape_shift_category: None,
                node_type: NodeType::ExecutedAndExecute("", ""),
                composition: Composition::Sequential,
                label: "Function",
            },
        }
    }

    /// Whether this kind is a data (expression) kind.
    pub fn is_data(&self) -> (r: bool)
        ensures
            r == is_data_kind(*self),
    {
        matches!(self, MyNodeTemplate::CategoryAdd | MyNodeTemplate::AddNumber | MyNodeTemplate::AddString)
    }

    /// The expression computed by a data kind from its resolved operands.
    pub fn evaluate_data(&self, inputs: &Vec<String>) -> (r: Option<String>)
        ensures
            r matches Some(s) ==> data_text(*self, inputs@.map_values(|s: String| s@)) == Some(s@),
            r is None ==> data_text(*self, inputs@.map_values(|s: String| s@)) is None,
    {
        let ghost ops = inputs@.map_values(|s: String| s@);
        match self {
            MyNodeTemplate::AddNumber | MyNodeTemplate::AddString => {
                if inputs.len() < 2 {
                    return None;
                }
                let mut s = if let MyNodeTemplate::AddNumber = self {
                    String::from_str("(+ ")
                } else {
                    String::from_str("(.. ")
                };
                s.append(inputs[0].as_str());
                s.append(" ");
                s.append(inputs[1].as_str());
                s.append(")");
                assert(ops[0] == inputs@[0]@ && ops[1] == inputs@[1]@);
                Some(s)
            },
            _ => Some(String::new()),
        }
    }

    /// The statement text of a control kind; see `statement_text`.
    pub fn compile_to(
        &self,
        temps: &Vec<String>,
        executions: &Vec<String>,
        filtered_inputs: &Vec<String>,
        in_names: &Vec<String>,
        out_names: &Vec<String>,
        body: &String,
    ) -> (r: Option<String>)
        ensures
            r matches Some(s) ==> statement_text(
                *self,
                temps@.map_values(|s: String| s@),
                executions@.map_values(|s: String| s@),
                filtered_inputs@.map_values(|s: String| s@),
                in_names@.map_values(|s: String| s@),
                out_names@.map_values(|s: String| s@),
                body@,
            ) == Some(s@),
            r is None ==> statement_text(
                *self,
                temps@.map_values(|s: String| s@),
                executions@.map_values(|s: String| s@),
                filtered_inputs@.map_values(|s: String| s@),
                in_names@.map_values(|s: String| s@),
                out_names@.map_values(|s: String| s@),
                body@,
            ) is None,
    {
        let ghost ops = filtered_inputs@.map_values(|s: String| s@);
        let ghost tv = temps@.map_values(|s: String| s@);
        match self {
            MyNodeTemplate::Print => {
                if filtered_inputs.len() < 1 {
                    return None;
                }
                let mut s = String::from_str("(io.write ");
                s.append(filtered_inputs[0].as_str());
                s.append(")");
                assert(ops[0] == filtered_inputs@[0]@);
                Some(s)
            },
            MyNodeTemplate::Ask => {
                if filtered_inputs.len() < 1 || temps.len() < 1 {
                    return None;
                }
                let mut s = String::from_str("(io.write ");
                s.append(filtered_inputs[0].as_str());
                s.append(") (local ");
                s.append(temps[0].as_str());
                s.append(" (io.read))");
                assert(ops[0] == filtered_inputs@[0]@ && tv[0] == temps@[0]@);
                Some(s)
            },
            MyNodeTemplate::If => {
                if filtered_inputs.len() < 1 {
                    return None;
                }
                let mut s = String::from_str("(if (= ");
                s.append(filtered_inputs[0].as_str());
                s.append(" 1) (do ");
                s.append(branch_str(executions, 1));
                s.append(") (do ");
                s.append(branch_str(executions, 2));
                s.append(")) ");
                s.append(branch_str(executions, 0));
                assert(ops[0] == filtered_inputs@[0]@);
                Some(s)
            },
            MyNodeTemplate::Function(_) => {
                if in_names.len() != filtered_inputs.len() || out_names.len() != temps.len() {
                    return None;
                }
                let mut s = String::new();
                append_local_decls(&mut s, in_names, filtered_inputs);
                s.append(body.as_str());
                append_local_decls(&mut s, temps, out_names);
                Some(s)
            },
            _ => Some(String::new()),
        }
    }
}

pub open spec fn label_of(t: MyNodeTemplate) -> Seq<char> {
    match t {
        MyNodeTemplate::Enter => "Enter"@,
        MyNodeTemplate::Print => "Print"@,
        MyNodeTemplate::Ask => "Ask"@,
        MyNodeTemplate::If => "If"@,
        MyNodeTemplate::CategoryAdd => "Add two types together"@,
        MyNodeTemplate::AddNumber => "Add Number"@,
        MyNodeTemplate::AddString => "Add String"@,
        MyNodeTemplate::Function(_) => "Function"@,
    }
}

/// The groups a kind is listed under in the node finder.
pub open spec fn categories_of(t: MyNodeTemplate) -> Seq<Seq<char>> {
    match t {
        MyNodeTemplate::AddString | MyNodeTemplate::AddNumber => Seq::empty(),
        MyNodeTemplate::CategoryAdd | MyNodeTemplate::If => seq!["Logic"@],
        MyNodeTemplate::Print | MyNodeTemplate::Ask => seq!["I/O"@],
        MyNodeTemplate::Enter | MyNodeTemplate::Function(_) => seq!["Special"@],
    }
}

/// Every kind the node finder offers, a function node naming no function yet.
pub open spec fn every_kind() -> Seq<MyNodeTemplate> {
    seq![
        MyNodeTemplate::Enter,
        MyNodeTemplate::Print,
        MyNodeTemplate::Ask,
        MyNodeTemplate::If,
        MyNodeTemplate::CategoryAdd,
        MyNodeTemplate::AddNumber,
        MyNodeTemplate::AddString,
        MyNodeTemplate::Function(None),
    ]
}

impl MyNodeTemplate {
    /// The label of this kind in the node finder.
    pub fn node_finder_label(&self) -> (r: &'static str)
        ensures
            r@ == label_of(*self),
    {
        self.get_node_params().label
    }

    /// The label of a node of this kind in the graph.
    pub fn node_graph_label(&self) -> (r: String)
        ensures
            r@ == label_of(*self),
    {
        String::from_str(self.node_finder_label())
    }

    /// The groups this kind is listed under in the node finder.
    pub fn node_finder_categories(&self) -> (r: Vec<&'static str>)
        ensures
            r@.map_values(|c: &'static str| c@) == categories_of(*self),
    {
        let mut r: Vec<&'static str> = Vec::new();
        match self {
            MyNodeTemplate::AddString | MyNodeTemplate::AddNumber => {},
            MyNodeTemplate::CategoryAdd | MyNodeTemplate::If => r.push("Logic"),
            MyNodeTemplate::Print | MyNodeTemplate::Ask => r.push("I/O"),
            MyNodeTemplate::Enter | MyNodeTemplate::Function(_) => r.push("Special"),
        }
        assert(r@.map_values(|c: &'static str| c@) =~= categories_of(*self));
        r
    }

    /// The data a new node of this kind stores.
    pub fn user_data(&self) -> (r: MyNodeData)
        ensures
            r.template == *self,
    {
        MyNodeData { template: *self }
    }
}

pub open spec fn shift_category(t: MyNodeTemplate) -> Option<ShapeShiftCategory> {
    match t {
        MyNodeTemplate::CategoryAdd | MyNodeTemplate::AddNumber | MyNodeTemplate::AddString => Some(ShapeShiftCategory::Add),
        _ => None,
    }
}

impl MyNodeTemplate {
    /// The kinds a node of this kind can be switched to in place: the kinds of its
    /// shape-shift category, in declaration order; none when it has no category.
    pub fn shape_shift_options(&self) -> (r: Vec<MyNodeTemplate>)
        ensures
            r@ == every_kind().filter(|k: MyNodeTemplate| shift_category(*self) is Some && shift_category(k) == shift_category(*self)),
    {
        let mine = self.get_node_params().shape_shift_category;
        let mut r: Vec<MyNodeTemplate> = Vec::new();
        if mine.is_some() {
            r.push(MyNodeTemplate::CategoryAdd);
            r.push(MyNodeTemplate::AddNumber);
            r.push(MyNodeTemplate::AddString);
        }
        proof {
            let keep = |k: MyNodeTemplate| shift_category(*self) is Some && shift_category(k) == shift_category(*self);
            reveal_with_fuel(Seq::<MyNodeTemplate>::filter, 9);
            assert(every_kind().filter(keep) =~= r@);
        }
        r
    }
}

/// The list of kinds the node finder offers.
pub struct AllMyNodeTemplates;

impl AllMyNodeTemplates {
    /// Every kind, in declaration order.
    pub fn all_kinds(&self) -> (r: Vec<MyNodeTemplate>)
        ensures
            r@ == every_kind(),
    {
        let mut r: Vec<MyNodeTemplate> = Vec::new();
        r.push(MyNodeTemplate::Enter);
        r.push(MyNodeTemplate::Print);
        r.push(MyNodeTemplate::Ask);
        r.push(MyNodeTemplate::If);
        r.push(MyNodeTemplate::CategoryAdd);
        r.push(MyNodeTemplate::AddNumber);
        r.push(MyNodeTemplate::AddString);
        r.push(MyNodeTemplate::Function(None));
        assert(r@ =~= every_kind());
        r
    }
}

} // verus!
