use node_graph_compiler::compiler::{compile, compile_traced};
use node_graph_compiler::functions::{AppState, FunctionIO, GraphFunction, Variable};
use node_graph_compiler::graph::{Graph, NodeId};
use node_graph_compiler::nodes::MyNodeTemplate;
use node_graph_compiler::semantics::{CompileConfig, CompileError};
use node_graph_compiler::types::{MyValueType, VariableValue};

fn config() -> CompileConfig {
    CompileConfig { disable_recursive_functions: true }
}

fn catalog(functions: Vec<GraphFunction>) -> AppState {
    AppState { current_function: 0, functions, main_graph_id: 0 }
}

fn function_with(name: &str, graph: Graph) -> GraphFunction {
    let mut f = GraphFunction::new(name.to_string());
    f.graph = graph;
    f
}

fn node(graph: &mut Graph, t: MyNodeTemplate) -> NodeId {
    t.create_node(graph, &Vec::new())
}

fn set_string(graph: &mut Graph, node: NodeId, port: usize, text: &str) {
    let input = graph.nodes[node].inputs[port];
    graph.inputs[input].value = MyValueType::String { value: text.to_string() };
}

fn set_integer(graph: &mut Graph, node: NodeId, port: usize, value: i32) {
    let input = graph.nodes[node].inputs[port];
    graph.inputs[input].value = MyValueType::Integer { value };
}

#[test]
fn enter_then_print_hello() {
    let mut g = Graph::new();
    let enter = node(&mut g, MyNodeTemplate::Enter);
    let print = node(&mut g, MyNodeTemplate::Print);
    set_string(&mut g, print, 1, "hello");
    g.add_connection(g.nodes[enter].outputs[0], g.nodes[print].inputs[0]);
    let app = catalog(vec![function_with("Main", g)]);
    let script = compile(&app, &config()).unwrap();
    assert_eq!(script, "  (io.write \"hello\") ");
    assert_eq!(script.matches("io.write").count(), 1);
}

#[test]
fn ask_binds_a_temporary_that_print_reuses() {
    let mut g = Graph::new();
    let enter = node(&mut g, MyNodeTemplate::Enter);
    let ask = node(&mut g, MyNodeTemplate::Ask);
    let print = node(&mut g, MyNodeTemplate::Print);
    set_string(&mut g, ask, 1, "name?");
    g.add_connection(g.nodes[enter].outputs[0], g.nodes[ask].inputs[0]);
    g.add_connection(g.nodes[ask].outputs[0], g.nodes[print].inputs[0]);
    g.add_connection(g.nodes[ask].outputs[1], g.nodes[print].inputs[1]);
    let app = catalog(vec![function_with("Main", g)]);
    let script = compile(&app, &config()).unwrap();
    assert_eq!(script, "  (io.write \"name?\") (local var_0_2 (io.read)) (io.write var_0_2) ");
    let bind = script.find("(local var_0_2 (io.read))").unwrap();
    let write = script.find("(io.write var_0_2)").unwrap();
    assert!(bind < write);
    assert_eq!(script.matches("io.read").count(), 1);
}

#[test]
fn branch_embeds_both_arms() {
    let mut g = Graph::new();
    let enter = node(&mut g, MyNodeTemplate::Enter);
    let cond = node(&mut g, MyNodeTemplate::If);
    let yes = node(&mut g, MyNodeTemplate::Print);
    let no = node(&mut g, MyNodeTemplate::Print);
    set_integer(&mut g, cond, 1, 1);
    set_string(&mut g, yes, 1, "yes");
    set_string(&mut g, no, 1, "no");
    g.add_connection(g.nodes[enter].outputs[0], g.nodes[cond].inputs[0]);
    g.add_connection(g.nodes[cond].outputs[1], g.nodes[yes].inputs[0]);
    g.add_connection(g.nodes[cond].outputs[2], g.nodes[no].inputs[0]);
    let app = catalog(vec![function_with("Main", g)]);
    let script = compile(&app, &config()).unwrap();
    assert_eq!(script, "  (if (= 1 1) (do (io.write \"yes\") ) (do (io.write \"no\") )) ");
    assert!(script.trim_end().ends_with("))"));
    assert_eq!(script.matches("(if ").count(), 1);
}

#[test]
fn branch_continue_follows_the_conditional() {
    let mut g = Graph::new();
    let enter = node(&mut g, MyNodeTemplate::Enter);
    let cond = node(&mut g, MyNodeTemplate::If);
    let after = node(&mut g, MyNodeTemplate::Print);
    set_string(&mut g, after, 1, "done");
    g.add_connection(g.nodes[enter].outputs[0], g.nodes[cond].inputs[0]);
    g.add_connection(g.nodes[cond].outputs[0], g.nodes[after].inputs[0]);
    let app = catalog(vec![function_with("Main", g)]);
    let script = compile(&app, &config()).unwrap();
    assert_eq!(script, "  (if (= 0 1) (do ) (do )) (io.write \"done\") ");
}

#[test]
fn compiling_twice_gives_identical_script() {
    let mut g = Graph::new();
    let enter = node(&mut g, MyNodeTemplate::Enter);
    let ask = node(&mut g, MyNodeTemplate::Ask);
    let print = node(&mut g, MyNodeTemplate::Print);
    g.add_connection(g.nodes[enter].outputs[0], g.nodes[ask].inputs[0]);
    g.add_connection(g.nodes[ask].outputs[0], g.nodes[print].inputs[0]);
    g.add_connection(g.nodes[ask].outputs[1], g.nodes[print].inputs[1]);
    let app = catalog(vec![function_with("Main", g)]);
    let first = compile(&app, &config());
    let second = compile(&app, &config());
    assert_eq!(first, second);
    assert!(first.is_ok());
}

#[test]
fn no_enter_node_is_missing_enter() {
    let mut g = Graph::new();
    node(&mut g, MyNodeTemplate::Print);
    let app = catalog(vec![function_with("Main", g), function_with("other", Graph::new())]);
    assert_eq!(compile(&app, &config()), Err(CompileError::MissingEnterNode));
}

#[test]
fn two_enter_nodes_in_main() {
    let mut g = Graph::new();
    node(&mut g, MyNodeTemplate::Enter);
    node(&mut g, MyNodeTemplate::Enter);
    let app = catalog(vec![function_with("Main", g)]);
    assert_eq!(compile(&app, &config()), Err(CompileError::MultipleEnterNodes));
}

#[test]
fn enter_nodes_in_main_and_in_a_function_are_too_many() {
    let mut g = Graph::new();
    node(&mut g, MyNodeTemplate::Enter);
    let mut h = Graph::new();
    node(&mut h, MyNodeTemplate::Enter);
    let app = catalog(vec![function_with("Main", g), function_with("f", h)]);
    assert_eq!(compile(&app, &config()), Err(CompileError::MultipleEnterNodes));
}

#[test]
fn enter_node_in_a_function() {
    let mut h = Graph::new();
    node(&mut h, MyNodeTemplate::Enter);
    let app = catalog(vec![function_with("Main", Graph::new()), function_with("f", h)]);
    assert_eq!(compile(&app, &config()), Err(CompileError::EnterInFunction));
}

#[test]
fn diamond_evaluates_shared_source_once() {
    let mut g = Graph::new();
    let enter = node(&mut g, MyNodeTemplate::Enter);
    let print = node(&mut g, MyNodeTemplate::Print);
    let s = node(&mut g, MyNodeTemplate::AddNumber);
    let x = node(&mut g, MyNodeTemplate::AddNumber);
    let y = node(&mut g, MyNodeTemplate::AddNumber);
    let z = node(&mut g, MyNodeTemplate::AddNumber);
    set_integer(&mut g, s, 0, 1);
    set_integer(&mut g, s, 1, 2);
    set_integer(&mut g, x, 1, 3);
    set_integer(&mut g, y, 1, 4);
    g.add_connection(g.nodes[enter].outputs[0], g.nodes[print].inputs[0]);
    g.add_connection(g.nodes[z].outputs[0], g.nodes[print].inputs[1]);
    g.add_connection(g.nodes[s].outputs[0], g.nodes[x].inputs[0]);
    g.add_connection(g.nodes[s].outputs[0], g.nodes[y].inputs[0]);
    g.add_connection(g.nodes[x].outputs[0], g.nodes[z].inputs[0]);
    g.add_connection(g.nodes[y].outputs[0], g.nodes[z].inputs[1]);
    let app = catalog(vec![function_with("Main", g)]);
    let (script, log) = compile_traced(&app, &config()).unwrap();
    assert_eq!(log.iter().filter(|n| **n == s).count(), 1);
    assert_eq!(log, vec![s, x, y, z]);
    assert_eq!(script, "  (io.write (+ (+ (+ 1 2) 3) (+ (+ 1 2) 4))) ");
}

#[test]
fn self_feeding_node_reports_its_loop() {
    let mut g = Graph::new();
    let enter = node(&mut g, MyNodeTemplate::Enter);
    let print = node(&mut g, MyNodeTemplate::Print);
    let a = node(&mut g, MyNodeTemplate::AddNumber);
    g.add_connection(g.nodes[enter].outputs[0], g.nodes[print].inputs[0]);
    g.add_connection(g.nodes[a].outputs[0], g.nodes[print].inputs[1]);
    let out = g.nodes[a].outputs[0];
    let inp = g.nodes[a].inputs[0];
    g.add_connection(out, inp);
    let app = catalog(vec![function_with("Main", g)]);
    assert_eq!(compile(&app, &config()), Err(CompileError::CycleDetected { output: out, input: inp }));
}

#[test]
fn two_node_data_cycle_reports_the_closing_edge() {
    let mut g = Graph::new();
    let enter = node(&mut g, MyNodeTemplate::Enter);
    let print = node(&mut g, MyNodeTemplate::Print);
    let a = node(&mut g, MyNodeTemplate::AddString);
    let b = node(&mut g, MyNodeTemplate::AddString);
    g.add_connection(g.nodes[enter].outputs[0], g.nodes[print].inputs[0]);
    g.add_connection(g.nodes[a].outputs[0], g.nodes[print].inputs[1]);
    g.add_connection(g.nodes[b].outputs[0], g.nodes[a].inputs[1]);
    let out = g.nodes[a].outputs[0];
    let inp = g.nodes[b].inputs[0];
    g.add_connection(out, inp);
    let app = catalog(vec![function_with("Main", g)]);
    assert_eq!(compile(&app, &config()), Err(CompileError::CycleDetected { output: out, input: inp }));
}

#[test]
fn execution_loop_reports_the_closing_edge() {
    let mut callee = GraphFunction::new("f".to_string());
    callee.input = vec![FunctionIO { name: "again".to_string(), value: VariableValue::Execution }];
    let mut functions = vec![GraphFunction::new("Main".to_string()), callee];
    let mut g = Graph::new();
    let enter = node(&mut g, MyNodeTemplate::Enter);
    let call = MyNodeTemplate::Function(Some(1)).create_node(&mut g, &functions);
    let p = node(&mut g, MyNodeTemplate::Print);
    assert_eq!(g.nodes[call].inputs.len(), 2);
    g.add_connection(g.nodes[enter].outputs[0], g.nodes[call].inputs[0]);
    g.add_connection(g.nodes[call].outputs[0], g.nodes[p].inputs[0]);
    let out = g.nodes[p].outputs[0];
    let inp = g.nodes[call].inputs[1];
    g.add_connection(out, inp);
    functions[0].graph = g;
    let app = catalog(functions);
    assert_eq!(compile(&app, &config()), Err(CompileError::CycleDetected { output: out, input: inp }));
}

#[test]
fn prelude_declares_main_variables() {
    let mut g = Graph::new();
    node(&mut g, MyNodeTemplate::Enter);
    let mut main = function_with("Main", g);
    main.variables_list = vec![
        Variable { name: "Hello".to_string(), value: VariableValue::String("World !".to_string()), removable: true },
        Variable { name: "Hello_World".to_string(), value: VariableValue::Boolean(true), removable: true },
        Variable { name: "n".to_string(), value: VariableValue::Integer(-42), removable: true },
        Variable { name: "x".to_string(), value: VariableValue::Float("2.5".to_string()), removable: true },
        Variable { name: "go".to_string(), value: VariableValue::Execution, removable: true },
    ];
    let app = catalog(vec![main]);
    assert_eq!(
        compile(&app, &config()).unwrap(),
        " (local Hello \"World !\") (local Hello_World true) (local n -42) (local x 2.5)  "
    );
}

#[test]
fn function_call_is_inlined() {
    let mut callee_graph = Graph::new();
    let body = node(&mut callee_graph, MyNodeTemplate::Print);
    set_string(&mut callee_graph, body, 1, "in f");
    let mut callee = function_with("f", callee_graph);
    callee.input = vec![FunctionIO { name: "x".to_string(), value: VariableValue::Integer(5) }];
    callee.output = vec![FunctionIO { name: "y".to_string(), value: VariableValue::String(String::new()) }];
    let mut functions = vec![GraphFunction::new("Main".to_string()), callee];
    let mut g = Graph::new();
    let enter = node(&mut g, MyNodeTemplate::Enter);
    let call = MyNodeTemplate::Function(Some(1)).create_node(&mut g, &functions);
    let print = node(&mut g, MyNodeTemplate::Print);
    g.add_connection(g.nodes[enter].outputs[0], g.nodes[call].inputs[0]);
    g.add_connection(g.nodes[call].outputs[0], g.nodes[print].inputs[0]);
    g.add_connection(g.nodes[call].outputs[1], g.nodes[print].inputs[1]);
    functions[0].graph = g;
    let app = catalog(functions);
    assert_eq!(
        compile(&app, &config()).unwrap(),
        "   (local x 5)(io.write \"in f\")  (local var_0_2 y) (io.write var_0_2) "
    );
}

#[test]
fn self_calling_function_is_refused_when_disabled() {
    let mut g = Graph::new();
    node(&mut g, MyNodeTemplate::Enter);
    let mut h = Graph::new();
    node(&mut h, MyNodeTemplate::Function(Some(1)));
    let app = catalog(vec![function_with("Main", g), function_with("f", h)]);
    assert_eq!(compile(&app, &config()), Err(CompileError::RecursiveFunctionDisabled));
    let allowed = CompileConfig { disable_recursive_functions: false };
    assert_eq!(compile(&app, &allowed), Ok("  ".to_string()));
}

#[test]
fn recursive_inlining_is_refused() {
    let mut functions = vec![GraphFunction::new("Main".to_string()), GraphFunction::new("f".to_string())];
    let mut h = Graph::new();
    MyNodeTemplate::Function(Some(1)).create_node(&mut h, &functions);
    functions[1].graph = h;
    let mut g = Graph::new();
    let enter = node(&mut g, MyNodeTemplate::Enter);
    let call = MyNodeTemplate::Function(Some(1)).create_node(&mut g, &functions);
    g.add_connection(g.nodes[enter].outputs[0], g.nodes[call].inputs[0]);
    functions[0].graph = g;
    let app = catalog(functions);
    let allowed = CompileConfig { disable_recursive_functions: false };
    assert_eq!(compile(&app, &allowed), Err(CompileError::RecursiveFunctionDisabled));
}

#[test]
fn unknown_function_reference_fails() {
    let mut g = Graph::new();
    let enter = node(&mut g, MyNodeTemplate::Enter);
    let call = node(&mut g, MyNodeTemplate::Function(Some(7)));
    assert!(g.nodes[call].inputs.is_empty());
    let input = g.add_input_param(
        call,
        String::new(),
        node_graph_compiler::types::MyDataType::Execution,
        MyValueType::Execution { value: String::new() },
        node_graph_compiler::graph::InputParamKind::ConnectionOnly,
    );
    g.add_connection(g.nodes[enter].outputs[0], input);
    let app = catalog(vec![function_with("Main", g)]);
    assert_eq!(compile(&app, &config()), Err(CompileError::UnknownFunctionReference));
}

#[test]
fn print_without_operand_fails() {
    let mut g = Graph::new();
    let enter = node(&mut g, MyNodeTemplate::Enter);
    let print = g.add_node("Print".to_string(), MyNodeTemplate::Print.user_data());
    let input = g.add_input_param(
        print,
        String::new(),
        node_graph_compiler::types::MyDataType::Execution,
        MyValueType::Execution { value: String::new() },
        node_graph_compiler::graph::InputParamKind::ConnectionOnly,
    );
    g.add_connection(g.nodes[enter].outputs[0], input);
    let app = catalog(vec![function_with("Main", g)]);
    assert_eq!(compile(&app, &config()), Err(CompileError::MissingRequiredOperand));
}

#[test]
fn string_concatenation_of_literals() {
    let mut g = Graph::new();
    let enter = node(&mut g, MyNodeTemplate::Enter);
    let print = node(&mut g, MyNodeTemplate::Print);
    let cat = node(&mut g, MyNodeTemplate::AddString);
    set_string(&mut g, cat, 0, "a");
    set_string(&mut g, cat, 1, "b");
    g.add_connection(g.nodes[enter].outputs[0], g.nodes[print].inputs[0]);
    g.add_connection(g.nodes[cat].outputs[0], g.nodes[print].inputs[1]);
    let app = catalog(vec![function_with("Main", g)]);
    assert_eq!(compile(&app, &config()).unwrap(), "  (io.write (.. \"a\" \"b\")) ");
}
