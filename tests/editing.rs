use node_graph_compiler::editing::{function_choices, uniquify_name_slot, CreateFunctionDialog};
use node_graph_compiler::functions::{AppState, FunctionIO, GraphFunction};
use node_graph_compiler::graph::{Graph, InputParamKind};
use node_graph_compiler::nodes::MyNodeTemplate;
use node_graph_compiler::ports::assign_function;
use node_graph_compiler::types::{MyDataType, VariableValue};

fn three_functions() -> AppState {
    AppState {
        current_function: 0,
        functions: vec![
            GraphFunction::new("Main".to_string()),
            GraphFunction::new("f".to_string()),
            GraphFunction::new("g".to_string()),
        ],
        main_graph_id: 0,
    }
}

#[test]
fn dialog_adds_uniquely_named_entries() {
    let mut d = CreateFunctionDialog::new();
    assert_eq!(d.name, "new_function");
    d.add_input();
    d.add_input();
    d.add_output();
    let names: Vec<&str> = d.input.iter().map(|io| io.name.as_str()).collect();
    assert_eq!(names, vec!["new_input", "new_input_1"]);
    assert_eq!(d.output[0].name, "new_output");
    assert_eq!(d.input[1].value, VariableValue::Boolean(true));
}

#[test]
fn dialog_renames_and_removes_entries() {
    let mut d = CreateFunctionDialog::new();
    d.add_input();
    d.add_input();
    d.rename_input(1, "new input".to_string());
    assert_eq!(d.input[1].name, "new_input_2");
    d.rename_input(0, "count".to_string());
    assert_eq!(d.input[0].name, "count");
    d.remove_input(0);
    assert_eq!(d.input.len(), 1);
    assert_eq!(d.input[0].name, "new_input_2");
    d.add_output();
    d.rename_output(0, "res".to_string());
    assert_eq!(d.output[0].name, "res");
    d.remove_output(0);
    assert!(d.output.is_empty());
}

#[test]
fn dialog_creates_a_uniquely_named_function() {
    let mut functions = vec![GraphFunction::new("Main".to_string()), GraphFunction::new("new_function".to_string())];
    let mut d = CreateFunctionDialog::new();
    d.input.push(FunctionIO { name: "x".to_string(), value: VariableValue::Integer(1) });
    let id = d.create_function(&mut functions);
    assert_eq!(id, 2);
    assert_eq!(functions[2].name, "new_function_1");
    assert_eq!(functions[2].input.len(), 1);
    assert!(functions[2].removable && functions[2].modifiable_name);
    assert!(d.name.is_empty() && d.input.is_empty() && d.output.is_empty());
}

#[test]
fn variables_are_added_renamed_and_removed() {
    let mut app = three_functions();
    app.add_variable();
    app.add_variable();
    let names: Vec<&str> = app.functions[0].variables_list.iter().map(|v| v.name.as_str()).collect();
    assert_eq!(names, vec!["new", "new_1"]);
    app.rename_variable(1, "new".to_string());
    assert_eq!(app.functions[0].variables_list[1].name, "new_2");
    app.remove_variable(0);
    assert_eq!(app.functions[0].variables_list.len(), 1);
    assert_eq!(app.functions[0].variables_list[0].name, "new_2");
    assert!(app.functions[1].variables_list.is_empty());
}

#[test]
fn functions_are_renamed_and_selected() {
    let mut app = three_functions();
    app.rename_function(2, "f".to_string());
    assert_eq!(app.functions[2].name, "f_1");
    app.select_function(1);
    assert_eq!(app.current_function, 1);
}

#[test]
fn removing_a_function_renumbers_calls() {
    let mut app = three_functions();
    let mut g = Graph::new();
    let call_f = MyNodeTemplate::Function(Some(1)).create_node(&mut g, &app.functions);
    let call_g = MyNodeTemplate::Function(Some(2)).create_node(&mut g, &app.functions);
    app.functions[0].graph = g;
    app.remove_function(1);
    assert_eq!(app.functions.len(), 2);
    assert_eq!(app.functions[1].name, "g");
    assert_eq!(app.functions[0].graph.nodes[call_f].user_data.template, MyNodeTemplate::Function(None));
    assert_eq!(app.functions[0].graph.nodes[call_g].user_data.template, MyNodeTemplate::Function(Some(1)));
    assert_eq!(app.main_graph_id, 0);
    assert_eq!(app.current_function, 1);
    assert!(app.is_well_formed());
}

#[test]
fn choosable_functions_exclude_main_and_self() {
    let functions = three_functions().functions;
    assert_eq!(function_choices(&functions, 1, 0, true), vec![2]);
    assert_eq!(function_choices(&functions, 1, 0, false), vec![1, 2]);
}

#[test]
fn connecting_an_execution_output_moves_its_connection() {
    let mut g = Graph::new();
    let enter = MyNodeTemplate::Enter.create_node(&mut g, &Vec::new());
    let p = MyNodeTemplate::Print.create_node(&mut g, &Vec::new());
    let q = MyNodeTemplate::Print.create_node(&mut g, &Vec::new());
    let out = g.nodes[enter].outputs[0];
    g.connect(out, g.nodes[p].inputs[0]);
    g.connect(out, g.nodes[q].inputs[0]);
    assert_eq!(g.connection(g.nodes[p].inputs[0]), None);
    assert_eq!(g.connection(g.nodes[q].inputs[0]), Some(out));
}

#[test]
fn connecting_a_data_output_fans_out() {
    let mut g = Graph::new();
    let a = MyNodeTemplate::AddNumber.create_node(&mut g, &Vec::new());
    let b = MyNodeTemplate::AddNumber.create_node(&mut g, &Vec::new());
    let out = g.nodes[a].outputs[0];
    g.connect(out, g.nodes[b].inputs[0]);
    g.connect(out, g.nodes[b].inputs[1]);
    assert_eq!(g.connection(g.nodes[b].inputs[0]), Some(out));
    assert_eq!(g.connection(g.nodes[b].inputs[1]), Some(out));
}

#[test]
fn assigning_a_function_rebuilds_the_node() {
    let mut f = GraphFunction::new("sum".to_string());
    f.input = vec![FunctionIO { name: "a".to_string(), value: VariableValue::Integer(0) }];
    let functions = vec![GraphFunction::new("Main".to_string()), f];
    let mut g = Graph::new();
    let enter = MyNodeTemplate::Enter.create_node(&mut g, &functions);
    let call = MyNodeTemplate::Function(None).create_node(&mut g, &functions);
    let extra = g.add_input_param(
        call,
        "old".to_string(),
        MyDataType::Execution,
        node_graph_compiler::types::MyValueType::Execution { value: String::new() },
        InputParamKind::ConnectionOnly,
    );
    g.add_connection(g.nodes[enter].outputs[0], extra);
    assign_function(&mut g, call, Some(1), &functions);
    assert_eq!(g.connection(extra), None);
    assert_eq!(g.nodes[call].label, "Function sum");
    assert_eq!(g.nodes[call].user_data.template, MyNodeTemplate::Function(Some(1)));
    let names: Vec<String> = g.nodes[call].inputs.iter().map(|i| g.inputs[*i].name.clone()).collect();
    assert_eq!(names, vec![String::new(), "a".to_string()]);
    assert!(g.is_well_formed());
}

#[test]
fn shape_shift_and_inline_values() {
    assert_eq!(
        MyNodeTemplate::AddNumber.shape_shift_options(),
        vec![MyNodeTemplate::CategoryAdd, MyNodeTemplate::AddNumber, MyNodeTemplate::AddString]
    );
    assert!(MyNodeTemplate::Print.shape_shift_options().is_empty());
    assert!(!InputParamKind::ConnectionOnly.shows_inline_value());
    assert!(InputParamKind::ConstantOnly.shows_inline_value());
}

#[test]
fn default_dialog_and_slot_names() {
    let d = CreateFunctionDialog::default();
    assert_eq!(d.name, "new_function");
    assert!(d.input.is_empty() && d.output.is_empty());
    let functions = three_functions().functions;
    assert_eq!(uniquify_name_slot("g".to_string(), &functions), "g_1");
    assert_eq!(uniquify_name_slot("h i".to_string(), &functions), "h_i");
}

#[test]
fn initial_catalog_compiles_its_prelude() {
    let mut app = AppState::initial();
    assert!(app.is_well_formed());
    assert_eq!(app.functions[0].name, "Main");
    assert!(!app.functions[0].removable);
    let enter = MyNodeTemplate::Enter.create_node(&mut app.functions[0].graph, &Vec::new());
    assert_eq!(enter, 0);
    let config = node_graph_compiler::semantics::CompileConfig { disable_recursive_functions: true };
    assert_eq!(
        node_graph_compiler::compiler::compile(&app, &config),
        Ok(" (local Hello \"World !\") (local Hello_World true)  ".to_string())
    );
}

#[test]
fn flags_guard_removal_and_renaming() {
    let mut app = AppState::initial();
    assert!(!app.rename_function(0, "Other".to_string()));
    assert_eq!(app.functions[0].name, "Main");
    assert!(!app.remove_function(0));
    assert_eq!(app.functions.len(), 1);
    app.functions[0].variables_list[0].removable = false;
    assert!(!app.remove_variable(0));
    assert_eq!(app.functions[0].variables_list.len(), 2);
    assert!(app.remove_variable(1));
    assert_eq!(app.functions[0].variables_list.len(), 1);
    let mut three = three_functions();
    three.functions[2].removable = false;
    assert!(!three.remove_function(2));
    assert_eq!(three.functions.len(), 3);
    assert!(three.remove_function(1));
    assert_eq!(three.functions.len(), 2);
}
