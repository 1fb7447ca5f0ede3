use node_graph_compiler::functions::{AppState, FunctionIO, GraphFunction, Variable};
use node_graph_compiler::graph::{contains_id, Graph, InputParamKind};
use node_graph_compiler::nodes::{AllMyNodeTemplates, Composition, MyNodeTemplate};
use node_graph_compiler::types::{render_int, render_nat, InvalidCast, MyDataType, MyValueType, VariableValue};
use node_graph_compiler::utils::uniquify_name;

fn var(name: &str) -> Variable {
    Variable { name: name.to_string(), value: VariableValue::Boolean(false), removable: true }
}

fn strings(v: &[&str]) -> Vec<String> {
    v.iter().map(|s| s.to_string()).collect()
}

#[test]
fn uniquify_keeps_a_free_name() {
    assert_eq!(uniquify_name("count".to_string(), &vec![var("other")]), "count");
    let empty: Vec<Variable> = Vec::new();
    assert_eq!(uniquify_name("x".to_string(), &empty), "x");
}

#[test]
fn uniquify_replaces_spaces() {
    let empty: Vec<Variable> = Vec::new();
    assert_eq!(uniquify_name("my var name".to_string(), &empty), "my_var_name");
}

#[test]
fn uniquify_appends_the_first_free_suffix() {
    let taken = vec![var("a"), var("a_1"), var("a_3")];
    assert_eq!(uniquify_name("a".to_string(), &taken), "a_2");
    let functions = vec![GraphFunction::new("Main".to_string())];
    assert_eq!(uniquify_name("Main".to_string(), &functions), "Main_1");
    let ios = vec![FunctionIO { name: "in_put".to_string(), value: VariableValue::Execution }];
    assert_eq!(uniquify_name("in put".to_string(), &ios), "in_put_1");
}

#[test]
fn integers_render_in_decimal() {
    assert_eq!(render_nat(0), "0");
    assert_eq!(render_nat(1234567890), "1234567890");
    assert_eq!(render_int(-42), "-42");
    assert_eq!(render_int(7), "7");
    assert_eq!(render_int(i64::MIN), "-9223372036854775808");
}

#[test]
fn literals_render_by_type() {
    assert_eq!(MyValueType::String { value: "hi".to_string() }.render_literal(), "\"hi\"");
    assert_eq!(MyValueType::Integer { value: -3 }.render_literal(), "-3");
    assert_eq!(MyValueType::Float { text: "0.5".to_string() }.render_literal(), "0.5");
    assert_eq!(MyValueType::Boolean { value: false }.render_literal(), "false");
    assert_eq!(MyValueType::Execution { value: String::new() }.render_literal(), "");
    assert_eq!(VariableValue::Execution.render_literal(), "");
    assert_eq!(VariableValue::Integer(12).render_literal(), "12");
}

#[test]
fn value_casts() {
    assert_eq!(MyValueType::String { value: "s".to_string() }.try_to_string(), Ok("s".to_string()));
    assert_eq!(MyValueType::Integer { value: 4 }.try_to_integer(), Ok(4));
    assert_eq!(MyValueType::Float { text: "1.5".to_string() }.try_to_float(), Ok("1.5".to_string()));
    assert_eq!(MyValueType::Boolean { value: true }.try_to_bool(), Ok(true));
    assert_eq!(
        MyValueType::Integer { value: 4 }.try_to_bool(),
        Err(InvalidCast { found: MyDataType::Integer })
    );
    assert_eq!(
        MyValueType::Boolean { value: true }.try_to_string(),
        Err(InvalidCast { found: MyDataType::Boolean })
    );
}

#[test]
fn data_type_names_and_colours() {
    assert_eq!(MyDataType::Execution.name(), "Execution");
    assert_eq!(MyDataType::String.data_type_color(), (38, 109, 211));
    assert_eq!(VariableValue::Float("1".to_string()).data_type_label(), "Float");
}

#[test]
fn every_kind_is_offered() {
    let kinds = AllMyNodeTemplates.all_kinds();
    assert_eq!(kinds.len(), 8);
    assert_eq!(kinds[0], MyNodeTemplate::Enter);
    assert_eq!(kinds[7], MyNodeTemplate::Function(None));
}

#[test]
fn kind_labels_and_categories() {
    assert_eq!(MyNodeTemplate::AddNumber.node_finder_label(), "Add Number");
    assert_eq!(MyNodeTemplate::Ask.node_graph_label(), "Ask");
    assert_eq!(MyNodeTemplate::If.node_finder_categories(), vec!["Logic"]);
    assert!(MyNodeTemplate::AddString.node_finder_categories().is_empty());
    assert_eq!(MyNodeTemplate::Print.node_finder_categories(), vec!["I/O"]);
    assert!(matches!(MyNodeTemplate::If.get_node_params().composition, Composition::Embedded));
    assert!(matches!(MyNodeTemplate::Print.get_node_params().composition, Composition::Sequential));
    assert!(MyNodeTemplate::AddNumber.is_data());
    assert!(!MyNodeTemplate::Ask.is_data());
}

#[test]
fn data_hooks() {
    assert_eq!(MyNodeTemplate::AddNumber.evaluate_data(&strings(&["1", "2"])), Some("(+ 1 2)".to_string()));
    assert_eq!(MyNodeTemplate::AddString.evaluate_data(&strings(&["a", "b"])), Some("(.. a b)".to_string()));
    assert_eq!(MyNodeTemplate::AddNumber.evaluate_data(&strings(&["1"])), None);
}

#[test]
fn statement_hooks() {
    let none: Vec<String> = Vec::new();
    let empty = String::new();
    assert_eq!(
        MyNodeTemplate::Ask.compile_to(&strings(&["t"]), &none, &strings(&["\"q\""]), &none, &none, &empty),
        Some("(io.write \"q\") (local t (io.read))".to_string())
    );
    assert_eq!(MyNodeTemplate::Print.compile_to(&none, &none, &none, &none, &none, &empty), None);
    assert_eq!(
        MyNodeTemplate::If.compile_to(&none, &strings(&["c", "a", "b"]), &strings(&["x"]), &none, &none, &empty),
        Some("(if (= x 1) (do a) (do b)) c".to_string())
    );
    assert_eq!(
        MyNodeTemplate::Function(Some(0)).compile_to(
            &strings(&["t"]),
            &none,
            &strings(&["1"]),
            &strings(&["p"]),
            &strings(&["r"]),
            &"B".to_string()
        ),
        Some(" (local p 1)B (local t r)".to_string())
    );
}

#[test]
fn branch_node_ports() {
    let mut g = Graph::new();
    let n = MyNodeTemplate::If.create_node(&mut g, &Vec::new());
    let outs: Vec<String> = g.nodes[n].outputs.iter().map(|o| g.outputs[*o].name.clone()).collect();
    assert_eq!(outs, strings(&["Continue", "If", "Else"]));
    assert!(g.nodes[n].outputs.iter().all(|o| g.outputs[*o].typ == MyDataType::Execution));
    assert_eq!(g.nodes[n].inputs.len(), 2);
    let cond = g.nodes[n].inputs[1];
    assert_eq!(g.inputs[cond].typ, MyDataType::Integer);
    assert_eq!(g.inputs[cond].kind, InputParamKind::ConnectionOrConstant);
    assert_eq!(g.inputs[g.nodes[n].inputs[0]].kind, InputParamKind::ConnectionOnly);
    assert!(g.is_well_formed());
}

#[test]
fn function_node_mirrors_its_signature() {
    let mut f = GraphFunction::new("f".to_string());
    f.input = vec![
        FunctionIO { name: "n".to_string(), value: VariableValue::Integer(3) },
        FunctionIO { name: "go".to_string(), value: VariableValue::Execution },
    ];
    f.output = vec![FunctionIO { name: "ok".to_string(), value: VariableValue::Boolean(true) }];
    let functions = vec![GraphFunction::new("Main".to_string()), f];
    let mut g = Graph::new();
    let n = MyNodeTemplate::Function(Some(1)).create_node(&mut g, &functions);
    let ins: Vec<(String, MyDataType)> =
        g.nodes[n].inputs.iter().map(|i| (g.inputs[*i].name.clone(), g.inputs[*i].typ)).collect();
    assert_eq!(
        ins,
        vec![
            (String::new(), MyDataType::Execution),
            ("n".to_string(), MyDataType::Integer),
            ("go".to_string(), MyDataType::Execution)
        ]
    );
    assert_eq!(g.inputs[g.nodes[n].inputs[1]].value.clone().try_to_integer(), Ok(3));
    let outs: Vec<(String, MyDataType)> =
        g.nodes[n].outputs.iter().map(|o| (g.outputs[*o].name.clone(), g.outputs[*o].typ)).collect();
    assert_eq!(outs, vec![(String::new(), MyDataType::Execution), ("ok".to_string(), MyDataType::Boolean)]);
}

#[test]
fn function_node_without_callee_has_no_ports() {
    let mut g = Graph::new();
    let n = MyNodeTemplate::Function(None).create_node(&mut g, &Vec::new());
    assert!(g.nodes[n].inputs.is_empty());
    assert!(g.nodes[n].outputs.is_empty());
    let m = MyNodeTemplate::Function(Some(3)).create_node(&mut g, &Vec::new());
    assert!(g.nodes[m].inputs.is_empty());
    assert_eq!(g.nodes[m].label, "Function");
}

#[test]
fn well_formedness_checks() {
    let mut g = Graph::new();
    let a = MyNodeTemplate::AddNumber.create_node(&mut g, &Vec::new());
    assert!(g.is_well_formed());
    assert_eq!(g.connection(g.nodes[a].inputs[0]), None);
    g.add_connection(g.nodes[a].outputs[0], g.nodes[a].inputs[1]);
    assert_eq!(g.connection(g.nodes[a].inputs[1]), Some(g.nodes[a].outputs[0]));
    assert!(g.is_well_formed());
    g.connections[0] = Some(99);
    assert!(!g.is_well_formed());
    let mut app = AppState { current_function: 0, functions: vec![GraphFunction::new("Main".to_string())], main_graph_id: 0 };
    assert!(app.is_well_formed());
    app.main_graph_id = 1;
    assert!(!app.is_well_formed());
}

#[test]
fn id_lookup() {
    assert!(contains_id(&vec![3, 1, 4], 4));
    assert!(!contains_id(&vec![3, 1, 4], 2));
}

#[test]
fn default_inline_value_is_false() {
    assert_eq!(MyValueType::default().try_to_bool(), Ok(false));
}
