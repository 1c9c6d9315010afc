use dora_event_stream::validate::{
    check_dataflow, check_input, source_is_url, split_slash, CheckError, CoreNodeKind, CustomNode,
    InputEntry, InputMapping, OperatorDefinition, OperatorSource, ResolvedNode, RuntimeNode,
    SourceKind,
};

fn user(source: &str, output: &str) -> InputMapping {
    InputMapping::User { source: source.to_string(), output: output.to_string() }
}

fn custom(id: &str, machine: &str, source: &str, found: bool, inputs: Vec<(&str, InputMapping)>, outputs: &[&str]) -> ResolvedNode {
    ResolvedNode {
        id: id.to_string(),
        machine: machine.to_string(),
        kind: CoreNodeKind::Custom(CustomNode {
            source: source.to_string(),
            source_found: found,
            inputs: inputs.into_iter().map(|(id, mapping)| InputEntry { id: id.to_string(), mapping }).collect(),
            outputs: outputs.iter().map(|o| o.to_string()).collect(),
        }),
    }
}

fn operator(id: &str, source: OperatorSource, found: bool, inputs: Vec<(&str, InputMapping)>, outputs: &[&str]) -> OperatorDefinition {
    OperatorDefinition {
        id: id.to_string(),
        source,
        source_found: found,
        inputs: inputs.into_iter().map(|(id, mapping)| InputEntry { id: id.to_string(), mapping }).collect(),
        outputs: outputs.iter().map(|o| o.to_string()).collect(),
    }
}

fn runtime(id: &str, machine: &str, operators: Vec<OperatorDefinition>) -> ResolvedNode {
    ResolvedNode { id: id.to_string(), machine: machine.to_string(), kind: CoreNodeKind::Runtime(RuntimeNode { operators }) }
}

#[test]
fn url_detection() {
    assert!(source_is_url("https://example.com/node"));
    assert!(!source_is_url("./build/node"));
    assert!(!source_is_url(":/"));
}

#[test]
fn split_at_first_slash() {
    assert_eq!(split_slash("op/out/x"), ("op".to_string(), "out/x".to_string()));
    assert_eq!(split_slash("plain"), (String::new(), String::new()));
}

#[test]
fn valid_local_dataflow() {
    let nodes = vec![
        custom("camera", "", "./camera", true, vec![("tick", InputMapping::Timer { interval_millis: 20 })], &["image"]),
        runtime("rt", "", vec![operator("detect", OperatorSource::Python("detect.py".to_string()), true, vec![("image", user("camera", "image"))], &["boxes"])]),
        custom("plot", "", "shell", false, vec![("boxes", user("rt", "detect/boxes"))], &[]),
    ];
    let checked = check_dataflow(&nodes).unwrap();
    assert!(checked.needs_python_check);
}

#[test]
fn missing_local_source() {
    let nodes = vec![custom("camera", "", "./camera", false, vec![], &[])];
    assert!(matches!(check_dataflow(&nodes), Err(CheckError::NotFound { kind: SourceKind::Node, path }) if path == "./camera"));
}

#[test]
fn url_source_is_not_checked() {
    let nodes = vec![custom("camera", "", "https://example.com/camera", false, vec![], &[])];
    assert!(check_dataflow(&nodes).is_ok());
}

#[test]
fn remote_paths_must_be_absolute() {
    let nodes = vec![
        custom("a", "m1", "/opt/a", false, vec![], &["x"]),
        custom("b", "m2", "relative/b", false, vec![], &[]),
    ];
    assert!(matches!(check_dataflow(&nodes), Err(CheckError::RelativeRemotePath { kind: SourceKind::Node, owner }) if owner == "b"));
    let nodes = vec![
        custom("a", "m1", "/opt/a", false, vec![], &["x"]),
        runtime("b", "m2", vec![operator("w", OperatorSource::Wasm("w.wasm".to_string()), true, vec![], &[])]),
    ];
    assert!(matches!(check_dataflow(&nodes), Err(CheckError::RelativeRemotePath { kind: SourceKind::Wasm, owner }) if owner == "w"));
}

#[test]
fn missing_shared_library() {
    let nodes = vec![runtime("rt", "", vec![operator("op", OperatorSource::SharedLibrary("build/op".to_string()), false, vec![], &[])])];
    assert!(matches!(check_dataflow(&nodes), Err(CheckError::NotFound { kind: SourceKind::SharedLibrary, path }) if path == "build/op"));
}

#[test]
fn source_errors_come_first() {
    let nodes = vec![
        custom("a", "", "./a", true, vec![("in", user("nobody", "x"))], &[]),
        custom("b", "", "./b", false, vec![], &[]),
    ];
    assert!(matches!(check_dataflow(&nodes), Err(CheckError::NotFound { .. })));
}

#[test]
fn unknown_source_node() {
    let nodes = vec![custom("a", "", "dynamic", false, vec![("in", user("nobody", "x"))], &[])];
    match check_dataflow(&nodes) {
        Err(CheckError::UnknownSourceNode { source, input }) => {
            assert_eq!(source, "nobody");
            assert_eq!(input, "a/in");
        }
        other => panic!("unexpected {other:?}"),
    }
}

#[test]
fn unknown_output_and_operator() {
    let nodes = vec![
        custom("a", "", "shell", false, vec![], &["x"]),
        runtime("rt", "", vec![operator("op", OperatorSource::SharedLibrary("op".to_string()), true, vec![], &["y"])]),
    ];
    let r = check_input(&user("a", "z"), &nodes, &"n/in".to_string());
    assert!(matches!(r, Err(CheckError::UnknownOutput { source, output, input }) if source == "a" && output == "z" && input == "n/in"));
    let r = check_input(&user("rt", "other/y"), &nodes, &"n/in".to_string());
    assert!(matches!(r, Err(CheckError::UnknownSourceOperator { operator, .. }) if operator == "other"));
    let r = check_input(&user("rt", "op/z"), &nodes, &"n/in".to_string());
    assert!(matches!(r, Err(CheckError::UnknownOutput { output, .. }) if output == "op/z"));
    assert!(check_input(&user("rt", "op/y"), &nodes, &"n/in".to_string()).is_ok());
    assert!(check_input(&InputMapping::Timer { interval_millis: 5 }, &nodes, &"n/in".to_string()).is_ok());
}

#[test]
fn operator_input_names() {
    let nodes = vec![runtime("rt", "", vec![operator("op", OperatorSource::SharedLibrary("op".to_string()), true, vec![("in", user("ghost", "x"))], &[])])];
    match check_dataflow(&nodes) {
        Err(CheckError::UnknownSourceNode { input, .. }) => assert_eq!(input, "op/rt/in"),
        other => panic!("unexpected {other:?}"),
    }
}
