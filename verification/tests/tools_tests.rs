use modelsocket::{
    SeqToolCall, SimpleToolbox, ToolDefinition, ToolParameters, ToolRun, ToolSchemaType, ToolStep,
};

fn def(name: &str, description: &str) -> ToolDefinition {
    ToolDefinition {
        name: name.to_string(),
        description: description.to_string(),
        parameters: ToolParameters::default(),
    }
}

fn call(id: Option<&str>, name: &str, args: &str) -> SeqToolCall {
    SeqToolCall { id: id.map(|s| s.to_string()), name: name.to_string(), args: args.to_string() }
}

#[test]
fn tool_def_prompt_describes_each_tool() {
    let mut tb = SimpleToolbox::new();
    assert_eq!(tb.tool_def_prompt().as_deref(), Some(""));
    let p = ToolParameters::default();
    assert_eq!(p.type_, ToolSchemaType::Object);
    assert!(p.properties.is_empty() && p.required.is_empty());
    tb.add_tool(def("search", "find things"), "{\n  \"type\": \"object\"\n}".to_string());
    tb.add_tool(def("weather", "get the weather"), "{}".to_string());
    assert_eq!(
        tb.tool_def_prompt().unwrap(),
        "Use the search function to: find things\n\n{\n  \"type\": \"object\"\n}\n\n\nUse the weather function to: get the weather\n\n{}\n"
    );
}

#[test]
fn adding_a_tool_twice_replaces_it() {
    let mut tb = SimpleToolbox::new();
    assert_eq!(tb.add_tool(def("search", "old"), "{}".to_string()), 0);
    assert_eq!(tb.add_tool(def("weather", "w"), "{}".to_string()), 1);
    assert_eq!(tb.add_tool(def("search", "new"), "{}".to_string()), 0);
    assert_eq!(tb.call(&"search".to_string()), Some(0));
    assert_eq!(tb.call(&"nope".to_string()), None);
    assert!(tb.tool_def_prompt().unwrap().starts_with("Use the search function to: new"));
}

#[test]
fn tool_calls_run_in_order() {
    let mut tb = SimpleToolbox::new();
    tb.add_tool(def("search", "s"), "{}".to_string());
    tb.add_tool(def("weather", "w"), "{}".to_string());
    let mut run = ToolRun::new(vec![
        call(Some("functions.weather:0"), "weather", "{\"city\":\"Paris\"}"),
        call(None, "search", "{\"q\":\"hello\"}"),
    ]);
    match tb.call_tools(&run) {
        ToolStep::Call { tool, args } => {
            assert_eq!(tool, 1);
            assert_eq!(args, "{\"city\":\"Paris\"}");
        }
        other => panic!("unexpected {other:?}"),
    }
    run.record("sunny".to_string());
    match tb.call_tools(&run) {
        ToolStep::Call { tool, .. } => assert_eq!(tool, 0),
        other => panic!("unexpected {other:?}"),
    }
    run.record("3 hits".to_string());
    assert!(matches!(tb.call_tools(&run), ToolStep::Done));
    let results = run.finish();
    assert_eq!(results.len(), 2);
    assert_eq!(results[0].id.as_deref(), Some("functions.weather:0"));
    assert_eq!(results[0].name, "weather");
    assert_eq!(results[0].result, "sunny");
    assert_eq!(results[1].id, None);
    assert_eq!(results[1].result, "3 hits");
}

#[test]
fn unknown_tool_fails_the_batch() {
    let mut tb = SimpleToolbox::new();
    tb.add_tool(def("search", "s"), "{}".to_string());
    let run = ToolRun::new(vec![call(None, "missing", "{}")]);
    match tb.call_tools(&run) {
        ToolStep::Failed(m) => assert_eq!(m, "tool missing not found"),
        other => panic!("unexpected {other:?}"),
    }
}
