use robopages::book::flavors::nerve::FunctionGroup;
use robopages::book::flavors::openai::{
    default_call_type, default_result_message_role, Call, CallResultMessage, FunctionCall, Tool,
};
use robopages::book::flavors::rigging;
use robopages::book::flavors::Flavor;
use robopages::book::runtime::ExecutionContext;
use robopages::book::{Function, Page, Parameter, Projection};
use robopages::failure::Failure;
use robopages::strmap::StrMap;

#[test]
fn test_flavor_from_string() {
    assert!(matches!(Flavor::from_string("openai"), Ok(Flavor::OpenAI)));
    assert!(matches!(Flavor::from_string("OpenAI"), Ok(Flavor::OpenAI)));
    assert!(matches!(Flavor::from_string("OPENAI"), Ok(Flavor::OpenAI)));

    assert!(matches!(Flavor::from_string("nerve"), Ok(Flavor::Nerve)));
    assert!(matches!(Flavor::from_string("Nerve"), Ok(Flavor::Nerve)));
    assert!(matches!(Flavor::from_string("NERVE"), Ok(Flavor::Nerve)));

    assert!(matches!(
        Flavor::from_string("rigging"),
        Ok(Flavor::Rigging)
    ));
    assert!(matches!(
        Flavor::from_string("Rigging"),
        Ok(Flavor::Rigging)
    ));
    assert!(matches!(
        Flavor::from_string("RIGGING"),
        Ok(Flavor::Rigging)
    ));

    assert!(Flavor::from_string("unknown").is_err());
    assert!(Flavor::from_string("").is_err());
}

#[test]
fn test_flavor_from_map_or_default() {
    let mut map = StrMap::new();

    // Test default case
    assert!(matches!(
        Flavor::from_map_or_default(&map),
        Ok(Flavor::OpenAI)
    ));

    // Test valid flavor
    map.insert("flavor".to_string(), "openai".to_string());
    assert!(matches!(
        Flavor::from_map_or_default(&map),
        Ok(Flavor::OpenAI)
    ));

    // Test invalid flavor
    map.insert("flavor".to_string(), "unknown".to_string());
    assert!(Flavor::from_map_or_default(&map).is_err());

    // Test empty string
    map.insert("flavor".to_string(), "".to_string());
    assert!(Flavor::from_map_or_default(&map).is_err());
}

#[test]
fn flavor_from_lowercase_is_exact() {
    assert_eq!(Flavor::from_lowercase("openai"), Some(Flavor::OpenAI));
    assert_eq!(Flavor::from_lowercase("nerve"), Some(Flavor::Nerve));
    assert_eq!(Flavor::from_lowercase("rigging"), Some(Flavor::Rigging));
    assert_eq!(Flavor::from_lowercase("OpenAI"), None);
    assert_eq!(Flavor::from_lowercase("openai "), None);
    assert_eq!(Flavor::from_lowercase(""), None);
}

#[test]
fn unknown_flavor_is_named_in_the_failure() {
    assert_eq!(
        Flavor::from_string("Unknown"),
        Err(Failure::UnknownFlavor {
            name: "Unknown".to_string()
        })
    );
    assert_eq!(
        Flavor::from_string("Unknown").unwrap_err().to_string(),
        "unknown flavor: Unknown"
    );
}

#[test]
fn flavor_predicates_and_default() {
    assert!(Flavor::default().is_openai());
    assert!(Flavor::OpenAI.is_openai() && !Flavor::OpenAI.is_nerve() && !Flavor::OpenAI.is_rigging());
    assert!(Flavor::Nerve.is_nerve() && !Flavor::Nerve.is_openai() && !Flavor::Nerve.is_rigging());
    assert!(Flavor::Rigging.is_rigging() && !Flavor::Rigging.is_openai() && !Flavor::Rigging.is_nerve());
}

fn create_test_page() -> Page {
    let mut functions = StrMap::new();
    let mut parameters = StrMap::new();
    parameters.insert(
        "param1".to_string(),
        Parameter {
            param_type: "string".to_string(),
            description: "Test parameter".to_string(),
            required: true,
            examples: None,
        },
    );

    functions.insert(
        "test_function".to_string(),
        Function {
            description: "A test function".to_string(),
            parameters,
            execution: ExecutionContext::CommandLine(vec!["echo".to_string(), "test".to_string()]),
            container: None,
        },
    );

    Page {
        name: "TestPage".to_string(),
        description: Some("A test page".to_string()),
        categories: vec!["test".to_string()],
        functions,
    }
}

#[test]
fn test_page_to_function_group() {
    let page = create_test_page();
    let function_groups: Vec<FunctionGroup> = FunctionGroup::from_page(&page);

    assert_eq!(function_groups.len(), 1);
    let group = &function_groups[0];

    assert_eq!(group.name, "TestPage");
    assert_eq!(group.description, Some("A test page".to_string()));
    assert_eq!(group.actions.len(), 1);

    let action = &group.actions[0];
    assert_eq!(action.name, "test_function");
    assert_eq!(action.description, "A test function");
    assert_eq!(action.tool, "TestPage.test_function@robopages");

    let args = action.args.as_ref().unwrap();
    assert_eq!(args.len(), 1);
    assert_eq!(args.get("param1"), Some(&"Test parameter".to_string()));
}

#[test]
fn test_empty_page() {
    let page = Page {
        name: "EmptyPage".to_string(),
        description: None,
        categories: vec![],
        functions: StrMap::new(),
    };

    let function_groups: Vec<FunctionGroup> = FunctionGroup::from_page(&page);

    assert_eq!(function_groups.len(), 1);
    let group = &function_groups[0];

    assert_eq!(group.name, "EmptyPage");
    assert_eq!(group.description, None);
    assert_eq!(group.actions.len(), 0);
}

#[test]
fn test_multiple_functions() {
    let mut page = create_test_page();
    page.functions.insert(
        "another_function".to_string(),
        Function {
            description: "Another test function".to_string(),
            parameters: StrMap::new(),
            execution: ExecutionContext::CommandLine(vec![
                "echo".to_string(),
                "another".to_string(),
            ]),
            container: None,
        },
    );

    let function_groups: Vec<FunctionGroup> = FunctionGroup::from_page(&page);

    assert_eq!(function_groups.len(), 1);
    let group = &function_groups[0];

    assert_eq!(group.actions.len(), 2);
    assert!(group.actions.iter().any(|a| a.name == "test_function"));
    assert!(group.actions.iter().any(|a| a.name == "another_function"));
    // in the order of the names
    assert_eq!(group.actions[0].name, "another_function");
    assert_eq!(group.actions[1].name, "test_function");
}

#[test]
fn test_function_call() {
    let mut arguments = StrMap::new();
    arguments.insert("arg1".to_string(), "value1".to_string());
    arguments.insert("arg2".to_string(), "value2".to_string());

    let function_call = FunctionCall {
        name: "test_function".to_string(),
        arguments,
    };

    assert_eq!(function_call.name, "test_function");
    assert_eq!(function_call.arguments.len(), 2);
    assert_eq!(
        function_call.arguments.get("arg1"),
        Some(&"value1".to_string())
    );
    assert_eq!(
        function_call.arguments.get("arg2"),
        Some(&"value2".to_string())
    );
}

#[test]
fn test_call() {
    let function_call = FunctionCall {
        name: "test_function".to_string(),
        arguments: StrMap::new(),
    };

    let call = Call {
        id: Some("test_id".to_string()),
        call_type: "function".to_string(),
        function: function_call,
    };

    assert_eq!(call.id, Some("test_id".to_string()));
    assert_eq!(call.call_type, "function");
    assert_eq!(call.function.name, "test_function");
}

#[test]
fn test_call_default_type() {
    let function_call = FunctionCall {
        name: "test_function".to_string(),
        arguments: StrMap::new(),
    };

    let call = Call {
        id: None,
        call_type: default_call_type(),
        function: function_call,
    };

    assert_eq!(call.call_type, "function");
}

#[test]
fn test_call_result_message() {
    let message = CallResultMessage {
        role: "custom_role".to_string(),
        call_id: Some("test_id".to_string()),
        content: "Test content".to_string(),
    };

    assert_eq!(message.role, "custom_role");
    assert_eq!(message.call_id, Some("test_id".to_string()));
    assert_eq!(message.content, "Test content");
}

#[test]
fn test_call_result_message_default_role() {
    let message = CallResultMessage {
        role: default_result_message_role(),
        call_id: None,
        content: "Test content".to_string(),
    };

    assert_eq!(message.role, "tool");
}

fn projection_page() -> Page {
    let mut parameters = StrMap::new();
    parameters.insert(
        "x".to_string(),
        Parameter {
            param_type: "string".to_string(),
            description: "d".to_string(),
            required: true,
            examples: None,
        },
    );
    let mut functions = StrMap::new();
    functions.insert(
        "f".to_string(),
        Function {
            description: "does f".to_string(),
            parameters,
            execution: ExecutionContext::CommandLine(vec!["echo".to_string()]),
            container: None,
        },
    );
    Page {
        name: "P".to_string(),
        description: None,
        categories: vec![],
        functions,
    }
}

#[test]
fn projection_into_function_calling_schema() {
    let tools = Tool::from_page(&projection_page());
    assert_eq!(tools.len(), 1);
    assert_eq!(tools[0].tool_type, "function");
    assert_eq!(tools[0].function.name, "f");
    assert_eq!(tools[0].function.description, "does f");
    assert_eq!(tools[0].function.parameters.params_type, "object");
    assert_eq!(tools[0].function.parameters.properties.len(), 1);
    let x = tools[0].function.parameters.properties.get("x").unwrap();
    assert_eq!(x.param_type, "string");
    assert_eq!(x.description, "d");
    assert_eq!(tools[0].function.parameters.required, vec!["x"]);
}

#[test]
fn projection_into_action_group_schema() {
    let groups = FunctionGroup::from_page(&projection_page());
    assert_eq!(groups.len(), 1);
    assert_eq!(groups[0].name, "P");
    assert_eq!(groups[0].actions.len(), 1);
    assert_eq!(groups[0].actions[0].name, "f");
    assert_eq!(groups[0].actions[0].tool, "P.f@robopages");
    let args = groups[0].actions[0].args.as_ref().unwrap();
    assert_eq!(args.len(), 1);
    assert_eq!(args.get("x"), Some(&"d".to_string()));
}

#[test]
fn projection_into_tool_framework_schema() {
    let tools = rigging::Tool::from_page(&projection_page());
    assert_eq!(tools.len(), 1);
    assert_eq!(tools[0].name, "P");
    assert_eq!(tools[0].functions.len(), 1);
    assert_eq!(tools[0].functions[0].name, "f");
    let parameter = &tools[0].functions[0].parameters[0];
    assert_eq!(parameter.name, "x");
    assert_eq!(parameter.param_type, "str");
    assert_eq!(parameter.description, "d");
    assert!(parameter.examples.is_empty());
}

#[test]
fn required_lists_only_required_parameters_in_key_order() {
    let mut parameters = StrMap::new();
    for (name, required) in [("zeta", true), ("alpha", true), ("mid", false)] {
        parameters.insert(
            name.to_string(),
            Parameter {
                param_type: "int".to_string(),
                description: name.to_uppercase(),
                required,
                examples: Some(vec!["1".to_string(), "2".to_string()]),
            },
        );
    }
    let mut functions = StrMap::new();
    functions.insert(
        "f".to_string(),
        Function {
            description: "".to_string(),
            parameters,
            execution: ExecutionContext::CommandLine(vec!["echo".to_string()]),
            container: None,
        },
    );
    let page = Page {
        name: "P".to_string(),
        description: Some("about".to_string()),
        categories: vec![],
        functions,
    };
    let tools = Tool::from_page(&page);
    assert_eq!(tools[0].function.parameters.required, vec!["alpha", "zeta"]);
    assert_eq!(tools[0].function.parameters.properties.len(), 3);

    let rigged = rigging::Tool::from_page(&page);
    assert_eq!(rigged[0].description, Some("about".to_string()));
    let names: Vec<&str> = rigged[0].functions[0]
        .parameters
        .iter()
        .map(|p| p.name.as_str())
        .collect();
    assert_eq!(names, vec!["alpha", "mid", "zeta"]);
    assert_eq!(rigged[0].functions[0].parameters[0].param_type, "int");
    assert_eq!(rigged[0].functions[0].parameters[0].examples, vec!["1", "2"]);
}

#[test]
fn rigging_type_names() {
    assert_eq!(rigging::rigging_param_type("string"), "str");
    assert_eq!(rigging::rigging_param_type("int"), "int");
    assert_eq!(rigging::rigging_param_type("String"), "String");
    assert_eq!(rigging::rigging_param_type(""), "");
}
