use goose::capabilities::{qualify, Capabilities};
use goose::dispatch::{
    call_outcome, read_resource_tool, resource_outcome, Dispatch, READ_RESOURCE,
    READ_RESOURCE_DESCRIPTION, READ_RESOURCE_SCHEMA,
};
use goose::message::{Argument, ArgumentValue, ToolCall, ToolError};
use goose::system::{Connection, ProviderUsage, Resource, ResourceEntry, SystemError, Tool};

fn tool(name: &str) -> Tool {
    Tool {
        name: name.to_string(),
        description: format!("runs {}", name),
        input_schema: "{\"type\":\"object\"}".to_string(),
    }
}

fn resource(uri: &str) -> Resource {
    Resource { uri: uri.to_string(), description: format!("at {}", uri) }
}

fn connection(handle: u32, instructions: &str, tools: &[&str], resources: &[&str]) -> Connection<u32> {
    Connection {
        handle,
        instructions: instructions.to_string(),
        tools: tools.iter().map(|t| tool(t)).collect(),
        resources: resources.iter().map(|r| resource(r)).collect(),
    }
}

fn registry(systems: &[(&str, &[&str], &[&str])]) -> Capabilities<&'static str, u32> {
    let mut capabilities = Capabilities::new("backend");
    let mut handle = 0;
    for (name, tools, resources) in systems {
        handle += 1;
        let added = capabilities.add_system(
            name.to_string(),
            Ok(connection(handle, &format!("Use {}.", name), tools, resources)),
        );
        assert_eq!(added, Ok(()));
    }
    capabilities
}

fn names(capabilities: &Capabilities<&'static str, u32>) -> Vec<String> {
    capabilities.get_prefixed_tools().into_iter().map(|e| e.name).collect()
}

fn text(name: &str, value: &str) -> Argument {
    Argument { name: name.to_string(), value: ArgumentValue::Text(value.to_string()) }
}

fn call(name: &str, arguments: Vec<Argument>) -> ToolCall {
    ToolCall { name: name.to_string(), arguments }
}

fn usage(model: &str, input: i32, output: i32) -> ProviderUsage {
    ProviderUsage {
        model: model.to_string(),
        input_tokens: Some(input),
        output_tokens: Some(output),
        total_tokens: Some(input + output),
    }
}

#[test]
fn new_registry_is_empty() {
    let capabilities: Capabilities<&str, u32> = Capabilities::new("backend");
    assert_eq!(*capabilities.provider(), "backend");
    assert!(capabilities.list_systems().is_empty());
    assert!(capabilities.get_prefixed_tools().is_empty());
    assert!(capabilities.get_resources().is_empty());
    assert_eq!(capabilities.get_system_prompt(), "");
    assert!(capabilities.get_usage().is_empty());
}

#[test]
fn colliding_tools_are_both_qualified() {
    let capabilities = registry(&[("fs", &["query"], &[]), ("db", &["query"], &[])]);
    let entries = capabilities.get_prefixed_tools();
    assert_eq!(entries.len(), 2);
    assert_eq!(entries[0].name, "fs__query");
    assert_eq!(entries[0].system, "fs");
    assert_eq!(entries[0].tool, "query");
    assert_eq!(entries[0].description, "runs query");
    assert_eq!(entries[0].input_schema, "{\"type\":\"object\"}");
    assert_eq!(entries[1].name, "db__query");
    assert_eq!(entries[1].system, "db");
    assert_eq!(entries[1].tool, "query");
    assert!(names(&capabilities).iter().all(|n| n != "query"));
}

#[test]
fn unique_tools_keep_their_names() {
    let capabilities = registry(&[("fs", &["read", "write"], &[]), ("db", &["query"], &[])]);
    assert_eq!(names(&capabilities), vec!["read", "write", "query"]);
}

#[test]
fn every_holder_of_a_shared_name_is_qualified() {
    let capabilities =
        registry(&[("a", &["x", "y"], &[]), ("b", &["y", "z"], &[]), ("c", &["x", "y"], &[])]);
    let got = names(&capabilities);
    assert_eq!(got, vec!["a__x", "a__y", "b__y", "z", "c__x", "c__y"]);
    let mut sorted = got.clone();
    sorted.sort();
    sorted.dedup();
    assert_eq!(sorted.len(), got.len());
}

#[test]
fn catalog_follows_registration_order() {
    let first = registry(&[("fs", &["query"], &[]), ("db", &["query", "scan"], &[])]);
    let second = registry(&[("db", &["query", "scan"], &[]), ("fs", &["query"], &[])]);
    assert_eq!(names(&first), vec!["fs__query", "db__query", "scan"]);
    assert_eq!(names(&second), vec!["db__query", "scan", "fs__query"]);
    assert_eq!(names(&first), names(&first));
}

#[test]
fn a_tool_named_like_a_qualified_name_is_listed_beside_it() {
    let capabilities =
        registry(&[("x", &["y__t"], &[]), ("y", &["t"], &[]), ("z", &["t"], &[])]);
    assert_eq!(names(&capabilities), vec!["y__t", "y__t", "z__t"]);
}

#[test]
fn qualify_joins_with_two_underscores() {
    assert_eq!(qualify(&"fs".to_string(), &"query".to_string()), "fs__query");
    assert_eq!(qualify(&"".to_string(), &"".to_string()), "__");
}

#[test]
fn collides_with_looks_at_other_systems_only() {
    let capabilities = registry(&[("fs", &["query", "read"], &[]), ("db", &["query"], &[])]);
    assert!(capabilities.collides_with(0, &"query".to_string()));
    assert!(capabilities.collides_with(1, &"query".to_string()));
    assert!(!capabilities.collides_with(0, &"read".to_string()));
    assert!(capabilities.collides_with(1, &"read".to_string()));
    assert!(capabilities.collides_with(7, &"read".to_string()));
    assert!(!capabilities.collides_with(0, &"scan".to_string()));
}

#[test]
fn add_system_registers_last() {
    let mut capabilities = registry(&[("fs", &["read"], &[])]);
    let added = capabilities.add_system("db".to_string(), Ok(connection(9, "", &["query"], &[])));
    assert_eq!(added, Ok(()));
    assert_eq!(capabilities.list_systems(), vec!["fs", "db"]);
    assert_eq!(capabilities.handle("db"), Some(&9));
}

#[test]
fn add_system_refuses_a_taken_name() {
    let mut capabilities = registry(&[("fs", &["read"], &["file:///a"]), ("db", &["query"], &[])]);
    let added =
        capabilities.add_system("fs".to_string(), Ok(connection(42, "other", &["other"], &[])));
    assert_eq!(added, Err(SystemError::DuplicateName("fs".to_string())));
    assert_eq!(capabilities.list_systems(), vec!["fs", "db"]);
    assert_eq!(capabilities.handle("fs"), Some(&1));
    assert_eq!(names(&capabilities), vec!["read", "query"]);
    assert_eq!(capabilities.get_system_prompt(), "Use fs.Use db.");
    assert_eq!(capabilities.get_resources().len(), 1);
}

#[test]
fn add_system_reports_a_failed_handshake() {
    let mut capabilities = registry(&[("fs", &["read"], &[])]);
    let added = capabilities.add_system("db".to_string(), Err("refused".to_string()));
    assert_eq!(added, Err(SystemError::ConnectionError("refused".to_string())));
    assert_eq!(capabilities.list_systems(), vec!["fs"]);
    let added = capabilities.add_system("db".to_string(), Ok(connection(2, "", &["query"], &[])));
    assert_eq!(added, Ok(()));
    assert_eq!(capabilities.list_systems(), vec!["fs", "db"]);
}

#[test]
fn a_taken_name_is_refused_however_the_handshake_went() {
    let mut capabilities = registry(&[("fs", &["read"], &["file:///a"])]);
    let again = capabilities.add_system("fs".to_string(), Err("timed out".to_string()));
    assert_eq!(again, Err(SystemError::DuplicateName("fs".to_string())));
    let again = capabilities.add_system("fs".to_string(), Ok(connection(8, "x", &["y"], &[])));
    assert_eq!(again, Err(SystemError::DuplicateName("fs".to_string())));
    assert_eq!(capabilities.list_systems(), vec!["fs"]);
    assert_eq!(capabilities.handle("fs"), Some(&1));
    assert_eq!(names(&capabilities), vec!["read"]);
    assert_eq!(capabilities.get_system_prompt(), "Use fs.");
    assert_eq!(capabilities.get_resources().len(), 1);
}

#[test]
fn check_name_tells_a_free_name_from_a_taken_one() {
    let mut capabilities = registry(&[("fs", &["read"], &[]), ("db", &[], &[])]);
    assert_eq!(capabilities.check_name("web"), Ok(()));
    assert_eq!(capabilities.check_name(""), Ok(()));
    assert_eq!(capabilities.check_name("fs"), Err(SystemError::DuplicateName("fs".to_string())));
    assert_eq!(capabilities.check_name("db"), Err(SystemError::DuplicateName("db".to_string())));
    assert!(capabilities.remove_system("fs").is_some());
    assert_eq!(capabilities.check_name("fs"), Ok(()));
    assert_eq!(capabilities.list_systems(), vec!["db"]);
}

#[test]
fn remove_system_hands_the_system_back() {
    let mut capabilities =
        registry(&[("fs", &["query"], &[]), ("db", &["query"], &[]), ("web", &["get"], &[])]);
    let removed = capabilities.remove_system("db");
    let removed = removed.expect("db was registered");
    assert_eq!(removed.name, "db");
    assert_eq!(removed.handle, 2);
    assert_eq!(removed.tools, vec![tool("query")]);
    assert_eq!(capabilities.list_systems(), vec!["fs", "web"]);
    assert_eq!(names(&capabilities), vec!["query", "get"]);
    assert_eq!(capabilities.handle("db"), None);
}

#[test]
fn remove_system_tolerates_an_unknown_name() {
    let mut capabilities = registry(&[("fs", &["query"], &[])]);
    assert!(capabilities.remove_system("db").is_none());
    assert_eq!(capabilities.list_systems(), vec!["fs"]);
}

#[test]
fn a_removed_name_can_be_registered_again() {
    let mut capabilities = registry(&[("fs", &["query"], &[]), ("db", &["scan"], &[])]);
    assert!(capabilities.remove_system("fs").is_some());
    let added = capabilities.add_system("fs".to_string(), Ok(connection(5, "", &["read"], &[])));
    assert_eq!(added, Ok(()));
    assert_eq!(capabilities.list_systems(), vec!["db", "fs"]);
    assert_eq!(capabilities.position(&"fs".to_string()), Some(1));
    assert_eq!(capabilities.position(&"web".to_string()), None);
}

#[test]
fn system_prompt_is_the_instructions_in_order() {
    let mut capabilities: Capabilities<&str, u32> = Capabilities::new("backend");
    for (name, instructions) in [("a", "First.\n"), ("b", ""), ("c", "Third.")] {
        let added =
            capabilities.add_system(name.to_string(), Ok(connection(0, instructions, &[], &[])));
        assert_eq!(added, Ok(()));
    }
    assert_eq!(capabilities.get_system_prompt(), "First.\nThird.");
}

#[test]
fn resources_are_tagged_with_their_owner() {
    let capabilities = registry(&[
        ("web", &[], &["web://page/1", "web://page/2"]),
        ("fs", &["read"], &[]),
        ("db", &[], &["db://t"]),
    ]);
    let listed: Vec<(String, String)> =
        capabilities.get_resources().into_iter().map(|r| (r.system, r.uri)).collect();
    assert_eq!(
        listed,
        vec![
            ("web".to_string(), "web://page/1".to_string()),
            ("web".to_string(), "web://page/2".to_string()),
            ("db".to_string(), "db://t".to_string()),
        ]
    );
    assert_eq!(
        capabilities.get_resources()[2],
        ResourceEntry {
            system: "db".to_string(),
            uri: "db://t".to_string(),
            description: "at db://t".to_string(),
        }
    );
}

#[test]
fn usage_accumulates_in_order() {
    let mut capabilities: Capabilities<&str, u32> = Capabilities::new("backend");
    capabilities.record_usage(usage("m1", 1, 2));
    capabilities.record_usage(usage("m2", 3, 4));
    capabilities.record_usage(usage("m1", 5, 6));
    let log = capabilities.get_usage();
    assert_eq!(log.len(), 3);
    assert_eq!(log, vec![usage("m1", 1, 2), usage("m2", 3, 4), usage("m1", 5, 6)]);
    assert_eq!(log[1].total_tokens, Some(7));
    assert_eq!(capabilities.get_usage(), log);
}

#[test]
fn dispatch_of_an_unknown_name_is_not_found() {
    let capabilities = registry(&[("fs", &["query"], &[]), ("db", &["query"], &[])]);
    for name in ["nothing", "query", "fs__nothing", "web__query", ""] {
        let d = capabilities.dispatch_tool_call(&call(name, vec![text("q", "1")]));
        assert_eq!(d, Dispatch::Respond(Err(ToolError::NotFound(name.to_string()))));
    }
    let empty: Capabilities<&str, u32> = Capabilities::new("backend");
    assert_eq!(
        empty.dispatch_tool_call(&call("query", vec![])),
        Dispatch::Respond(Err(ToolError::NotFound("query".to_string())))
    );
}

#[test]
fn dispatch_forwards_a_qualified_name_under_the_tools_own() {
    let capabilities = registry(&[("fs", &["query"], &[]), ("db", &["query"], &[])]);
    let arguments = vec![
        text("sql", "select 1"),
        Argument { name: "limit".to_string(), value: ArgumentValue::Json("10".to_string()) },
    ];
    let d = capabilities.dispatch_tool_call(&call("db__query", arguments.clone()));
    assert_eq!(
        d,
        Dispatch::Forward { system: "db".to_string(), tool: "query".to_string(), arguments }
    );
}

#[test]
fn dispatch_forwards_a_bare_name_to_its_only_owner() {
    let capabilities = registry(&[("fs", &["read"], &[]), ("db", &["query"], &[])]);
    let d = capabilities.dispatch_tool_call(&call("query", vec![]));
    assert_eq!(
        d,
        Dispatch::Forward { system: "db".to_string(), tool: "query".to_string(), arguments: vec![] }
    );
}

#[test]
fn read_resource_without_system_finds_the_owner() {
    let capabilities = registry(&[("fs", &["read"], &[]), ("web", &[], &["web://page/1"])]);
    let d = capabilities.dispatch_tool_call(&call("read_resource", vec![text("uri", "web://page/1")]));
    assert_eq!(
        d,
        Dispatch::ReadResource { system: "web".to_string(), uri: "web://page/1".to_string() }
    );
    let content = resource_outcome("web://page/1".to_string(), Some("<html>".to_string()));
    assert_eq!(content, Ok("<html>".to_string()));
}

#[test]
fn read_resource_takes_the_first_system_that_lists_it() {
    let capabilities = registry(&[
        ("a", &[], &["doc://1"]),
        ("b", &[], &["doc://2", "doc://shared"]),
        ("c", &[], &["doc://shared"]),
    ]);
    let d = capabilities.dispatch_tool_call(&call("read_resource", vec![text("uri", "doc://shared")]));
    assert_eq!(
        d,
        Dispatch::ReadResource { system: "b".to_string(), uri: "doc://shared".to_string() }
    );
    assert_eq!(capabilities.first_listing(&"doc://shared".to_string()), Some(1));
    assert_eq!(capabilities.first_listing(&"doc://3".to_string()), None);
}

#[test]
fn read_resource_of_an_unlisted_uri_is_not_found() {
    let capabilities = registry(&[("web", &[], &["web://page/1"])]);
    let d = capabilities.dispatch_tool_call(&call("read_resource", vec![text("uri", "web://page/2")]));
    assert_eq!(d, Dispatch::Respond(Err(ToolError::NotFound("web://page/2".to_string()))));
}

#[test]
fn read_resource_asks_the_named_system() {
    let capabilities = registry(&[("a", &[], &["doc://1"]), ("b", &[], &[])]);
    let d = capabilities.dispatch_tool_call(&call(
        "read_resource",
        vec![text("system_name", "b"), text("uri", "doc://1")],
    ));
    assert_eq!(d, Dispatch::ReadResource { system: "b".to_string(), uri: "doc://1".to_string() });
    let d = capabilities.dispatch_tool_call(&call(
        "read_resource",
        vec![text("uri", "doc://1"), text("system_name", "c")],
    ));
    assert_eq!(d, Dispatch::Respond(Err(ToolError::NotFound("c".to_string()))));
}

#[test]
fn read_resource_treats_a_null_system_name_as_none() {
    let capabilities = registry(&[("a", &[], &["doc://1"])]);
    let d = capabilities.dispatch_tool_call(&call(
        "read_resource",
        vec![
            text("uri", "doc://1"),
            Argument {
                name: "system_name".to_string(),
                value: ArgumentValue::Json("null".to_string()),
            },
        ],
    ));
    assert_eq!(d, Dispatch::ReadResource { system: "a".to_string(), uri: "doc://1".to_string() });
}

#[test]
fn read_resource_needs_a_uri() {
    let capabilities = registry(&[("a", &[], &["doc://1"])]);
    let missing = Dispatch::Respond(Err(ToolError::InvalidParameters("uri".to_string())));
    assert_eq!(capabilities.dispatch_tool_call(&call("read_resource", vec![])), missing);
    let not_a_string =
        vec![Argument { name: "uri".to_string(), value: ArgumentValue::Json("7".to_string()) }];
    assert_eq!(capabilities.dispatch_tool_call(&call("read_resource", not_a_string)), missing);
}

#[test]
fn the_built_in_tool_comes_before_a_system_tool_of_its_name() {
    let capabilities = registry(&[("a", &["read_resource"], &["doc://1"])]);
    let d = capabilities.dispatch_tool_call(&call("read_resource", vec![text("uri", "doc://1")]));
    assert_eq!(d, Dispatch::ReadResource { system: "a".to_string(), uri: "doc://1".to_string() });
}

#[test]
fn call_outcome_wraps_a_failure() {
    assert_eq!(call_outcome(Ok("42".to_string())), Ok("42".to_string()));
    assert_eq!(
        call_outcome(Err("disk full".to_string())),
        Err(ToolError::ExecutionError("disk full".to_string()))
    );
}

#[test]
fn resource_outcome_reports_a_missing_resource() {
    assert_eq!(
        resource_outcome("web://page/9".to_string(), None),
        Err(ToolError::NotFound("web://page/9".to_string()))
    );
}

#[test]
fn read_resource_tool_has_the_documented_schema() {
    let tool = read_resource_tool();
    assert_eq!(tool.name, "read_resource");
    assert_eq!(tool.name, READ_RESOURCE);
    assert_eq!(tool.description, READ_RESOURCE_DESCRIPTION);
    assert!(tool.description.starts_with("Read a resource from a system.\n\nResources allow"));
    assert!(tool.description.ends_with("    to get the schema information for a table and then use to construct your query.\n"));
    assert_eq!(tool.description.lines().count(), 11);
    assert_eq!(tool.input_schema, READ_RESOURCE_SCHEMA);
    let schema: serde_json::Value = serde_json::from_str(&tool.input_schema).unwrap();
    assert_eq!(schema["type"], "object");
    assert_eq!(schema["required"], serde_json::Value::Array(vec!["uri".into()]));
    assert_eq!(schema["properties"]["uri"]["type"], "string");
    assert_eq!(schema["properties"]["uri"]["description"], "Resource URI");
    assert_eq!(schema["properties"]["system_name"]["type"], "string");
    assert_eq!(schema["properties"]["system_name"]["description"], "Optional system name");
    assert_eq!(schema["properties"].as_object().unwrap().len(), 2);
}
