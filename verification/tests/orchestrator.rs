use ollama_functions::chat::ChatMessage;
use ollama_functions::chat::ChatRole;
use ollama_functions::chat::FunctionCallRequest;
use ollama_functions::error::OllamaError;
use ollama_functions::llama::LlamaFunctionCall;
use ollama_functions::ollama::ensure_system_prompt;
use ollama_functions::ollama::parse_llama_function;
use ollama_functions::ollama::plan_dispatch;
use ollama_functions::ollama::Ollama;
use ollama_functions::tool::find_tool;
use ollama_functions::tool::ToolInfo;

fn tool(name: &str, description: &str, parameters: &str) -> ToolInfo {
    ToolInfo::new(name.to_string(), description.to_string(), parameters.to_string())
}

fn codec() -> LlamaFunctionCall {
    LlamaFunctionCall {}
}

#[test]
fn ensure_system_prompt_is_idempotent() {
    let prompt = ChatMessage::system("be helpful".to_string());
    let mut messages = vec![ChatMessage::user("hi".to_string())];
    ensure_system_prompt(&mut messages, &prompt);
    assert_eq!(messages.len(), 2);
    assert_eq!(messages[0].content, "be helpful");
    assert_eq!(messages[1].content, "hi");
    ensure_system_prompt(&mut messages, &prompt);
    assert_eq!(messages.len(), 2);
    assert_eq!(messages[0].content, "be helpful");
    assert_eq!(messages[1].content, "hi");
}

#[test]
fn ensure_system_prompt_prepends_to_empty_conversation() {
    let prompt = ChatMessage::system("be helpful".to_string());
    let mut messages: Vec<ChatMessage> = Vec::new();
    ensure_system_prompt(&mut messages, &prompt);
    assert_eq!(messages.len(), 1);
    assert!(matches!(messages[0].role, ChatRole::System));
}

#[test]
fn prepare_function_call_forces_prompt_and_no_streaming() {
    let client = Ollama::new();
    let tools = vec![tool("lookup", "find things", "{}")];
    let request = FunctionCallRequest::new(
        "test-model".to_string(),
        vec![ChatMessage::user("find rust".to_string())],
        tools,
    );
    let prepared = client.prepare_function_call(request, &codec());
    assert!(!prepared.stream);
    assert_eq!(prepared.model_name, "test-model");
    assert_eq!(prepared.messages.len(), 2);
    assert!(matches!(prepared.messages[0].role, ChatRole::System));
    assert!(prepared.messages[0].content.contains("lookup"));
    assert_eq!(prepared.messages[1].content, "find rust");

    let again = FunctionCallRequest::new(
        "test-model".to_string(),
        prepared.messages.clone(),
        vec![tool("lookup", "find things", "{}")],
    );
    let twice = client.prepare_function_call(again, &codec());
    assert_eq!(twice.messages.len(), 2);
}

#[test]
fn parse_llama_function_returns_typed_parse_failure() {
    let tools = vec![tool("lookup", "find things", "{}")];
    let err = parse_llama_function("no calls here", "m".to_string(), &tools).unwrap_err();
    assert!(matches!(err, OllamaError::ParseFailure));
    let ok = parse_llama_function(
        "<function=lookup>{\"q\": \"rust\"}</function>",
        "m".to_string(),
        &tools,
    )
    .unwrap();
    assert_eq!(ok.len(), 1);
    assert_eq!(ok[0].function, "lookup");
}

#[test]
fn parse_llama_function_normalises_before_scanning() {
    let tools = vec![tool("lookup", "find things", "{}")];
    let raw = "```json\n<function=lookup>{{\"q\": \"rust\"}}</function>\n```";
    let sigs = parse_llama_function(raw, "m".to_string(), &tools).unwrap();
    assert_eq!(sigs.len(), 1);
    assert_eq!(sigs[0].function, "lookup");
    assert_eq!(sigs[0].arguments, "{\"q\": \"rust\"}");
}

#[test]
fn tool_lookup_is_case_sensitive_and_exact() {
    let tools = vec![tool("Weather", "weather", "{}"), tool("weather2", "more", "{}")];
    assert_eq!(find_tool(&tools, "Weather"), Some(0));
    assert_eq!(find_tool(&tools, "weather"), None);
    assert_eq!(find_tool(&tools, "Weather "), None);
    assert_eq!(find_tool(&tools, "weather2"), Some(1));
}

#[test]
fn dispatch_surfaces_tool_not_found() {
    let tools = vec![tool("lookup", "find things", "{}")];
    let sigs =
        parse_llama_function("<function=LOOKUP>{}</function>", "m".to_string(), &tools).unwrap();
    match plan_dispatch(&tools, &sigs) {
        Err(OllamaError::ToolNotFound(name)) => assert_eq!(name, "LOOKUP"),
        _ => panic!("an unregistered tool name must surface ToolNotFound"),
    }
}

#[test]
fn dispatch_resolves_signatures_in_source_order() {
    let tools = vec![tool("alpha", "a", "{}"), tool("beta", "b", "{}")];
    let sigs = parse_llama_function(
        "<function=beta>{}</function><function=alpha>{}</function>",
        "m".to_string(),
        &tools,
    )
    .unwrap();
    let indices = plan_dispatch(&tools, &sigs).unwrap();
    assert_eq!(indices, vec![1, 0]);
}

#[test]
fn history_records_system_prompt_once() {
    let mut client = Ollama::new();
    assert!(!client.has_system_prompt_history());
    assert!(client.get_messages_history("default").is_none());

    let request = FunctionCallRequest::new(
        "test-model".to_string(),
        vec![ChatMessage::user("what is rust?".to_string())],
        vec![tool("lookup", "find things", "{}")],
    );
    let id = "default".to_string();
    let prepared = client.prepare_function_call_with_history(request, &codec(), &id);
    assert!(!prepared.stream);
    assert_eq!(prepared.messages.len(), 1);
    assert_eq!(prepared.messages[0].content, "Question: what is rust?");
    assert!(matches!(prepared.messages[0].role, ChatRole::User));

    let stored = client.get_messages_history("default").expect("session recorded");
    assert_eq!(stored.len(), 1);
    assert!(matches!(stored[0].role, ChatRole::System));
    assert!(stored[0].content.contains("lookup"));

    let request2 = FunctionCallRequest::new(
        "test-model".to_string(),
        vec![ChatMessage::user("and again?".to_string())],
        vec![tool("lookup", "find things", "{}")],
    );
    let prepared2 = client.prepare_function_call_with_history(request2, &codec(), &id);
    assert_eq!(prepared2.messages[0].content, "and again?");
    let stored2 = client.get_messages_history("default").expect("still one session");
    assert_eq!(stored2.len(), 1);
}

#[test]
fn history_prompt_is_per_session_and_recorded_once() {
    let mut client = Ollama::new();
    let parser = codec();
    let make_request = |q: &str| {
        FunctionCallRequest::new(
            "m".to_string(),
            vec![ChatMessage::user(q.to_string())],
            vec![tool("lookup", "find things", "{}")],
        )
    };
    let s1 = "alpha".to_string();
    let p1 = client.prepare_function_call_with_history(make_request("one?"), &parser, &s1);
    assert_eq!(p1.messages[0].content, "Question: one?");
    assert!(client.get_messages_history("alpha").is_some());

    let p2 = client.prepare_function_call_with_history(make_request("two?"), &parser, &s1);
    assert_eq!(p2.messages[0].content, "two?");
    let stored = client.get_messages_history("alpha").unwrap();
    assert_eq!(stored.len(), 1);
    assert!(matches!(stored[0].role, ChatRole::System));

    let s2 = "beta".to_string();
    let p3 = client.prepare_function_call_with_history(make_request("three?"), &parser, &s2);
    assert_eq!(p3.messages[0].content, "Question: three?");
    assert!(client.get_messages_history("beta").is_some());
}

#[test]
fn history_prompt_recorded_for_session_without_one() {
    let mut client = Ollama::new();
    let parser = codec();
    client.add_assistant_response("gamma".to_string(), "earlier reply".to_string());
    let request = FunctionCallRequest::new(
        "m".to_string(),
        vec![ChatMessage::user("q?".to_string())],
        vec![tool("lookup", "find things", "{}")],
    );
    let p = client.prepare_function_call_with_history(request, &parser, &"gamma".to_string());
    assert_eq!(p.messages[0].content, "Question: q?");
    let stored = client.get_messages_history("gamma").unwrap();
    assert_eq!(stored.len(), 2);
    assert!(matches!(stored[0].role, ChatRole::System));
    assert_eq!(stored[1].content, "earlier reply");
}

#[test]
fn history_turn_folds_reply_and_resolves_tools() {
    let mut client = Ollama::new();
    let id = "default".to_string();
    let tools = vec![tool("lookup", "find things", "{}")];
    let reply = "<function=lookup>{\"q\": \"rust\"}</function>".to_string();
    let sigs = client
        .complete_function_call_with_history(&id, &reply, &tools, &codec())
        .unwrap();
    assert_eq!(sigs.len(), 1);
    assert_eq!(sigs[0].function, "lookup");

    let stored = client.get_messages_history("default").expect("reply recorded");
    assert_eq!(stored.len(), 1);
    assert!(matches!(stored[0].role, ChatRole::Assistant));
    assert_eq!(stored[0].content, reply);

    client.record_tool_results(&id, &vec!["first result".to_string(), "second".to_string()]);
    let stored = client.get_messages_history("default").unwrap();
    assert_eq!(stored.len(), 3);
    assert_eq!(stored[1].content, "first result");
    assert_eq!(stored[2].content, "second");
}

#[test]
fn history_turn_surfaces_unknown_tool() {
    let mut client = Ollama::new();
    let id = "default".to_string();
    let tools = vec![tool("lookup", "find things", "{}")];
    let reply = "<function=scrape>{}</function>".to_string();
    let err = client
        .complete_function_call_with_history(&id, &reply, &tools, &codec())
        .unwrap_err();
    match err {
        OllamaError::ToolNotFound(name) => assert_eq!(name, "scrape"),
        _ => panic!("expected ToolNotFound"),
    }
    let err2 = client
        .complete_function_call_with_history(&id, &"nothing".to_string(), &tools, &codec())
        .unwrap_err();
    assert!(matches!(err2, OllamaError::ParseFailure));
}

#[test]
fn set_system_response_replaces_existing_system_message() {
    let mut client = Ollama::new();
    client.set_system_response("s1".to_string(), "first prompt".to_string());
    client.add_assistant_response("s1".to_string(), "a reply".to_string());
    client.set_system_response("s1".to_string(), "second prompt".to_string());
    let stored = client.get_messages_history("s1").unwrap();
    assert_eq!(stored.len(), 2);
    assert!(matches!(stored[0].role, ChatRole::System));
    assert_eq!(stored[0].content, "second prompt");
    assert_eq!(stored[1].content, "a reply");
}

#[test]
fn has_system_prompt_compares_first_message_content() {
    let client = Ollama::new();
    let msgs = vec![
        ChatMessage::system("be helpful".to_string()),
        ChatMessage::user("hi".to_string()),
    ];
    assert!(client.has_system_prompt(&msgs, "be helpful"));
    assert!(!client.has_system_prompt(&msgs, "be terse"));
}

#[test]
fn error_messages_name_their_condition() {
    assert_eq!(
        OllamaError::ParseFailure.message(),
        "Error parsing function call"
    );
    assert_eq!(
        OllamaError::ToolNotFound("scrape".to_string()).message(),
        "Tool not found: scrape"
    );
    assert_eq!(
        OllamaError::TransportError("refused".to_string()).message(),
        "Transport error: refused"
    );
    assert_eq!(
        OllamaError::ToolExecutionError("boom".to_string()).message(),
        "Tool execution failed: boom"
    );
    assert_eq!(
        OllamaError::ArgumentDecodeError("bad".to_string()).message(),
        "Error parsing function arguments: bad"
    );
}
