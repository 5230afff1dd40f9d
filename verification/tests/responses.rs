use ollama_functions::chat::ChatRole;
use ollama_functions::chat::MessageKind;
use ollama_functions::error::OllamaError;
use ollama_functions::llama::LlamaFunctionCall;
use ollama_functions::tool::ToolInfo;

fn codec() -> LlamaFunctionCall {
    LlamaFunctionCall {}
}

#[test]
fn parse_wraps_signatures_in_a_response() {
    let codec = codec();
    let tools = vec![ToolInfo::new(
        "get_weather".to_string(),
        "weather".to_string(),
        "{}".to_string(),
    )];
    let raw = "```json\n<function=get_weather>{{\"city\": \"Paris\"}}</function>\n```";
    let resp = codec.parse(raw, "m1".to_string(), &tools).unwrap();
    assert_eq!(resp.model, "m1");
    assert!(resp.done);
    match resp.message {
        Some(MessageKind::Parsed(sigs)) => {
            assert_eq!(sigs.len(), 1);
            assert_eq!(sigs[0].function, "get_weather");
            assert_eq!(sigs[0].arguments, "{\"city\": \"Paris\"}");
        }
        _ => panic!("expected parsed signatures"),
    }
}

#[test]
fn parse_failure_becomes_error_response() {
    let codec = codec();
    let tools: Vec<ToolInfo> = Vec::new();
    let resp = codec.parse("no calls", "m1".to_string(), &tools).unwrap_err();
    assert!(resp.done);
    match resp.message {
        Some(MessageKind::Unparsed(m)) => {
            assert!(matches!(m.role, ChatRole::Assistant));
            assert_eq!(m.content, "Error parsing function call");
        }
        _ => panic!("expected the error carried as an assistant message"),
    }
}

#[test]
fn error_handler_carries_the_error_text() {
    let codec = codec();
    let resp = codec.error_handler(OllamaError::ToolNotFound("scrape".to_string()));
    assert_eq!(resp.model, "");
    assert_eq!(resp.created_at, "");
    assert!(resp.done);
    match resp.message {
        Some(MessageKind::Unparsed(m)) => assert_eq!(m.content, "Tool not found: scrape"),
        _ => panic!("expected an unparsed assistant message"),
    }
}

#[test]
fn tool_output_becomes_assistant_turn() {
    let codec = codec();
    let resp = codec
        .function_call_result("m1".to_string(), Ok("42 degrees".to_string()))
        .unwrap();
    assert_eq!(resp.model, "m1");
    match resp.message {
        Some(MessageKind::Unparsed(m)) => {
            assert!(matches!(m.role, ChatRole::Assistant));
            assert_eq!(m.content, "42 degrees");
        }
        _ => panic!("expected an assistant message"),
    }
}

#[test]
fn tool_failure_becomes_error_response() {
    let codec = codec();
    let resp = codec
        .function_call_result("m1".to_string(), Err("socket closed".to_string()))
        .unwrap_err();
    match resp.message {
        Some(MessageKind::Unparsed(m)) => {
            assert_eq!(m.content, "Tool execution failed: socket closed");
        }
        _ => panic!("expected the failure carried as an assistant message"),
    }
}
