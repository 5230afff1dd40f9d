use ollama_functions::llama::convert_to_llama_tool;
use ollama_functions::llama::parse_llama_tool_response;
use ollama_functions::llama::LlamaFunctionCall;
use ollama_functions::llama::ParseOutcome;
use ollama_functions::tool::ToolInfo;

fn codec() -> LlamaFunctionCall {
    LlamaFunctionCall {}
}

fn tool(name: &str, description: &str, parameters: &str) -> ToolInfo {
    ToolInfo::new(name.to_string(), description.to_string(), parameters.to_string())
}

#[test]
fn decodes_single_signature() {
    let raw = "<function=get_weather>{\"city\": \"Paris\"}</function>";
    let sigs = parse_llama_tool_response(raw).expect("one signature");
    assert_eq!(sigs.len(), 1);
    assert_eq!(sigs[0].function, "get_weather");
    assert_eq!(sigs[0].arguments, "{\"city\": \"Paris\"}");
    let got: serde_json::Value = serde_json::from_str(&sigs[0].arguments).unwrap();
    let expected: serde_json::Value = serde_json::from_str("{\"city\": \"Paris\"}").unwrap();
    assert_eq!(got, expected);
}

#[test]
fn decodes_fenced_doubled_braces() {
    let raw = "```json\n<function=lookup>{{\"q\": \"rust\"}}</function>\n```";
    let codec = codec();
    match codec.decode_response(raw) {
        ParseOutcome::Signatures(sigs) => {
            assert_eq!(sigs.len(), 1);
            assert_eq!(sigs[0].function, "lookup");
            assert_eq!(sigs[0].arguments, "{\"q\": \"rust\"}");
        }
        _ => panic!("expected signatures"),
    }
}

#[test]
fn decodes_all_calls_in_source_order() {
    let raw = "thinking...<function=alpha>{\"a\": 1}</function> then \
               <function=beta>{\"b\": 2}</function> and <function=gamma_3>null</function>";
    let sigs = parse_llama_tool_response(raw).expect("three signatures");
    assert_eq!(sigs.len(), 3);
    assert_eq!(sigs[0].function, "alpha");
    assert_eq!(sigs[1].function, "beta");
    assert_eq!(sigs[2].function, "gamma_3");
    assert_eq!(sigs[2].arguments, "null");
}

#[test]
fn no_matching_tag_decodes_to_no_call_found() {
    let codec = codec();
    match codec.decode_response("The weather in Paris is sunny.") {
        ParseOutcome::NoCallFound => {}
        _ => panic!("expected no call"),
    }
    assert!(parse_llama_tool_response("plain text").is_none());
}

#[test]
fn all_malformed_decodes_to_no_call_found() {
    let codec = codec();
    match codec.decode_response("<function=bad>not json</function>") {
        ParseOutcome::NoCallFound => {}
        _ => panic!("expected no call"),
    }
}

#[test]
fn malformed_call_does_not_suppress_valid_one() {
    let raw = "<function=bad>oops</function><function=good>{}</function>";
    let codec = codec();
    match codec.decode_response(raw) {
        ParseOutcome::MalformedArguments { signatures, malformed } => {
            assert_eq!(signatures.len(), 1);
            assert_eq!(signatures[0].function, "good");
            assert_eq!(signatures[0].arguments, "{}");
            assert_eq!(malformed, vec!["oops".to_string()]);
        }
        _ => panic!("expected partial decode"),
    }
}

#[test]
fn empty_name_is_not_a_call() {
    assert!(parse_llama_tool_response("<function=>{}</function>").is_none());
}

#[test]
fn name_must_be_word_characters_only() {
    assert!(parse_llama_tool_response("<function=my-tool>{}</function>").is_none());
    let sigs = parse_llama_tool_response("<function=my_tool2>{}</function>").unwrap();
    assert_eq!(sigs[0].function, "my_tool2");
}

#[test]
fn unterminated_tag_is_not_a_call() {
    assert!(parse_llama_tool_response("<function=go>{\"x\": 1}").is_none());
}

#[test]
fn outer_tag_wins_over_inner() {
    let raw = "<function=outer><function=inner>{}</function>";
    let codec = codec();
    match codec.decode_response(raw) {
        ParseOutcome::NoCallFound => {}
        _ => panic!("args of the outer match are not valid JSON"),
    }
}

#[test]
fn clean_tool_call_normalises() {
    let codec = codec();
    assert_eq!(codec.clean_tool_call("  {\"a\": 1}  "), "{\"a\": 1}");
    assert_eq!(codec.clean_tool_call("```json\n{\"a\": 1}\n```"), "{\"a\": 1}");
    assert_eq!(codec.clean_tool_call("{{\"a\": 1}}"), "{\"a\": 1}");
    assert_eq!(codec.clean_tool_call("\t\n```json{}```\n"), "{}");
}

#[test]
fn convert_renders_tool_line() {
    let t = tool("lookup", "find things", "{}");
    let line = convert_to_llama_tool(&t);
    assert_eq!(
        line,
        "Use the function 'lookup' to 'find things': \
         {\"description\":\"find things\",\"name\":\"lookup\",\"parameters\":{}}"
    );
}

#[test]
fn rendered_tool_array_is_valid_json() {
    let codec = codec();
    let t = tool("quote_tool", "says \"hi\"\nand\ttabs \\ done", "{\"k\": 3}");
    let line = convert_to_llama_tool(&t);
    let tools = vec![t];
    let m = codec.get_system_message(&tools);
    let start = "You have access to the following functions:\n\n";
    let rest = &m.content[start.len()..];
    let end = rest.find("\n\n").expect("template suffix follows the array");
    let decoded: Vec<String> = serde_json::from_str(&rest[..end]).unwrap();
    assert_eq!(decoded, vec![line]);
}

#[test]
fn renders_system_message_for_empty_tool_set() {
    let codec = codec();
    let m = codec.get_system_message(&Vec::new());
    let expected = format!(
        "You have access to the following functions:\n\n[]{}",
        "\n\nIf you choose to call a function, reply ONLY in the form \
         <function=example_function_name>{\"example_parameter\": \"value\"}</function>. \
         After a function is called, its result will be added to the conversation; \
         use it to answer the user."
    );
    assert_eq!(m.content, expected);
    let again = codec.get_system_message(&Vec::new());
    assert_eq!(m.content, again.content);
}

#[test]
fn renders_system_message_with_tools_as_json_array() {
    let codec = codec();
    let tools = vec![
        tool("alpha", "first", "{\"type\": \"object\"}"),
        tool("beta", "second", "null"),
    ];
    let m = codec.get_system_message(&tools);
    let line_a = convert_to_llama_tool(&tools[0]);
    let line_b = convert_to_llama_tool(&tools[1]);
    let array = serde_json::to_string(&vec![line_a, line_b]).unwrap();
    let start = "You have access to the following functions:\n\n";
    assert!(m.content.starts_with(start));
    assert!(m.content[start.len()..].starts_with(&array));
}

#[test]
fn format_query_wraps_question() {
    let codec = codec();
    assert_eq!(codec.format_query("what now?"), "Question: what now?");
}
