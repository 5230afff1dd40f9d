//! The tag-delimited model-family codec: normalisation of raw model
//! output, extraction of call signatures, rendering of the system
//! prompt that advertises the tools, and the uniform error response.

use vstd::prelude::*;
use vstd::seq_lib::group_seq_properties;
use vstd::string::StrSliceExecFns;
use vstd::string::StringExecFns;

use crate::chat::ChatMessage;
use crate::chat::ChatMessageResponse;
use crate::chat::ChatRole;
use crate::chat::MessageKind;
use crate::error::error_text;
use crate::error::OllamaError;
use crate::json::append_json_escaped;
use crate::json::json_escaped;
use crate::json::json_parse_ok;
use crate::json::json_parses;
use crate::scan::scan_calls;
use crate::scan::scan_from;
use crate::scan::try_match;
use crate::scan::RawCall;
use crate::text::collapse_pairs;
use crate::text::collapse_pairs_spec;
use crate::text::strip_prefix_repeated;
use crate::text::strip_prefix_spec;
use crate::text::strip_suffix_repeated;
use crate::text::strip_suffix_spec;
use crate::text::trim_spec;
use crate::text::trim_str;
use crate::tool::ToolInfo;
use crate::tool::ToolModel;

verus! {

/// One decoded call: the tool's name and the raw text of its arguments,
/// which parsed as structurally valid JSON.
#[derive(Clone, Debug)]
pub struct LlamaFunctionCallSignature {
    /// The name of the tool the model asked for.
    pub function: String,
    /// The JSON text of the arguments to hand to the tool.
    pub arguments: String,
}

impl View for LlamaFunctionCallSignature {
    type V = RawCall;

    open spec fn view(&self) -> RawCall {
        RawCall { name: self.function@, args: self.arguments@ }
    }
}

impl DeepView for LlamaFunctionCallSignature {
    type V = RawCall;

    open spec fn deep_view(&self) -> RawCall {
        self.view()
    }
}

/// The outcome of decoding one raw model reply.
pub enum ParseOutcome {
    /// No tag matched, or every matched call had malformed arguments.
    NoCallFound,
    /// Every matched call parsed; the signatures, in source order.
    Signatures(Vec<LlamaFunctionCallSignature>),
    /// Some calls parsed and some did not; the good signatures are kept,
    /// alongside the argument texts that were rejected.
    MalformedArguments {
        signatures: Vec<LlamaFunctionCallSignature>,
        malformed: Vec<String>,
    },
}

/// The calls in `s` whose argument text is structurally valid JSON.
pub open spec fn good_calls(s: Seq<char>) -> Seq<RawCall> {
    scan_calls(s).filter(|c: RawCall| json_parse_ok(c.args))
}

/// The argument texts of the calls in `s` that are not valid JSON.
pub open spec fn bad_args(s: Seq<char>) -> Seq<Seq<char>> {
    scan_calls(s).filter(|c: RawCall| !json_parse_ok(c.args)).map_values(|c: RawCall| c.args)
}

/// The normalisation applied to raw model output before scanning: trim,
/// strip a fenced-code marker, trim again, and collapse doubled braces.
pub open spec fn clean_spec(s: Seq<char>) -> Seq<char> {
    collapse_pairs_spec(
        collapse_pairs_spec(
            trim_spec(strip_suffix_spec(strip_prefix_spec(trim_spec(s), "```json"@), "```"@)),
            '{',
        ),
        '}',
    )
}

/// Scans `s` and splits the matched calls into the signatures whose
/// arguments parse and the argument texts that do not.
fn scan_and_split(s: &str) -> (r: (Vec<LlamaFunctionCallSignature>, Vec<String>))
    ensures
        r.0.deep_view() == good_calls(s@),
        r.1.deep_view() == bad_args(s@),
{
    broadcast use group_seq_properties;

    let ghost ok_pred = |c: RawCall| json_parse_ok(c.args);
    let ghost bad_pred = |c: RawCall| !json_parse_ok(c.args);
    let len = s.unicode_len();
    let mut sigs: Vec<LlamaFunctionCallSignature> = Vec::new();
    let mut bads: Vec<String> = Vec::new();
    let ghost mut found: Seq<RawCall> = Seq::empty();
    let mut i: usize = 0;
    proof {
        assert(scan_from(s@, 0) =~= found + scan_from(s@, 0));
        assert(sigs.deep_view() =~= found.filter(ok_pred)) by {
            reveal(Seq::filter);
        }
        assert(bads.deep_view() =~= found.filter(bad_pred).map_values(|c: RawCall| c.args)) by {
            reveal(Seq::filter);
        }
    }
    while i < len
        invariant
            i <= len,
            len == s@.len(),
            ok_pred == (|c: RawCall| json_parse_ok(c.args)),
            bad_pred == (|c: RawCall| !json_parse_ok(c.args)),
            scan_from(s@, 0) == found + scan_from(s@, i as int),
            sigs.deep_view() == found.filter(ok_pred),
            bads.deep_view() == found.filter(bad_pred).map_values(|c: RawCall| c.args),
        decreases len - i,
    {
        match try_match(s, i) {
            None => {
                proof {
                    assert(scan_from(s@, i as int) == scan_from(s@, i + 1));
                }
                i = i + 1;
            },
            Some((name, args, end)) => {
                let ghost c = RawCall { name: name@, args: args@ };
                let ghost old_found = found;
                let ghost old_sigs = sigs.deep_view();
                let ghost old_bads = bads.deep_view();
                proof {
                    assert(scan_from(s@, i as int) == seq![c] + scan_from(s@, end as int));
                    found = found.push(c);
                    assert(found.drop_last() =~= old_found);
                    assert(scan_from(s@, 0) =~= found + scan_from(s@, end as int));
                    reveal(Seq::filter);
                }
                let ok = json_parses(args.as_str());
                if ok {
                    let sig = LlamaFunctionCallSignature { function: name, arguments: args };
                    sigs.push(sig);
                    proof {
                        assert(found.filter(ok_pred) =~= old_found.filter(ok_pred).push(c));
                        assert(found.filter(bad_pred) =~= old_found.filter(bad_pred));
                        assert(sigs.deep_view() =~= old_sigs.push(c));
                        assert(bads.deep_view() =~= old_bads);
                    }
                } else {
                    bads.push(args);
                    proof {
                        assert(found.filter(ok_pred) =~= old_found.filter(ok_pred));
                        assert(found.filter(bad_pred) =~= old_found.filter(bad_pred).push(c));
                        assert(sigs.deep_view() =~= old_sigs);
                        assert(bads.deep_view() =~= old_bads.push(c.args));
                        assert(found.filter(bad_pred).map_values(|x: RawCall| x.args)
                            =~= old_found.filter(bad_pred).map_values(|x: RawCall| x.args).push(
                            c.args,
                        ));
                    }
                }
                i = end;
            },
        }
    }
    proof {
        assert(scan_from(s@, i as int) == Seq::<RawCall>::empty());
        assert(found =~= scan_calls(s@));
    }
    (sigs, bads)
}

/// Extracts the call signatures from `response`, skipping calls whose
/// arguments are not valid JSON; yields nothing when no call survives.
pub fn parse_llama_tool_response(response: &str) -> (r: Option<Vec<LlamaFunctionCallSignature>>)
    ensures
        match r {
            Some(sigs) => sigs.deep_view() == good_calls(response@) && good_calls(
                response@,
            ).len() > 0,
            None => good_calls(response@).len() == 0,
        },
{
    let (sigs, _bads) = scan_and_split(response);
    if sigs.len() == 0 {
        None
    } else {
        Some(sigs)
    }
}

/// The template of the system prompt, before the tool list.
pub open spec fn template_prefix() -> Seq<char> {
    "You have access to the following functions:\n\n"@
}

/// The template of the system prompt, after the tool list.
pub open spec fn template_suffix() -> Seq<char> {
    "\n\nIf you choose to call a function, reply ONLY in the form <function=example_function_name>{\"example_parameter\": \"value\"}</function>. After a function is called, its result will be added to the conversation; use it to answer the user."@
}

/// The prompt line advertising one tool.
pub open spec fn tool_line(t: ToolModel) -> Seq<char> {
    "Use the function '"@ + t.name + "' to '"@ + t.description + "': {\"description\":\""@
        + json_escaped(t.description) + "\",\"name\":\""@ + json_escaped(t.name)
        + "\",\"parameters\":"@ + t.parameters + "}"@
}

/// One tool's line as a JSON string literal.
pub open spec fn tool_item(t: ToolModel) -> Seq<char> {
    "\""@ + json_escaped(tool_line(t)) + "\""@
}

/// The first `k` tool items, joined with commas.
pub open spec fn tools_joined(tools: Seq<ToolModel>, k: int) -> Seq<char>
    decreases k,
{
    if k <= 0 || k > tools.len() {
        Seq::empty()
    } else if k == 1 {
        tool_item(tools[0])
    } else {
        tools_joined(tools, k - 1) + ","@ + tool_item(tools[k - 1])
    }
}

/// The JSON array of all tool lines.
pub open spec fn tools_json(tools: Seq<ToolModel>) -> Seq<char> {
    "["@ + tools_joined(tools, tools.len() as int) + "]"@
}

/// The full system prompt for a tool set.
pub open spec fn system_content(tools: Seq<ToolModel>) -> Seq<char> {
    template_prefix() + tools_json(tools) + template_suffix()
}

/// The user's question wrapped in the family's query convention.
pub open spec fn formatted_query(q: Seq<char>) -> Seq<char> {
    "Question: "@ + q
}

/// Renders the prompt line advertising one tool.
pub fn convert_to_llama_tool(tool: &ToolInfo) -> (r: String)
    ensures
        r@ == tool_line(tool@),
{
    let mut out = String::from_str("Use the function '");
    out.append(tool.name.as_str());
    out.append("' to '");
    out.append(tool.description.as_str());
    out.append("': {\"description\":\"");
    append_json_escaped(&mut out, tool.description.as_str());
    out.append("\",\"name\":\"");
    append_json_escaped(&mut out, tool.name.as_str());
    out.append("\",\"parameters\":");
    out.append(tool.parameters.as_str());
    out.append("}");
    out
}

proof fn lemma_filter_keep_all(calls: Seq<RawCall>)
    requires
        forall|k: int| 0 <= k < calls.len() ==> json_parse_ok((#[trigger] calls[k]).args),
    ensures
        calls.filter(|c: RawCall| json_parse_ok(c.args)) == calls,
    decreases calls.len(),
{
    reveal(Seq::filter);
    if calls.len() > 0 {
        lemma_filter_keep_all(calls.drop_last());
        assert(calls.filter(|c: RawCall| json_parse_ok(c.args)) =~= calls);
    }
}

/// Law: a response whose every matched call carries valid JSON
/// arguments decodes to exactly those calls, in source order.
pub proof fn lemma_all_valid_yields_all(s: Seq<char>)
    ensures
        (forall|k: int|
            0 <= k < scan_calls(s).len() ==> json_parse_ok(
                (#[trigger] scan_calls(s)[k]).args,
            )) ==> good_calls(s) == scan_calls(s),
{
    if forall|k: int|
        0 <= k < scan_calls(s).len() ==> json_parse_ok((#[trigger] scan_calls(s)[k]).args) {
        lemma_filter_keep_all(scan_calls(s));
    }
}

/// Law: a response in which no tag matches yields no call at all.
pub proof fn lemma_no_tags_no_calls(s: Seq<char>)
    ensures
        scan_calls(s).len() == 0 ==> good_calls(s).len() == 0,
        scan_calls(s).len() == 0 ==> bad_args(s).len() == 0,
{
    reveal(Seq::filter);
    if scan_calls(s).len() == 0 {
        assert(scan_calls(s) =~= Seq::<RawCall>::empty());
    }
}

/// Law: of two matched calls of which exactly one carries valid JSON
/// arguments, decoding keeps exactly the valid one; the malformed one
/// does not suppress it.
pub proof fn lemma_one_valid_one_malformed(s: Seq<char>)
    ensures
        (scan_calls(s).len() == 2 && json_parse_ok(scan_calls(s)[0].args) && !json_parse_ok(
            scan_calls(s)[1].args,
        )) ==> good_calls(s) == seq![scan_calls(s)[0]],
        (scan_calls(s).len() == 2 && !json_parse_ok(scan_calls(s)[0].args) && json_parse_ok(
            scan_calls(s)[1].args,
        )) ==> good_calls(s) == seq![scan_calls(s)[1]],
{
    reveal_with_fuel(Seq::filter, 4);
    let sc = scan_calls(s);
    if sc.len() == 2 {
        assert(sc.drop_last().drop_last() =~= Seq::<RawCall>::empty());
        if json_parse_ok(sc[0].args) && !json_parse_ok(sc[1].args) {
            assert(good_calls(s) =~= seq![sc[0]]);
        }
        if !json_parse_ok(sc[0].args) && json_parse_ok(sc[1].args) {
            assert(good_calls(s) =~= seq![sc[1]]);
        }
    }
}

/// Law: the system message for an empty tool set is the fixed template
/// around an empty tool list.
pub proof fn lemma_empty_tools_render()
    ensures
        system_content(Seq::<ToolModel>::empty()) == template_prefix() + "[]"@
            + template_suffix(),
{
    reveal_strlit("[");
    reveal_strlit("]");
    reveal_strlit("[]");
    assert(system_content(Seq::<ToolModel>::empty()) =~= template_prefix() + "[]"@
        + template_suffix());
}

/// The tag-delimited model-family codec.
pub struct LlamaFunctionCall {}

impl LlamaFunctionCall {
    /// Normalises raw model output: trims whitespace, strips a fenced
    /// code marker, trims again, and collapses doubled braces.
    pub fn clean_tool_call(&self, json_str: &str) -> (r: String)
        ensures
            r@ == clean_spec(json_str@),
    {
        proof {
            reveal_strlit("```json");
            reveal_strlit("```");
        }
        let t1 = trim_str(json_str);
        let t2 = strip_prefix_repeated(t1.as_str(), "```json");
        let t3 = strip_suffix_repeated(t2.as_str(), "```");
        let t4 = trim_str(t3.as_str());
        let t5 = collapse_pairs(t4.as_str(), '{');
        collapse_pairs(t5.as_str(), '}')
    }

    /// Extracts the call signatures from a raw (already normalised)
    /// reply; skips malformed calls, yields nothing if none survives.
    pub fn parse_tool_response(&self, response: &str) -> (r: Option<
        Vec<LlamaFunctionCallSignature>,
    >)
        ensures
            match r {
                Some(sigs) => sigs.deep_view() == good_calls(response@) && good_calls(
                    response@,
                ).len() > 0,
                None => good_calls(response@).len() == 0,
            },
    {
        parse_llama_tool_response(response)
    }

    /// Decodes one raw reply into a structured outcome: the signatures
    /// in source order, with malformed calls reported alongside, or
    /// nothing when no call survives.
    pub fn decode_response(&self, raw: &str) -> (r: ParseOutcome)
        ensures
            ({
                let g = good_calls(clean_spec(raw@));
                let b = bad_args(clean_spec(raw@));
                match r {
                    ParseOutcome::NoCallFound => g.len() == 0,
                    ParseOutcome::Signatures(sigs) => sigs.deep_view() == g && g.len() > 0
                        && b.len() == 0,
                    ParseOutcome::MalformedArguments { signatures, malformed } => {
                        &&& signatures.deep_view() == g
                        &&& g.len() > 0
                        &&& malformed.deep_view() == b
                        &&& b.len() > 0
                    },
                }
            }),
    {
        let cleaned = self.clean_tool_call(raw);
        let (sigs, bads) = scan_and_split(cleaned.as_str());
        if sigs.len() == 0 {
            ParseOutcome::NoCallFound
        } else if bads.len() == 0 {
            ParseOutcome::Signatures(sigs)
        } else {
            ParseOutcome::MalformedArguments { signatures: sigs, malformed: bads }
        }
    }

    /// Renders the system message advertising the tool set. The text is
    /// a pure, deterministic function of the tool descriptions.
    pub fn get_system_message(&self, tools: &Vec<ToolInfo>) -> (m: ChatMessage)
        ensures
            m@.role == ChatRole::System,
            m@.content == system_content(tools.deep_view()),
    {
        let mut out = String::from_str("You have access to the following functions:\n\n");
        out.append("[");
        proof {
            assert(out@ =~= template_prefix() + "["@ + tools_joined(tools.deep_view(), 0));
        }
        let n = tools.len();
        let mut k: usize = 0;
        while k < n
            invariant
                k <= n,
                n == tools@.len(),
                tools.deep_view().len() == tools@.len(),
                out@ == template_prefix() + "["@ + tools_joined(tools.deep_view(), k as int),
            decreases n - k,
        {
            if k > 0 {
                out.append(",");
            }
            out.append("\"");
            let line = convert_to_llama_tool(&tools[k]);
            append_json_escaped(&mut out, line.as_str());
            out.append("\"");
            proof {
                assert(out@ =~= template_prefix() + "["@ + tools_joined(
                    tools.deep_view(),
                    k + 1,
                ));
            }
            k = k + 1;
        }
        out.append("]");
        out.append(
            "\n\nIf you choose to call a function, reply ONLY in the form <function=example_function_name>{\"example_parameter\": \"value\"}</function>. After a function is called, its result will be added to the conversation; use it to answer the user.",
        );
        proof {
            assert(out@ =~= system_content(tools.deep_view()));
        }
        ChatMessage::system(out)
    }

    /// Wraps the user's literal question in the family's instructional
    /// template.
    pub fn format_query(&self, input: &str) -> (r: String)
        ensures
            r@ == formatted_query(input@),
    {
        let mut out = String::from_str("Question: ");
        out.append(input);
        out
    }

    /// Builds the uniform response value that carries a failure back to
    /// the caller.
    pub fn error_handler(&self, error: OllamaError) -> (r: ChatMessageResponse)
        ensures
            r.model@ == Seq::<char>::empty(),
            r.created_at@ == Seq::<char>::empty(),
            r.done == true,
            match r.message {
                Some(MessageKind::Unparsed(m)) => m@.role == ChatRole::Assistant && m@.content
                    == error_text(error),
                _ => false,
            },
    {
        let text = error.message();
        ChatMessageResponse {
            model: String::new(),
            created_at: String::new(),
            message: Some(MessageKind::Unparsed(ChatMessage::assistant(text))),
            done: true,
        }
    }

    /// Decodes a raw reply after normalisation. On success the response
    /// carries the signatures; when no call survives, the typed failure
    /// response is returned instead.
    pub fn parse(&self, input: &str, model_name: String, tools: &Vec<ToolInfo>) -> (r: Result<
        ChatMessageResponse,
        ChatMessageResponse,
    >)
        ensures
            ({
                let g = good_calls(clean_spec(input@));
                match r {
                    Ok(resp) => {
                        &&& g.len() > 0
                        &&& resp.model@ == model_name@
                        &&& resp.created_at@ == Seq::<char>::empty()
                        &&& resp.done == true
                        &&& match resp.message {
                            Some(MessageKind::Parsed(sigs)) => sigs.deep_view() == g,
                            _ => false,
                        }
                    },
                    Err(resp) => {
                        &&& g.len() == 0
                        &&& resp.model@ == Seq::<char>::empty()
                        &&& resp.created_at@ == Seq::<char>::empty()
                        &&& resp.done == true
                        &&& match resp.message {
                            Some(MessageKind::Unparsed(m)) => m@.role == ChatRole::Assistant
                                && m@.content == error_text(OllamaError::ParseFailure),
                            _ => false,
                        }
                    },
                }
            }),
    {
        let cleaned = self.clean_tool_call(input);
        match self.parse_tool_response(cleaned.as_str()) {
            Some(sigs) => Ok(
                ChatMessageResponse {
                    model: model_name,
                    created_at: String::new(),
                    message: Some(MessageKind::Parsed(sigs)),
                    done: true,
                },
            ),
            None => Err(self.error_handler(OllamaError::ParseFailure)),
        }
    }

    /// Folds one tool invocation's outcome into the uniform response
    /// shape: the tool's output becomes an assistant turn, a reported
    /// failure becomes the typed failure response.
    pub fn function_call_result(&self, model_name: String, result: Result<String, String>) -> (r:
        Result<ChatMessageResponse, ChatMessageResponse>)
        ensures
            match r {
                Ok(resp) => {
                    &&& result is Ok
                    &&& resp.model@ == model_name@
                    &&& resp.created_at@ == Seq::<char>::empty()
                    &&& resp.done == true
                    &&& match resp.message {
                        Some(MessageKind::Unparsed(m)) => m@.role == ChatRole::Assistant
                            && m@.content == result.unwrap()@,
                        _ => false,
                    }
                },
                Err(resp) => {
                    &&& result is Err
                    &&& resp.model@ == Seq::<char>::empty()
                    &&& resp.created_at@ == Seq::<char>::empty()
                    &&& resp.done == true
                    &&& match resp.message {
                        Some(MessageKind::Unparsed(m)) => m@.role == ChatRole::Assistant
                            && m@.content == error_text(
                            OllamaError::ToolExecutionError(result.unwrap_err()),
                        ),
                        _ => false,
                    }
                },
            },
    {
        match result {
            Ok(output) => Ok(
                ChatMessageResponse {
                    model: model_name,
                    created_at: String::new(),
                    message: Some(MessageKind::Unparsed(ChatMessage::assistant(output))),
                    done: true,
                },
            ),
            Err(e) => Err(self.error_handler(OllamaError::ToolExecutionError(e))),
        }
    }
}

} // verus!
