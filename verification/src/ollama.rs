//! The orchestrator of one function-call turn, and the persisted
//! conversation history it works against. The decision steps here are
//! pure; sending a conversation to the chat transport and invoking a
//! tool are the caller's suspension points between them.
//!
//! The history store is shared, mutable state keyed by session
//! identifier: concurrent calls against the same session must be
//! serialised by the caller.

use vstd::prelude::*;
use vstd::string::StrSliceExecFns;
use vstd::string::StringExecFns;

use crate::chat::ChatMessage;
use crate::chat::ChatMessageRequest;
use crate::chat::ChatRole;
use crate::chat::FunctionCallRequest;
use crate::chat::MessageModel;
use crate::error::OllamaError;
use crate::llama::clean_spec;
use crate::llama::good_calls;
use crate::llama::formatted_query;
use crate::llama::parse_llama_tool_response;
use crate::llama::system_content;
use crate::llama::LlamaFunctionCall;
use crate::llama::LlamaFunctionCallSignature;
use crate::text::str_eq;
use crate::tool::find_tool;
use crate::tool::ToolInfo;
use crate::tool::ToolModel;

verus! {

/// One persisted session: its key and its stored conversation.
#[derive(Clone, Debug)]
pub struct Session {
    pub id: String,
    pub messages: Vec<ChatMessage>,
}

/// The mathematical model of a session.
pub ghost struct SessionModel {
    pub id: Seq<char>,
    pub messages: Seq<MessageModel>,
}

impl View for Session {
    type V = SessionModel;

    open spec fn view(&self) -> SessionModel {
        SessionModel { id: self.id@, messages: self.messages.deep_view() }
    }
}

impl DeepView for Session {
    type V = SessionModel;

    open spec fn deep_view(&self) -> SessionModel {
        self.view()
    }
}

/// Whether some stored session carries the key `id`.
pub open spec fn has_session(h: Seq<SessionModel>, id: Seq<char>) -> bool {
    exists|j: int| 0 <= j < h.len() && h[j].id == id
}

/// Whether the session keyed `id` exists and starts with a recorded
/// system prompt.
pub open spec fn has_recorded_prompt(h: Seq<SessionModel>, id: Seq<char>) -> bool {
    exists|j: int|
        0 <= j < h.len() && (#[trigger] h[j]).id == id && h[j].messages.len() > 0
            && h[j].messages[0].role == ChatRole::System
}

/// A conversation after its system prompt is set: an existing leading
/// system message is replaced, otherwise one is prepended.
pub open spec fn set_first_system(msgs: Seq<MessageModel>, content: Seq<char>) -> Seq<
    MessageModel,
> {
    if msgs.len() > 0 && msgs[0].role == ChatRole::System {
        msgs.update(0, MessageModel { role: ChatRole::System, content })
    } else {
        seq![MessageModel { role: ChatRole::System, content }] + msgs
    }
}

/// The history after the system prompt of session `id` is set; a
/// missing session is created with just the system message.
pub open spec fn set_system_model(h: Seq<SessionModel>, id: Seq<char>, content: Seq<char>) -> Seq<
    SessionModel,
>
    decreases h.len(),
{
    if h.len() == 0 {
        seq![
            SessionModel {
                id,
                messages: seq![MessageModel { role: ChatRole::System, content }],
            },
        ]
    } else if h[0].id == id {
        seq![
            SessionModel { id: h[0].id, messages: set_first_system(h[0].messages, content) },
        ] + h.drop_first()
    } else {
        seq![h[0]] + set_system_model(h.drop_first(), id, content)
    }
}

/// The history after an assistant turn is appended to session `id`; a
/// missing session is created with just that turn.
pub open spec fn add_assistant_model(h: Seq<SessionModel>, id: Seq<char>, content: Seq<char>) -> Seq<
    SessionModel,
>
    decreases h.len(),
{
    if h.len() == 0 {
        seq![
            SessionModel {
                id,
                messages: seq![MessageModel { role: ChatRole::Assistant, content }],
            },
        ]
    } else if h[0].id == id {
        seq![
            SessionModel {
                id: h[0].id,
                messages: h[0].messages.push(
                    MessageModel { role: ChatRole::Assistant, content },
                ),
            },
        ] + h.drop_first()
    } else {
        seq![h[0]] + add_assistant_model(h.drop_first(), id, content)
    }
}

/// The history after the texts in `results` are appended to session
/// `id` as assistant turns, in order.
pub open spec fn add_assistant_all(
    h: Seq<SessionModel>,
    id: Seq<char>,
    results: Seq<Seq<char>>,
) -> Seq<SessionModel>
    decreases results.len(),
{
    if results.len() == 0 {
        h
    } else {
        add_assistant_all(
            add_assistant_model(h, id, results[0]),
            id,
            results.subrange(1, results.len() as int),
        )
    }
}

/// A conversation with the system prompt ensured as its first message:
/// unchanged if already there, prepended otherwise.
pub open spec fn ensured_msgs(msgs: Seq<MessageModel>, prompt: MessageModel) -> Seq<MessageModel> {
    if msgs.len() > 0 && msgs[0].content == prompt.content {
        msgs
    } else {
        seq![prompt] + msgs
    }
}

/// Ensuring a prompt twice changes nothing the second time.
pub proof fn lemma_ensure_system_prompt_idempotent(msgs: Seq<MessageModel>, prompt: MessageModel)
    ensures
        ensured_msgs(ensured_msgs(msgs, prompt), prompt) == ensured_msgs(msgs, prompt),
{
}

/// Makes the conversation start with the given system prompt. A first
/// message with exactly the prompt's content is left alone; otherwise
/// the prompt is prepended. Re-running it never duplicates the prompt.
pub fn ensure_system_prompt(messages: &mut Vec<ChatMessage>, prompt: &ChatMessage)
    ensures
        final(messages).deep_view() == ensured_msgs(old(messages).deep_view(), prompt@),
{
    let missing = if messages.len() == 0 {
        true
    } else {
        !str_eq(messages[0].content.as_str(), prompt.content.as_str())
    };
    if missing {
        messages.insert(0, prompt.duplicate());
        proof {
            assert(messages.deep_view() =~= seq![prompt@] + old(messages).deep_view());
        }
    }
}

proof fn lemma_set_system_at(h: Seq<SessionModel>, id: Seq<char>, content: Seq<char>, k: int)
    requires
        0 <= k < h.len(),
        h[k].id == id,
        forall|j: int| 0 <= j < k ==> h[j].id != id,
    ensures
        set_system_model(h, id, content) == h.update(
            k,
            SessionModel { id: h[k].id, messages: set_first_system(h[k].messages, content) },
        ),
    decreases k,
{
    if k == 0 {
        assert(set_system_model(h, id, content) =~= h.update(
            0,
            SessionModel { id: h[0].id, messages: set_first_system(h[0].messages, content) },
        ));
    } else {
        lemma_set_system_at(h.drop_first(), id, content, k - 1);
        assert(set_system_model(h, id, content) =~= h.update(
            k,
            SessionModel { id: h[k].id, messages: set_first_system(h[k].messages, content) },
        ));
    }
}

proof fn lemma_set_system_new(h: Seq<SessionModel>, id: Seq<char>, content: Seq<char>)
    requires
        forall|j: int| 0 <= j < h.len() ==> h[j].id != id,
    ensures
        set_system_model(h, id, content) == h.push(
            SessionModel {
                id,
                messages: seq![MessageModel { role: ChatRole::System, content }],
            },
        ),
    decreases h.len(),
{
    if h.len() == 0 {
        assert(set_system_model(h, id, content) =~= h.push(
            SessionModel {
                id,
                messages: seq![MessageModel { role: ChatRole::System, content }],
            },
        ));
    } else {
        lemma_set_system_new(h.drop_first(), id, content);
        assert(set_system_model(h, id, content) =~= h.push(
            SessionModel {
                id,
                messages: seq![MessageModel { role: ChatRole::System, content }],
            },
        ));
    }
}

/// Law: recording a session's system prompt leaves that session
/// starting with one. A later preparation step for the same session
/// therefore finds the prompt recorded and changes nothing: the prompt
/// is recorded exactly once per session, whatever its key.
pub proof fn lemma_set_system_records_prompt(
    h: Seq<SessionModel>,
    id: Seq<char>,
    content: Seq<char>,
)
    ensures
        has_recorded_prompt(set_system_model(h, id, content), id),
    decreases h.len(),
{
    let out = set_system_model(h, id, content);
    if h.len() == 0 {
        assert(out[0].id == id && out[0].messages.len() > 0 && out[0].messages[0].role
            == ChatRole::System);
    } else if h[0].id == id {
        assert(out[0].id == id && out[0].messages == set_first_system(h[0].messages, content));
        assert(out[0].messages.len() > 0 && out[0].messages[0].role == ChatRole::System);
    } else {
        lemma_set_system_records_prompt(h.drop_first(), id, content);
        let sub = set_system_model(h.drop_first(), id, content);
        let j = choose|j: int|
            0 <= j < sub.len() && (#[trigger] sub[j]).id == id && sub[j].messages.len() > 0
                && sub[j].messages[0].role == ChatRole::System;
        assert(out[j + 1] == sub[j]);
    }
}

proof fn lemma_add_assistant_at(h: Seq<SessionModel>, id: Seq<char>, content: Seq<char>, k: int)
    requires
        0 <= k < h.len(),
        h[k].id == id,
        forall|j: int| 0 <= j < k ==> h[j].id != id,
    ensures
        add_assistant_model(h, id, content) == h.update(
            k,
            SessionModel {
                id: h[k].id,
                messages: h[k].messages.push(
                    MessageModel { role: ChatRole::Assistant, content },
                ),
            },
        ),
    decreases k,
{
    if k == 0 {
        assert(add_assistant_model(h, id, content) =~= h.update(
            0,
            SessionModel {
                id: h[0].id,
                messages: h[0].messages.push(
                    MessageModel { role: ChatRole::Assistant, content },
                ),
            },
        ));
    } else {
        lemma_add_assistant_at(h.drop_first(), id, content, k - 1);
        assert(add_assistant_model(h, id, content) =~= h.update(
            k,
            SessionModel {
                id: h[k].id,
                messages: h[k].messages.push(
                    MessageModel { role: ChatRole::Assistant, content },
                ),
            },
        ));
    }
}

proof fn lemma_add_assistant_new(h: Seq<SessionModel>, id: Seq<char>, content: Seq<char>)
    requires
        forall|j: int| 0 <= j < h.len() ==> h[j].id != id,
    ensures
        add_assistant_model(h, id, content) == h.push(
            SessionModel {
                id,
                messages: seq![MessageModel { role: ChatRole::Assistant, content }],
            },
        ),
    decreases h.len(),
{
    if h.len() == 0 {
        assert(add_assistant_model(h, id, content) =~= h.push(
            SessionModel {
                id,
                messages: seq![MessageModel { role: ChatRole::Assistant, content }],
            },
        ));
    } else {
        lemma_add_assistant_new(h.drop_first(), id, content);
        assert(add_assistant_model(h, id, content) =~= h.push(
            SessionModel {
                id,
                messages: seq![MessageModel { role: ChatRole::Assistant, content }],
            },
        ));
    }
}

/// The client state this core maintains: the persisted conversation
/// history, keyed by session identifier.
pub struct Ollama {
    history: Vec<Session>,
}

impl View for Ollama {
    type V = Seq<SessionModel>;

    closed spec fn view(&self) -> Seq<SessionModel> {
        self.history.deep_view()
    }
}

impl Ollama {
    /// Session keys are pairwise distinct.
    pub open spec fn wf(&self) -> bool {
        forall|i: int, j: int| 0 <= i < j < self@.len() ==> self@[i].id != self@[j].id
    }

    /// A client with no recorded history.
    pub fn new() -> (r: Ollama)
        ensures
            r@ == Seq::<SessionModel>::empty(),
            r.wf(),
    {
        Ollama { history: Vec::new() }
    }

    /// Finds the stored session with the key `id`, if any.
    fn find_session(&self, id: &str) -> (r: Option<usize>)
        ensures
            match r {
                Some(k) => k < self@.len() && self@[k as int].id == id@ && (forall|j: int|
                    0 <= j < k ==> self@[j].id != id@),
                None => !has_session(self@, id@),
            },
    {
        let n = self.history.len();
        let mut k: usize = 0;
        while k < n
            invariant
                k <= n,
                n == self@.len(),
                self@ == self.history.deep_view(),
                forall|j: int| 0 <= j < k ==> self@[j].id != id@,
            decreases n - k,
        {
            if str_eq(self.history[k].id.as_str(), id) {
                return Some(k);
            }
            k = k + 1;
        }
        None
    }

    /// The stored conversation of session `id`, if one exists.
    pub fn get_messages_history(&self, id: &str) -> (r: Option<&Vec<ChatMessage>>)
        ensures
            match r {
                Some(m) => exists|k: int|
                    0 <= k < self@.len() && self@[k].id == id@ && m.deep_view()
                        == self@[k].messages,
                None => !has_session(self@, id@),
            },
    {
        match self.find_session(id) {
            Some(k) => Some(&self.history[k].messages),
            None => None,
        }
    }

    /// Whether any history is recorded for the default session.
    pub fn has_system_prompt_history(&mut self) -> (r: bool)
        ensures
            final(self)@ == old(self)@,
            r == has_session(old(self)@, "default"@),
    {
        match self.find_session("default") {
            Some(_) => true,
            None => false,
        }
    }

    /// Whether session `id` already starts with a recorded system
    /// prompt.
    fn session_has_system_prompt(&self, id: &str) -> (r: bool)
        requires
            self.wf(),
        ensures
            r == has_recorded_prompt(self@, id@),
    {
        match self.find_session(id) {
            Some(k) => {
                let sess = &self.history[k];
                let r = sess.messages.len() > 0 && sess.messages[0].role == ChatRole::System;
                proof {
                    if !r {
                        assert forall|j: int|
                            0 <= j < self@.len() && (#[trigger] self@[j]).id == id@ implies !(
                        self@[j].messages.len() > 0 && self@[j].messages[0].role
                            == ChatRole::System) by {
                            assert(j == k as int);
                        }
                    }
                }
                r
            },
            None => false,
        }
    }

    /// Whether the conversation already starts with exactly the given
    /// system prompt text.
    pub fn has_system_prompt(&self, messages: &[ChatMessage], system_prompt: &str) -> (r: bool)
        requires
            messages@.len() > 0,
        ensures
            r == (messages@[0]@.content == system_prompt@),
    {
        let first = &messages[0];
        str_eq(first.content.as_str(), system_prompt)
    }

    /// Records `content` as the system prompt of session `id`: replaces
    /// an existing leading system message, prepends one otherwise, and
    /// creates the session when it is missing.
    pub fn set_system_response(&mut self, id: String, content: String)
        requires
            old(self).wf(),
        ensures
            final(self).wf(),
            final(self)@ == set_system_model(old(self)@, id@, content@),
    {
        match self.find_session(id.as_str()) {
            Some(k) => {
                let mut sess = self.history.remove(k);
                let replace = sess.messages.len() > 0 && sess.messages[0].role
                    == ChatRole::System;
                if replace {
                    sess.messages.set(0, ChatMessage::system(content));
                } else {
                    sess.messages.insert(0, ChatMessage::system(content));
                }
                proof {
                    assert(sess.messages.deep_view() =~= set_first_system(
                        old(self)@[k as int].messages,
                        content@,
                    ));
                }
                self.history.insert(k, sess);
                proof {
                    lemma_set_system_at(old(self)@, id@, content@, k as int);
                    assert(self@ =~= set_system_model(old(self)@, id@, content@));
                }
            },
            None => {
                let ghost idv = id@;
                let ghost cv = content@;
                let mut msgs: Vec<ChatMessage> = Vec::new();
                msgs.push(ChatMessage::system(content));
                proof {
                    assert(msgs.deep_view() =~= seq![
                        MessageModel { role: ChatRole::System, content: cv },
                    ]);
                }
                self.history.push(Session { id, messages: msgs });
                proof {
                    lemma_set_system_new(old(self)@, idv, cv);
                    assert(self@ =~= old(self)@.push(
                        SessionModel {
                            id: idv,
                            messages: seq![
                                MessageModel { role: ChatRole::System, content: cv },
                            ],
                        },
                    ));
                }
            },
        }
    }

    /// Appends `content` to session `id` as an assistant turn, creating
    /// the session when it is missing.
    pub fn add_assistant_response(&mut self, id: String, content: String)
        requires
            old(self).wf(),
        ensures
            final(self).wf(),
            final(self)@ == add_assistant_model(old(self)@, id@, content@),
    {
        match self.find_session(id.as_str()) {
            Some(k) => {
                let mut sess = self.history.remove(k);
                sess.messages.push(ChatMessage::assistant(content));
                proof {
                    assert(sess.messages.deep_view() =~= old(self)@[k as int].messages.push(
                        MessageModel { role: ChatRole::Assistant, content: content@ },
                    ));
                }
                self.history.insert(k, sess);
                proof {
                    lemma_add_assistant_at(old(self)@, id@, content@, k as int);
                    assert(self@ =~= add_assistant_model(old(self)@, id@, content@));
                }
            },
            None => {
                let ghost idv = id@;
                let ghost cv = content@;
                let mut msgs: Vec<ChatMessage> = Vec::new();
                msgs.push(ChatMessage::assistant(content));
                proof {
                    assert(msgs.deep_view() =~= seq![
                        MessageModel { role: ChatRole::Assistant, content: cv },
                    ]);
                }
                self.history.push(Session { id, messages: msgs });
                proof {
                    lemma_add_assistant_new(old(self)@, idv, cv);
                    assert(self@ =~= old(self)@.push(
                        SessionModel {
                            id: idv,
                            messages: seq![
                                MessageModel { role: ChatRole::Assistant, content: cv },
                            ],
                        },
                    ));
                }
            },
        }
    }

    /// The decision prefix of a stateless function-call turn: forces a
    /// non-streaming request and ensures the conversation starts with
    /// the codec's system prompt, without ever duplicating it. The
    /// returned request is what the caller sends to the chat transport.
    pub fn prepare_function_call(
        &self,
        request: FunctionCallRequest,
        parser: &LlamaFunctionCall,
    ) -> (r: ChatMessageRequest)
        ensures
            r.model_name@ == request.chat.model_name@,
            r.stream == false,
            r.messages.deep_view() == ensured_msgs(
                request.chat.messages.deep_view(),
                MessageModel {
                    role: ChatRole::System,
                    content: system_content(request.tools.deep_view()),
                },
            ),
    {
        let system_prompt = parser.get_system_message(&request.tools);
        let mut messages = request.chat.messages;
        ensure_system_prompt(&mut messages, &system_prompt);
        ChatMessageRequest::new(request.chat.model_name, messages)
    }

    /// The decision prefix of a history-aware turn: when session `id`
    /// has no recorded system prompt yet, records the codec's system
    /// prompt for it exactly once and rewrites the first message into
    /// the codec's query convention; a session already carrying its
    /// prompt is left untouched. The returned request is what the
    /// caller forwards to the chat transport.
    pub fn prepare_function_call_with_history(
        &mut self,
        request: FunctionCallRequest,
        parser: &LlamaFunctionCall,
        id: &String,
    ) -> (r: ChatMessageRequest)
        requires
            old(self).wf(),
            request.chat.messages@.len() > 0,
        ensures
            final(self).wf(),
            r.model_name@ == request.chat.model_name@,
            r.stream == false,
            if has_recorded_prompt(old(self)@, id@) {
                final(self)@ == old(self)@ && r.messages.deep_view()
                    == request.chat.messages.deep_view()
            } else {
                final(self)@ == set_system_model(
                    old(self)@,
                    id@,
                    system_content(request.tools.deep_view()),
                ) && r.messages.deep_view() == request.chat.messages.deep_view().update(
                    0,
                    MessageModel {
                        role: ChatRole::User,
                        content: formatted_query(
                            request.chat.messages.deep_view()[0].content,
                        ),
                    },
                )
            },
    {
        let ghost orig_msgs = request.chat.messages.deep_view();
        let mut request = request;
        if !self.session_has_system_prompt(id.as_str()) {
            let system_prompt = parser.get_system_message(&request.tools);
            self.set_system_response(id.clone(), system_prompt.content);
            let first = request.chat.messages.remove(0);
            let formatted = ChatMessage::user(parser.format_query(first.content.as_str()));
            request.chat.messages.insert(0, formatted);
            proof {
                assert(request.chat.messages.deep_view() =~= orig_msgs.update(
                    0,
                    MessageModel {
                        role: ChatRole::User,
                        content: formatted_query(orig_msgs[0].content),
                    },
                ));
            }
        }
        ChatMessageRequest::new(request.chat.model_name, request.chat.messages)
    }

    /// The decision suffix of a history-aware turn: records the raw
    /// assistant reply in session `id`, decodes it, and resolves every
    /// decoded signature against the supplied tool set. The caller
    /// invokes the resolved tools and then records their results.
    pub fn complete_function_call_with_history(
        &mut self,
        id: &String,
        reply: &String,
        tools: &Vec<ToolInfo>,
        parser: &LlamaFunctionCall,
    ) -> (r: Result<Vec<LlamaFunctionCallSignature>, OllamaError>)
        requires
            old(self).wf(),
        ensures
            final(self).wf(),
            final(self)@ == add_assistant_model(old(self)@, id@, reply@),
            ({
                let g = good_calls(clean_spec(reply@));
                match r {
                    Ok(sigs) => sigs.deep_view() == g && g.len() > 0 && (forall|k: int|
                        0 <= k < g.len() ==> !crate::tool::no_tool_named(
                            tools.deep_view(),
                            (#[trigger] g[k]).name,
                        )),
                    Err(e) => match e {
                        OllamaError::ParseFailure => g.len() == 0,
                        OllamaError::ToolNotFound(n) => exists|k: int|
                            0 <= k < g.len() && (#[trigger] g[k]).name == n@
                                && crate::tool::no_tool_named(tools.deep_view(), n@),
                        _ => false,
                    },
                }
            }),
    {
        self.add_assistant_response(id.clone(), reply.clone());
        let cleaned = parser.clean_tool_call(reply.as_str());
        match parse_llama_tool_response(cleaned.as_str()) {
            None => Err(OllamaError::ParseFailure),
            Some(sigs) => {
                match plan_dispatch(tools, &sigs) {
                    Ok(indices) => {
                        proof {
                            assert forall|k: int| 0 <= k < sigs.deep_view().len() implies
                                !crate::tool::no_tool_named(
                                tools.deep_view(),
                                (#[trigger] sigs.deep_view()[k]).name,
                            ) by {
                                assert(crate::tool::resolves_to(
                                    tools.deep_view(),
                                    sigs.deep_view()[k].name,
                                    indices@[k] as int,
                                ));
                            }
                        }
                        Ok(sigs)
                    },
                    Err(e) => Err(e),
                }
            },
        }
    }

    /// Records tool outputs as assistant turns of session `id`, in the
    /// source order of the signatures that produced them, so that a
    /// replay of the conversation is deterministic.
    pub fn record_tool_results(&mut self, id: &String, results: &Vec<String>)
        requires
            old(self).wf(),
        ensures
            final(self).wf(),
            final(self)@ == add_assistant_all(old(self)@, id@, results.deep_view()),
    {
        let n = results.len();
        let mut k: usize = 0;
        proof {
            assert(results.deep_view().subrange(0, results.deep_view().len() as int)
                =~= results.deep_view());
        }
        while k < n
            invariant
                k <= n,
                n == results@.len(),
                results.deep_view().len() == results@.len(),
                self.wf(),
                add_assistant_all(old(self)@, id@, results.deep_view())
                    == add_assistant_all(
                    self@,
                    id@,
                    results.deep_view().subrange(k as int, results.deep_view().len() as int),
                ),
            decreases n - k,
        {
            let ghost pre = self@;
            let ghost rest = results.deep_view().subrange(
                k as int,
                results.deep_view().len() as int,
            );
            self.add_assistant_response(id.clone(), results[k].clone());
            proof {
                assert(rest[0] == results.deep_view()[k as int]);
                assert(rest.subrange(1, rest.len() as int) =~= results.deep_view().subrange(
                    k + 1,
                    results.deep_view().len() as int,
                ));
            }
            k = k + 1;
        }
        proof {
            assert(add_assistant_all(
                self@,
                id@,
                results.deep_view().subrange(
                    results.deep_view().len() as int,
                    results.deep_view().len() as int,
                ),
            ) == self@);
        }
    }
}

/// Resolves each decoded signature against the tool set by exact,
/// case-sensitive name lookup; the index of each signature's tool is
/// returned in source order, or the first unknown name is reported.
pub fn plan_dispatch(
    tools: &Vec<ToolInfo>,
    signatures: &Vec<LlamaFunctionCallSignature>,
) -> (r: Result<Vec<usize>, OllamaError>)
    ensures
        match r {
            Ok(indices) => indices@.len() == signatures@.len() && (forall|k: int|
                0 <= k < signatures@.len() ==> crate::tool::resolves_to(
                    tools.deep_view(),
                    signatures.deep_view()[k].name,
                    #[trigger] indices@[k] as int,
                )),
            Err(e) => match e {
                OllamaError::ToolNotFound(n) => exists|k: int|
                    0 <= k < signatures@.len() && (#[trigger] signatures.deep_view()[k]).name
                        == n@ && crate::tool::no_tool_named(tools.deep_view(), n@),
                _ => false,
            },
        },
{
    let n = signatures.len();
    let mut indices: Vec<usize> = Vec::new();
    let mut k: usize = 0;
    while k < n
        invariant
            k <= n,
            n == signatures@.len(),
            indices@.len() == k,
            forall|j: int|
                0 <= j < k ==> crate::tool::resolves_to(
                    tools.deep_view(),
                    signatures.deep_view()[j].name,
                    #[trigger] indices@[j] as int,
                ),
        decreases n - k,
    {
        match find_tool(tools, signatures[k].function.as_str()) {
            Some(t) => {
                indices.push(t);
            },
            None => {
                proof {
                    assert(0 <= k < signatures@.len() && signatures.deep_view()[k as int].name
                        == signatures@[k as int].function@);
                }
                return Err(OllamaError::ToolNotFound(signatures[k].function.clone()));
            },
        }
        k = k + 1;
    }
    Ok(indices)
}

/// Extracts the call signatures from a raw reply, after normalising it,
/// or reports the typed parse failure when no call is recognised.
pub fn parse_llama_function(
    input: &str,
    model_name: String,
    tools: &Vec<ToolInfo>,
) -> (r: Result<Vec<LlamaFunctionCallSignature>, OllamaError>)
    ensures
        match r {
            Ok(sigs) => sigs.deep_view() == good_calls(clean_spec(input@)) && good_calls(
                clean_spec(input@),
            ).len() > 0,
            Err(e) => good_calls(clean_spec(input@)).len() == 0 && e is ParseFailure,
        },
{
    let parser = LlamaFunctionCall {};
    let cleaned = parser.clean_tool_call(input);
    match parse_llama_tool_response(cleaned.as_str()) {
        Some(sigs) => Ok(sigs),
        None => Err(OllamaError::ParseFailure),
    }
}

} // verus!
