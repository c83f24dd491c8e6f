//! Message types for chat conversations.
//!
//! A conversation turn is one of four variants — system, human, assistant,
//! tool — each carrying a text content. Every variant converts to the wire
//! record the provider expects; an assistant turn additionally carries the
//! tool calls the model asked for, whose structured arguments travel on the
//! wire as JSON text.

use vstd::prelude::*;

use crate::json::{
    json_from_text, json_null, json_parsed, json_roundtrips, json_text_of, json_to_text,
};

verus! {

/// Tool call information: the id the provider assigned, the function name,
/// and the structured argument payload.
#[derive(Debug, Clone)]
pub struct ToolCall {
    pub id: String,
    pub name: String,
    pub args: serde_json::Value,
}

/// One tool call as it stands in a wire record: the argument payload is
/// JSON-encoded into a text.
#[derive(Debug, Clone)]
pub struct WireToolCall {
    pub id: String,
    pub name: String,
    pub arguments: String,
}

/// The structured record a message becomes on the wire: `role` and `content`
/// always; `tool_call_id` only for a tool turn; `tool_calls` non-empty only
/// for an assistant turn that carries calls.
#[derive(Debug, Clone)]
pub struct WireRecord {
    pub role: String,
    pub content: String,
    pub tool_call_id: Option<String>,
    pub tool_calls: Vec<WireToolCall>,
}

#[verifier::ext_equal]
pub ghost struct WireToolCallView {
    pub id: Seq<char>,
    pub name: Seq<char>,
    pub arguments: Seq<char>,
}

#[verifier::ext_equal]
pub ghost struct WireRecordView {
    pub role: Seq<char>,
    pub content: Seq<char>,
    pub tool_call_id: Option<Seq<char>>,
    pub tool_calls: Seq<WireToolCallView>,
}

impl View for WireToolCall {
    type V = WireToolCallView;

    open spec fn view(&self) -> WireToolCallView {
        WireToolCallView { id: self.id@, name: self.name@, arguments: self.arguments@ }
    }
}

impl View for WireRecord {
    type V = WireRecordView;

    open spec fn view(&self) -> WireRecordView {
        WireRecordView {
            role: self.role@,
            content: self.content@,
            tool_call_id: match self.tool_call_id {
                Some(ref id) => Some(id@),
                None => None,
            },
            tool_calls: self.tool_calls@.map_values(|w: WireToolCall| w@),
        }
    }
}

/// The wire image of one tool call: id and name as they are, arguments as
/// their JSON text.
pub open spec fn wire_tool_call_view(tc: ToolCall) -> WireToolCallView {
    WireToolCallView { id: tc.id@, name: tc.name@, arguments: json_text_of(tc.args) }
}

/// How a decoded argument value relates to its wire text: the parsed value
/// where the text is valid JSON, and the null value otherwise (a soft fail:
/// undecodable arguments degrade, they do not abort the response).
pub open spec fn tool_call_args_ok(arguments: Seq<char>, args: serde_json::Value) -> bool {
    match json_parsed(arguments) {
        Some(v) => args == v,
        None => json_text_of(args) == "null"@,
    }
}

/// Rebuilds one tool call from its wire pieces, decoding the argument text.
/// The argument value comes from the parser (or is the null fallback), so
/// its own JSON text parses back to it.
pub fn decode_tool_call(id: String, name: String, arguments: &str) -> (r: ToolCall)
    ensures
        r.id == id,
        r.name == name,
        tool_call_args_ok(arguments@, r.args),
        json_roundtrips(r.args),
{
    let args = match json_from_text(arguments) {
        Some(v) => v,
        None => json_null(),
    };
    ToolCall { id, name, args }
}

/// Base message trait: every conversation turn has a role, a content, and a
/// wire record.
pub trait BaseMessage {
    /// The role tag of this turn.
    spec fn spec_role(&self) -> Seq<char>;

    /// The text content of this turn.
    spec fn spec_content(&self) -> Seq<char>;

    /// The wire record this turn converts to.
    spec fn spec_wire(&self) -> WireRecordView;

    /// What converting to a wire record additionally establishes: for an
    /// assistant turn, that each encoded argument text parses back to the
    /// original value, for every argument value whose JSON text the parser
    /// accepts (which is every value the parser itself produced).
    spec fn wire_decodes_back(&self) -> bool;

    fn role(&self) -> (r: &str)
        ensures
            r@ == self.spec_role(),
    ;

    fn content(&self) -> (r: &str)
        ensures
            r@ == self.spec_content(),
    ;

    fn to_dict(&self) -> (r: WireRecord)
        ensures
            r@ == self.spec_wire(),
            self.wire_decodes_back(),
    ;
}

/// System message for setting agent behavior.
#[derive(Debug, Clone)]
pub struct SystemMessage {
    pub content: String,
}

impl SystemMessage {
    pub fn new(content: String) -> (r: Self)
        ensures
            r.content == content,
    {
        Self { content }
    }
}

impl BaseMessage for SystemMessage {
    open spec fn spec_role(&self) -> Seq<char> {
        "system"@
    }

    open spec fn spec_content(&self) -> Seq<char> {
        self.content@
    }

    open spec fn spec_wire(&self) -> WireRecordView {
        WireRecordView {
            role: "system"@,
            content: self.content@,
            tool_call_id: None,
            tool_calls: Seq::empty(),
        }
    }

    open spec fn wire_decodes_back(&self) -> bool {
        true
    }

    fn role(&self) -> (r: &str) {
        "system"
    }

    fn content(&self) -> (r: &str) {
        self.content.as_str()
    }

    fn to_dict(&self) -> (r: WireRecord) {
        let r = WireRecord {
            role: "system".to_owned(),
            content: self.content.clone(),
            tool_call_id: None,
            tool_calls: Vec::new(),
        };
        proof {
            assert(r@ =~= self.spec_wire());
        }
        r
    }
}

/// User/human message.
#[derive(Debug, Clone)]
pub struct HumanMessage {
    pub content: String,
}

impl HumanMessage {
    pub fn new(content: String) -> (r: Self)
        ensures
            r.content == content,
    {
        Self { content }
    }
}

impl BaseMessage for HumanMessage {
    open spec fn spec_role(&self) -> Seq<char> {
        "user"@
    }

    open spec fn spec_content(&self) -> Seq<char> {
        self.content@
    }

    open spec fn spec_wire(&self) -> WireRecordView {
        WireRecordView {
            role: "user"@,
            content: self.content@,
            tool_call_id: None,
            tool_calls: Seq::empty(),
        }
    }

    open spec fn wire_decodes_back(&self) -> bool {
        true
    }

    fn role(&self) -> (r: &str) {
        "user"
    }

    fn content(&self) -> (r: &str) {
        self.content.as_str()
    }

    fn to_dict(&self) -> (r: WireRecord) {
        let r = WireRecord {
            role: "user".to_owned(),
            content: self.content.clone(),
            tool_call_id: None,
            tool_calls: Vec::new(),
        };
        proof {
            assert(r@ =~= self.spec_wire());
        }
        r
    }
}

/// Assistant/AI message with optional tool calls.
#[derive(Debug, Clone)]
pub struct AIMessage {
    pub content: String,
    pub tool_calls: Vec<ToolCall>,
}

impl AIMessage {
    pub fn new(content: String) -> (r: Self)
        ensures
            r.content == content,
            r.tool_calls@ == Seq::<ToolCall>::empty(),
    {
        Self { content, tool_calls: Vec::new() }
    }

    pub fn with_tool_calls(content: String, tool_calls: Vec<ToolCall>) -> (r: Self)
        ensures
            r.content == content,
            r.tool_calls == tool_calls,
    {
        Self { content, tool_calls }
    }

    /// Rebuilds an assistant message from a wire record, decoding each tool
    /// call's argument text.
    pub fn from_wire_record(w: &WireRecord) -> (r: Self)
        ensures
            r.content@ == w.content@,
            r.tool_calls@.len() == w.tool_calls@.len(),
            forall|i: int|
                0 <= i < w.tool_calls@.len() ==> {
                    &&& (#[trigger] r.tool_calls@[i]).id@ == w.tool_calls@[i].id@
                    &&& r.tool_calls@[i].name@ == w.tool_calls@[i].name@
                    &&& tool_call_args_ok(w.tool_calls@[i].arguments@, r.tool_calls@[i].args)
                    &&& json_roundtrips(r.tool_calls@[i].args)
                },
    {
        let mut tool_calls: Vec<ToolCall> = Vec::new();
        let n = w.tool_calls.len();
        for i in 0..n
            invariant
                n == w.tool_calls@.len(),
                tool_calls@.len() == i,
                forall|j: int|
                    0 <= j < i ==> {
                        &&& (#[trigger] tool_calls@[j]).id@ == w.tool_calls@[j].id@
                        &&& tool_calls@[j].name@ == w.tool_calls@[j].name@
                        &&& tool_call_args_ok(w.tool_calls@[j].arguments@, tool_calls@[j].args)
                        &&& json_roundtrips(tool_calls@[j].args)
                    },
        {
            let wtc = &w.tool_calls[i];
            let tc = decode_tool_call(wtc.id.clone(), wtc.name.clone(), wtc.arguments.as_str());
            tool_calls.push(tc);
        }
        AIMessage { content: w.content.clone(), tool_calls }
    }
}

impl BaseMessage for AIMessage {
    open spec fn spec_role(&self) -> Seq<char> {
        "assistant"@
    }

    open spec fn spec_content(&self) -> Seq<char> {
        self.content@
    }

    open spec fn spec_wire(&self) -> WireRecordView {
        WireRecordView {
            role: "assistant"@,
            content: self.content@,
            tool_call_id: None,
            tool_calls: self.tool_calls@.map_values(|tc: ToolCall| wire_tool_call_view(tc)),
        }
    }

    open spec fn wire_decodes_back(&self) -> bool {
        forall|i: int|
            0 <= i < self.tool_calls@.len() && json_roundtrips(self.tool_calls@[i].args)
                ==> json_parsed(#[trigger] json_text_of(self.tool_calls@[i].args)) == Some(
                self.tool_calls@[i].args,
            )
    }

    fn role(&self) -> (r: &str) {
        "assistant"
    }

    fn content(&self) -> (r: &str) {
        self.content.as_str()
    }

    fn to_dict(&self) -> (r: WireRecord) {
        let mut tool_calls: Vec<WireToolCall> = Vec::new();
        let n = self.tool_calls.len();
        for i in 0..n
            invariant
                n == self.tool_calls@.len(),
                tool_calls@.len() == i,
                forall|j: int|
                    0 <= j < i ==> (#[trigger] tool_calls@[j])@ == wire_tool_call_view(
                        self.tool_calls@[j],
                    ),
                forall|j: int|
                    0 <= j < i && json_roundtrips(self.tool_calls@[j].args) ==> json_parsed(
                        #[trigger] json_text_of(self.tool_calls@[j].args),
                    ) == Some(self.tool_calls@[j].args),
        {
            let tc = &self.tool_calls[i];
            let arguments = json_to_text(&tc.args);
            tool_calls.push(
                WireToolCall { id: tc.id.clone(), name: tc.name.clone(), arguments },
            );
        }
        let r = WireRecord {
            role: "assistant".to_owned(),
            content: self.content.clone(),
            tool_call_id: None,
            tool_calls,
        };
        proof {
            assert(r@.tool_calls =~= self.spec_wire().tool_calls);
            assert(r@ =~= self.spec_wire());
        }
        r
    }
}

/// Tool/function result message, answering the tool call whose id it carries.
#[derive(Debug, Clone)]
pub struct ToolMessage {
    pub content: String,
    pub tool_call_id: String,
}

impl ToolMessage {
    pub fn new(content: String, tool_call_id: String) -> (r: Self)
        ensures
            r.content == content,
            r.tool_call_id == tool_call_id,
    {
        Self { content, tool_call_id }
    }
}

impl BaseMessage for ToolMessage {
    open spec fn spec_role(&self) -> Seq<char> {
        "tool"@
    }

    open spec fn spec_content(&self) -> Seq<char> {
        self.content@
    }

    open spec fn spec_wire(&self) -> WireRecordView {
        WireRecordView {
            role: "tool"@,
            content: self.content@,
            tool_call_id: Some(self.tool_call_id@),
            tool_calls: Seq::empty(),
        }
    }

    open spec fn wire_decodes_back(&self) -> bool {
        true
    }

    fn role(&self) -> (r: &str) {
        "tool"
    }

    fn content(&self) -> (r: &str) {
        self.content.as_str()
    }

    fn to_dict(&self) -> (r: WireRecord) {
        let r = WireRecord {
            role: "tool".to_owned(),
            content: self.content.clone(),
            tool_call_id: Some(self.tool_call_id.clone()),
            tool_calls: Vec::new(),
        };
        proof {
            assert(r@ =~= self.spec_wire());
        }
        r
    }
}

/// Unified message enum for easier handling.
#[derive(Debug, Clone)]
pub enum Message {
    System(SystemMessage),
    Human(HumanMessage),
    AI(AIMessage),
    Tool(ToolMessage),
}

impl Message {
    /// The role tag of this turn: a pure function of the variant alone.
    pub open spec fn spec_role(self) -> Seq<char> {
        match self {
            Message::System(_) => "system"@,
            Message::Human(_) => "user"@,
            Message::AI(_) => "assistant"@,
            Message::Tool(_) => "tool"@,
        }
    }

    pub open spec fn spec_content(self) -> Seq<char> {
        match self {
            Message::System(m) => m.content@,
            Message::Human(m) => m.content@,
            Message::AI(m) => m.content@,
            Message::Tool(m) => m.content@,
        }
    }

    pub open spec fn spec_wire(self) -> WireRecordView {
        match self {
            Message::System(m) => m.spec_wire(),
            Message::Human(m) => m.spec_wire(),
            Message::AI(m) => m.spec_wire(),
            Message::Tool(m) => m.spec_wire(),
        }
    }

    pub open spec fn wire_decodes_back(self) -> bool {
        match self {
            Message::AI(m) => m.wire_decodes_back(),
            _ => true,
        }
    }

    pub fn system(content: String) -> (r: Self)
        ensures
            r matches Message::System(m) && m.content == content,
    {
        Message::System(SystemMessage::new(content))
    }

    pub fn user(content: String) -> (r: Self)
        ensures
            r matches Message::Human(m) && m.content == content,
    {
        Message::Human(HumanMessage::new(content))
    }

    pub fn assistant(content: String) -> (r: Self)
        ensures
            r matches Message::AI(m) && m.content == content && m.tool_calls@
                == Seq::<ToolCall>::empty(),
    {
        Message::AI(AIMessage::new(content))
    }

    pub fn tool(content: String, tool_call_id: String) -> (r: Self)
        ensures
            r matches Message::Tool(m) && m.content == content && m.tool_call_id == tool_call_id,
    {
        Message::Tool(ToolMessage::new(content, tool_call_id))
    }

    pub fn to_dict(&self) -> (r: WireRecord)
        ensures
            r@ == self.spec_wire(),
            self.wire_decodes_back(),
    {
        match self {
            Message::System(m) => m.to_dict(),
            Message::Human(m) => m.to_dict(),
            Message::AI(m) => m.to_dict(),
            Message::Tool(m) => m.to_dict(),
        }
    }

    pub fn role(&self) -> (r: &str)
        ensures
            r@ == self.spec_role(),
    {
        match self {
            Message::System(m) => m.role(),
            Message::Human(m) => m.role(),
            Message::AI(m) => m.role(),
            Message::Tool(m) => m.role(),
        }
    }

    pub fn content(&self) -> (r: &str)
        ensures
            r@ == self.spec_content(),
    {
        match self {
            Message::System(m) => m.content(),
            Message::Human(m) => m.content(),
            Message::AI(m) => m.content(),
            Message::Tool(m) => m.content(),
        }
    }
}

/// Law: the role tag is exactly one of the four known tags, and identifies
/// the constructing variant.
pub proof fn lemma_role_is_variant_tag(m: Message)
    ensures
        m.spec_role() == "system"@ || m.spec_role() == "user"@ || m.spec_role() == "assistant"@
            || m.spec_role() == "tool"@,
        m is System <==> m.spec_role() == "system"@,
        m is Human <==> m.spec_role() == "user"@,
        m is AI <==> m.spec_role() == "assistant"@,
        m is Tool <==> m.spec_role() == "tool"@,
{
    reveal_strlit("system");
    reveal_strlit("user");
    reveal_strlit("assistant");
    reveal_strlit("tool");
    assert("system"@.len() == 6);
    assert("user"@.len() == 4);
    assert("assistant"@.len() == 9);
    assert("tool"@.len() == 4);
    assert("user"@[0] != "tool"@[0]);
}

/// Convert messages to wire-record format for API calls.
pub fn messages_to_dict(messages: &[Message]) -> (r: Vec<WireRecord>)
    ensures
        r@.len() == messages@.len(),
        forall|i: int| 0 <= i < messages@.len() ==> (#[trigger] r@[i])@ == messages@[i].spec_wire(),
{
    let mut r: Vec<WireRecord> = Vec::new();
    let n = messages.len();
    for i in 0..n
        invariant
            n == messages@.len(),
            r@.len() == i,
            forall|j: int| 0 <= j < i ==> (#[trigger] r@[j])@ == messages@[j].spec_wire(),
    {
        r.push(messages[i].to_dict());
    }
    r
}

/// Law: converting an assistant message to its wire record and back
/// preserves the content and every tool call's id and name; the structured
/// argument value is preserved for every argument whose JSON text parses
/// back to it — which is every argument the parser itself produced, the
/// parser being where tool calls come from. (An argument nested beyond the
/// parser's recursion limit serializes to text the parser rejects, and then
/// decodes to the null fallback instead.)
pub fn assistant_wire_round_trip(m: &AIMessage) -> (r: AIMessage)
    ensures
        r.content@ == m.content@,
        r.tool_calls@.len() == m.tool_calls@.len(),
        forall|i: int|
            0 <= i < m.tool_calls@.len() ==> {
                &&& (#[trigger] r.tool_calls@[i]).id@ == m.tool_calls@[i].id@
                &&& r.tool_calls@[i].name@ == m.tool_calls@[i].name@
                &&& (json_roundtrips(m.tool_calls@[i].args) ==> r.tool_calls@[i].args
                    == m.tool_calls@[i].args)
            },
{
    let w = m.to_dict();
    let r = AIMessage::from_wire_record(&w);
    proof {
        let wtc = w.tool_calls@;
        let mtc = m.tool_calls@;
        assert(w@.tool_calls == m.spec_wire().tool_calls);
        assert(wtc.len() == mtc.len()) by {
            assert(w@.tool_calls.len() == wtc.len());
            assert(m.spec_wire().tool_calls.len() == mtc.len());
        }
        assert forall|i: int| 0 <= i < m.tool_calls@.len() implies {
            &&& (#[trigger] r.tool_calls@[i]).id@ == m.tool_calls@[i].id@
            &&& r.tool_calls@[i].name@ == m.tool_calls@[i].name@
            &&& (json_roundtrips(m.tool_calls@[i].args) ==> r.tool_calls@[i].args
                == m.tool_calls@[i].args)
        } by {
            assert(w@.tool_calls[i] == wtc[i]@);
            assert(m.spec_wire().tool_calls[i] == wire_tool_call_view(mtc[i]));
            assert(wtc[i]@ == wire_tool_call_view(mtc[i]));
            assert(wtc[i].arguments@ == json_text_of(mtc[i].args));
            assert(tool_call_args_ok(wtc[i].arguments@, r.tool_calls@[i].args));
            if json_roundtrips(mtc[i].args) {
                assert(json_parsed(json_text_of(mtc[i].args)) == Some(mtc[i].args));
            }
        }
    }
    r
}

} // verus!
