//! Conversation messages and the [`Context`] passed to every agent call.
use vstd::prelude::*;

use crate::json::{Json, JsonValue};
use crate::structured::output_schema::{OutputSchemaRequest, RequestModel};
use crate::tool_response::{ResultModel, ToolResponse, ToolResponseModel, ToolResult};

verus! {

broadcast use vstd::std_specs::vec::group_vec_axioms;

/// Who speaks a message.
#[derive(Debug)]
pub enum Role {
    System,
    User,
    Assistant,
    Tool,
    Custom(String),
}

/// Model of a [`Role`].
pub enum RoleModel {
    System,
    User,
    Assistant,
    Tool,
    Custom(Seq<char>),
}

impl View for Role {
    type V = RoleModel;

    open spec fn view(&self) -> RoleModel {
        match self {
            Role::System => RoleModel::System,
            Role::User => RoleModel::User,
            Role::Assistant => RoleModel::Assistant,
            Role::Tool => RoleModel::Tool,
            Role::Custom(s) => RoleModel::Custom(s@),
        }
    }
}

impl Clone for Role {
    fn clone(&self) -> (r: Self)
        ensures
            r@ == self@,
    {
        match self {
            Role::System => Role::System,
            Role::User => Role::User,
            Role::Assistant => Role::Assistant,
            Role::Tool => Role::Tool,
            Role::Custom(s) => Role::Custom(s.clone()),
        }
    }
}

impl PartialEq for Role {
    fn eq(&self, other: &Self) -> (r: bool) {
        match (self, other) {
            (Role::System, Role::System) => true,
            (Role::User, Role::User) => true,
            (Role::Assistant, Role::Assistant) => true,
            (Role::Tool, Role::Tool) => true,
            (Role::Custom(a), Role::Custom(b)) => crate::text::str_eq(a.as_str(), b.as_str()),
            _ => false,
        }
    }
}

impl vstd::std_specs::cmp::PartialEqSpecImpl for Role {
    open spec fn obeys_eq_spec() -> bool {
        true
    }

    open spec fn eq_spec(&self, other: &Self) -> bool {
        self@ == other@
    }
}

impl Eq for Role {}

/// One piece of a message's content.
#[derive(Debug, PartialEq)]
pub enum ContentPart {
    Text { text: String },
    Image { data: Vec<u8>, media_type: String },
    Audio { data: Vec<u8>, format: String },
    Document { data: Vec<u8>, name: String },
    ToolResponse { response: ToolResponse },
    Json { value: JsonValue },
}

/// Model of a [`ContentPart`].
pub enum PartModel {
    Text(Seq<char>),
    Image { data: Seq<u8>, media_type: Seq<char> },
    Audio { data: Seq<u8>, format: Seq<char> },
    Document { data: Seq<u8>, name: Seq<char> },
    ToolResponse(ToolResponseModel),
    Json(Json),
}

impl View for ContentPart {
    type V = PartModel;

    open spec fn view(&self) -> PartModel {
        match self {
            ContentPart::Text { text } => PartModel::Text(text@),
            ContentPart::Image { data, media_type } => PartModel::Image { data: data@, media_type: media_type@ },
            ContentPart::Audio { data, format } => PartModel::Audio { data: data@, format: format@ },
            ContentPart::Document { data, name } => PartModel::Document { data: data@, name: name@ },
            ContentPart::ToolResponse { response } => PartModel::ToolResponse(response@),
            ContentPart::Json { value } => PartModel::Json(value@),
        }
    }
}

impl Clone for ContentPart {
    fn clone(&self) -> (r: Self)
        ensures
            r@ == self@,
    {
        match self {
            ContentPart::Text { text } => ContentPart::Text { text: text.clone() },
            ContentPart::Image { data, media_type } => ContentPart::Image { data: data.clone(), media_type: media_type.clone() },
            ContentPart::Audio { data, format } => ContentPart::Audio { data: data.clone(), format: format.clone() },
            ContentPart::Document { data, name } => ContentPart::Document { data: data.clone(), name: name.clone() },
            ContentPart::ToolResponse { response } => ContentPart::ToolResponse { response: response.clone() },
            ContentPart::Json { value } => ContentPart::Json { value: value.deep_clone() },
        }
    }
}

/// The content of a message: an ordered list of parts.
#[derive(Debug, PartialEq)]
pub struct MessageContent(pub Vec<ContentPart>);

impl View for MessageContent {
    type V = Seq<PartModel>;

    open spec fn view(&self) -> Seq<PartModel> {
        self.0@.map_values(|p: ContentPart| p@)
    }
}

/// The text of a content that is one text part, else `None`.
pub open spec fn sole_text(parts: Seq<PartModel>) -> Option<Seq<char>> {
    if parts.len() == 1 && parts[0] is Text {
        Some(parts[0]->Text_0)
    } else {
        None
    }
}

/// The text parts of a content, concatenated in order.
pub open spec fn all_text(parts: Seq<PartModel>) -> Seq<char>
    decreases parts.len(),
{
    if parts.len() == 0 {
        Seq::empty()
    } else {
        all_text(parts.drop_last()) + match parts.last() {
            PartModel::Text(t) => t,
            _ => Seq::empty(),
        }
    }
}

impl Clone for MessageContent {
    fn clone(&self) -> (r: Self)
        ensures
            r@ == self@,
    {
        let mut out: Vec<ContentPart> = Vec::new();
        let mut i: usize = 0;
        while i < self.0.len()
            invariant
                i <= self.0.len(),
                out@.len() == i,
                forall|k: int| 0 <= k < i ==> #[trigger] out@[k]@ == self.0@[k]@,
            decreases self.0.len() - i,
        {
            out.push(self.0[i].clone());
            i = i + 1;
        }
        let r = MessageContent(out);
        assert(r@ =~= self@);
        r
    }
}

impl MessageContent {
    pub fn new() -> (r: Self)
        ensures
            r@ == Seq::<PartModel>::empty(),
    {
        MessageContent(Vec::new())
    }

    pub fn text(text: &str) -> (r: Self)
        ensures
            r@ == seq![PartModel::Text(text@)],
    {
        let mut v: Vec<ContentPart> = Vec::new();
        v.push(ContentPart::Text { text: text.to_owned() });
        let r = MessageContent(v);
        assert(r@ =~= seq![PartModel::Text(text@)]);
        r
    }

    pub fn parts(parts: Vec<ContentPart>) -> (r: Self)
        ensures
            r@ == parts@.map_values(|p: ContentPart| p@),
    {
        MessageContent(parts)
    }

    pub fn push(&mut self, part: ContentPart)
        ensures
            final(self)@ == old(self)@.push(part@),
    {
        self.0.push(part);
        assert(self@ =~= old(self)@.push(part@));
    }

    pub fn is_empty(&self) -> (r: bool)
        ensures
            r == (self@.len() == 0),
    {
        self.0.len() == 0
    }

    pub fn len(&self) -> (r: usize)
        ensures
            r == self@.len(),
    {
        self.0.len()
    }

    /// The text of a content that is exactly one text part.
    pub fn as_text(&self) -> (r: Option<&str>)
        ensures
            match sole_text(self@) {
                Some(t) => r matches Some(s) && s@ == t,
                None => r is None,
            },
    {
        if self.0.len() == 1 {
            match &self.0[0] {
                ContentPart::Text { text } => Some(text.as_str()),
                _ => None,
            }
        } else {
            None
        }
    }

    /// Every text part, concatenated in order; other parts are skipped.
    pub fn to_text(&self) -> (r: String)
        ensures
            r@ == all_text(self@),
    {
        let mut out = String::new();
        let mut i: usize = 0;
        while i < self.0.len()
            invariant
                i <= self.0.len(),
                out@ == all_text(self@.subrange(0, i as int)),
            decreases self.0.len() - i,
        {
            proof {
                let sub = self@.subrange(0, i + 1);
                assert(sub.drop_last() == self@.subrange(0, i as int));
                assert(sub.last() == self.0@[i as int]@);
            }
            match &self.0[i] {
                ContentPart::Text { text } => {
                    out.append(text.as_str());
                },
                _ => {
                    assert(out@ == out@ + Seq::<char>::empty());
                },
            }
            i = i + 1;
        }
        proof { assert(self@.subrange(0, self@.len() as int) == self@); }
        out
    }

    /// The parts, in order.
    pub fn iter(&self) -> (r: &Vec<ContentPart>)
        ensures
            r@.map_values(|p: ContentPart| p@) == self@,
    {
        &self.0
    }
}

/// A conversation message.
#[derive(Debug, PartialEq)]
pub struct Message {
    pub role: Role,
    pub content: MessageContent,
}

/// Model of a [`Message`].
pub struct MessageModel {
    pub role: RoleModel,
    pub content: Seq<PartModel>,
}

impl View for Message {
    type V = MessageModel;

    open spec fn view(&self) -> MessageModel {
        MessageModel { role: self.role@, content: self.content@ }
    }
}

impl Clone for Message {
    fn clone(&self) -> (r: Self)
        ensures
            r@ == self@,
    {
        Message { role: self.role.clone(), content: self.content.clone() }
    }
}

/// The models of a list of messages.
pub open spec fn message_models(ms: Seq<Message>) -> Seq<MessageModel> {
    ms.map_values(|m: Message| m@)
}

/// A message of `role` whose content is the one text part `text`.
pub open spec fn text_message(role: RoleModel, text: Seq<char>) -> MessageModel {
    MessageModel { role, content: seq![PartModel::Text(text)] }
}

impl Message {
    pub fn system(text: &str) -> (r: Self)
        ensures
            r@ == text_message(RoleModel::System, text@),
    {
        Message { role: Role::System, content: MessageContent::text(text) }
    }

    pub fn user(text: &str) -> (r: Self)
        ensures
            r@ == text_message(RoleModel::User, text@),
    {
        Message { role: Role::User, content: MessageContent::text(text) }
    }

    pub fn assistant(text: &str) -> (r: Self)
        ensures
            r@ == text_message(RoleModel::Assistant, text@),
    {
        Message { role: Role::Assistant, content: MessageContent::text(text) }
    }

    /// A tool message carrying one tool response.
    pub fn tool(call_id: &str, name: &str, result: ToolResult) -> (r: Self)
        ensures
            r@ == (MessageModel {
                role: RoleModel::Tool,
                content: seq![PartModel::ToolResponse(ToolResponseModel { call_id: call_id@, name: name@, result: result@ })],
            }),
    {
        let response = ToolResponse::new(call_id, name, result);
        let mut v: Vec<ContentPart> = Vec::new();
        v.push(ContentPart::ToolResponse { response });
        let r = Message { role: Role::Tool, content: MessageContent(v) };
        assert(r.content@ =~= seq![PartModel::ToolResponse(ToolResponseModel { call_id: call_id@, name: name@, result: result@ })]);
        r
    }

    pub fn as_text(&self) -> (r: Option<&str>)
        ensures
            match sole_text(self@.content) {
                Some(t) => r matches Some(s) && s@ == t,
                None => r is None,
            },
    {
        self.content.as_text()
    }
}

/// The conversation handed to an agent, plus an optional structured-output request.
#[derive(Debug)]
pub struct Context {
    pub messages: Vec<Message>,
    output_schema_request: Option<OutputSchemaRequest>,
}

/// Model of a [`Context`].
pub struct ContextModel {
    pub messages: Seq<MessageModel>,
    pub request: Option<RequestModel>,
}

impl View for Context {
    type V = ContextModel;

    closed spec fn view(&self) -> ContextModel {
        ContextModel {
            messages: self.messages@.map_values(|m: Message| m@),
            request: match self.output_schema_request {
                Some(r) => Some(r@),
                None => None,
            },
        }
    }
}

/// The text of the last user message, if that message is one text part;
/// `None` when no user message is, searching from the end.
pub open spec fn last_user_text(ms: Seq<MessageModel>) -> Option<Seq<char>>
    decreases ms.len(),
{
    if ms.len() == 0 {
        None
    } else if ms.last().role is User && sole_text(ms.last().content) is Some {
        sole_text(ms.last().content)
    } else {
        last_user_text(ms.drop_last())
    }
}

impl Clone for Context {
    fn clone(&self) -> (r: Self)
        ensures
            r@ == self@,
    {
        let mut out: Vec<Message> = Vec::new();
        let mut i: usize = 0;
        while i < self.messages.len()
            invariant
                i <= self.messages.len(),
                out@.len() == i,
                forall|k: int| 0 <= k < i ==> #[trigger] out@[k]@ == self.messages@[k]@,
            decreases self.messages.len() - i,
        {
            out.push(self.messages[i].clone());
            i = i + 1;
        }
        let req = match &self.output_schema_request {
            Some(r) => Some(r.clone()),
            None => None,
        };
        let r = Context { messages: out, output_schema_request: req };
        assert(r@.messages =~= self@.messages);
        r
    }
}

impl Context {
    pub fn new() -> (r: Self)
        ensures
            r@ == (ContextModel { messages: Seq::empty(), request: None }),
    {
        let r = Context { messages: Vec::new(), output_schema_request: None };
        assert(r@.messages =~= Seq::<MessageModel>::empty());
        r
    }

    pub fn with_message(self, m: Message) -> (r: Self)
        ensures
            r@ == (ContextModel { messages: self@.messages.push(m@), request: self@.request }),
    {
        let mut c = self;
        c.push(m);
        c
    }

    pub fn with_user(self, s: &str) -> (r: Self)
        ensures
            r@ == (ContextModel { messages: self@.messages.push(text_message(RoleModel::User, s@)), request: self@.request }),
    {
        self.with_message(Message::user(s))
    }

    pub fn with_system(self, s: &str) -> (r: Self)
        ensures
            r@ == (ContextModel { messages: self@.messages.push(text_message(RoleModel::System, s@)), request: self@.request }),
    {
        self.with_message(Message::system(s))
    }

    pub fn push(&mut self, m: Message)
        ensures
            final(self)@ == (ContextModel { messages: old(self)@.messages.push(m@), request: old(self)@.request }),
    {
        self.messages.push(m);
        assert(self@.messages =~= old(self)@.messages.push(m@));
    }

    /// Text of the last user message that is a single text part.
    pub fn last_user_message(&self) -> (r: Option<&str>)
        ensures
            match last_user_text(self@.messages) {
                Some(t) => r matches Some(s) && s@ == t,
                None => r is None,
            },
    {
        let ghost ms = self@.messages;
        let mut i = self.messages.len();
        assert(ms.subrange(0, i as int) == ms);
        while i > 0
            invariant
                i <= self.messages.len(),
                ms == self.messages@.map_values(|m: Message| m@),
                last_user_text(ms) == last_user_text(ms.subrange(0, i as int)),
            decreases i,
        {
            let ghost sub = ms.subrange(0, i as int);
            assert(sub.last() == self.messages@[i - 1]@);
            assert(sub.drop_last() == ms.subrange(0, i - 1));
            let m = &self.messages[i - 1];
            match m.role {
                Role::User => {
                    match m.as_text() {
                        Some(t) => {
                            return Some(t);
                        },
                        None => {},
                    }
                },
                _ => {},
            }
            i = i - 1;
        }
        None
    }

    /// Attach a structured-output schema request.
    pub fn with_output_schema_request(self, request: OutputSchemaRequest) -> (r: Self)
        ensures
            r@ == (ContextModel { messages: self@.messages, request: Some(request@) }),
    {
        Context { messages: self.messages, output_schema_request: Some(request) }
    }

    pub fn output_schema_request(&self) -> (r: Option<&OutputSchemaRequest>)
        ensures
            match self@.request {
                Some(q) => r matches Some(x) && x@ == q,
                None => r is None,
            },
    {
        match &self.output_schema_request {
            Some(r) => Some(r),
            None => None,
        }
    }
}

} // verus!
