//! The protocol-neutral model of a chat request.
use vstd::prelude::*;

verus! {

#[derive(Clone, Copy, Debug, PartialEq, Eq, Structural)]
pub enum Role {
    System,
    User,
    Assistant,
    Tool,
}

#[derive(Clone, Copy, Debug, PartialEq, Eq, Structural)]
pub enum PartKind {
    Text,
    Image,
    ToolCall,
    ToolResult,
    Continuation,
}

#[derive(Debug)]
pub enum Part {
    Text { text: String },
    Image { mime_type: String, data: String },
    ToolCall { id: String, name: String, arguments: String },
    ToolResult { call_id: String, content: String },
    /// Opaque upstream continuation data attached to the part `part_id`.
    Continuation { part_id: String, signature: String },
}

pub open spec fn kind_of(p: Part) -> PartKind {
    match p {
        Part::Text { .. } => PartKind::Text,
        Part::Image { .. } => PartKind::Image,
        Part::ToolCall { .. } => PartKind::ToolCall,
        Part::ToolResult { .. } => PartKind::ToolResult,
        Part::Continuation { .. } => PartKind::Continuation,
    }
}

pub fn part_kind(p: &Part) -> (r: PartKind)
    ensures
        r == kind_of(*p),
{
    match p {
        Part::Text { .. } => PartKind::Text,
        Part::Image { .. } => PartKind::Image,
        Part::ToolCall { .. } => PartKind::ToolCall,
        Part::ToolResult { .. } => PartKind::ToolResult,
        Part::Continuation { .. } => PartKind::Continuation,
    }
}

pub fn copy_part(p: &Part) -> (r: Part)
    ensures
        r == *p,
{
    match p {
        Part::Text { text } => Part::Text { text: text.clone() },
        Part::Image { mime_type, data } => Part::Image { mime_type: mime_type.clone(), data: data.clone() },
        Part::ToolCall { id, name, arguments } => Part::ToolCall {
            id: id.clone(),
            name: name.clone(),
            arguments: arguments.clone(),
        },
        Part::ToolResult { call_id, content } => Part::ToolResult {
            call_id: call_id.clone(),
            content: content.clone(),
        },
        Part::Continuation { part_id, signature } => Part::Continuation {
            part_id: part_id.clone(),
            signature: signature.clone(),
        },
    }
}

pub struct Message {
    pub role: Role,
    pub parts: Vec<Part>,
}

pub struct CanonicalRequest {
    pub model: String,
    pub messages: Vec<Message>,
    pub stream: bool,
    pub max_tokens: Option<u32>,
}

pub open spec fn starts_with_result(parts: Seq<Part>) -> bool {
    parts.len() > 0 && kind_of(parts[0]) == PartKind::ToolResult
}

/// A well-formed conversation: a system prompt, if any, is the first message
/// and is not empty; tool results open exactly the tool messages.
pub open spec fn wf_request(req: CanonicalRequest) -> bool {
    forall|i: int|
        0 <= i < req.messages@.len() ==> {
            let m = #[trigger] req.messages@[i];
            &&& m.role == Role::System ==> i == 0 && m.parts@.len() > 0
            &&& m.role == Role::Tool ==> starts_with_result(m.parts@)
            &&& m.role == Role::User ==> !starts_with_result(m.parts@)
        }
}

/// `a` and `b` carry the same model, parameters, and messages with the
/// same roles and the same parts in the same order.
pub open spec fn same_request(a: CanonicalRequest, b: CanonicalRequest) -> bool {
    &&& a.model == b.model
    &&& a.stream == b.stream
    &&& a.max_tokens == b.max_tokens
    &&& a.messages@.len() == b.messages@.len()
    &&& forall|i: int|
        0 <= i < a.messages@.len() ==> (#[trigger] a.messages@[i]).role == b.messages@[i].role
            && a.messages@[i].parts@ == b.messages@[i].parts@
}

} // verus!
