//! Mapping between each protocol's wire shape and the canonical model, and
//! the bridge that carries continuation signatures across protocols.
use vstd::prelude::*;
use crate::canonical::{
    CanonicalRequest, Message, Part, PartKind, Role, kind_of, part_kind, starts_with_result,
};
use crate::monitor::Protocol;

verus! {

/// One content block of a wire message, as a flat record of the fields the
/// three protocols use.
pub struct WireBlock {
    pub kind: String,
    pub text: Option<String>,
    pub mime_type: Option<String>,
    pub data: Option<String>,
    pub id: Option<String>,
    pub name: Option<String>,
    pub arguments: Option<String>,
    /// Continuation signature riding on a function-call block.
    pub signature: Option<String>,
}

pub struct WireMessage {
    pub role: String,
    pub blocks: Vec<WireBlock>,
}

pub struct WireRequest {
    pub model: String,
    /// Top-level system prompt (Anthropic and Gemini).
    pub system: Vec<WireBlock>,
    pub messages: Vec<WireMessage>,
    pub stream: bool,
    pub max_tokens: Option<u32>,
}

pub enum TranslateError {
    /// A required field is missing or holds an unknown value; names the field.
    MalformedRequest { field: String },
    /// The target protocol has no representation for this kind of part.
    Unmappable { kind: PartKind },
}

/// The wire tag of a part kind in a protocol.
pub open spec fn kind_tag(p: Protocol, k: PartKind) -> Seq<char> {
    match p {
        Protocol::OpenAi => match k {
            PartKind::Text => "text"@,
            PartKind::Image => "image_url"@,
            PartKind::ToolCall => "tool_call"@,
            PartKind::ToolResult => "tool_result"@,
            PartKind::Continuation => "continuation"@,
        },
        Protocol::Anthropic => match k {
            PartKind::Text => "text"@,
            PartKind::Image => "image"@,
            PartKind::ToolCall => "tool_use"@,
            PartKind::ToolResult => "tool_result"@,
            PartKind::Continuation => "continuation"@,
        },
        Protocol::Gemini => match k {
            PartKind::Text => "text"@,
            PartKind::Image => "inline_data"@,
            PartKind::ToolCall => "function_call"@,
            PartKind::ToolResult => "function_response"@,
            PartKind::Continuation => "thought_signature"@,
        },
    }
}

/// Only the Gemini-native protocol carries continuation signatures.
pub open spec fn supports(p: Protocol, k: PartKind) -> bool {
    k == PartKind::Continuation ==> p == Protocol::Gemini
}

/// The part kind a wire tag names in a protocol.
pub open spec fn kind_of_tag(p: Protocol, t: Seq<char>) -> Option<PartKind> {
    if t == kind_tag(p, PartKind::Text) {
        Some(PartKind::Text)
    } else if t == kind_tag(p, PartKind::Image) {
        Some(PartKind::Image)
    } else if t == kind_tag(p, PartKind::ToolCall) {
        Some(PartKind::ToolCall)
    } else if t == kind_tag(p, PartKind::ToolResult) {
        Some(PartKind::ToolResult)
    } else if p == Protocol::Gemini && t == kind_tag(p, PartKind::Continuation) {
        Some(PartKind::Continuation)
    } else {
        None
    }
}

pub proof fn lemma_kind_tags(p: Protocol, k: PartKind)
    requires
        supports(p, k),
    ensures
        kind_of_tag(p, kind_tag(p, k)) == Some(k),
{
    reveal_strlit("text");
    reveal_strlit("image_url");
    reveal_strlit("tool_call");
    reveal_strlit("tool_result");
    reveal_strlit("continuation");
    reveal_strlit("image");
    reveal_strlit("tool_use");
    reveal_strlit("inline_data");
    reveal_strlit("function_call");
    reveal_strlit("function_response");
    reveal_strlit("thought_signature");
    let t = kind_tag(p, k);
    if k != PartKind::Text {
        assert(t != kind_tag(p, PartKind::Text)) by {
            if t.len() == kind_tag(p, PartKind::Text).len() {
                assert(t[0] != kind_tag(p, PartKind::Text)[0]);
            }
        }
    }
    if k != PartKind::Image {
        assert(t != kind_tag(p, PartKind::Image)) by {
            if t.len() == kind_tag(p, PartKind::Image).len() {
                assert(t[0] != kind_tag(p, PartKind::Image)[0] || t[1] != kind_tag(p, PartKind::Image)[1]);
            }
        }
    }
    if k != PartKind::ToolCall {
        assert(t != kind_tag(p, PartKind::ToolCall)) by {
            if t.len() == kind_tag(p, PartKind::ToolCall).len() {
                assert(t[0] != kind_tag(p, PartKind::ToolCall)[0] || t[5] != kind_tag(p, PartKind::ToolCall)[5]);
            }
        }
    }
    if k != PartKind::ToolResult {
        assert(t != kind_tag(p, PartKind::ToolResult)) by {
            if t.len() == kind_tag(p, PartKind::ToolResult).len() {
                assert(t[0] != kind_tag(p, PartKind::ToolResult)[0] || t[9] != kind_tag(p, PartKind::ToolResult)[9]);
            }
        }
    }
}

pub fn kind_tag_exec(p: Protocol, k: PartKind) -> (r: String)
    ensures
        r@ == kind_tag(p, k),
{
    let t: &str = match p {
        Protocol::OpenAi => match k {
            PartKind::Text => "text",
            PartKind::Image => "image_url",
            PartKind::ToolCall => "tool_call",
            PartKind::ToolResult => "tool_result",
            PartKind::Continuation => "continuation",
        },
        Protocol::Anthropic => match k {
            PartKind::Text => "text",
            PartKind::Image => "image",
            PartKind::ToolCall => "tool_use",
            PartKind::ToolResult => "tool_result",
            PartKind::Continuation => "continuation",
        },
        Protocol::Gemini => match k {
            PartKind::Text => "text",
            PartKind::Image => "inline_data",
            PartKind::ToolCall => "function_call",
            PartKind::ToolResult => "function_response",
            PartKind::Continuation => "thought_signature",
        },
    };
    t.to_owned()
}

fn kind_of_tag_exec(p: Protocol, t: &String) -> (r: Option<PartKind>)
    ensures
        r == kind_of_tag(p, t@),
{
    if *t == kind_tag_exec(p, PartKind::Text) {
        Some(PartKind::Text)
    } else if *t == kind_tag_exec(p, PartKind::Image) {
        Some(PartKind::Image)
    } else if *t == kind_tag_exec(p, PartKind::ToolCall) {
        Some(PartKind::ToolCall)
    } else if *t == kind_tag_exec(p, PartKind::ToolResult) {
        Some(PartKind::ToolResult)
    } else if matches!(p, Protocol::Gemini) && *t == kind_tag_exec(p, PartKind::Continuation) {
        Some(PartKind::Continuation)
    } else {
        None
    }
}

/// The fields a part fills in its block: text, mime type, data, id, name,
/// arguments.
pub open spec fn block_fields(x: Part) -> (
    Option<String>,
    Option<String>,
    Option<String>,
    Option<String>,
    Option<String>,
    Option<String>,
) {
    match x {
        Part::Text { text } => (Some(text), None, None, None, None, None),
        Part::Image { mime_type, data } => (None, Some(mime_type), Some(data), None, None, None),
        Part::ToolCall { id, name, arguments } => (None, None, None, Some(id), Some(name), Some(arguments)),
        Part::ToolResult { call_id, content } => (Some(content), None, None, Some(call_id), None, None),
        Part::Continuation { part_id, signature } => (None, None, Some(signature), Some(part_id), None, None),
    }
}

/// Block `b` is part `x` written in protocol `p`.
pub open spec fn renders_part(p: Protocol, x: Part, b: WireBlock) -> bool {
    &&& b.kind@ == kind_tag(p, kind_of(x))
    &&& (b.text, b.mime_type, b.data, b.id, b.name, b.arguments) == block_fields(x)
    &&& b.signature is None
}

/// The part block `b` denotes in protocol `p`, if it is complete.
pub open spec fn block_part(p: Protocol, b: WireBlock) -> Option<Part> {
    match kind_of_tag(p, b.kind@) {
        Some(PartKind::Text) => if b.text is Some {
            Some(Part::Text { text: b.text->Some_0 })
        } else {
            None
        },
        Some(PartKind::Image) => if b.mime_type is Some && b.data is Some {
            Some(Part::Image { mime_type: b.mime_type->Some_0, data: b.data->Some_0 })
        } else {
            None
        },
        Some(PartKind::ToolCall) => if b.id is Some && b.name is Some && b.arguments is Some {
            Some(
                Part::ToolCall {
                    id: b.id->Some_0,
                    name: b.name->Some_0,
                    arguments: b.arguments->Some_0,
                },
            )
        } else {
            None
        },
        Some(PartKind::ToolResult) => if b.id is Some && b.text is Some {
            Some(Part::ToolResult { call_id: b.id->Some_0, content: b.text->Some_0 })
        } else {
            None
        },
        Some(PartKind::Continuation) => if b.id is Some && b.data is Some {
            Some(Part::Continuation { part_id: b.id->Some_0, signature: b.data->Some_0 })
        } else {
            None
        },
        None => None,
    }
}

/// A block written from a part reads back as that part.
pub proof fn lemma_part_round_trip(p: Protocol, x: Part, b: WireBlock)
    requires
        supports(p, kind_of(x)),
        renders_part(p, x, b),
    ensures
        block_part(p, b) == Some(x),
{
    lemma_kind_tags(p, kind_of(x));
}

fn malformed(field: &str) -> (r: TranslateError)
    ensures
        r matches TranslateError::MalformedRequest { field: f } && f@ == field@,
{
    TranslateError::MalformedRequest { field: field.to_owned() }
}

pub fn render_part(p: Protocol, x: &Part) -> (r: Result<WireBlock, TranslateError>)
    ensures
        r is Ok <==> supports(p, kind_of(*x)),
        r matches Ok(b) ==> renders_part(p, *x, b),
        r matches Err(e) ==> e == (TranslateError::Unmappable { kind: kind_of(*x) }),
{
    let k = part_kind(x);
    if matches!(k, PartKind::Continuation) && !matches!(p, Protocol::Gemini) {
        return Err(TranslateError::Unmappable { kind: k });
    }
    let kind = kind_tag_exec(p, k);
    let b = match x {
        Part::Text { text } => WireBlock {
            kind, text: Some(text.clone()), mime_type: None, data: None, id: None, name: None,
            arguments: None, signature: None,
        },
        Part::Image { mime_type, data } => WireBlock {
            kind, text: None, mime_type: Some(mime_type.clone()), data: Some(data.clone()), id: None,
            name: None, arguments: None, signature: None,
        },
        Part::ToolCall { id, name, arguments } => WireBlock {
            kind, text: None, mime_type: None, data: None, id: Some(id.clone()),
            name: Some(name.clone()), arguments: Some(arguments.clone()), signature: None,
        },
        Part::ToolResult { call_id, content } => WireBlock {
            kind, text: Some(content.clone()), mime_type: None, data: None, id: Some(call_id.clone()),
            name: None, arguments: None, signature: None,
        },
        Part::Continuation { part_id, signature } => WireBlock {
            kind, text: None, mime_type: None, data: Some(signature.clone()), id: Some(part_id.clone()),
            name: None, arguments: None, signature: None,
        },
    };
    Ok(b)
}

pub fn parse_block(p: Protocol, b: &WireBlock) -> (r: Result<Part, TranslateError>)
    ensures
        r is Ok <==> block_part(p, *b) is Some,
        r matches Ok(x) ==> block_part(p, *b) == Some(x),
        r matches Err(e) ==> e is MalformedRequest,
{
    let k = match kind_of_tag_exec(p, &b.kind) {
        Some(k) => k,
        None => return Err(malformed("type")),
    };
    match k {
        PartKind::Text => match &b.text {
            Some(t) => Ok(Part::Text { text: t.clone() }),
            None => Err(malformed("text")),
        },
        PartKind::Image => match (&b.mime_type, &b.data) {
            (Some(m), Some(d)) => Ok(Part::Image { mime_type: m.clone(), data: d.clone() }),
            (None, _) => Err(malformed("mime_type")),
            (_, None) => Err(malformed("data")),
        },
        PartKind::ToolCall => match (&b.id, &b.name, &b.arguments) {
            (Some(i), Some(n), Some(a)) => Ok(
                Part::ToolCall { id: i.clone(), name: n.clone(), arguments: a.clone() },
            ),
            (None, _, _) => Err(malformed("id")),
            (_, None, _) => Err(malformed("name")),
            (_, _, None) => Err(malformed("arguments")),
        },
        PartKind::ToolResult => match (&b.id, &b.text) {
            (Some(i), Some(t)) => Ok(Part::ToolResult { call_id: i.clone(), content: t.clone() }),
            (None, _) => Err(malformed("id")),
            (_, None) => Err(malformed("text")),
        },
        PartKind::Continuation => match (&b.id, &b.data) {
            (Some(i), Some(d)) => Ok(Part::Continuation { part_id: i.clone(), signature: d.clone() }),
            (None, _) => Err(malformed("id")),
            (_, None) => Err(malformed("data")),
        },
    }
}

/// The wire name of a role in a protocol. Anthropic and Gemini carry tool
/// results in user turns and the system prompt outside the message list.
pub open spec fn role_tag(p: Protocol, r: Role) -> Seq<char> {
    match r {
        Role::System => "system"@,
        Role::User => "user"@,
        Role::Assistant => if p == Protocol::Gemini {
            "model"@
        } else {
            "assistant"@
        },
        Role::Tool => if p == Protocol::OpenAi {
            "tool"@
        } else {
            "user"@
        },
    }
}

/// The role a wire role name denotes, given whether the turn opens with a
/// tool result.
pub open spec fn role_of_tag(p: Protocol, t: Seq<char>, opens_with_result: bool) -> Option<Role> {
    if p == Protocol::OpenAi {
        if t == "system"@ {
            Some(Role::System)
        } else if t == "user"@ {
            Some(Role::User)
        } else if t == "assistant"@ {
            Some(Role::Assistant)
        } else if t == "tool"@ {
            Some(Role::Tool)
        } else {
            None
        }
    } else if t == "user"@ {
        if opens_with_result {
            Some(Role::Tool)
        } else {
            Some(Role::User)
        }
    } else if t == role_tag(p, Role::Assistant) {
        Some(Role::Assistant)
    } else {
        None
    }
}

fn role_tag_exec(p: Protocol, r: Role) -> (s: String)
    ensures
        s@ == role_tag(p, r),
{
    let t: &str = match r {
        Role::System => "system",
        Role::User => "user",
        Role::Assistant => if matches!(p, Protocol::Gemini) {
            "model"
        } else {
            "assistant"
        },
        Role::Tool => if matches!(p, Protocol::OpenAi) {
            "tool"
        } else {
            "user"
        },
    };
    t.to_owned()
}

fn role_of_tag_exec(p: Protocol, t: &String, opens_with_result: bool) -> (r: Option<Role>)
    ensures
        r == role_of_tag(p, t@, opens_with_result),
{
    if matches!(p, Protocol::OpenAi) {
        if *t == "system".to_owned() {
            Some(Role::System)
        } else if *t == "user".to_owned() {
            Some(Role::User)
        } else if *t == "assistant".to_owned() {
            Some(Role::Assistant)
        } else if *t == "tool".to_owned() {
            Some(Role::Tool)
        } else {
            None
        }
    } else if *t == "user".to_owned() {
        if opens_with_result {
            Some(Role::Tool)
        } else {
            Some(Role::User)
        }
    } else if *t == role_tag_exec(p, Role::Assistant) {
        Some(Role::Assistant)
    } else {
        None
    }
}

proof fn lemma_role_tags(p: Protocol, r: Role, opens: bool)
    requires
        r == Role::System ==> p == Protocol::OpenAi,
        r == Role::Tool ==> opens,
        r == Role::User ==> !opens,
    ensures
        role_of_tag(p, role_tag(p, r), opens) == Some(r),
{
    reveal_strlit("system");
    reveal_strlit("user");
    reveal_strlit("assistant");
    reveal_strlit("tool");
    reveal_strlit("model");
    if p == Protocol::OpenAi {
        let t = role_tag(p, r);
        if r != Role::System {
            assert(t != "system"@) by {
                if t.len() == 6 {
                    assert(t[0] != "system"@[0]);
                }
            }
        }
        if r != Role::User {
            assert(t != "user"@) by {
                if t.len() == 4 {
                    assert(t[0] != "user"@[0]);
                }
            }
        }
        if r != Role::Assistant {
            assert("assistant"@.len() == 9);
            assert(t.len() != 9);
        }
    } else if r == Role::Assistant {
        assert("user"@.len() == 4);
        assert(role_tag(p, r).len() != 4);
    }
}

pub open spec fn wire_opens_with_result(p: Protocol, bs: Seq<WireBlock>) -> bool {
    bs.len() > 0 && kind_of_tag(p, bs[0].kind@) == Some(PartKind::ToolResult)
}

pub open spec fn renders_parts(p: Protocol, xs: Seq<Part>, bs: Seq<WireBlock>) -> bool {
    &&& bs.len() == xs.len()
    &&& forall|j: int| 0 <= j < xs.len() ==> renders_part(p, #[trigger] xs[j], bs[j])
}

pub open spec fn parses_parts(p: Protocol, bs: Seq<WireBlock>, xs: Seq<Part>) -> bool {
    &&& xs.len() == bs.len()
    &&& forall|j: int| 0 <= j < bs.len() ==> block_part(p, #[trigger] bs[j]) == Some(xs[j])
}

pub open spec fn blocks_parse(p: Protocol, bs: Seq<WireBlock>) -> bool {
    forall|j: int| 0 <= j < bs.len() ==> (#[trigger] block_part(p, bs[j])) is Some
}

pub open spec fn parts_supported(p: Protocol, xs: Seq<Part>) -> bool {
    forall|j: int| 0 <= j < xs.len() ==> supports(p, kind_of(#[trigger] xs[j]))
}

pub fn render_parts(p: Protocol, xs: &Vec<Part>) -> (r: Result<Vec<WireBlock>, TranslateError>)
    ensures
        r is Ok <==> parts_supported(p, xs@),
        r matches Ok(bs) ==> renders_parts(p, xs@, bs@),
        r matches Err(e) ==> e is Unmappable,
{
    let mut bs: Vec<WireBlock> = Vec::new();
    let mut j: usize = 0;
    while j < xs.len()
        invariant
            0 <= j <= xs@.len(),
            renders_parts(p, xs@.subrange(0, j as int), bs@),
            parts_supported(p, xs@.subrange(0, j as int)),
        decreases xs.len() - j,
    {
        match render_part(p, &xs[j]) {
            Ok(b) => {
                bs.push(b);
                assert(xs@.subrange(0, j + 1) =~= xs@.subrange(0, j as int).push(xs@[j as int]));
            },
            Err(e) => {
                return Err(e);
            },
        }
        j = j + 1;
    }
    assert(xs@.subrange(0, xs@.len() as int) =~= xs@);
    Ok(bs)
}

pub fn parse_blocks(p: Protocol, bs: &Vec<WireBlock>) -> (r: Result<Vec<Part>, TranslateError>)
    ensures
        r is Ok <==> blocks_parse(p, bs@),
        r matches Ok(xs) ==> parses_parts(p, bs@, xs@),
        r matches Err(e) ==> e is MalformedRequest,
{
    let mut xs: Vec<Part> = Vec::new();
    let mut j: usize = 0;
    while j < bs.len()
        invariant
            0 <= j <= bs@.len(),
            parses_parts(p, bs@.subrange(0, j as int), xs@),
            blocks_parse(p, bs@.subrange(0, j as int)),
        decreases bs.len() - j,
    {
        match parse_block(p, &bs[j]) {
            Ok(x) => {
                xs.push(x);
                assert(bs@.subrange(0, j + 1) =~= bs@.subrange(0, j as int).push(bs@[j as int]));
            },
            Err(e) => {
                return Err(e);
            },
        }
        j = j + 1;
    }
    assert(bs@.subrange(0, bs@.len() as int) =~= bs@);
    Ok(xs)
}

pub open spec fn renders_msg(p: Protocol, m: Message, w: WireMessage) -> bool {
    w.role@ == role_tag(p, m.role) && renders_parts(p, m.parts@, w.blocks@)
}

pub open spec fn msg_parses(p: Protocol, w: WireMessage) -> bool {
    role_of_tag(p, w.role@, wire_opens_with_result(p, w.blocks@)) is Some && blocks_parse(p, w.blocks@)
}

pub open spec fn parsed_msg(p: Protocol, w: WireMessage, m: Message) -> bool {
    Some(m.role) == role_of_tag(p, w.role@, wire_opens_with_result(p, w.blocks@)) && parses_parts(
        p,
        w.blocks@,
        m.parts@,
    )
}

pub fn render_message(p: Protocol, m: &Message) -> (r: Result<WireMessage, TranslateError>)
    ensures
        r is Ok <==> parts_supported(p, m.parts@),
        r matches Ok(w) ==> renders_msg(p, *m, w),
        r matches Err(e) ==> e is Unmappable,
{
    let blocks = render_parts(p, &m.parts)?;
    Ok(WireMessage { role: role_tag_exec(p, m.role), blocks })
}

pub fn parse_message(p: Protocol, w: &WireMessage) -> (r: Result<Message, TranslateError>)
    ensures
        r is Ok <==> msg_parses(p, *w),
        r matches Ok(m) ==> parsed_msg(p, *w, m),
        r matches Err(e) ==> e is MalformedRequest,
{
    let opens = w.blocks.len() > 0 && match kind_of_tag_exec(p, &w.blocks[0].kind) {
        Some(PartKind::ToolResult) => true,
        _ => false,
    };
    let role = match role_of_tag_exec(p, &w.role, opens) {
        Some(r) => r,
        None => return Err(malformed("role")),
    };
    let parts = parse_blocks(p, &w.blocks)?;
    Ok(Message { role, parts })
}

/// How many leading messages go to the top-level system prompt.
pub open spec fn system_count(p: Protocol, req: CanonicalRequest) -> int {
    if p != Protocol::OpenAi && req.messages@.len() > 0 && req.messages@[0].role == Role::System {
        1
    } else {
        0
    }
}

pub open spec fn request_supported(p: Protocol, req: CanonicalRequest) -> bool {
    forall|i: int| 0 <= i < req.messages@.len() ==> parts_supported(p, (#[trigger] req.messages@[i]).parts@)
}

/// `w` is `req` written in protocol `p`.
pub open spec fn renders_request(p: Protocol, req: CanonicalRequest, w: WireRequest) -> bool {
    let s = system_count(p, req);
    &&& w.model == req.model
    &&& w.stream == req.stream
    &&& w.max_tokens == req.max_tokens
    &&& s == 1 ==> renders_parts(p, req.messages@[0].parts@, w.system@)
    &&& s == 0 ==> w.system@.len() == 0
    &&& w.messages@.len() == req.messages@.len() - s
    &&& forall|i: int| 0 <= i < w.messages@.len() ==> renders_msg(p, req.messages@[i + s], #[trigger] w.messages@[i])
}

pub open spec fn request_parses(p: Protocol, w: WireRequest) -> bool {
    &&& blocks_parse(p, w.system@)
    &&& forall|i: int| 0 <= i < w.messages@.len() ==> msg_parses(p, #[trigger] w.messages@[i])
}

/// `q` is what `w`, in protocol `p`, denotes.
pub open spec fn parsed_request(p: Protocol, w: WireRequest, q: CanonicalRequest) -> bool {
    let t: int = if w.system@.len() > 0 {
        1
    } else {
        0
    };
    &&& q.model == w.model
    &&& q.stream == w.stream
    &&& q.max_tokens == w.max_tokens
    &&& q.messages@.len() == w.messages@.len() + t
    &&& t == 1 ==> q.messages@[0].role == Role::System && parses_parts(p, w.system@, q.messages@[0].parts@)
    &&& forall|i: int| 0 <= i < w.messages@.len() ==> parsed_msg(p, #[trigger] w.messages@[i], q.messages@[i + t])
}

/// Writes a canonical request in protocol `p`. Fails only on a part kind the
/// protocol cannot carry.
pub fn render_request(p: Protocol, req: &CanonicalRequest) -> (r: Result<WireRequest, TranslateError>)
    ensures
        r is Ok <==> request_supported(p, *req),
        r matches Ok(w) ==> renders_request(p, *req, w),
        r matches Err(e) ==> e is Unmappable,
{
    let n = req.messages.len();
    let s: usize = if !matches!(p, Protocol::OpenAi) && n > 0 && matches!(req.messages[0].role, Role::System) {
        1
    } else {
        0
    };
    let mut system: Vec<WireBlock> = Vec::new();
    if s == 1 {
        system = render_parts(p, &req.messages[0].parts)?;
    }
    let mut messages: Vec<WireMessage> = Vec::new();
    let mut i: usize = s;
    while i < n
        invariant
            s <= i <= n,
            n == req.messages@.len(),
            s as int == system_count(p, *req),
            s == 1 ==> parts_supported(p, req.messages@[0].parts@),
            messages@.len() == i - s,
            forall|k: int| 0 <= k < i ==> parts_supported(p, (#[trigger] req.messages@[k]).parts@),
            forall|k: int| 0 <= k < messages@.len() ==> renders_msg(p, req.messages@[k + s], #[trigger] messages@[k]),
        decreases n - i,
    {
        let m = render_message(p, &req.messages[i])?;
        messages.push(m);
        i = i + 1;
    }
    Ok(WireRequest {
        model: req.model.clone(),
        system,
        messages,
        stream: req.stream,
        max_tokens: req.max_tokens,
    })
}

/// Reads a wire request of protocol `p` into the canonical model. Fails,
/// naming the field, on an unknown role or part tag or a missing field.
pub fn parse_request(p: Protocol, w: &WireRequest) -> (r: Result<CanonicalRequest, TranslateError>)
    ensures
        r is Ok <==> request_parses(p, *w),
        r matches Ok(q) ==> parsed_request(p, *w, q),
        r matches Err(e) ==> e is MalformedRequest,
{
    let mut messages: Vec<Message> = Vec::new();
    let t: usize = if w.system.len() > 0 {
        1
    } else {
        0
    };
    if t == 1 {
        let parts = parse_blocks(p, &w.system)?;
        messages.push(Message { role: Role::System, parts });
    }
    let mut i: usize = 0;
    while i < w.messages.len()
        invariant
            0 <= i <= w.messages@.len(),
            t == 1 <==> w.system@.len() > 0,
            blocks_parse(p, w.system@),
            messages@.len() == i + t,
            t == 1 ==> messages@[0].role == Role::System && parses_parts(p, w.system@, messages@[0].parts@),
            forall|k: int| 0 <= k < i ==> msg_parses(p, #[trigger] w.messages@[k]),
            forall|k: int| 0 <= k < i ==> parsed_msg(p, #[trigger] w.messages@[k], messages@[k + t]),
        decreases w.messages.len() - i,
    {
        let m = parse_message(p, &w.messages[i])?;
        messages.push(m);
        i = i + 1;
    }
    Ok(CanonicalRequest { model: w.model.clone(), messages, stream: w.stream, max_tokens: w.max_tokens })
}

/// Round trip: a well-formed request written in any protocol that can carry
/// its parts reads back as the same request, with message order, roles and
/// parts preserved.
pub proof fn lemma_round_trip(p: Protocol, req: CanonicalRequest, w: WireRequest, q: CanonicalRequest)
    requires
        crate::canonical::wf_request(req),
        request_supported(p, req),
        renders_request(p, req, w),
    ensures
        request_parses(p, w),
        parsed_request(p, w, q) ==> crate::canonical::same_request(q, req),
{
    let s = system_count(p, req);
    assert forall|j: int| 0 <= j < w.system@.len() implies (#[trigger] block_part(p, w.system@[j])) is Some by {
        let x = req.messages@[0].parts@[j];
        assert(parts_supported(p, req.messages@[0].parts@));
        assert(supports(p, kind_of(x)));
        lemma_part_round_trip(p, x, w.system@[j]);
    }
    assert forall|i: int| 0 <= i < w.messages@.len() implies msg_parses(p, #[trigger] w.messages@[i]) && role_of_tag(
        p, w.messages@[i].role@, wire_opens_with_result(p, w.messages@[i].blocks@)) == Some(req.messages@[i + s].role) by {
        let m = req.messages@[i + s];
        let wm = w.messages@[i];
        assert(parts_supported(p, m.parts@));
        assert forall|j: int| 0 <= j < wm.blocks@.len() implies (#[trigger] block_part(p, wm.blocks@[j])) == Some(m.parts@[j]) by {
            assert(supports(p, kind_of(m.parts@[j])));
            lemma_part_round_trip(p, m.parts@[j], wm.blocks@[j]);
        }
        if m.parts@.len() > 0 {
            assert(supports(p, kind_of(m.parts@[0])));
            lemma_kind_tags(p, kind_of(m.parts@[0]));
            assert(renders_part(p, m.parts@[0], wm.blocks@[0]));
        }
        assert(wire_opens_with_result(p, wm.blocks@) == starts_with_result(m.parts@));
        lemma_role_tags(p, m.role, starts_with_result(m.parts@));
    }
    if parsed_request(p, w, q) {
        if s == 1 {
            assert(req.messages@[0].parts@.len() > 0);
            assert(q.messages@[0].parts@ =~= req.messages@[0].parts@) by {
                assert forall|j: int| 0 <= j < w.system@.len() implies q.messages@[0].parts@[j] == req.messages@[0].parts@[j] by {
                    let x = req.messages@[0].parts@[j];
                    assert(supports(p, kind_of(x)));
                    lemma_part_round_trip(p, x, w.system@[j]);
                }
            }
        }
        assert forall|i: int| 0 <= i < q.messages@.len() implies (#[trigger] q.messages@[i]).role
            == req.messages@[i].role && q.messages@[i].parts@ == req.messages@[i].parts@ by {
            if i >= s {
                let k = i - s;
                let m = req.messages@[i];
                let wm = w.messages@[k];
                assert(parsed_msg(p, wm, q.messages@[k + s]));
                assert(q.messages@[i].parts@ =~= m.parts@) by {
                    assert forall|j: int| 0 <= j < m.parts@.len() implies q.messages@[i].parts@[j] == m.parts@[j] by {
                        assert(supports(p, kind_of(m.parts@[j])));
                        lemma_part_round_trip(p, m.parts@[j], wm.blocks@[j]);
                    }
                }
            }
        }
    }
}

} // verus!
