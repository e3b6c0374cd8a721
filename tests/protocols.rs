use antigravity_gateway::adapter::{
    parse_request, render_request, TranslateError, WireBlock, WireMessage, WireRequest,
};
use antigravity_gateway::bridge::{attach_signatures, strip_continuations};
use antigravity_gateway::canonical::{CanonicalRequest, Message, Part, PartKind, Role};
use antigravity_gateway::continuation::ContinuationStore;
use antigravity_gateway::monitor::Protocol;

fn s(x: &str) -> String {
    x.to_string()
}

fn text(t: &str) -> Part {
    Part::Text { text: s(t) }
}

fn sample_request() -> CanonicalRequest {
    CanonicalRequest {
        model: s("gemini-2.5-pro"),
        messages: vec![
            Message { role: Role::System, parts: vec![text("be brief")] },
            Message {
                role: Role::User,
                parts: vec![
                    text("what is in this image?"),
                    Part::Image { mime_type: s("image/png"), data: s("iVBORw0K") },
                ],
            },
            Message {
                role: Role::Assistant,
                parts: vec![
                    text("let me look"),
                    Part::ToolCall { id: s("call_1"), name: s("lookup"), arguments: s("{\"q\":1}") },
                ],
            },
            Message {
                role: Role::Tool,
                parts: vec![Part::ToolResult { call_id: s("call_1"), content: s("a cat") }],
            },
        ],
        stream: true,
        max_tokens: Some(512),
    }
}

fn assert_same(a: &CanonicalRequest, b: &CanonicalRequest) {
    assert_eq!(a.model, b.model);
    assert_eq!(a.stream, b.stream);
    assert_eq!(a.max_tokens, b.max_tokens);
    assert_eq!(a.messages.len(), b.messages.len());
    for (x, y) in a.messages.iter().zip(b.messages.iter()) {
        assert_eq!(x.role, y.role);
        assert_eq!(format!("{:?}", x.parts), format!("{:?}", y.parts));
    }
}

fn round_trip(p: Protocol) -> WireRequest {
    let req = sample_request();
    let wire = match render_request(p, &req) {
        Ok(w) => w,
        Err(_) => panic!("render failed"),
    };
    let back = match parse_request(p, &wire) {
        Ok(q) => q,
        Err(_) => panic!("parse failed"),
    };
    assert_same(&back, &req);
    wire
}

#[test]
fn round_trip_openai() {
    let w = round_trip(Protocol::OpenAi);
    assert!(w.system.is_empty());
    assert_eq!(w.messages.len(), 4);
    assert_eq!(w.messages[0].role, "system");
    assert_eq!(w.messages[3].role, "tool");
    assert_eq!(w.messages[1].blocks[1].kind, "image_url");
    assert_eq!(w.messages[2].blocks[1].kind, "tool_call");
}

#[test]
fn round_trip_anthropic() {
    let w = round_trip(Protocol::Anthropic);
    assert_eq!(w.system.len(), 1);
    assert_eq!(w.system[0].text.as_deref(), Some("be brief"));
    assert_eq!(w.messages.len(), 3);
    assert_eq!(w.messages[2].role, "user");
    assert_eq!(w.messages[2].blocks[0].kind, "tool_result");
    assert_eq!(w.messages[1].blocks[1].kind, "tool_use");
}

#[test]
fn round_trip_gemini() {
    let w = round_trip(Protocol::Gemini);
    assert_eq!(w.messages.len(), 3);
    assert_eq!(w.messages[1].role, "model");
    assert_eq!(w.messages[1].blocks[1].kind, "function_call");
    assert_eq!(w.messages[2].blocks[0].kind, "function_response");
}

#[test]
fn continuation_part_only_in_gemini() {
    let mut req = sample_request();
    req.messages[2].parts.insert(1, Part::Continuation { part_id: s("call_1"), signature: s("sig") });
    match render_request(Protocol::OpenAi, &req) {
        Err(TranslateError::Unmappable { kind }) => assert_eq!(kind, PartKind::Continuation),
        _ => panic!("expected an unmappable part"),
    }
    assert!(render_request(Protocol::Anthropic, &req).is_err());
    let w = match render_request(Protocol::Gemini, &req) {
        Ok(w) => w,
        Err(_) => panic!("render failed"),
    };
    assert_eq!(w.messages[1].blocks[1].kind, "thought_signature");
    let back = match parse_request(Protocol::Gemini, &w) {
        Ok(q) => q,
        Err(_) => panic!("parse failed"),
    };
    assert_same(&back, &req);
}

fn block(kind: &str) -> WireBlock {
    WireBlock {
        kind: s(kind),
        text: None,
        mime_type: None,
        data: None,
        id: None,
        name: None,
        arguments: None,
        signature: None,
    }
}

fn wire(role: &str, blocks: Vec<WireBlock>) -> WireRequest {
    WireRequest {
        model: s("m"),
        system: Vec::new(),
        messages: vec![WireMessage { role: s(role), blocks }],
        stream: false,
        max_tokens: None,
    }
}

fn malformed_field(r: Result<CanonicalRequest, TranslateError>) -> String {
    match r {
        Err(TranslateError::MalformedRequest { field }) => field,
        _ => panic!("expected a malformed request"),
    }
}

#[test]
fn missing_field_is_named() {
    let w = wire("user", vec![block("text")]);
    assert_eq!(malformed_field(parse_request(Protocol::OpenAi, &w)), "text");
    let mut call = block("tool_use");
    call.id = Some(s("c"));
    call.name = Some(s("f"));
    let w = wire("assistant", vec![call]);
    assert_eq!(malformed_field(parse_request(Protocol::Anthropic, &w)), "arguments");
}

#[test]
fn unknown_tag_or_role_is_malformed() {
    let mut b = block("video");
    b.text = Some(s("x"));
    assert_eq!(malformed_field(parse_request(Protocol::OpenAi, &wire("user", vec![b]))), "type");
    let mut t = block("text");
    t.text = Some(s("x"));
    assert_eq!(malformed_field(parse_request(Protocol::Gemini, &wire("assistant", vec![t]))), "role");
    let mut sig = block("thought_signature");
    sig.id = Some(s("c"));
    sig.data = Some(s("d"));
    assert_eq!(malformed_field(parse_request(Protocol::Anthropic, &wire("assistant", vec![sig]))), "type");
}

#[test]
fn signature_crosses_from_gemini_to_openai_client() {
    let mut store = ContinuationStore::new(8);
    let response = vec![
        Part::Continuation { part_id: s("call_9"), signature: s("opaque-sig") },
        Part::ToolCall { id: s("call_9"), name: s("search"), arguments: s("{}") },
    ];
    let shown = strip_continuations(&mut store, &response);
    assert_eq!(shown.len(), 1);
    assert!(matches!(shown[0], Part::ToolCall { .. }));
    assert_eq!(store.recall(&s("call_9")), Some(s("opaque-sig")));

    let mut call = block("tool_call");
    call.id = Some(s("call_9"));
    call.name = Some(s("search"));
    call.arguments = Some(s("{}"));
    let client = wire("assistant", vec![call]);
    let canonical = match parse_request(Protocol::OpenAi, &client) {
        Ok(q) => q,
        Err(_) => panic!("parse failed"),
    };
    let mut upstream = match render_request(Protocol::Gemini, &canonical) {
        Ok(w) => w,
        Err(_) => panic!("render failed"),
    };
    assert_eq!(upstream.messages[0].blocks[0].signature, None);
    attach_signatures(&store, &mut upstream);
    assert_eq!(upstream.messages[0].blocks[0].signature.as_deref(), Some("opaque-sig"));
}

#[test]
fn unknown_call_goes_without_signature() {
    let store = ContinuationStore::new(8);
    let mut call = block("function_call");
    call.id = Some(s("never-seen"));
    call.name = Some(s("f"));
    call.arguments = Some(s("{}"));
    let mut w = wire("model", vec![call]);
    attach_signatures(&store, &mut w);
    assert_eq!(w.messages[0].blocks[0].signature, None);
    assert_eq!(store.recall(&s("never-seen")), None);
}

#[test]
fn continuation_store_evicts_oldest() {
    let mut store = ContinuationStore::new(2);
    store.remember(s("a"), s("1"));
    store.remember(s("b"), s("2"));
    store.remember(s("a"), s("3"));
    store.remember(s("c"), s("4"));
    assert_eq!(store.recall(&s("b")), None);
    assert_eq!(store.recall(&s("a")), Some(s("3")));
    assert_eq!(store.recall(&s("c")), Some(s("4")));
    assert_eq!(store.entries.len(), 2);
}

#[test]
fn zero_capacity_store_holds_nothing() {
    let mut store = ContinuationStore::new(0);
    store.remember(s("a"), s("1"));
    assert_eq!(store.recall(&s("a")), None);
}

#[test]
fn response_to_openai_client_drops_signature() {
    let mut store = ContinuationStore::new(4);
    let parts = vec![
        Part::Text { text: s("thinking done") },
        Part::Continuation { part_id: s("call_2"), signature: s("sig-2") },
        Part::ToolCall { id: s("call_2"), name: s("f"), arguments: s("{}") },
    ];
    let blocks = match antigravity_gateway::bridge::render_response(&mut store, Protocol::OpenAi, &parts) {
        Ok(b) => b,
        Err(_) => panic!("render failed"),
    };
    assert_eq!(blocks.len(), 2);
    assert_eq!(blocks[0].kind, "text");
    assert_eq!(blocks[1].kind, "tool_call");
    assert_eq!(store.recall(&s("call_2")), Some(s("sig-2")));
    let mut other = ContinuationStore::new(4);
    let gemini = match antigravity_gateway::bridge::render_response(&mut other, Protocol::Gemini, &parts) {
        Ok(b) => b,
        Err(_) => panic!("render failed"),
    };
    assert_eq!(gemini.len(), 3);
    assert_eq!(gemini[1].kind, "thought_signature");
    assert_eq!(other.recall(&s("call_2")), None);
}
