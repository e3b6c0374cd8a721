//! Carries opaque continuation signatures across protocols: signatures that
//! come back from upstream are kept in the store and stripped for clients
//! that cannot hold them; function calls sent upstream get them back.
use vstd::prelude::*;
use crate::adapter::{
    TranslateError, render_parts, renders_parts,
    WireBlock, WireMessage, WireRequest, kind_tag, parsed_request, renders_request, system_count,
};
use crate::continuation::lemma_remember_recall;
use crate::canonical::{CanonicalRequest, Part, PartKind, copy_part};
use crate::continuation::{ContinuationStore, remembered};
use crate::mapping::lookup;
use crate::monitor::Protocol;

verus! {

pub open spec fn sig_view(o: Option<String>) -> Option<Seq<char>> {
    match o {
        Some(s) => Some(s@),
        None => None,
    }
}

/// A Gemini function-call block that names its call id.
pub open spec fn is_call_block(b: WireBlock) -> bool {
    b.kind@ == kind_tag(Protocol::Gemini, PartKind::ToolCall) && b.id is Some
}

/// `c` is `b` with the signature the store holds for its call id attached.
pub open spec fn attached(v: Seq<(Seq<char>, Seq<char>)>, b: WireBlock, c: WireBlock) -> bool {
    &&& c == (WireBlock { signature: c.signature, ..b })
    &&& sig_view(c.signature) == (if is_call_block(b) {
        lookup(v, b.id->Some_0@)
    } else {
        sig_view(b.signature)
    })
}

fn attach_block(store: &ContinuationStore, b: &mut WireBlock)
    ensures
        attached(store.view(), *old(b), *final(b)),
{
    let call = crate::adapter::kind_tag_exec(Protocol::Gemini, PartKind::ToolCall);
    if b.kind == call {
        match &b.id {
            Some(id) => {
                let s = store.recall(id);
                b.signature = s;
            },
            None => {},
        }
    }
}

fn attach_message(store: &ContinuationStore, m: &mut WireMessage)
    ensures
        final(m).role == old(m).role,
        final(m).blocks@.len() == old(m).blocks@.len(),
        forall|j: int|
            0 <= j < old(m).blocks@.len() ==> attached(store.view(), old(m).blocks@[j], #[trigger] final(m).blocks@[j]),
{
    let mut j: usize = 0;
    let ghost start = m.blocks@;
    while j < m.blocks.len()
        invariant
            0 <= j <= m.blocks@.len(),
            m.blocks@.len() == start.len(),
            m.role == old(m).role,
            start == old(m).blocks@,
            forall|k: int| 0 <= k < j ==> attached(store.view(), start[k], #[trigger] m.blocks@[k]),
            forall|k: int| j <= k < start.len() ==> #[trigger] m.blocks@[k] == start[k],
        decreases m.blocks.len() - j,
    {
        attach_block(store, &mut m.blocks[j]);
        j = j + 1;
    }
}

/// Attaches to every function-call block of an upstream-bound Gemini
/// request the signature stored for its call id; other blocks, and calls
/// with nothing stored, are left as they were (a call with nothing stored
/// goes without a signature).
pub fn attach_signatures(store: &ContinuationStore, w: &mut WireRequest)
    ensures
        final(w).model == old(w).model,
        final(w).system@ == old(w).system@,
        final(w).stream == old(w).stream,
        final(w).max_tokens == old(w).max_tokens,
        final(w).messages@.len() == old(w).messages@.len(),
        forall|i: int|
            0 <= i < old(w).messages@.len() ==> {
                let a = old(w).messages@[i];
                let c = #[trigger] final(w).messages@[i];
                &&& c.role == a.role
                &&& c.blocks@.len() == a.blocks@.len()
                &&& forall|j: int|
                    0 <= j < a.blocks@.len() ==> attached(store.view(), a.blocks@[j], #[trigger] c.blocks@[j])
            },
{
    let mut i: usize = 0;
    let ghost start = w.messages@;
    while i < w.messages.len()
        invariant
            0 <= i <= w.messages@.len(),
            w.messages@.len() == start.len(),
            start == old(w).messages@,
            w.model == old(w).model,
            w.system@ == old(w).system@,
            w.stream == old(w).stream,
            w.max_tokens == old(w).max_tokens,
            forall|k: int|
                0 <= k < i ==> {
                    let a = start[k];
                    let c = #[trigger] w.messages@[k];
                    &&& c.role == a.role
                    &&& c.blocks@.len() == a.blocks@.len()
                    &&& forall|j: int|
                        0 <= j < a.blocks@.len() ==> attached(store.view(), a.blocks@[j], #[trigger] c.blocks@[j])
                },
            forall|k: int| i <= k < start.len() ==> #[trigger] w.messages@[k] == start[k],
        decreases w.messages.len() - i,
    {
        attach_message(store, &mut w.messages[i]);
        i = i + 1;
    }
}

/// Store contents after remembering every continuation part of `xs`, in order.
pub open spec fn remember_all(v: Seq<(Seq<char>, Seq<char>)>, xs: Seq<Part>, cap: nat) -> Seq<(Seq<char>, Seq<char>)>
    decreases xs.len(),
{
    if xs.len() == 0 {
        v
    } else {
        let before = remember_all(v, xs.drop_last(), cap);
        match xs.last() {
            Part::Continuation { part_id, signature } => remembered(before, part_id@, signature@, cap),
            _ => before,
        }
    }
}

pub open spec fn not_continuation(x: Part) -> bool {
    !(x is Continuation)
}

/// Takes the continuation parts out of response parts bound for a client
/// whose protocol cannot carry them, keeping each signature in the store.
pub fn strip_continuations(store: &mut ContinuationStore, xs: &Vec<Part>) -> (r: Vec<Part>)
    requires
        old(store).wf(),
    ensures
        final(store).wf(),
        final(store).capacity == old(store).capacity,
        final(store).view() == remember_all(old(store).view(), xs@, old(store).capacity as nat),
        r@ == xs@.filter(|x: Part| not_continuation(x)),
{
    let ghost f = |x: Part| not_continuation(x);
    let ghost v0 = store.view();
    let mut r: Vec<Part> = Vec::new();
    let mut j: usize = 0;
    while j < xs.len()
        invariant
            0 <= j <= xs@.len(),
            store.wf(),
            store.capacity == old(store).capacity,
            v0 == old(store).view(),
            f == (|x: Part| not_continuation(x)),
            store.view() == remember_all(v0, xs@.subrange(0, j as int), store.capacity as nat),
            r@ == xs@.subrange(0, j as int).filter(f),
        decreases xs.len() - j,
    {
        let ghost pre = xs@.subrange(0, j as int);
        let ghost x = xs@[j as int];
        assert(xs@.subrange(0, j + 1) =~= pre.push(x));
        assert(pre.push(x).drop_last() =~= pre);
        reveal(Seq::filter);
        match &xs[j] {
            Part::Continuation { part_id, signature } => {
                store.remember(part_id.clone(), signature.clone());
                assert(!f(x));
                assert(pre.push(x).filter(f) == pre.filter(f));
            },
            _ => {
                r.push(copy_part(&xs[j]));
                assert(f(x));
                assert(pre.push(x).filter(f) == pre.filter(f).push(x));
            },
        }
        j = j + 1;
    }
    assert(xs@.subrange(0, xs@.len() as int) =~= xs@);
    r
}

/// Continuation across protocols: once a signature is remembered under part
/// id `pid`, a later request that reaches the gateway through any protocol
/// and carries a function call with id `pid` goes upstream (Gemini-native)
/// with that signature attached.
pub proof fn lemma_signature_crosses_protocols(
    before: Seq<(Seq<char>, Seq<char>)>,
    cap: nat,
    pid: Seq<char>,
    sig: Seq<char>,
    from: Protocol,
    client: WireRequest,
    q: CanonicalRequest,
    upstream: WireRequest,
    sent: WireRequest,
    i: int,
    j: int,
)
    requires
        cap > 0,
        parsed_request(from, client, q),
        system_count(Protocol::Gemini, q) <= i < q.messages@.len(),
        0 <= j < q.messages@[i].parts@.len(),
        q.messages@[i].parts@[j] matches Part::ToolCall { id, .. } && id@ == pid,
        renders_request(Protocol::Gemini, q, upstream),
        sent.messages@.len() == upstream.messages@.len(),
        forall|k: int|
            0 <= k < upstream.messages@.len() ==> {
                let a = upstream.messages@[k];
                let c = #[trigger] sent.messages@[k];
                &&& c.blocks@.len() == a.blocks@.len()
                &&& forall|m: int|
                    0 <= m < a.blocks@.len() ==> attached(remembered(before, pid, sig, cap), a.blocks@[m], #[trigger] c.blocks@[m])
            },
    ensures
        sig_view(sent.messages@[i - system_count(Protocol::Gemini, q)].blocks@[j].signature) == Some(sig),
{
    let s = system_count(Protocol::Gemini, q);
    let k = i - s;
    let a = upstream.messages@[k];
    assert(crate::adapter::renders_msg(Protocol::Gemini, q.messages@[k + s], a));
    assert(crate::adapter::renders_part(Protocol::Gemini, q.messages@[i].parts@[j], a.blocks@[j]));
    assert(is_call_block(a.blocks@[j]));
    lemma_remember_recall(before, pid, sig, cap);
}

/// Writes response parts for a client of protocol `p`. For a client that
/// cannot hold continuation signatures they are first taken out and kept in
/// the store; a Gemini-native client gets them as they are.
pub fn render_response(store: &mut ContinuationStore, p: Protocol, xs: &Vec<Part>) -> (r: Result<
    Vec<WireBlock>,
    TranslateError,
>)
    requires
        old(store).wf(),
    ensures
        final(store).wf(),
        final(store).capacity == old(store).capacity,
        p == Protocol::Gemini ==> final(store).view() == old(store).view(),
        p != Protocol::Gemini ==> final(store).view() == remember_all(
            old(store).view(),
            xs@,
            old(store).capacity as nat,
        ),
        r is Ok,
        r matches Ok(bs) ==> renders_parts(
            p,
            if p == Protocol::Gemini {
                xs@
            } else {
                xs@.filter(|x: Part| not_continuation(x))
            },
            bs@,
        ),
{
    if matches!(p, Protocol::Gemini) {
        render_parts(p, xs)
    } else {
        let kept = strip_continuations(store, xs);
        proof {
            assert forall|j: int| 0 <= j < kept@.len() implies crate::adapter::supports(
                p,
                crate::canonical::kind_of(#[trigger] kept@[j]),
            ) by {
                xs@.lemma_filter_pred(|x: Part| not_continuation(x), j);
            }
        }
        render_parts(p, &kept)
    }
}

} // verus!
