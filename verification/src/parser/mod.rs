//! Handles parsing GPX documents: one consumer per element, each
//! reading exactly its own subtree of the shared event stream and
//! returning control just after its own closing tag.
//!
//! Each consumer is specified against a spec-level reading of the event
//! sequence (the `p_` functions); its contract says that it returns
//! exactly what that reading gives, and how far it advances.

pub mod bounds;
pub mod copyright;
pub mod email;
pub mod extensions;
pub mod fix;
pub mod link;
pub mod person;
pub mod gpx;
pub mod metadata;
pub mod route;
pub mod string;
pub mod time;
pub mod track;
pub mod tracksegment;
pub mod waypoint;

use vstd::prelude::*;

use crate::errors::{ErrS, GpxError};
use crate::events::{tokenize_xml, tokens_of, AttrS, Attribute, Event, EventS};
use crate::types::GpxVersion;

verus! {

/// The parse context: the event sequence, the cursor into it, and the
/// schema version detected at the document root, which version-gated
/// consumers read.
pub struct Context {
    pub events: Vec<Event>,
    pub pos: usize,
    pub version: GpxVersion,
}

impl Context {
    pub fn new(events: Vec<Event>, version: GpxVersion) -> (r: Context)
        ensures
            r.events == events,
            r.pos == 0,
            r.version == version,
    {
        Context { events, pos: 0, version }
    }
}

/// Builds a context over the events of an XML byte stream.
pub fn create_context(data: &[u8], version: GpxVersion) -> (r: Context)
    ensures
        r.events.deep_view() == tokens_of(data@),
        r.pos == 0,
        r.version == version,
{
    Context::new(tokenize_xml(data), version)
}

/// What one consumer does at a position of the event sequence: it takes
/// a value, consuming `1 + extra` events counted from that position, or
/// it fails with an error.
pub enum PStep<T> {
    Took(T, nat),
    Fail(ErrS),
}

/// The returned value and cursor movement match a spec-level step.
pub open spec fn consumed_to<T: DeepView>(
    step: PStep<T::V>,
    r: Result<T, GpxError>,
    p0: int,
    p1: int,
) -> bool {
    match step {
        PStep::Took(v, used) => r matches Ok(x) && x.deep_view() == v && p1 == p0 + used,
        PStep::Fail(e) => r matches Err(x) && x.deep_view() == e,
    }
}

/// The common contract of a consumer: the events and detected version
/// are untouched, the cursor never moves backwards, and the result is
/// the spec-level step.
pub open spec fn consume_post<T: DeepView>(
    step: PStep<T::V>,
    old_ctx: Context,
    new_ctx: Context,
    r: Result<T, GpxError>,
) -> bool {
    &&& new_ctx.events == old_ctx.events
    &&& new_ctx.version == old_ctx.version
    &&& new_ctx.pos >= old_ctx.pos
    &&& new_ctx.pos <= new_ctx.events.len()
    &&& consumed_to(step, r, old_ctx.pos as int, new_ctx.pos as int)
}

/// Consuming the expected opening tag: any other structural event is an
/// error naming what stood there; a tokenizer failure mark is passed
/// over, so an erroring stream ends in `MissingOpeningTag`.
#[verifier::opaque]
pub open spec fn p_verify_starting_tag(evs: Seq<EventS>, p: int, expected: Seq<char>) -> PStep<
    Seq<AttrS>,
>
    decreases evs.len() - p,
{
    if p < 0 || p >= evs.len() {
        PStep::Fail(ErrS::MissingOpeningTag(expected))
    } else {
        match evs[p] {
            EventS::Open { name, attributes } => {
                if name == expected {
                    PStep::Took(attributes, 1)
                } else {
                    PStep::Fail(ErrS::InvalidChildElement(name, expected))
                }
            },
            EventS::Close { name } => PStep::Fail(ErrS::InvalidChildElement(name, expected)),
            EventS::Text { content } => PStep::Fail(ErrS::InvalidChildElement(content, expected)),
            EventS::Failure => {
                match p_verify_starting_tag(evs, p + 1, expected) {
                    PStep::Took(a, used) => PStep::Took(a, (used + 1) as nat),
                    PStep::Fail(e) => PStep::Fail(e),
                }
            },
        }
    }
}

/// Makes sure the specified starting tag is the next event on the
/// stream, and hands back its attributes.
pub fn verify_starting_tag(context: &mut Context, local_name: &'static str) -> (r: Result<
    Vec<Attribute>,
    GpxError,
>)
    requires
        old(context).pos <= old(context).events.len(),
    ensures
        consume_post::<Vec<Attribute>>(
            p_verify_starting_tag(
                old(context).events.deep_view(),
                old(context).pos as int,
                local_name@,
            ),
            *old(context),
            *final(context),
            r,
        ),
        r matches Ok(_) ==> final(context).pos > old(context).pos,
    decreases old(context).events.len() - old(context).pos,
{
    proof {
        reveal_with_fuel(p_verify_starting_tag, 1);
    }
    if context.pos >= context.events.len() {
        return Err(GpxError::MissingOpeningTag(local_name));
    }
    let ghost evs = context.events.deep_view();
    let ghost p = context.pos as int;
    proof {
        assert(evs[p] == context.events@[p].deep_view());
    }
    match &context.events[context.pos] {
        Event::Open { name, attributes } => {
            if crate::text::str_eq(name.as_str(), local_name) {
                let attrs = clone_attributes(attributes);
                context.pos += 1;
                Ok(attrs)
            } else {
                Err(GpxError::InvalidChildElement(name.clone(), local_name))
            }
        },
        Event::Close { name } => Err(GpxError::InvalidChildElement(name.clone(), local_name)),
        Event::Text { content } => Err(GpxError::InvalidChildElement(content.clone(), local_name)),
        Event::Failure => {
            context.pos += 1;
            let r = verify_starting_tag(context, local_name);
            r
        },
    }
}

/// A successful opening-tag step consumes at least one event and stays
/// within the stream.
pub proof fn lemma_vst_step(evs: Seq<EventS>, p: int, expected: Seq<char>)
    ensures
        p_verify_starting_tag(evs, p, expected) matches PStep::Took(_, used) ==> 1 <= used && p
            + used <= evs.len(),
    decreases evs.len() - p,
{
    reveal_with_fuel(p_verify_starting_tag, 1);
    if 0 <= p < evs.len() {
        match evs[p] {
            EventS::Failure => {
                lemma_vst_step(evs, p + 1, expected);
            },
            _ => {},
        }
    }
}

/// A copy of the event under the cursor, for dispatching without
/// holding a borrow on the context.
pub enum Peeked {
    Open(String),
    Close(String),
    Text(String),
    Failure,
}

pub open spec fn pk_matches(pk: Peeked, ev: EventS) -> bool {
    match pk {
        Peeked::Open(n) => ev matches EventS::Open { name, .. } && n@ == name,
        Peeked::Close(n) => ev matches EventS::Close { name } && n@ == name,
        Peeked::Text(c) => ev matches EventS::Text { content } && c@ == content,
        Peeked::Failure => ev is Failure,
    }
}

/// Reads the event under the cursor without consuming it.
pub(crate) fn peek_event(context: &Context) -> (r: Option<Peeked>)
    ensures
        match r {
            None => context.pos >= context.events.len(),
            Some(pk) => context.pos < context.events.len() && pk_matches(
                pk,
                context.events.deep_view()[context.pos as int],
            ),
        },
{
    if context.pos >= context.events.len() {
        return None;
    }
    proof {
        assert(context.events.deep_view()[context.pos as int] == context.events@[
            context.pos as int].deep_view());
    }
    match &context.events[context.pos] {
        Event::Open { name, .. } => Some(Peeked::Open(name.clone())),
        Event::Close { name } => Some(Peeked::Close(name.clone())),
        Event::Text { content } => Some(Peeked::Text(content.clone())),
        Event::Failure => Some(Peeked::Failure),
    }
}

/// The value of the first attribute with the given name, if any.
pub open spec fn find_attr(attrs: Seq<AttrS>, key: Seq<char>) -> Option<Seq<char>>
    decreases attrs.len(),
{
    if attrs.len() == 0 {
        None
    } else if attrs[0].name == key {
        Some(attrs[0].value)
    } else {
        find_attr(attrs.skip(1), key)
    }
}

/// Finds the first attribute with the given name.
pub(crate) fn find_attribute(attrs: &Vec<Attribute>, key: &str) -> (r: Option<String>)
    ensures
        r.deep_view() == find_attr(attrs.deep_view(), key@),
{
    let mut i: usize = 0;
    proof {
        assert(attrs.deep_view().skip(0) =~= attrs.deep_view());
    }
    while i < attrs.len()
        invariant
            0 <= i <= attrs@.len(),
            attrs.deep_view().len() == attrs@.len(),
            find_attr(attrs.deep_view(), key@) == find_attr(
                attrs.deep_view().skip(i as int),
                key@,
            ),
        decreases attrs@.len() - i,
    {
        let ghost tail = attrs.deep_view().skip(i as int);
        proof {
            assert(tail[0] == attrs.deep_view()[i as int]);
            assert(tail.skip(1) =~= attrs.deep_view().skip(i + 1));
        }
        if crate::text::str_eq(attrs[i].name.as_str(), key) {
            return Some(attrs[i].value.clone());
        }
        i += 1;
    }
    proof {
        assert(attrs.deep_view().skip(i as int).len() == 0);
    }
    None
}

/// Copies an attribute list out of an event.
fn clone_attributes(attrs: &Vec<Attribute>) -> (r: Vec<Attribute>)
    ensures
        r.deep_view() == attrs.deep_view(),
{
    let mut r: Vec<Attribute> = Vec::new();
    let mut i: usize = 0;
    while i < attrs.len()
        invariant
            0 <= i <= attrs@.len(),
            r@.len() == i,
            forall|j: int| 0 <= j < i ==> #[trigger] r@[j].deep_view() == attrs@[j].deep_view(),
        decreases attrs@.len() - i,
    {
        r.push(Attribute { name: attrs[i].name.clone(), value: attrs[i].value.clone() });
        i += 1;
    }
    proof {
        assert(r.deep_view() =~= attrs.deep_view());
    }
    r
}

} // verus!
