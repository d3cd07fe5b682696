//! string handles parsing of GPX-spec strings: one element holding flat
//! text content, with no child elements.

use vstd::prelude::*;
use vstd::string::*;

use crate::errors::{ErrS, GpxError, GpxResult};
use crate::events::{Event, EventS};
use crate::parser::{consume_post, p_verify_starting_tag, verify_starting_tag, Context, PStep};
use crate::text::str_eq;

verus! {

/// The body of a string element: text events set the running value, a
/// child element is refused, and the matching closing tag ends it. An
/// empty value is refused unless `allow_empty`.
#[verifier::opaque]
pub open spec fn p_string_body(
    evs: Seq<EventS>,
    p: int,
    tag: Seq<char>,
    allow_empty: bool,
    acc: Seq<char>,
) -> PStep<Seq<char>>
    decreases evs.len() - p,
{
    if p < 0 || p >= evs.len() {
        PStep::Fail(ErrS::MissingClosingTag(tag))
    } else {
        match evs[p] {
            EventS::Open { name, .. } => PStep::Fail(ErrS::InvalidChildElement(name, tag)),
            EventS::Text { content } => {
                match p_string_body(evs, p + 1, tag, allow_empty, content) {
                    PStep::Took(v, used) => PStep::Took(v, (used + 1) as nat),
                    PStep::Fail(e) => PStep::Fail(e),
                }
            },
            EventS::Close { name } => {
                if name != tag {
                    PStep::Fail(ErrS::InvalidClosingTag(name, tag))
                } else if allow_empty || acc.len() > 0 {
                    PStep::Took(acc, 1)
                } else {
                    PStep::Fail(ErrS::NoStringContent)
                }
            },
            EventS::Failure => PStep::Fail(ErrS::XmlParseError),
        }
    }
}

/// One whole string element: its opening tag, then its body.
#[verifier::opaque]
pub open spec fn p_string(evs: Seq<EventS>, p: int, tag: Seq<char>, allow_empty: bool) -> PStep<
    Seq<char>,
> {
    match p_verify_starting_tag(evs, p, tag) {
        PStep::Took(_attrs, used0) => {
            match p_string_body(evs, p + used0, tag, allow_empty, Seq::<char>::empty()) {
                PStep::Took(v, used) => PStep::Took(v, (used0 + used) as nat),
                PStep::Fail(e) => PStep::Fail(e),
            }
        },
        PStep::Fail(e) => PStep::Fail(e),
    }
}

/// A successful string-body step consumes at least one event and stays
/// within the stream.
pub proof fn lemma_string_body_step(
    evs: Seq<EventS>,
    p: int,
    tag: Seq<char>,
    allow_empty: bool,
    acc: Seq<char>,
)
    ensures
        p_string_body(evs, p, tag, allow_empty, acc) matches PStep::Took(_, used) ==> 1 <= used
            && p + used <= evs.len(),
    decreases evs.len() - p,
{
    reveal_with_fuel(p_string_body, 1);
    if 0 <= p < evs.len() {
        match evs[p] {
            EventS::Text { content } => {
                lemma_string_body_step(evs, p + 1, tag, allow_empty, content);
            },
            _ => {},
        }
    }
}

/// A successful string step consumes at least one event and stays
/// within the stream.
pub proof fn lemma_string_step(evs: Seq<EventS>, p: int, tag: Seq<char>, allow_empty: bool)
    ensures
        p_string(evs, p, tag, allow_empty) matches PStep::Took(_, used) ==> 1 <= used && p + used
            <= evs.len(),
{
    reveal_with_fuel(p_string, 1);
    crate::parser::lemma_vst_step(evs, p, tag);
    match p_verify_starting_tag(evs, p, tag) {
        PStep::Took(_, u0) => {
            lemma_string_body_step(evs, p + u0, tag, allow_empty, Seq::<char>::empty());
        },
        PStep::Fail(_) => {},
    }
}

/// consume consumes a single string as tag content.
pub fn consume(context: &mut Context, tagname: &'static str, allow_empty: bool) -> (r: GpxResult<
    String,
>)
    requires
        old(context).pos <= old(context).events.len(),
    ensures
        consume_post::<String>(
            p_string(
                old(context).events.deep_view(),
                old(context).pos as int,
                tagname@,
                allow_empty,
            ),
            *old(context),
            *final(context),
            r,
        ),
        r matches Ok(_) ==> final(context).pos > old(context).pos,
{
    proof {
        reveal_with_fuel(p_string, 1);
    }
    let attrs = verify_starting_tag(context, tagname);
    if let Err(e) = attrs {
        return Err(e);
    }
    consume_body(context, tagname, allow_empty, String::new())
}

fn consume_body(context: &mut Context, tagname: &'static str, allow_empty: bool, acc: String) -> (r:
    GpxResult<String>)
    requires
        old(context).pos <= old(context).events.len(),
    ensures
        consume_post::<String>(
            p_string_body(
                old(context).events.deep_view(),
                old(context).pos as int,
                tagname@,
                allow_empty,
                acc@,
            ),
            *old(context),
            *final(context),
            r,
        ),
        r matches Ok(_) ==> final(context).pos > old(context).pos,
    decreases context.events.len() - context.pos,
{
    proof {
        reveal_with_fuel(p_string_body, 1);
    }
    if context.pos >= context.events.len() {
        return Err(GpxError::MissingClosingTag(tagname));
    }
    let ghost evs = context.events.deep_view();
    let ghost p = context.pos as int;
    proof {
        assert(evs[p] == context.events@[p].deep_view());
    }
    match &context.events[context.pos] {
        Event::Open { name, .. } => Err(GpxError::InvalidChildElement(name.clone(), tagname)),
        Event::Text { content } => {
            let next = content.clone();
            context.pos += 1;
            consume_body(context, tagname, allow_empty, next)
        },
        Event::Close { name } => {
            if !str_eq(name.as_str(), tagname) {
                Err(GpxError::InvalidClosingTag(name.clone(), tagname))
            } else if allow_empty || !acc.as_str().is_empty() {
                context.pos += 1;
                Ok(acc)
            } else {
                Err(GpxError::NoStringContent)
            }
        },
        Event::Failure => Err(GpxError::XmlParseError),
    }
}

/// A string element whose content is read by the decimal grammar.
#[verifier::opaque]
pub open spec fn p_dec_child(evs: Seq<EventS>, p: int, tag: Seq<char>) -> PStep<
    crate::decimal::DecimalS,
> {
    match p_string(evs, p, tag, false) {
        PStep::Took(v, used) => {
            match crate::decimal::dec_parse(v) {
                Some(d) => PStep::Took(d, used),
                None => PStep::Fail(ErrS::ParseFloatError),
            }
        },
        PStep::Fail(e) => PStep::Fail(e),
    }
}

/// Consumes a string element and reads it as a decimal.
pub fn consume_dec_child(context: &mut Context, tagname: &'static str) -> (r: GpxResult<
    crate::decimal::Decimal,
>)
    requires
        old(context).pos <= old(context).events.len(),
    ensures
        consume_post::<crate::decimal::Decimal>(
            p_dec_child(old(context).events.deep_view(), old(context).pos as int, tagname@),
            *old(context),
            *final(context),
            r,
        ),
        r matches Ok(_) ==> final(context).pos > old(context).pos,
{
    proof {
        reveal_with_fuel(p_dec_child, 1);
    }
    let v = match consume(context, tagname, false) {
        Ok(v) => v,
        Err(e) => {
            return Err(e);
        },
    };
    match crate::decimal::Decimal::parse(v.as_str()) {
        Some(d) => Ok(d),
        None => Err(GpxError::ParseFloatError),
    }
}

/// A string element whose content is read by the unsigned integer
/// grammar, bounded by `max`.
#[verifier::opaque]
pub open spec fn p_uint_child(evs: Seq<EventS>, p: int, tag: Seq<char>, max: int) -> PStep<u64> {
    match p_string(evs, p, tag, false) {
        PStep::Took(v, used) => {
            match crate::text::unsigned_of(v, max) {
                Some(n) => PStep::Took(n, used),
                None => PStep::Fail(ErrS::ParseIntegerError),
            }
        },
        PStep::Fail(e) => PStep::Fail(e),
    }
}

/// Consumes a string element and reads it as an unsigned integer of at
/// most `max`.
pub fn consume_uint_child(context: &mut Context, tagname: &'static str, max: u64) -> (r: GpxResult<
    u64,
>)
    requires
        old(context).pos <= old(context).events.len(),
    ensures
        consume_post::<u64>(
            p_uint_child(
                old(context).events.deep_view(),
                old(context).pos as int,
                tagname@,
                max as int,
            ),
            *old(context),
            *final(context),
            r,
        ),
        r matches Ok(_) ==> final(context).pos > old(context).pos,
        r matches Ok(n) ==> n <= max,
{
    proof {
        reveal_with_fuel(p_uint_child, 1);
    }
    let v = match consume(context, tagname, false) {
        Ok(v) => v,
        Err(e) => {
            return Err(e);
        },
    };
    match crate::text::parse_unsigned(v.as_str(), max) {
        Some(n) => Ok(n),
        None => Err(GpxError::ParseIntegerError),
    }
}

} // verus!
