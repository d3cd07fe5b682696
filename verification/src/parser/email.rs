//! email handles parsing of GPX-spec emails: both parts are attributes,
//! joined as `id@domain`, and the element has no children at all.

use vstd::prelude::*;
use vstd::string::*;

use crate::errors::{ErrS, GpxError, GpxResult};
use crate::events::{Event, EventS};
use crate::parser::{
    consume_post, find_attr, find_attribute, p_verify_starting_tag, verify_starting_tag, Context,
    PStep,
};
use crate::text::str_eq;

verus! {

/// After the attributes, only the element's own closing tag may follow.
#[verifier::opaque]
pub open spec fn p_email_body(evs: Seq<EventS>, p: int, email: Seq<char>) -> PStep<Seq<char>> {
    if p < 0 || p >= evs.len() {
        PStep::Fail(ErrS::MissingClosingTag("email"@))
    } else {
        match evs[p] {
            EventS::Open { name, .. } => PStep::Fail(ErrS::InvalidChildElement(name, "email"@)),
            EventS::Text { content } => PStep::Fail(ErrS::InvalidChildElement(content, "email"@)),
            EventS::Close { name } => {
                if name != "email"@ {
                    PStep::Fail(ErrS::InvalidClosingTag(name, "email"@))
                } else {
                    PStep::Took(email, 1)
                }
            },
            EventS::Failure => PStep::Fail(ErrS::XmlParseError),
        }
    }
}

/// One email element: the required `id` and `domain` attributes joined
/// with `@`, and an immediate close.
#[verifier::opaque]
pub open spec fn p_email(evs: Seq<EventS>, p: int) -> PStep<Seq<char>> {
    match p_verify_starting_tag(evs, p, "email"@) {
        PStep::Took(attrs, used0) => {
            match find_attr(attrs, "id"@) {
                None => PStep::Fail(ErrS::InvalidElementLacksAttribute("id"@, "email"@)),
                Some(id) => {
                    match find_attr(attrs, "domain"@) {
                        None => PStep::Fail(
                            ErrS::InvalidElementLacksAttribute("domain"@, "email"@),
                        ),
                        Some(domain) => {
                            match p_email_body(evs, p + used0, id + "@"@ + domain) {
                                PStep::Took(v, used) => PStep::Took(v, (used0 + used) as nat),
                                PStep::Fail(e) => PStep::Fail(e),
                            }
                        },
                    }
                },
            }
        },
        PStep::Fail(e) => PStep::Fail(e),
    }
}

/// A successful email step consumes at least one event and stays within
/// the stream.
pub proof fn lemma_email_step(evs: Seq<EventS>, p: int)
    ensures
        p_email(evs, p) matches PStep::Took(_, used) ==> 1 <= used && p + used <= evs.len(),
{
    reveal_with_fuel(p_email, 1);
    reveal_with_fuel(p_email_body, 1);
    crate::parser::lemma_vst_step(evs, p, "email"@);
}

/// consume consumes a GPX email from the event stream until it ends.
/// When it returns, the stream is right after the email's end tag.
pub fn consume(context: &mut Context) -> (r: GpxResult<String>)
    requires
        old(context).pos <= old(context).events.len(),
    ensures
        consume_post::<String>(
            p_email(old(context).events.deep_view(), old(context).pos as int),
            *old(context),
            *final(context),
            r,
        ),
        r matches Ok(_) ==> final(context).pos > old(context).pos,
{
    proof {
        reveal_with_fuel(p_email, 1);
        reveal_with_fuel(p_email_body, 1);
    }
    let attributes = match verify_starting_tag(context, "email") {
        Ok(a) => a,
        Err(e) => {
            return Err(e);
        },
    };
    let id = match find_attribute(&attributes, "id") {
        Some(v) => v,
        None => {
            return Err(GpxError::InvalidElementLacksAttribute("id", "email"));
        },
    };
    let domain = match find_attribute(&attributes, "domain") {
        Some(v) => v,
        None => {
            return Err(GpxError::InvalidElementLacksAttribute("domain", "email"));
        },
    };
    let mut email = id;
    email.append("@");
    email.append(domain.as_str());
    if context.pos >= context.events.len() {
        return Err(GpxError::MissingClosingTag("email"));
    }
    let ghost evs = context.events.deep_view();
    let ghost p = context.pos as int;
    proof {
        assert(evs[p] == context.events@[p].deep_view());
    }
    match &context.events[context.pos] {
        Event::Open { name, .. } => Err(GpxError::InvalidChildElement(name.clone(), "email")),
        Event::Text { content } => Err(GpxError::InvalidChildElement(content.clone(), "email")),
        Event::Close { name } => {
            if !str_eq(name.as_str(), "email") {
                Err(GpxError::InvalidClosingTag(name.clone(), "email"))
            } else {
                context.pos += 1;
                Ok(email)
            }
        },
        Event::Failure => Err(GpxError::XmlParseError),
    }
}

} // verus!
