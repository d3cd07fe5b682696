//! link handles parsing of GPX-spec links: a required `href` attribute
//! and optional `text` and `type` children.

use vstd::prelude::*;
use vstd::string::*;

use crate::errors::{ErrS, GpxError, GpxResult};
use crate::events::EventS;
use crate::parser::string::{lemma_string_step, p_string};
use crate::parser::{
    consume_post, find_attr, find_attribute, p_verify_starting_tag, peek_event,
    verify_starting_tag, Context, PStep, Peeked,
};
use crate::text::str_eq;
use crate::types::{Link, LinkS};

verus! {

/// The children of a link element: `text` and `type` string elements,
/// each taking the field when read; anything else is refused.
#[verifier::opaque]
pub open spec fn p_link_body(evs: Seq<EventS>, p: int, link: LinkS) -> PStep<LinkS>
    decreases evs.len() - p,
    via p_link_body_decreases
{
    if p < 0 || p >= evs.len() {
        PStep::Fail(ErrS::MissingClosingTag("link"@))
    } else {
        match evs[p] {
            EventS::Open { name, .. } => {
                if name == "text"@ {
                    match p_string(evs, p, "text"@, false) {
                        PStep::Took(v, used) => {
                            match p_link_body(evs, p + used, LinkS { text: Some(v), ..link }) {
                                PStep::Took(l, u2) => PStep::Took(l, (used + u2) as nat),
                                PStep::Fail(e) => PStep::Fail(e),
                            }
                        },
                        PStep::Fail(e) => PStep::Fail(e),
                    }
                } else if name == "type"@ {
                    match p_string(evs, p, "type"@, false) {
                        PStep::Took(v, used) => {
                            match p_link_body(evs, p + used, LinkS { _type: Some(v), ..link }) {
                                PStep::Took(l, u2) => PStep::Took(l, (used + u2) as nat),
                                PStep::Fail(e) => PStep::Fail(e),
                            }
                        },
                        PStep::Fail(e) => PStep::Fail(e),
                    }
                } else {
                    PStep::Fail(ErrS::InvalidChildElement(name, "link"@))
                }
            },
            EventS::Close { name } => {
                if name != "link"@ {
                    PStep::Fail(ErrS::InvalidClosingTag(name, "link"@))
                } else {
                    PStep::Took(link, 1)
                }
            },
            EventS::Text { .. } => {
                match p_link_body(evs, p + 1, link) {
                    PStep::Took(l, u2) => PStep::Took(l, (u2 + 1) as nat),
                    PStep::Fail(e) => PStep::Fail(e),
                }
            },
            EventS::Failure => PStep::Fail(ErrS::EventParsingError("link event"@)),
        }
    }
}

#[via_fn]
proof fn p_link_body_decreases(evs: Seq<EventS>, p: int, link: LinkS) {
    lemma_string_step(evs, p, "text"@, false);
    lemma_string_step(evs, p, "type"@, false);
}

/// One link element: the required `href` attribute, then the children.
#[verifier::opaque]
pub open spec fn p_link(evs: Seq<EventS>, p: int) -> PStep<LinkS> {
    match p_verify_starting_tag(evs, p, "link"@) {
        PStep::Took(attrs, used0) => {
            match find_attr(attrs, "href"@) {
                None => PStep::Fail(ErrS::InvalidElementLacksAttribute("href"@, "link"@)),
                Some(href) => {
                    match p_link_body(
                        evs,
                        p + used0,
                        LinkS { href, text: None, _type: None },
                    ) {
                        PStep::Took(l, used) => PStep::Took(l, (used0 + used) as nat),
                        PStep::Fail(e) => PStep::Fail(e),
                    }
                },
            }
        },
        PStep::Fail(e) => PStep::Fail(e),
    }
}

/// A successful link-body step consumes at least one event and stays
/// within the stream.
pub proof fn lemma_link_body_step(evs: Seq<EventS>, p: int, link: LinkS)
    ensures
        p_link_body(evs, p, link) matches PStep::Took(_, used) ==> 1 <= used && p + used
            <= evs.len(),
    decreases evs.len() - p,
{
    reveal_with_fuel(p_link_body, 1);
    if 0 <= p < evs.len() {
        match evs[p] {
            EventS::Open { name, .. } => {
                lemma_string_step(evs, p, "text"@, false);
                lemma_string_step(evs, p, "type"@, false);
                if name == "text"@ {
                    match p_string(evs, p, "text"@, false) {
                        PStep::Took(v, used) => {
                            lemma_link_body_step(evs, p + used, LinkS { text: Some(v), ..link });
                        },
                        PStep::Fail(_) => {},
                    }
                } else if name == "type"@ {
                    match p_string(evs, p, "type"@, false) {
                        PStep::Took(v, used) => {
                            lemma_link_body_step(evs, p + used, LinkS { _type: Some(v), ..link });
                        },
                        PStep::Fail(_) => {},
                    }
                }
            },
            EventS::Text { .. } => {
                lemma_link_body_step(evs, p + 1, link);
            },
            _ => {},
        }
    }
}

/// A successful link step consumes at least one event and stays within
/// the stream.
pub proof fn lemma_link_step(evs: Seq<EventS>, p: int)
    ensures
        p_link(evs, p) matches PStep::Took(_, used) ==> 1 <= used && p + used <= evs.len(),
{
    reveal_with_fuel(p_link, 1);
    crate::parser::lemma_vst_step(evs, p, "link"@);
    match p_verify_starting_tag(evs, p, "link"@) {
        PStep::Took(attrs, u0) => {
            match find_attr(attrs, "href"@) {
                Some(href) => {
                    lemma_link_body_step(evs, p + u0, LinkS { href, text: None, _type: None });
                },
                None => {},
            }
        },
        PStep::Fail(_) => {},
    }
}

/// consume consumes a GPX link from the event stream until it ends.
/// When it returns, the stream is right after the link's end tag.
pub fn consume(context: &mut Context) -> (r: GpxResult<Link>)
    requires
        old(context).pos <= old(context).events.len(),
    ensures
        consume_post::<Link>(
            p_link(old(context).events.deep_view(), old(context).pos as int),
            *old(context),
            *final(context),
            r,
        ),
        r matches Ok(_) ==> final(context).pos > old(context).pos,
{
    proof {
        reveal_with_fuel(p_link, 1);
    }
    let attributes = match verify_starting_tag(context, "link") {
        Ok(a) => a,
        Err(e) => {
            return Err(e);
        },
    };
    let href = match find_attribute(&attributes, "href") {
        Some(v) => v,
        None => {
            return Err(GpxError::InvalidElementLacksAttribute("href", "link"));
        },
    };
    consume_body(context, Link { href, text: None, _type: None })
}

fn consume_body(context: &mut Context, link: Link) -> (r: GpxResult<Link>)
    requires
        old(context).pos <= old(context).events.len(),
    ensures
        consume_post::<Link>(
            p_link_body(
                old(context).events.deep_view(),
                old(context).pos as int,
                link.deep_view(),
            ),
            *old(context),
            *final(context),
            r,
        ),
        r matches Ok(_) ==> final(context).pos > old(context).pos,
    decreases context.events.len() - context.pos,
{
    proof {
        reveal_with_fuel(p_link_body, 1);
    }
    let ghost evs = context.events.deep_view();
    let ghost p0 = context.pos as int;
    let pk = match peek_event(context) {
        Some(pk) => pk,
        None => {
            return Err(GpxError::MissingClosingTag("link"));
        },
    };
    match pk {
        Peeked::Open(name) => {
            if str_eq(name.as_str(), "text") {
                match crate::parser::string::consume(context, "text", false) {
                    Ok(v) => {
                        proof {
                            lemma_string_step(evs, p0, "text"@, false);
                        }
                        consume_body(context, Link { text: Some(v), ..link })
                    },
                    Err(e) => Err(e),
                }
            } else if str_eq(name.as_str(), "type") {
                match crate::parser::string::consume(context, "type", false) {
                    Ok(v) => {
                        proof {
                            lemma_string_step(evs, p0, "type"@, false);
                        }
                        consume_body(context, Link { _type: Some(v), ..link })
                    },
                    Err(e) => Err(e),
                }
            } else {
                Err(GpxError::InvalidChildElement(name, "link"))
            }
        },
        Peeked::Close(name) => {
            if !str_eq(name.as_str(), "link") {
                Err(GpxError::InvalidClosingTag(name, "link"))
            } else {
                context.pos += 1;
                Ok(link)
            }
        },
        Peeked::Text(_) => {
            context.pos += 1;
            consume_body(context, link)
        },
        Peeked::Failure => Err(GpxError::EventParsingError("link event")),
    }
}

} // verus!
