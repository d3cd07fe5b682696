//! Copyright handles parsing of GPX-spec copyright: an optional
//! `author` attribute, and `year` and `license` children.

use vstd::prelude::*;
use vstd::string::*;

use crate::errors::{ErrS, GpxError, GpxResult};
use crate::events::EventS;
use crate::parser::string::{lemma_string_step, p_string};
use crate::parser::{
    consume_post, find_attr, find_attribute, p_verify_starting_tag, peek_event,
    verify_starting_tag, Context, PStep, Peeked,
};
use crate::text::{parse_i32, signed32_of, str_eq};
use crate::types::{CopyrightS, GpxCopyright};

verus! {

/// The children of a copyright element: a `license` string and a `year`
/// whose failed number parse leaves the field unset.
#[verifier::opaque]
pub open spec fn p_copyright_body(evs: Seq<EventS>, p: int, c: CopyrightS) -> PStep<CopyrightS>
    decreases evs.len() - p,
    via p_copyright_body_decreases
{
    if p < 0 || p >= evs.len() {
        PStep::Fail(ErrS::MissingClosingTag("copyright"@))
    } else {
        match evs[p] {
            EventS::Open { name, .. } => {
                if name == "license"@ {
                    match p_string(evs, p, "license"@, false) {
                        PStep::Took(v, used) => {
                            match p_copyright_body(
                                evs,
                                p + used,
                                CopyrightS { license: Some(v), ..c },
                            ) {
                                PStep::Took(l, u2) => PStep::Took(l, (used + u2) as nat),
                                PStep::Fail(e) => PStep::Fail(e),
                            }
                        },
                        PStep::Fail(e) => PStep::Fail(e),
                    }
                } else if name == "year"@ {
                    match p_string(evs, p, "year"@, false) {
                        PStep::Took(v, used) => {
                            match p_copyright_body(
                                evs,
                                p + used,
                                CopyrightS { year: signed32_of(v), ..c },
                            ) {
                                PStep::Took(l, u2) => PStep::Took(l, (used + u2) as nat),
                                PStep::Fail(e) => PStep::Fail(e),
                            }
                        },
                        PStep::Fail(e) => PStep::Fail(e),
                    }
                } else {
                    PStep::Fail(ErrS::InvalidChildElement(name, "copyright"@))
                }
            },
            EventS::Close { name } => {
                if name != "copyright"@ {
                    PStep::Fail(ErrS::InvalidClosingTag(name, "copyright"@))
                } else {
                    PStep::Took(c, 1)
                }
            },
            EventS::Text { .. } => {
                match p_copyright_body(evs, p + 1, c) {
                    PStep::Took(l, u2) => PStep::Took(l, (u2 + 1) as nat),
                    PStep::Fail(e) => PStep::Fail(e),
                }
            },
            EventS::Failure => PStep::Fail(ErrS::EventParsingError("Expecting an event"@)),
        }
    }
}

#[via_fn]
proof fn p_copyright_body_decreases(evs: Seq<EventS>, p: int, c: CopyrightS) {
    lemma_string_step(evs, p, "license"@, false);
    lemma_string_step(evs, p, "year"@, false);
}

/// One copyright element: the optional `author` attribute, then the
/// children.
#[verifier::opaque]
pub open spec fn p_copyright(evs: Seq<EventS>, p: int) -> PStep<CopyrightS> {
    match p_verify_starting_tag(evs, p, "copyright"@) {
        PStep::Took(attrs, used0) => {
            let c = CopyrightS { author: find_attr(attrs, "author"@), year: None, license: None };
            match p_copyright_body(evs, p + used0, c) {
                PStep::Took(l, used) => PStep::Took(l, (used0 + used) as nat),
                PStep::Fail(e) => PStep::Fail(e),
            }
        },
        PStep::Fail(e) => PStep::Fail(e),
    }
}

/// consume consumes a GPX copyright from the event stream until it
/// ends. When it returns, the stream is right after the end tag.
pub fn consume(context: &mut Context) -> (r: GpxResult<GpxCopyright>)
    requires
        old(context).pos <= old(context).events.len(),
    ensures
        consume_post::<GpxCopyright>(
            p_copyright(old(context).events.deep_view(), old(context).pos as int),
            *old(context),
            *final(context),
            r,
        ),
        r matches Ok(_) ==> final(context).pos > old(context).pos,
{
    proof {
        reveal_with_fuel(p_copyright, 1);
    }
    let attributes = match verify_starting_tag(context, "copyright") {
        Ok(a) => a,
        Err(e) => {
            return Err(e);
        },
    };
    let author = find_attribute(&attributes, "author");
    consume_body(context, GpxCopyright { author, year: None, license: None })
}

fn consume_body(context: &mut Context, copyright: GpxCopyright) -> (r: GpxResult<GpxCopyright>)
    requires
        old(context).pos <= old(context).events.len(),
    ensures
        consume_post::<GpxCopyright>(
            p_copyright_body(
                old(context).events.deep_view(),
                old(context).pos as int,
                copyright.deep_view(),
            ),
            *old(context),
            *final(context),
            r,
        ),
        r matches Ok(_) ==> final(context).pos > old(context).pos,
    decreases context.events.len() - context.pos,
{
    proof {
        reveal_with_fuel(p_copyright_body, 1);
    }
    let ghost evs = context.events.deep_view();
    let ghost p0 = context.pos as int;
    let pk = match peek_event(context) {
        Some(pk) => pk,
        None => {
            return Err(GpxError::MissingClosingTag("copyright"));
        },
    };
    match pk {
        Peeked::Open(name) => {
            if str_eq(name.as_str(), "license") {
                match crate::parser::string::consume(context, "license", false) {
                    Ok(v) => {
                        proof {
                            lemma_string_step(evs, p0, "license"@, false);
                        }
                        consume_body(context, GpxCopyright { license: Some(v), ..copyright })
                    },
                    Err(e) => Err(e),
                }
            } else if str_eq(name.as_str(), "year") {
                match crate::parser::string::consume(context, "year", false) {
                    Ok(v) => {
                        proof {
                            lemma_string_step(evs, p0, "year"@, false);
                        }
                        let year = parse_i32(v.as_str());
                        consume_body(context, GpxCopyright { year, ..copyright })
                    },
                    Err(e) => Err(e),
                }
            } else {
                Err(GpxError::InvalidChildElement(name, "copyright"))
            }
        },
        Peeked::Close(name) => {
            if !str_eq(name.as_str(), "copyright") {
                Err(GpxError::InvalidClosingTag(name, "copyright"))
            } else {
                context.pos += 1;
                Ok(copyright)
            }
        },
        Peeked::Text(_) => {
            context.pos += 1;
            consume_body(context, copyright)
        },
        Peeked::Failure => Err(GpxError::EventParsingError("Expecting an event")),
    }
}

} // verus!
