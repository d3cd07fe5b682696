//! metadata handles parsing of GPX-spec metadata.

use vstd::prelude::*;
use vstd::string::*;

use crate::errors::{ErrS, GpxError, GpxResult};
use crate::events::EventS;
use crate::parser::bounds::p_bounds;
use crate::parser::copyright::p_copyright;
use crate::parser::extensions::p_extensions;
use crate::parser::link::p_link;
use crate::parser::person::p_person;
use crate::parser::time::p_time;
use crate::types::{LinkS, Metadata, MetadataS};
use crate::parser::string::{p_string, p_uint_child};
use crate::parser::{
    consume_post, p_verify_starting_tag, peek_event, verify_starting_tag, Context, PStep, Peeked,
};
use crate::text::str_eq;

verus! {

/// The children of the element, each taking its field or extending its
/// list when read.
#[verifier::opaque]
pub open spec fn p_metadata_body(
    evs: Seq<EventS>,
    p: int,
    acc: MetadataS,
) -> PStep<MetadataS>
    decreases evs.len() - p, 1int,
{
    if p < 0 || p >= evs.len() {
        PStep::Fail(ErrS::MissingClosingTag("metadata"@))
    } else {
        match evs[p] {
            EventS::Open { name, .. } => {
                if false {
                    PStep::Fail(ErrS::XmlParseError)
                } else if name == "name"@ {
                    match p_string(evs, p, "name"@, false) {
                        PStep::Took(v, used) => p_metadata_next(
                            evs,
                            p,
                            used,
                            MetadataS { name: Some(v), ..acc },
                        ),
                        PStep::Fail(e) => PStep::Fail(e),
                    }
                } else if name == "desc"@ {
                    match p_string(evs, p, "desc"@, true) {
                        PStep::Took(v, used) => p_metadata_next(
                            evs,
                            p,
                            used,
                            MetadataS { description: Some(v), ..acc },
                        ),
                        PStep::Fail(e) => PStep::Fail(e),
                    }
                } else if name == "author"@ {
                    match p_person(evs, p, "author"@) {
                        PStep::Took(v, used) => p_metadata_next(
                            evs,
                            p,
                            used,
                            MetadataS { author: Some(v), ..acc },
                        ),
                        PStep::Fail(e) => PStep::Fail(e),
                    }
                } else if name == "keywords"@ {
                    match p_string(evs, p, "keywords"@, true) {
                        PStep::Took(v, used) => p_metadata_next(
                            evs,
                            p,
                            used,
                            MetadataS { keywords: Some(v), ..acc },
                        ),
                        PStep::Fail(e) => PStep::Fail(e),
                    }
                } else if name == "time"@ {
                    match p_time(evs, p) {
                        PStep::Took(v, used) => p_metadata_next(
                            evs,
                            p,
                            used,
                            MetadataS { time: Some(v), ..acc },
                        ),
                        PStep::Fail(e) => PStep::Fail(e),
                    }
                } else if name == "link"@ {
                    match p_link(evs, p) {
                        PStep::Took(v, used) => p_metadata_next(
                            evs,
                            p,
                            used,
                            MetadataS { links: acc.links.push(v), ..acc },
                        ),
                        PStep::Fail(e) => PStep::Fail(e),
                    }
                } else if name == "bounds"@ {
                    match p_bounds(evs, p) {
                        PStep::Took(v, used) => p_metadata_next(
                            evs,
                            p,
                            used,
                            MetadataS { bounds: Some(v), ..acc },
                        ),
                        PStep::Fail(e) => PStep::Fail(e),
                    }
                } else if name == "copyright"@ {
                    match p_copyright(evs, p) {
                        PStep::Took(v, used) => p_metadata_next(
                            evs,
                            p,
                            used,
                            MetadataS { copyright: Some(v), ..acc },
                        ),
                        PStep::Fail(e) => PStep::Fail(e),
                    }
                } else if name == "extensions"@ {
                    match p_extensions(evs, p) {
                        PStep::Took(_, used) => p_metadata_next(evs, p, used, acc),
                        PStep::Fail(e) => PStep::Fail(e),
                    }
                } else {
                    PStep::Fail(ErrS::InvalidChildElement(name, "metadata"@))
                }
            },
            EventS::Close { name } => {
                if name != "metadata"@ {
                    PStep::Fail(ErrS::InvalidClosingTag(name, "metadata"@))
                } else {
                    PStep::Took(acc, 1)
                }
            },
            EventS::Text { .. } => {
                match p_metadata_body(evs, p + 1, acc) {
                    PStep::Took(l, u2) => PStep::Took(l, (u2 + 1) as nat),
                    PStep::Fail(e) => PStep::Fail(e),
                }
            },
            EventS::Failure => PStep::Fail(ErrS::MetadataParsingError),
        }
    }
}

/// The loop's continuation after one consumed child; every child
/// consumes at least one event, so a zero count never arises.
pub open spec fn p_metadata_next(
    evs: Seq<EventS>,
    p: int,
    used: nat,
    acc: MetadataS,
) -> PStep<MetadataS>
    decreases evs.len() - p, 0int,
{
    if used < 1 || p + used > evs.len() {
        PStep::Fail(ErrS::XmlParseError)
    } else {
        match p_metadata_body(evs, p + used, acc) {
            PStep::Took(l, u2) => PStep::Took(l, (used + u2) as nat),
            PStep::Fail(e) => PStep::Fail(e),
        }
    }
}

/// One whole element.
#[verifier::opaque]
pub open spec fn p_metadata(evs: Seq<EventS>, p: int) -> PStep<MetadataS> {
    match p_verify_starting_tag(evs, p, "metadata"@) {
        PStep::Took(_attrs, used0) => {
            match p_metadata_body(evs, p + used0, MetadataS { name: None, description: None, author: None, links: Seq::empty(), time: None, keywords: None, copyright: None, bounds: None }) {
                PStep::Took(l, used) => PStep::Took(l, (used0 + used) as nat),
                PStep::Fail(e) => PStep::Fail(e),
            }
        },
        PStep::Fail(e) => PStep::Fail(e),
    }
}

/// consume consumes the element from the event stream until it ends.
pub fn consume(context: &mut Context) -> (r: GpxResult<Metadata>)
    requires
        old(context).pos <= old(context).events.len(),
    ensures
        consume_post::<Metadata>(
            p_metadata(
                old(context).events.deep_view(),
                old(context).pos as int,
            ),
            *old(context),
            *final(context),
            r,
        ),
        r matches Ok(_) ==> final(context).pos > old(context).pos,
{
    proof {
        reveal_with_fuel(p_metadata, 1);
    }
    match verify_starting_tag(context, "metadata") {
        Ok(_) => {},
        Err(e) => {
            return Err(e);
        },
    }
    let acc = Metadata { name: None, description: None, author: None, links: Vec::new(), time: None, keywords: None, copyright: None, bounds: None };
    proof {
        assert(acc.links.deep_view() =~= Seq::<LinkS>::empty());
    }
    consume_body(context, acc)
}

#[verifier::rlimit(100)]
fn consume_body(context: &mut Context, acc: Metadata) -> (r: GpxResult<Metadata>)
    requires
        old(context).pos <= old(context).events.len(),
    ensures
        consume_post::<Metadata>(
            p_metadata_body(
                old(context).events.deep_view(),
                old(context).pos as int,
                acc.deep_view(),
            ),
            *old(context),
            *final(context),
            r,
        ),
        r matches Ok(_) ==> final(context).pos > old(context).pos,
    decreases context.events.len() - context.pos,
{
    proof {
        reveal_with_fuel(p_metadata_body, 2);
    }
    let ghost evs = context.events.deep_view();
    let ghost p0 = context.pos as int;
    let pk = match peek_event(context) {
        Some(pk) => pk,
        None => {
            return Err(GpxError::MissingClosingTag("metadata"));
        },
    };
    match pk {
        Peeked::Open(name) => {
            if false {
                Err(GpxError::XmlParseError)
            } else if str_eq(name.as_str(), "name") {
                match crate::parser::string::consume(context, "name", false) {
                    Ok(v) => {
                        proof {  }
                        consume_body(context, Metadata { name: Some(v), ..acc })
                    },
                    Err(e) => Err(e),
                }
            } else if str_eq(name.as_str(), "desc") {
                match crate::parser::string::consume(context, "desc", true) {
                    Ok(v) => {
                        proof {  }
                        consume_body(context, Metadata { description: Some(v), ..acc })
                    },
                    Err(e) => Err(e),
                }
            } else if str_eq(name.as_str(), "author") {
                match crate::parser::person::consume(context, "author") {
                    Ok(v) => {
                        proof {  }
                        consume_body(context, Metadata { author: Some(v), ..acc })
                    },
                    Err(e) => Err(e),
                }
            } else if str_eq(name.as_str(), "keywords") {
                match crate::parser::string::consume(context, "keywords", true) {
                    Ok(v) => {
                        proof {  }
                        consume_body(context, Metadata { keywords: Some(v), ..acc })
                    },
                    Err(e) => Err(e),
                }
            } else if str_eq(name.as_str(), "time") {
                match crate::parser::time::consume(context) {
                    Ok(v) => {
                        proof {  }
                        consume_body(context, Metadata { time: Some(v), ..acc })
                    },
                    Err(e) => Err(e),
                }
            } else if str_eq(name.as_str(), "link") {
                match crate::parser::link::consume(context) {
                    Ok(v) => {
                        proof {  }
                        let ghost a0 = acc.deep_view();
                        let ghost v0 = v.deep_view();
                        let mut acc = acc;
                        acc.links.push(v);
                        proof {
                            assert(acc.links.deep_view() =~= a0.links.push(v0));
                            assert(acc.deep_view() == (MetadataS { links: a0.links.push(v0), ..a0 }));
                        }
                        consume_body(context, acc)
                    },
                    Err(e) => Err(e),
                }
            } else if str_eq(name.as_str(), "bounds") {
                match crate::parser::bounds::consume(context) {
                    Ok(v) => {
                        proof {  }
                        consume_body(context, Metadata { bounds: Some(v), ..acc })
                    },
                    Err(e) => Err(e),
                }
            } else if str_eq(name.as_str(), "copyright") {
                match crate::parser::copyright::consume(context) {
                    Ok(v) => {
                        proof {  }
                        consume_body(context, Metadata { copyright: Some(v), ..acc })
                    },
                    Err(e) => Err(e),
                }
            } else if str_eq(name.as_str(), "extensions") {
                match crate::parser::extensions::consume(context) {
                    Ok(_) => consume_body(context, acc),
                    Err(e) => Err(e),
                }
            } else {
                Err(GpxError::InvalidChildElement(name, "metadata"))
            }
        },
        Peeked::Close(name) => {
            if !str_eq(name.as_str(), "metadata") {
                Err(GpxError::InvalidClosingTag(name, "metadata"))
            } else {
                context.pos += 1;
                Ok(acc)
            }
        },
        Peeked::Text(_) => {
            context.pos += 1;
            consume_body(context, acc)
        },
        Peeked::Failure => Err(GpxError::MetadataParsingError),
    }
}

} // verus!
