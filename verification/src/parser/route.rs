//! route handles parsing of GPX-spec routes.

use vstd::prelude::*;
use vstd::string::*;

use crate::errors::{ErrS, GpxError, GpxResult};
use crate::events::EventS;
use crate::parser::extensions::p_extensions;
use crate::parser::link::p_link;
use crate::parser::waypoint::p_waypoint;
use crate::types::{GpxVersion, LinkS, Route, RouteS, WaypointS};
use crate::parser::string::{p_string, p_uint_child};
use crate::parser::{
    consume_post, p_verify_starting_tag, peek_event, verify_starting_tag, Context, PStep, Peeked,
};
use crate::text::str_eq;

verus! {

/// The children of the element, each taking its field or extending its
/// list when read.
#[verifier::opaque]
pub open spec fn p_route_body(
    evs: Seq<EventS>,
    p: int,
    version: GpxVersion,
    acc: RouteS,
) -> PStep<RouteS>
    decreases evs.len() - p, 1int,
{
    if p < 0 || p >= evs.len() {
        PStep::Fail(ErrS::MissingClosingTag("route"@))
    } else {
        match evs[p] {
            EventS::Open { name, .. } => {
                if false {
                    PStep::Fail(ErrS::XmlParseError)
                } else if name == "name"@ {
                    match p_string(evs, p, "name"@, false) {
                        PStep::Took(v, used) => p_route_next(
                            evs,
                            p,
                            used,
                            version, RouteS { name: Some(v), ..acc },
                        ),
                        PStep::Fail(e) => PStep::Fail(e),
                    }
                } else if name == "cmt"@ {
                    match p_string(evs, p, "cmt"@, true) {
                        PStep::Took(v, used) => p_route_next(
                            evs,
                            p,
                            used,
                            version, RouteS { comment: Some(v), ..acc },
                        ),
                        PStep::Fail(e) => PStep::Fail(e),
                    }
                } else if name == "desc"@ {
                    match p_string(evs, p, "desc"@, true) {
                        PStep::Took(v, used) => p_route_next(
                            evs,
                            p,
                            used,
                            version, RouteS { description: Some(v), ..acc },
                        ),
                        PStep::Fail(e) => PStep::Fail(e),
                    }
                } else if name == "src"@ {
                    match p_string(evs, p, "src"@, true) {
                        PStep::Took(v, used) => p_route_next(
                            evs,
                            p,
                            used,
                            version, RouteS { source: Some(v), ..acc },
                        ),
                        PStep::Fail(e) => PStep::Fail(e),
                    }
                } else if name == "number"@ {
                    match p_uint_child(evs, p, "number"@, 0xffff_ffff) {
                        PStep::Took(v, used) => p_route_next(
                            evs,
                            p,
                            used,
                            version, RouteS { number: Some(v as u32), ..acc },
                        ),
                        PStep::Fail(e) => PStep::Fail(e),
                    }
                } else if name == "type"@ {
                    match p_string(evs, p, "type"@, false) {
                        PStep::Took(v, used) => p_route_next(
                            evs,
                            p,
                            used,
                            version, RouteS { _type: Some(v), ..acc },
                        ),
                        PStep::Fail(e) => PStep::Fail(e),
                    }
                } else if name == "rtept"@ {
                    match p_waypoint(evs, p, "rtept"@, version) {
                        PStep::Took(v, used) => p_route_next(
                            evs,
                            p,
                            used,
                            version, RouteS { points: acc.points.push(v), ..acc },
                        ),
                        PStep::Fail(e) => PStep::Fail(e),
                    }
                } else if name == "link"@ {
                    match p_link(evs, p) {
                        PStep::Took(v, used) => p_route_next(
                            evs,
                            p,
                            used,
                            version, RouteS { links: acc.links.push(v), ..acc },
                        ),
                        PStep::Fail(e) => PStep::Fail(e),
                    }
                } else if name == "extensions"@ {
                    match p_extensions(evs, p) {
                        PStep::Took(_, used) => p_route_next(evs, p, used, version, acc),
                        PStep::Fail(e) => PStep::Fail(e),
                    }
                } else {
                    PStep::Fail(ErrS::InvalidChildElement(name, "route"@))
                }
            },
            EventS::Close { name } => {
                if name != "rte"@ {
                    PStep::Fail(ErrS::InvalidClosingTag(name, "route"@))
                } else {
                    PStep::Took(acc, 1)
                }
            },
            EventS::Text { .. } => {
                match p_route_body(evs, p + 1, version, acc) {
                    PStep::Took(l, u2) => PStep::Took(l, (u2 + 1) as nat),
                    PStep::Fail(e) => PStep::Fail(e),
                }
            },
            EventS::Failure => PStep::Fail(ErrS::EventParsingError("route event"@)),
        }
    }
}

/// The loop's continuation after one consumed child; every child
/// consumes at least one event, so a zero count never arises.
pub open spec fn p_route_next(
    evs: Seq<EventS>,
    p: int,
    used: nat,
    version: GpxVersion,
    acc: RouteS,
) -> PStep<RouteS>
    decreases evs.len() - p, 0int,
{
    if used < 1 || p + used > evs.len() {
        PStep::Fail(ErrS::XmlParseError)
    } else {
        match p_route_body(evs, p + used, version, acc) {
            PStep::Took(l, u2) => PStep::Took(l, (used + u2) as nat),
            PStep::Fail(e) => PStep::Fail(e),
        }
    }
}

/// One whole element.
#[verifier::opaque]
pub open spec fn p_route(evs: Seq<EventS>, p: int, version: GpxVersion) -> PStep<RouteS> {
    match p_verify_starting_tag(evs, p, "rte"@) {
        PStep::Took(_attrs, used0) => {
            match p_route_body(evs, p + used0, version, RouteS { name: None, comment: None, description: None, source: None, links: Seq::empty(), number: None, _type: None, points: Seq::empty() }) {
                PStep::Took(l, used) => PStep::Took(l, (used0 + used) as nat),
                PStep::Fail(e) => PStep::Fail(e),
            }
        },
        PStep::Fail(e) => PStep::Fail(e),
    }
}

/// consume consumes the element from the event stream until it ends.
pub fn consume(context: &mut Context) -> (r: GpxResult<Route>)
    requires
        old(context).pos <= old(context).events.len(),
    ensures
        consume_post::<Route>(
            p_route(
                old(context).events.deep_view(),
                old(context).pos as int,
                old(context).version,
            ),
            *old(context),
            *final(context),
            r,
        ),
        r matches Ok(_) ==> final(context).pos > old(context).pos,
{
    proof {
        reveal_with_fuel(p_route, 1);
    }
    match verify_starting_tag(context, "rte") {
        Ok(_) => {},
        Err(e) => {
            return Err(e);
        },
    }
    let acc = Route { name: None, comment: None, description: None, source: None, links: Vec::new(), number: None, _type: None, points: Vec::new() };
    proof {
        assert(acc.links.deep_view() =~= Seq::<LinkS>::empty());
        assert(acc.points.deep_view() =~= Seq::<WaypointS>::empty());
    }
    consume_body(context, acc)
}

#[verifier::rlimit(100)]
fn consume_body(context: &mut Context, acc: Route) -> (r: GpxResult<Route>)
    requires
        old(context).pos <= old(context).events.len(),
    ensures
        consume_post::<Route>(
            p_route_body(
                old(context).events.deep_view(),
                old(context).pos as int,
                old(context).version,
                acc.deep_view(),
            ),
            *old(context),
            *final(context),
            r,
        ),
        r matches Ok(_) ==> final(context).pos > old(context).pos,
    decreases context.events.len() - context.pos,
{
    proof {
        reveal_with_fuel(p_route_body, 2);
    }
    let ghost evs = context.events.deep_view();
    let ghost p0 = context.pos as int;
    let pk = match peek_event(context) {
        Some(pk) => pk,
        None => {
            return Err(GpxError::MissingClosingTag("route"));
        },
    };
    match pk {
        Peeked::Open(name) => {
            if false {
                Err(GpxError::XmlParseError)
            } else if str_eq(name.as_str(), "name") {
                match crate::parser::string::consume(context, "name", false) {
                    Ok(v) => {
                        proof {  }
                        consume_body(context, Route { name: Some(v), ..acc })
                    },
                    Err(e) => Err(e),
                }
            } else if str_eq(name.as_str(), "cmt") {
                match crate::parser::string::consume(context, "cmt", true) {
                    Ok(v) => {
                        proof {  }
                        consume_body(context, Route { comment: Some(v), ..acc })
                    },
                    Err(e) => Err(e),
                }
            } else if str_eq(name.as_str(), "desc") {
                match crate::parser::string::consume(context, "desc", true) {
                    Ok(v) => {
                        proof {  }
                        consume_body(context, Route { description: Some(v), ..acc })
                    },
                    Err(e) => Err(e),
                }
            } else if str_eq(name.as_str(), "src") {
                match crate::parser::string::consume(context, "src", true) {
                    Ok(v) => {
                        proof {  }
                        consume_body(context, Route { source: Some(v), ..acc })
                    },
                    Err(e) => Err(e),
                }
            } else if str_eq(name.as_str(), "number") {
                match crate::parser::string::consume_uint_child(context, "number", 0xffff_ffff) {
                    Ok(v) => {
                        proof { reveal_with_fuel(crate::parser::string::p_uint_child, 1); }
                        consume_body(context, Route { number: Some(v as u32), ..acc })
                    },
                    Err(e) => Err(e),
                }
            } else if str_eq(name.as_str(), "type") {
                match crate::parser::string::consume(context, "type", false) {
                    Ok(v) => {
                        proof {  }
                        consume_body(context, Route { _type: Some(v), ..acc })
                    },
                    Err(e) => Err(e),
                }
            } else if str_eq(name.as_str(), "rtept") {
                match crate::parser::waypoint::consume(context, "rtept") {
                    Ok(v) => {
                        proof {  }
                        let ghost a0 = acc.deep_view();
                        let ghost v0 = v.deep_view();
                        let mut acc = acc;
                        acc.points.push(v);
                        proof {
                            assert(acc.points.deep_view() =~= a0.points.push(v0));
                            assert(acc.deep_view() == (RouteS { points: a0.points.push(v0), ..a0 }));
                        }
                        consume_body(context, acc)
                    },
                    Err(e) => Err(e),
                }
            } else if str_eq(name.as_str(), "link") {
                match crate::parser::link::consume(context) {
                    Ok(v) => {
                        proof {  }
                        let ghost a0 = acc.deep_view();
                        let ghost v0 = v.deep_view();
                        let mut acc = acc;
                        acc.links.push(v);
                        proof {
                            assert(acc.links.deep_view() =~= a0.links.push(v0));
                            assert(acc.deep_view() == (RouteS { links: a0.links.push(v0), ..a0 }));
                        }
                        consume_body(context, acc)
                    },
                    Err(e) => Err(e),
                }
            } else if str_eq(name.as_str(), "extensions") {
                match crate::parser::extensions::consume(context) {
                    Ok(_) => consume_body(context, acc),
                    Err(e) => Err(e),
                }
            } else {
                Err(GpxError::InvalidChildElement(name, "route"))
            }
        },
        Peeked::Close(name) => {
            if !str_eq(name.as_str(), "rte") {
                Err(GpxError::InvalidClosingTag(name, "route"))
            } else {
                context.pos += 1;
                Ok(acc)
            }
        },
        Peeked::Text(_) => {
            context.pos += 1;
            consume_body(context, acc)
        },
        Peeked::Failure => Err(GpxError::EventParsingError("route event")),
    }
}

} // verus!
