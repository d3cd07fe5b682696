//! tracksegment handles parsing of GPX-spec track segments: a list of
//! `trkpt` points and nothing else.

use vstd::prelude::*;
use vstd::string::*;

use crate::errors::{ErrS, GpxError, GpxResult};
use crate::events::EventS;
use crate::parser::waypoint::p_waypoint;
use crate::parser::{
    consume_post, p_verify_starting_tag, peek_event, verify_starting_tag, Context, PStep, Peeked,
};
use crate::text::str_eq;
use crate::types::{GpxVersion, TrackSegment, TrackSegmentS, WaypointS};

verus! {

/// The children of a track segment: repeated `trkpt` points.
#[verifier::opaque]
pub open spec fn p_tracksegment_body(
    evs: Seq<EventS>,
    p: int,
    version: GpxVersion,
    seg: TrackSegmentS,
) -> PStep<TrackSegmentS>
    decreases evs.len() - p, 1int,
{
    if p < 0 || p >= evs.len() {
        PStep::Fail(ErrS::MissingClosingTag("tracksegment"@))
    } else {
        match evs[p] {
            EventS::Open { name, .. } => {
                if name == "trkpt"@ {
                    match p_waypoint(evs, p, "trkpt"@, version) {
                        PStep::Took(w, used) => p_tracksegment_next(
                            evs,
                            p,
                            used,
                            version,
                            TrackSegmentS { points: seg.points.push(w) },
                        ),
                        PStep::Fail(e) => PStep::Fail(e),
                    }
                } else {
                    PStep::Fail(ErrS::InvalidChildElement(name, "tracksegment"@))
                }
            },
            EventS::Close { name } => {
                if name != "trkseg"@ {
                    PStep::Fail(ErrS::InvalidClosingTag(name, "trksegment"@))
                } else {
                    PStep::Took(seg, 1)
                }
            },
            EventS::Text { .. } => {
                match p_tracksegment_body(evs, p + 1, version, seg) {
                    PStep::Took(l, u2) => PStep::Took(l, (u2 + 1) as nat),
                    PStep::Fail(e) => PStep::Fail(e),
                }
            },
            EventS::Failure => PStep::Fail(ErrS::TrackSegmentError),
        }
    }
}

/// The loop's continuation after one consumed point; every child
/// consumes at least one event, so a zero count never arises.
pub open spec fn p_tracksegment_next(
    evs: Seq<EventS>,
    p: int,
    used: nat,
    version: GpxVersion,
    seg: TrackSegmentS,
) -> PStep<TrackSegmentS>
    decreases evs.len() - p, 0int,
{
    if used < 1 || p + used > evs.len() {
        PStep::Fail(ErrS::XmlParseError)
    } else {
        match p_tracksegment_body(evs, p + used, version, seg) {
            PStep::Took(l, u2) => PStep::Took(l, (used + u2) as nat),
            PStep::Fail(e) => PStep::Fail(e),
        }
    }
}

/// One track segment element.
#[verifier::opaque]
pub open spec fn p_tracksegment(evs: Seq<EventS>, p: int, version: GpxVersion) -> PStep<
    TrackSegmentS,
> {
    match p_verify_starting_tag(evs, p, "trkseg"@) {
        PStep::Took(_attrs, used0) => {
            match p_tracksegment_body(
                evs,
                p + used0,
                version,
                TrackSegmentS { points: Seq::<WaypointS>::empty() },
            ) {
                PStep::Took(l, used) => PStep::Took(l, (used0 + used) as nat),
                PStep::Fail(e) => PStep::Fail(e),
            }
        },
        PStep::Fail(e) => PStep::Fail(e),
    }
}

/// consume consumes a GPX track segment from the event stream until it
/// ends.
pub fn consume(context: &mut Context) -> (r: GpxResult<TrackSegment>)
    requires
        old(context).pos <= old(context).events.len(),
    ensures
        consume_post::<TrackSegment>(
            p_tracksegment(
                old(context).events.deep_view(),
                old(context).pos as int,
                old(context).version,
            ),
            *old(context),
            *final(context),
            r,
        ),
        r matches Ok(_) ==> final(context).pos > old(context).pos,
{
    proof {
        reveal_with_fuel(p_tracksegment, 1);
    }
    match verify_starting_tag(context, "trkseg") {
        Ok(_) => {},
        Err(e) => {
            return Err(e);
        },
    }
    let segment = TrackSegment { points: Vec::new() };
    proof {
        assert(segment.deep_view().points =~= Seq::<WaypointS>::empty());
    }
    consume_body(context, segment)
}

#[verifier::rlimit(100)]
fn consume_body(context: &mut Context, segment: TrackSegment) -> (r: GpxResult<TrackSegment>)
    requires
        old(context).pos <= old(context).events.len(),
    ensures
        consume_post::<TrackSegment>(
            p_tracksegment_body(
                old(context).events.deep_view(),
                old(context).pos as int,
                old(context).version,
                segment.deep_view(),
            ),
            *old(context),
            *final(context),
            r,
        ),
        r matches Ok(_) ==> final(context).pos > old(context).pos,
    decreases context.events.len() - context.pos,
{
    proof {
        reveal_with_fuel(p_tracksegment_body, 2);
    }
    let ghost evs = context.events.deep_view();
    let ghost p0 = context.pos as int;
    let pk = match peek_event(context) {
        Some(pk) => pk,
        None => {
            return Err(GpxError::MissingClosingTag("tracksegment"));
        },
    };
    match pk {
        Peeked::Open(name) => {
            if str_eq(name.as_str(), "trkpt") {
                match crate::parser::waypoint::consume(context, "trkpt") {
                    Ok(w) => {
                        let ghost s0 = segment.deep_view();
                        let ghost w0 = w.deep_view();
                        let mut segment = segment;
                        segment.points.push(w);
                        proof {
                            assert(segment.points.deep_view() =~= s0.points.push(w0));
                            assert(segment.deep_view() == (TrackSegmentS {
                                points: s0.points.push(w0),
                            }));
                        }
                        consume_body(context, segment)
                    },
                    Err(e) => Err(e),
                }
            } else {
                Err(GpxError::InvalidChildElement(name, "tracksegment"))
            }
        },
        Peeked::Close(name) => {
            if !str_eq(name.as_str(), "trkseg") {
                Err(GpxError::InvalidClosingTag(name, "trksegment"))
            } else {
                context.pos += 1;
                Ok(segment)
            }
        },
        Peeked::Text(_) => {
            context.pos += 1;
            consume_body(context, segment)
        },
        Peeked::Failure => Err(GpxError::TrackSegmentError),
    }
}

} // verus!
