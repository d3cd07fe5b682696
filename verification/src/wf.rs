//! What parsing guarantees of its results: every value a consumer
//! returns is well-formed — decimals in normal form, instants within
//! their calendar ranges — so a parsed document always satisfies the
//! writer's precondition.

use vstd::prelude::*;

use crate::decimal::{dec_parse, dec_wf, lemma_dec_parse_wf, lemma_dec_total};
use crate::events::{AttrS, EventS};
use crate::parser::bounds::{p_bounds, p_bounds_attrs, p_bounds_body};
use crate::parser::fix::p_fix;
use crate::parser::gpx::{
    p_gpx, p_gpx_body, p_gpx_next, scratch_empty, synth_gpx10, GpxScratchS,
};
use crate::parser::link::p_link;
use crate::parser::metadata::{p_metadata, p_metadata_body, p_metadata_next};
use crate::parser::person::p_person;
use crate::parser::route::{p_route, p_route_body, p_route_next};
use crate::parser::string::{p_dec_child, p_string, p_uint_child};
use crate::parser::time::{lemma_time_parse_wf, p_time, time_wf};
use crate::parser::track::{p_track, p_track_body, p_track_next};
use crate::parser::tracksegment::{p_tracksegment, p_tracksegment_body, p_tracksegment_next};
use crate::parser::waypoint::{p_waypoint, p_waypoint_attrs, p_waypoint_body, p_waypoint_next};
use crate::parser::{find_attr, p_verify_starting_tag, PStep};
use crate::types::{
    gpx_wf, metadata_empty, metadata_wf, point_wf, rect_wf, route_empty, route_wf, segment_empty,
    segment_wf, track_empty, track_wf, waypoint_at, waypoint_wf, GpxS, GpxVersion, MetadataS,
    RectS, RouteS, TrackS, TrackSegmentS, WaypointS,
};

verus! {

/// A decimal-valued child element yields a normal-form decimal.
pub proof fn lemma_dec_child_wf(evs: Seq<EventS>, p: int, tag: Seq<char>)
    ensures
        p_dec_child(evs, p, tag) matches PStep::Took(d, _) ==> dec_wf(d),
{
    reveal_with_fuel(p_dec_child, 1);
    match p_string(evs, p, tag, false) {
        PStep::Took(v, _) => {
            lemma_dec_parse_wf(v);
        },
        PStep::Fail(_) => {},
    }
}

/// A time element yields a valid instant.
pub proof fn lemma_time_child_wf(evs: Seq<EventS>, p: int)
    ensures
        p_time(evs, p) matches PStep::Took(t, _) ==> time_wf(t),
{
    reveal_with_fuel(p_time, 1);
    match p_string(evs, p, "time"@, false) {
        PStep::Took(v, _) => {
            lemma_time_parse_wf(v);
        },
        PStep::Fail(_) => {},
    }
}

/// A bounds element yields a well-formed rectangle: normal-form corners
/// with each minimum at or under its maximum.
pub proof fn lemma_bounds_wf(evs: Seq<EventS>, p: int)
    ensures
        p_bounds(evs, p) matches PStep::Took(r, _) ==> rect_wf(r),
{
    reveal_with_fuel(p_bounds, 1);
    reveal_with_fuel(p_bounds_body, 1);
    match p_verify_starting_tag(evs, p, "bounds"@) {
        PStep::Took(attrs, used0) => {
            match find_attr(attrs, "minlat"@) {
                Some(minlat_text) => {
                    match find_attr(attrs, "maxlat"@) {
                        Some(maxlat_text) => {
                            match find_attr(attrs, "minlon"@) {
                                Some(minlon_text) => {
                                    match find_attr(attrs, "maxlon"@) {
                                        Some(maxlon_text) => {
                                            lemma_dec_parse_wf(minlat_text);
                                            lemma_dec_parse_wf(maxlat_text);
                                            lemma_dec_parse_wf(minlon_text);
                                            lemma_dec_parse_wf(maxlon_text);
                                            match (
                                                dec_parse(minlat_text),
                                                dec_parse(maxlat_text),
                                                dec_parse(minlon_text),
                                                dec_parse(maxlon_text),
                                            ) {
                                                (
                                                    Some(minlat),
                                                    Some(maxlat),
                                                    Some(minlon),
                                                    Some(maxlon),
                                                ) => {
                                                    lemma_dec_total(minlon, maxlon);
                                                    lemma_dec_total(minlat, maxlat);
                                                    match p_bounds_attrs(attrs) {
                                                        Ok(rect) => {
                                                            lemma_bounds_body_wf(
                                                                evs,
                                                                p + used0,
                                                                rect,
                                                            );
                                                        },
                                                        Err(_) => {},
                                                    }
                                                },
                                                _ => {},
                                            }
                                        },
                                        None => {},
                                    }
                                },
                                None => {},
                            }
                        },
                        None => {},
                    }
                },
                None => {},
            }
        },
        PStep::Fail(_) => {},
    }
}

proof fn lemma_bounds_body_wf(evs: Seq<EventS>, p: int, rect: RectS)
    requires
        rect_wf(rect),
    ensures
        p_bounds_body(evs, p, rect) matches PStep::Took(r, _) ==> rect_wf(r),
    decreases evs.len() - p,
{
    reveal_with_fuel(p_bounds_body, 1);
    if 0 <= p < evs.len() {
        match evs[p] {
            EventS::Text { .. } => {
                lemma_bounds_body_wf(evs, p + 1, rect);
            },
            _ => {},
        }
    }
}

/// A waypoint's required attributes yield a well-formed point.
pub proof fn lemma_waypoint_attrs_wf(attrs: Seq<AttrS>)
    ensures
        p_waypoint_attrs(attrs) matches Ok(point) ==> point_wf(point),
{
    match find_attr(attrs, "lat"@) {
        Some(lat_text) => {
            lemma_dec_parse_wf(lat_text);
            match find_attr(attrs, "lon"@) {
                Some(lon_text) => {
                    lemma_dec_parse_wf(lon_text);
                },
                None => {},
            }
        },
        None => {},
    }
}

/// The waypoint loop keeps its accumulator well-formed.
proof fn lemma_waypoint_body_wf(
    evs: Seq<EventS>,
    p: int,
    tag: Seq<char>,
    version: GpxVersion,
    w: WaypointS,
)
    requires
        waypoint_wf(w),
    ensures
        p_waypoint_body(evs, p, tag, version, w) matches PStep::Took(w2, _) ==> waypoint_wf(w2),
    decreases evs.len() - p, 1int,
{
    reveal_with_fuel(p_waypoint_body, 2);
    if 0 <= p < evs.len() {
        match evs[p] {
            EventS::Open { name, .. } => {
                if name == "ele"@ {
                    match p_string(evs, p, "ele"@, true) {
                        PStep::Took(v, used) => {
                            if v.len() == 0 {
                                lemma_waypoint_next_wf(evs, p, used, tag, version, w);
                            } else {
                                match dec_parse(v) {
                                    Some(d) => {
                                        lemma_dec_parse_wf(v);
                                        lemma_waypoint_next_wf(
                                            evs,
                                            p,
                                            used,
                                            tag,
                                            version,
                                            WaypointS { elevation: Some(d), ..w },
                                        );
                                    },
                                    None => {},
                                }
                            }
                        },
                        PStep::Fail(_) => {},
                    }
                } else if name == "speed"@ && version == GpxVersion::Gpx10 {
                    match p_dec_child(evs, p, "speed"@) {
                        PStep::Took(v, used) => {
                            lemma_dec_child_wf(evs, p, "speed"@);
                            lemma_waypoint_next_wf(evs, p, used, tag, version, WaypointS { speed: Some(v), ..w });
                        },
                        PStep::Fail(_) => {},
                    }
                } else if name == "time"@ {
                    match p_time(evs, p) {
                        PStep::Took(v, used) => {
                            lemma_time_child_wf(evs, p);
                            lemma_waypoint_next_wf(evs, p, used, tag, version, WaypointS { time: Some(v), ..w });
                        },
                        PStep::Fail(_) => {},
                    }
                } else if name == "name"@ {
                    match p_string(evs, p, "name"@, true) {
                        PStep::Took(v, used) => {
                            
                            lemma_waypoint_next_wf(evs, p, used, tag, version, WaypointS { name: Some(v), ..w });
                        },
                        PStep::Fail(_) => {},
                    }
                } else if name == "cmt"@ {
                    match p_string(evs, p, "cmt"@, true) {
                        PStep::Took(v, used) => {
                            
                            lemma_waypoint_next_wf(evs, p, used, tag, version, WaypointS { comment: Some(v), ..w });
                        },
                        PStep::Fail(_) => {},
                    }
                } else if name == "desc"@ {
                    match p_string(evs, p, "desc"@, true) {
                        PStep::Took(v, used) => {
                            
                            lemma_waypoint_next_wf(evs, p, used, tag, version, WaypointS { description: Some(v), ..w });
                        },
                        PStep::Fail(_) => {},
                    }
                } else if name == "src"@ {
                    match p_string(evs, p, "src"@, true) {
                        PStep::Took(v, used) => {
                            
                            lemma_waypoint_next_wf(evs, p, used, tag, version, WaypointS { source: Some(v), ..w });
                        },
                        PStep::Fail(_) => {},
                    }
                } else if name == "link"@ {
                    match p_link(evs, p) {
                        PStep::Took(v, used) => {
                            
                            lemma_waypoint_next_wf(evs, p, used, tag, version, WaypointS { links: w.links.push(v), ..w });
                        },
                        PStep::Fail(_) => {},
                    }
                } else if name == "sym"@ {
                    match p_string(evs, p, "sym"@, false) {
                        PStep::Took(v, used) => {
                            
                            lemma_waypoint_next_wf(evs, p, used, tag, version, WaypointS { symbol: Some(v), ..w });
                        },
                        PStep::Fail(_) => {},
                    }
                } else if name == "type"@ {
                    match p_string(evs, p, "type"@, false) {
                        PStep::Took(v, used) => {
                            
                            lemma_waypoint_next_wf(evs, p, used, tag, version, WaypointS { _type: Some(v), ..w });
                        },
                        PStep::Fail(_) => {},
                    }
                } else if name == "fix"@ {
                    match p_fix(evs, p) {
                        PStep::Took(v, used) => {
                            
                            lemma_waypoint_next_wf(evs, p, used, tag, version, WaypointS { fix: Some(v), ..w });
                        },
                        PStep::Fail(_) => {},
                    }
                } else if name == "geoidheight"@ {
                    match p_dec_child(evs, p, "geoidheight"@) {
                        PStep::Took(v, used) => {
                            lemma_dec_child_wf(evs, p, "geoidheight"@);
                            lemma_waypoint_next_wf(evs, p, used, tag, version, WaypointS { geoidheight: Some(v), ..w });
                        },
                        PStep::Fail(_) => {},
                    }
                } else if name == "sat"@ {
                    match p_uint_child(evs, p, "sat"@, 0xffff_ffff_ffff_ffff) {
                        PStep::Took(v, used) => {
                            
                            lemma_waypoint_next_wf(evs, p, used, tag, version, WaypointS { sat: Some(v), ..w });
                        },
                        PStep::Fail(_) => {},
                    }
                } else if name == "hdop"@ {
                    match p_dec_child(evs, p, "hdop"@) {
                        PStep::Took(v, used) => {
                            lemma_dec_child_wf(evs, p, "hdop"@);
                            lemma_waypoint_next_wf(evs, p, used, tag, version, WaypointS { hdop: Some(v), ..w });
                        },
                        PStep::Fail(_) => {},
                    }
                } else if name == "vdop"@ {
                    match p_dec_child(evs, p, "vdop"@) {
                        PStep::Took(v, used) => {
                            lemma_dec_child_wf(evs, p, "vdop"@);
                            lemma_waypoint_next_wf(evs, p, used, tag, version, WaypointS { vdop: Some(v), ..w });
                        },
                        PStep::Fail(_) => {},
                    }
                } else if name == "pdop"@ {
                    match p_dec_child(evs, p, "pdop"@) {
                        PStep::Took(v, used) => {
                            lemma_dec_child_wf(evs, p, "pdop"@);
                            lemma_waypoint_next_wf(evs, p, used, tag, version, WaypointS { pdop: Some(v), ..w });
                        },
                        PStep::Fail(_) => {},
                    }
                } else if name == "ageofdgpsdata"@ {
                    match p_dec_child(evs, p, "ageofdgpsdata"@) {
                        PStep::Took(v, used) => {
                            lemma_dec_child_wf(evs, p, "ageofdgpsdata"@);
                            lemma_waypoint_next_wf(evs, p, used, tag, version, WaypointS { dgps_age: Some(v), ..w });
                        },
                        PStep::Fail(_) => {},
                    }
                } else if name == "dgpsid"@ {
                    match p_uint_child(evs, p, "dgpsid"@, 0xffff) {
                        PStep::Took(v, used) => {
                            
                            lemma_waypoint_next_wf(evs, p, used, tag, version, WaypointS { dgpsid: Some(v as u16), ..w });
                        },
                        PStep::Fail(_) => {},
                    }
                } else if name == "extensions"@ {
                    match crate::parser::extensions::p_extensions(evs, p) {
                        PStep::Took(v, used) => {
                            
                            lemma_waypoint_next_wf(evs, p, used, tag, version, w);
                        },
                        PStep::Fail(_) => {},
                    }
                }
            },
            EventS::Text { .. } => {
                lemma_waypoint_body_wf(evs, p + 1, tag, version, w);
            },
            _ => {},
        }
    }
}

proof fn lemma_waypoint_next_wf(
    evs: Seq<EventS>,
    p: int,
    used: nat,
    tag: Seq<char>,
    version: GpxVersion,
    w: WaypointS,
)
    requires
        waypoint_wf(w),
    ensures
        p_waypoint_next(evs, p, used, tag, version, w) matches PStep::Took(w2, _) ==> waypoint_wf(
            w2,
        ),
    decreases evs.len() - p, 0int,
{
    reveal_with_fuel(p_waypoint_body, 1);
    if used >= 1 && p + used <= evs.len() {
        lemma_waypoint_body_wf(evs, p + used, tag, version, w);
    }
}

/// A parsed waypoint is well-formed.
pub proof fn lemma_waypoint_wf(evs: Seq<EventS>, p: int, tag: Seq<char>, version: GpxVersion)
    ensures
        p_waypoint(evs, p, tag, version) matches PStep::Took(w, _) ==> waypoint_wf(w),
{
    reveal_with_fuel(p_waypoint, 1);
    match p_verify_starting_tag(evs, p, tag) {
        PStep::Took(attrs, u0) => {
            lemma_waypoint_attrs_wf(attrs);
            match p_waypoint_attrs(attrs) {
                Ok(point) => {
                    lemma_waypoint_body_wf(evs, p + u0, tag, version, waypoint_at(point));
                },
                Err(_) => {},
            }
        },
        PStep::Fail(_) => {},
    }
}

/// The track-segment loop keeps its accumulator well-formed.
proof fn lemma_tracksegment_body_wf(
    evs: Seq<EventS>,
    p: int,
    version: GpxVersion,
    seg: TrackSegmentS,
)
    requires
        segment_wf(seg),
    ensures
        p_tracksegment_body(evs, p, version, seg) matches PStep::Took(s2, _) ==> segment_wf(s2),
    decreases evs.len() - p, 1int,
{
    reveal_with_fuel(p_tracksegment_body, 2);
    if 0 <= p < evs.len() {
        match evs[p] {
            EventS::Open { name, .. } => {
                if name == "trkpt"@ {
                    lemma_waypoint_wf(evs, p, "trkpt"@, version);
                    match p_waypoint(evs, p, "trkpt"@, version) {
                        PStep::Took(w, used) => {
                            let seg2 = TrackSegmentS { points: seg.points.push(w) };
                            assert(segment_wf(seg2)) by {
                                assert(forall|k: int|
                                    0 <= k < seg.points.len() ==> seg2.points[k]
                                        == seg.points[k]);
                                assert(seg2.points[seg.points.len() as int] == w);
                            }
                            lemma_tracksegment_next_wf(evs, p, used, version, seg2);
                        },
                        PStep::Fail(_) => {},
                    }
                }
            },
            EventS::Text { .. } => {
                lemma_tracksegment_body_wf(evs, p + 1, version, seg);
            },
            _ => {},
        }
    }
}

proof fn lemma_tracksegment_next_wf(
    evs: Seq<EventS>,
    p: int,
    used: nat,
    version: GpxVersion,
    seg: TrackSegmentS,
)
    requires
        segment_wf(seg),
    ensures
        p_tracksegment_next(evs, p, used, version, seg) matches PStep::Took(s2, _)
            ==> segment_wf(s2),
    decreases evs.len() - p, 0int,
{
    reveal_with_fuel(p_tracksegment_body, 1);
    if used >= 1 && p + used <= evs.len() {
        lemma_tracksegment_body_wf(evs, p + used, version, seg);
    }
}

/// A parsed track segment is well-formed.
pub proof fn lemma_tracksegment_wf(evs: Seq<EventS>, p: int, version: GpxVersion)
    ensures
        p_tracksegment(evs, p, version) matches PStep::Took(s2, _) ==> segment_wf(s2),
{
    reveal_with_fuel(p_tracksegment, 1);
    match p_verify_starting_tag(evs, p, "trkseg"@) {
        PStep::Took(_, u0) => {
            assert(segment_wf(segment_empty()));
            lemma_tracksegment_body_wf(
                evs,
                p + u0,
                version,
                TrackSegmentS { points: Seq::<WaypointS>::empty() },
            );
        },
        PStep::Fail(_) => {},
    }
}

/// The track loop keeps its accumulator well-formed.
proof fn lemma_track_body_wf(evs: Seq<EventS>, p: int, version: GpxVersion, acc: TrackS)
    requires
        track_wf(acc),
    ensures
        p_track_body(evs, p, version, acc) matches PStep::Took(t2, _) ==> track_wf(t2),
    decreases evs.len() - p, 1int,
{
    reveal_with_fuel(p_track_body, 2);
    if 0 <= p < evs.len() {
        match evs[p] {
            EventS::Open { name, .. } => {
                if name == "name"@ {
                    match p_string(evs, p, "name"@, true) {
                        PStep::Took(v, used) => {
                            lemma_track_next_wf(evs, p, used, version, TrackS { name: Some(v), ..acc });
                        },
                        PStep::Fail(_) => {},
                    }
                } else if name == "cmt"@ {
                    match p_string(evs, p, "cmt"@, true) {
                        PStep::Took(v, used) => {
                            lemma_track_next_wf(evs, p, used, version, TrackS { comment: Some(v), ..acc });
                        },
                        PStep::Fail(_) => {},
                    }
                } else if name == "desc"@ {
                    match p_string(evs, p, "desc"@, true) {
                        PStep::Took(v, used) => {
                            lemma_track_next_wf(evs, p, used, version, TrackS { description: Some(v), ..acc });
                        },
                        PStep::Fail(_) => {},
                    }
                } else if name == "src"@ {
                    match p_string(evs, p, "src"@, true) {
                        PStep::Took(v, used) => {
                            lemma_track_next_wf(evs, p, used, version, TrackS { source: Some(v), ..acc });
                        },
                        PStep::Fail(_) => {},
                    }
                } else if name == "type"@ {
                    match p_string(evs, p, "type"@, false) {
                        PStep::Took(v, used) => {
                            lemma_track_next_wf(evs, p, used, version, TrackS { _type: Some(v), ..acc });
                        },
                        PStep::Fail(_) => {},
                    }
                } else if name == "trkseg"@ {
                    lemma_tracksegment_wf(evs, p, version);
                    match p_tracksegment(evs, p, version) {
                        PStep::Took(v, used) => {
                            let acc2 = TrackS { segments: acc.segments.push(v), ..acc };
                            assert(track_wf(acc2)) by {
                                assert(forall|k: int|
                                    0 <= k < acc.segments.len() ==> acc2.segments[k]
                                        == acc.segments[k]);
                                assert(acc2.segments[acc.segments.len() as int] == v);
                            }
                            lemma_track_next_wf(evs, p, used, version, acc2);
                        },
                        PStep::Fail(_) => {},
                    }
                } else if name == "link"@ {
                    match p_link(evs, p) {
                        PStep::Took(v, used) => {
                            let acc2 = TrackS { links: acc.links.push(v), ..acc };
                            lemma_track_next_wf(evs, p, used, version, acc2);
                        },
                        PStep::Fail(_) => {},
                    }
                } else if name == "number"@ {
                    match p_uint_child(evs, p, "number"@, 0xffff_ffff) {
                        PStep::Took(v, used) => {
                            lemma_track_next_wf(evs, p, used, version, TrackS { number: Some(v as u32), ..acc });
                        },
                        PStep::Fail(_) => {},
                    }
                } else if name == "extensions"@ {
                    match crate::parser::extensions::p_extensions(evs, p) {
                        PStep::Took(_, used) => {
                            lemma_track_next_wf(evs, p, used, version, acc);
                        },
                        PStep::Fail(_) => {},
                    }
                }
            },
            EventS::Text { .. } => {
                lemma_track_body_wf(evs, p + 1, version, acc);
            },
            _ => {},
        }
    }
}

proof fn lemma_track_next_wf(evs: Seq<EventS>, p: int, used: nat, version: GpxVersion, acc: TrackS)
    requires
        track_wf(acc),
    ensures
        p_track_next(evs, p, used, version, acc) matches PStep::Took(t2, _) ==> track_wf(t2),
    decreases evs.len() - p, 0int,
{
    reveal_with_fuel(p_track_body, 1);
    if used >= 1 && p + used <= evs.len() {
        lemma_track_body_wf(evs, p + used, version, acc);
    }
}

/// A parsed track is well-formed.
pub proof fn lemma_track_wf(evs: Seq<EventS>, p: int, version: GpxVersion)
    ensures
        p_track(evs, p, version) matches PStep::Took(t2, _) ==> track_wf(t2),
{
    reveal_with_fuel(p_track, 1);
    match p_verify_starting_tag(evs, p, "trk"@) {
        PStep::Took(_, u0) => {
            assert(track_wf(track_empty()));
            lemma_track_body_wf(
                evs,
                p + u0,
                version,
                TrackS {
                    name: None,
                    comment: None,
                    description: None,
                    source: None,
                    links: Seq::empty(),
                    _type: None,
                    number: None,
                    segments: Seq::empty(),
                },
            );
        },
        PStep::Fail(_) => {},
    }
}

/// The route loop keeps its accumulator well-formed.
proof fn lemma_route_body_wf(evs: Seq<EventS>, p: int, version: GpxVersion, acc: RouteS)
    requires
        route_wf(acc),
    ensures
        p_route_body(evs, p, version, acc) matches PStep::Took(t2, _) ==> route_wf(t2),
    decreases evs.len() - p, 1int,
{
    reveal_with_fuel(p_route_body, 2);
    if 0 <= p < evs.len() {
        match evs[p] {
            EventS::Open { name, .. } => {
                if name == "name"@ {
                    match p_string(evs, p, "name"@, false) {
                        PStep::Took(v, used) => {
                            lemma_route_next_wf(evs, p, used, version, RouteS { name: Some(v), ..acc });
                        },
                        PStep::Fail(_) => {},
                    }
                } else if name == "cmt"@ {
                    match p_string(evs, p, "cmt"@, true) {
                        PStep::Took(v, used) => {
                            lemma_route_next_wf(evs, p, used, version, RouteS { comment: Some(v), ..acc });
                        },
                        PStep::Fail(_) => {},
                    }
                } else if name == "desc"@ {
                    match p_string(evs, p, "desc"@, true) {
                        PStep::Took(v, used) => {
                            lemma_route_next_wf(evs, p, used, version, RouteS { description: Some(v), ..acc });
                        },
                        PStep::Fail(_) => {},
                    }
                } else if name == "src"@ {
                    match p_string(evs, p, "src"@, true) {
                        PStep::Took(v, used) => {
                            lemma_route_next_wf(evs, p, used, version, RouteS { source: Some(v), ..acc });
                        },
                        PStep::Fail(_) => {},
                    }
                } else if name == "number"@ {
                    match p_uint_child(evs, p, "number"@, 0xffff_ffff) {
                        PStep::Took(v, used) => {
                            lemma_route_next_wf(evs, p, used, version, RouteS { number: Some(v as u32), ..acc });
                        },
                        PStep::Fail(_) => {},
                    }
                } else if name == "type"@ {
                    match p_string(evs, p, "type"@, false) {
                        PStep::Took(v, used) => {
                            lemma_route_next_wf(evs, p, used, version, RouteS { _type: Some(v), ..acc });
                        },
                        PStep::Fail(_) => {},
                    }
                } else if name == "rtept"@ {
                    lemma_waypoint_wf(evs, p, "rtept"@, version);
                    match p_waypoint(evs, p, "rtept"@, version) {
                        PStep::Took(v, used) => {
                            let acc2 = RouteS { points: acc.points.push(v), ..acc };
                            assert(route_wf(acc2)) by {
                                assert(forall|k: int|
                                    0 <= k < acc.points.len() ==> acc2.points[k]
                                        == acc.points[k]);
                                assert(acc2.points[acc.points.len() as int] == v);
                            }
                            lemma_route_next_wf(evs, p, used, version, acc2);
                        },
                        PStep::Fail(_) => {},
                    }
                } else if name == "link"@ {
                    match p_link(evs, p) {
                        PStep::Took(v, used) => {
                            let acc2 = RouteS { links: acc.links.push(v), ..acc };
                            lemma_route_next_wf(evs, p, used, version, acc2);
                        },
                        PStep::Fail(_) => {},
                    }
                } else if name == "extensions"@ {
                    match crate::parser::extensions::p_extensions(evs, p) {
                        PStep::Took(_, used) => {
                            lemma_route_next_wf(evs, p, used, version, acc);
                        },
                        PStep::Fail(_) => {},
                    }
                }
            },
            EventS::Text { .. } => {
                lemma_route_body_wf(evs, p + 1, version, acc);
            },
            _ => {},
        }
    }
}

proof fn lemma_route_next_wf(evs: Seq<EventS>, p: int, used: nat, version: GpxVersion, acc: RouteS)
    requires
        route_wf(acc),
    ensures
        p_route_next(evs, p, used, version, acc) matches PStep::Took(t2, _) ==> route_wf(t2),
    decreases evs.len() - p, 0int,
{
    reveal_with_fuel(p_route_body, 1);
    if used >= 1 && p + used <= evs.len() {
        lemma_route_body_wf(evs, p + used, version, acc);
    }
}

/// A parsed route is well-formed.
pub proof fn lemma_route_wf(evs: Seq<EventS>, p: int, version: GpxVersion)
    ensures
        p_route(evs, p, version) matches PStep::Took(t2, _) ==> route_wf(t2),
{
    reveal_with_fuel(p_route, 1);
    match p_verify_starting_tag(evs, p, "rte"@) {
        PStep::Took(_, u0) => {
            assert(route_wf(route_empty()));
            lemma_route_body_wf(
                evs,
                p + u0,
                version,
                RouteS {
                    name: None,
                    comment: None,
                    description: None,
                    source: None,
                    links: Seq::empty(),
                    number: None,
                    _type: None,
                    points: Seq::empty(),
                },
            );
        },
        PStep::Fail(_) => {},
    }
}

/// The metadata loop keeps its accumulator well-formed.
proof fn lemma_metadata_body_wf(evs: Seq<EventS>, p: int, acc: MetadataS)
    requires
        metadata_wf(acc),
    ensures
        p_metadata_body(evs, p, acc) matches PStep::Took(m2, _) ==> metadata_wf(m2),
    decreases evs.len() - p, 1int,
{
    reveal_with_fuel(p_metadata_body, 2);
    if 0 <= p < evs.len() {
        match evs[p] {
            EventS::Open { name, .. } => {
                if name == "name"@ {
                    match p_string(evs, p, "name"@, false) {
                        PStep::Took(v, used) => {
                            lemma_metadata_next_wf(evs, p, used, MetadataS { name: Some(v), ..acc });
                        },
                        PStep::Fail(_) => {},
                    }
                } else if name == "desc"@ {
                    match p_string(evs, p, "desc"@, true) {
                        PStep::Took(v, used) => {
                            lemma_metadata_next_wf(evs, p, used, MetadataS { description: Some(v), ..acc });
                        },
                        PStep::Fail(_) => {},
                    }
                } else if name == "author"@ {
                    match p_person(evs, p, "author"@) {
                        PStep::Took(v, used) => {
                            lemma_metadata_next_wf(evs, p, used, MetadataS { author: Some(v), ..acc });
                        },
                        PStep::Fail(_) => {},
                    }
                } else if name == "keywords"@ {
                    match p_string(evs, p, "keywords"@, true) {
                        PStep::Took(v, used) => {
                            lemma_metadata_next_wf(evs, p, used, MetadataS { keywords: Some(v), ..acc });
                        },
                        PStep::Fail(_) => {},
                    }
                } else if name == "time"@ {
                    lemma_time_child_wf(evs, p);
                    match p_time(evs, p) {
                        PStep::Took(v, used) => {
                            lemma_metadata_next_wf(evs, p, used, MetadataS { time: Some(v), ..acc });
                        },
                        PStep::Fail(_) => {},
                    }
                } else if name == "link"@ {
                    match p_link(evs, p) {
                        PStep::Took(v, used) => {
                            lemma_metadata_next_wf(evs, p, used, MetadataS { links: acc.links.push(v), ..acc });
                        },
                        PStep::Fail(_) => {},
                    }
                } else if name == "bounds"@ {
                    lemma_bounds_wf(evs, p);
                    match p_bounds(evs, p) {
                        PStep::Took(v, used) => {
                            lemma_metadata_next_wf(evs, p, used, MetadataS { bounds: Some(v), ..acc });
                        },
                        PStep::Fail(_) => {},
                    }
                } else if name == "copyright"@ {
                    match crate::parser::copyright::p_copyright(evs, p) {
                        PStep::Took(v, used) => {
                            lemma_metadata_next_wf(evs, p, used, MetadataS { copyright: Some(v), ..acc });
                        },
                        PStep::Fail(_) => {},
                    }
                } else if name == "extensions"@ {
                    match crate::parser::extensions::p_extensions(evs, p) {
                        PStep::Took(_, used) => {
                            lemma_metadata_next_wf(evs, p, used, acc);
                        },
                        PStep::Fail(_) => {},
                    }
                }
            },
            EventS::Text { .. } => {
                lemma_metadata_body_wf(evs, p + 1, acc);
            },
            _ => {},
        }
    }
}

proof fn lemma_metadata_next_wf(evs: Seq<EventS>, p: int, used: nat, acc: MetadataS)
    requires
        metadata_wf(acc),
    ensures
        p_metadata_next(evs, p, used, acc) matches PStep::Took(m2, _) ==> metadata_wf(m2),
    decreases evs.len() - p, 0int,
{
    reveal_with_fuel(p_metadata_body, 1);
    if used >= 1 && p + used <= evs.len() {
        lemma_metadata_body_wf(evs, p + used, acc);
    }
}

/// A parsed metadata element is well-formed.
pub proof fn lemma_metadata_wf(evs: Seq<EventS>, p: int)
    ensures
        p_metadata(evs, p) matches PStep::Took(m2, _) ==> metadata_wf(m2),
{
    reveal_with_fuel(p_metadata, 1);
    match p_verify_starting_tag(evs, p, "metadata"@) {
        PStep::Took(_, u0) => {
            assert(metadata_wf(metadata_empty()));
            lemma_metadata_body_wf(
                evs,
                p + u0,
                MetadataS {
                    name: None,
                    description: None,
                    author: None,
                    links: Seq::empty(),
                    time: None,
                    keywords: None,
                    copyright: None,
                    bounds: None,
                },
            );
        },
        PStep::Fail(_) => {},
    }
}

/// The flattened GPX 1.0 fields gathered so far hold only well-formed
/// values.
pub open spec fn scratch_wf(sc: GpxScratchS) -> bool {
    &&& (sc.time matches Some(t) ==> time_wf(t))
    &&& (sc.bounds matches Some(b) ==> rect_wf(b))
}

/// Reconciling well-formed scratch fields into a document keeps it
/// well-formed.
proof fn lemma_synth_wf(g: GpxS, sc: GpxScratchS)
    requires
        gpx_wf(g),
        scratch_wf(sc),
    ensures
        gpx_wf(synth_gpx10(g, sc)),
{
}

/// The root loop keeps its accumulators well-formed.
proof fn lemma_gpx_body_wf(
    evs: Seq<EventS>,
    p: int,
    version: GpxVersion,
    g: GpxS,
    sc: GpxScratchS,
)
    requires
        gpx_wf(g),
        scratch_wf(sc),
    ensures
        p_gpx_body(evs, p, version, g, sc) matches PStep::Took(g2, _) ==> gpx_wf(g2),
    decreases evs.len() - p, 1int,
{
    reveal_with_fuel(p_gpx_body, 2);
    if 0 <= p < evs.len() {
        match evs[p] {
            EventS::Open { name, .. } => {
                if name == "metadata"@ && version != GpxVersion::Gpx10 {
                    lemma_metadata_wf(evs, p);
                    match p_metadata(evs, p) {
                        PStep::Took(v, used) => {
                            lemma_gpx_next_wf(evs, p, used, version, GpxS { metadata: Some(v), ..g }, sc);
                        },
                        PStep::Fail(_) => {},
                    }
                } else if name == "trk"@ {
                    lemma_track_wf(evs, p, version);
                    match p_track(evs, p, version) {
                        PStep::Took(v, used) => {
                            let g2 = GpxS { tracks: g.tracks.push(v), ..g };
                            assert(gpx_wf(g2)) by {
                                assert(forall|k: int|
                                    0 <= k < g.tracks.len() ==> g2.tracks[k] == g.tracks[k]);
                                assert(g2.tracks[g.tracks.len() as int] == v);
                            }
                            lemma_gpx_next_wf(evs, p, used, version, g2, sc);
                        },
                        PStep::Fail(_) => {},
                    }
                } else if name == "rte"@ {
                    lemma_route_wf(evs, p, version);
                    match p_route(evs, p, version) {
                        PStep::Took(v, used) => {
                            let g2 = GpxS { routes: g.routes.push(v), ..g };
                            assert(gpx_wf(g2)) by {
                                assert(forall|k: int|
                                    0 <= k < g.routes.len() ==> g2.routes[k] == g.routes[k]);
                                assert(g2.routes[g.routes.len() as int] == v);
                            }
                            lemma_gpx_next_wf(evs, p, used, version, g2, sc);
                        },
                        PStep::Fail(_) => {},
                    }
                } else if name == "wpt"@ {
                    lemma_waypoint_wf(evs, p, "wpt"@, version);
                    match p_waypoint(evs, p, "wpt"@, version) {
                        PStep::Took(v, used) => {
                            let g2 = GpxS { waypoints: g.waypoints.push(v), ..g };
                            assert(gpx_wf(g2)) by {
                                assert(forall|k: int|
                                    0 <= k < g.waypoints.len() ==> g2.waypoints[k]
                                        == g.waypoints[k]);
                                assert(g2.waypoints[g.waypoints.len() as int] == v);
                            }
                            lemma_gpx_next_wf(evs, p, used, version, g2, sc);
                        },
                        PStep::Fail(_) => {},
                    }
                } else if name == "time"@ && version == GpxVersion::Gpx10 {
                    lemma_time_child_wf(evs, p);
                    match p_time(evs, p) {
                        PStep::Took(v, used) => {
                            lemma_gpx_next_wf(evs, p, used, version, g, GpxScratchS { time: Some(v), ..sc });
                        },
                        PStep::Fail(_) => {},
                    }
                } else if name == "bounds"@ && version == GpxVersion::Gpx10 {
                    lemma_bounds_wf(evs, p);
                    match p_bounds(evs, p) {
                        PStep::Took(v, used) => {
                            lemma_gpx_next_wf(evs, p, used, version, g, GpxScratchS { bounds: Some(v), ..sc });
                        },
                        PStep::Fail(_) => {},
                    }
                } else if name == "author"@ && version == GpxVersion::Gpx10 {
                    match p_string(evs, p, "author"@, false) {
                        PStep::Took(v, used) => {
                            lemma_gpx_next_wf(evs, p, used, version, g, GpxScratchS { author: Some(v), ..sc });
                        },
                        PStep::Fail(_) => {},
                    }
                } else if name == "email"@ && version == GpxVersion::Gpx10 {
                    match p_string(evs, p, "email"@, false) {
                        PStep::Took(v, used) => {
                            lemma_gpx_next_wf(evs, p, used, version, g, GpxScratchS { email: Some(v), ..sc });
                        },
                        PStep::Fail(_) => {},
                    }
                } else if name == "url"@ && version == GpxVersion::Gpx10 {
                    match p_string(evs, p, "url"@, false) {
                        PStep::Took(v, used) => {
                            lemma_gpx_next_wf(evs, p, used, version, g, GpxScratchS { url: Some(v), ..sc });
                        },
                        PStep::Fail(_) => {},
                    }
                } else if name == "urlname"@ && version == GpxVersion::Gpx10 {
                    match p_string(evs, p, "urlname"@, false) {
                        PStep::Took(v, used) => {
                            lemma_gpx_next_wf(evs, p, used, version, g, GpxScratchS { urlname: Some(v), ..sc });
                        },
                        PStep::Fail(_) => {},
                    }
                } else if name == "name"@ && version == GpxVersion::Gpx10 {
                    match p_string(evs, p, "name"@, false) {
                        PStep::Took(v, used) => {
                            lemma_gpx_next_wf(evs, p, used, version, g, GpxScratchS { gpx_name: Some(v), ..sc });
                        },
                        PStep::Fail(_) => {},
                    }
                } else if name == "desc"@ && version == GpxVersion::Gpx10 {
                    match p_string(evs, p, "desc"@, true) {
                        PStep::Took(v, used) => {
                            lemma_gpx_next_wf(evs, p, used, version, g, GpxScratchS { description: Some(v), ..sc });
                        },
                        PStep::Fail(_) => {},
                    }
                } else if name == "keywords"@ && version == GpxVersion::Gpx10 {
                    match p_string(evs, p, "keywords"@, true) {
                        PStep::Took(v, used) => {
                            lemma_gpx_next_wf(evs, p, used, version, g, GpxScratchS { keywords: Some(v), ..sc });
                        },
                        PStep::Fail(_) => {},
                    }
                } else if name == "extensions"@ {
                    match crate::parser::extensions::p_extensions(evs, p) {
                        PStep::Took(_, used) => {
                            lemma_gpx_next_wf(evs, p, used, version, g, sc);
                        },
                        PStep::Fail(_) => {},
                    }
                }
            },
            EventS::Close { name } => {
                if name == "gpx"@ && g.version == GpxVersion::Gpx10 {
                    lemma_synth_wf(g, sc);
                }
            },
            EventS::Text { .. } => {
                lemma_gpx_body_wf(evs, p + 1, version, g, sc);
            },
            _ => {},
        }
    }
}

proof fn lemma_gpx_next_wf(
    evs: Seq<EventS>,
    p: int,
    used: nat,
    version: GpxVersion,
    g: GpxS,
    sc: GpxScratchS,
)
    requires
        gpx_wf(g),
        scratch_wf(sc),
    ensures
        p_gpx_next(evs, p, used, version, g, sc) matches PStep::Took(g2, _) ==> gpx_wf(g2),
    decreases evs.len() - p, 0int,
{
    reveal_with_fuel(p_gpx_body, 1);
    if used >= 1 && p + used <= evs.len() {
        lemma_gpx_body_wf(evs, p + used, version, g, sc);
    }
}

/// Whatever the root grammar accepts is a well-formed document, so a
/// parsed document always meets the writer's precondition.
pub proof fn lemma_parse_wf(evs: Seq<EventS>, p: int)
    ensures
        p_gpx(evs, p) matches PStep::Took(g, _) ==> gpx_wf(g),
{
    reveal_with_fuel(p_gpx, 1);
    match p_verify_starting_tag(evs, p, "gpx"@) {
        PStep::Took(attrs, u0) => {
            match find_attr(attrs, "version"@) {
                Some(vs) => {
                    let version = crate::parser::gpx::version_of_text(vs);
                    if version != GpxVersion::Unknown {
                        let g = GpxS {
                            version,
                            creator: find_attr(attrs, "creator"@),
                            metadata: None,
                            waypoints: Seq::<WaypointS>::empty(),
                            tracks: Seq::<TrackS>::empty(),
                            routes: Seq::<RouteS>::empty(),
                        };
                        assert(gpx_wf(g));
                        assert(scratch_wf(scratch_empty()));
                        lemma_gpx_body_wf(evs, p + u0, version, g, scratch_empty());
                    }
                },
                None => {},
            }
        },
        PStep::Fail(_) => {},
    }
}

} // verus!
