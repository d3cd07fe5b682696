//! waypoint handles parsing of GPX-spec waypoints: required latitude
//! and longitude attributes with their range checks, then the point's
//! optional fields. The tag name is the caller's (`wpt`, `trkpt`,
//! `rtept`).

use vstd::prelude::*;
use vstd::string::*;

use crate::decimal::{dec_le, dec_lt, dec_parse, Decimal, DecimalS};
use crate::errors::{ErrS, GpxError, GpxResult};
use crate::events::EventS;
use crate::parser::extensions::{lemma_extensions_step, p_extensions};
use crate::parser::fix::{lemma_fix_step, p_fix};
use crate::parser::link::{lemma_link_step, p_link};
use crate::parser::string::{
    consume_dec_child, consume_uint_child, lemma_string_step, p_dec_child, p_string, p_uint_child,
};
use crate::parser::time::{lemma_time_step, p_time};
use crate::parser::{
    consume_post, find_attr, find_attribute, p_verify_starting_tag, peek_event,
    verify_starting_tag, Context, PStep, Peeked,
};
use crate::text::str_eq;
use crate::types::{waypoint_at, GpxVersion, Point, PointS, Waypoint, WaypointS};

verus! {

pub open spec fn dec_pos_ninety() -> DecimalS {
    DecimalS { negative: false, int_digits: seq![9u8, 0u8], frac_digits: Seq::<u8>::empty() }
}

pub open spec fn dec_neg_ninety() -> DecimalS {
    DecimalS { negative: true, int_digits: seq![9u8, 0u8], frac_digits: Seq::<u8>::empty() }
}

pub open spec fn dec_pos_one_eighty() -> DecimalS {
    DecimalS { negative: false, int_digits: seq![1u8, 8u8, 0u8], frac_digits: Seq::<u8>::empty() }
}

pub open spec fn dec_neg_one_eighty() -> DecimalS {
    DecimalS { negative: true, int_digits: seq![1u8, 8u8, 0u8], frac_digits: Seq::<u8>::empty() }
}

/// A latitude is within [-90, 90].
pub open spec fn lat_in_range(d: DecimalS) -> bool {
    dec_le(dec_neg_ninety(), d) && dec_le(d, dec_pos_ninety())
}

/// A longitude is within [-180, 180): the upper bound is excluded.
pub open spec fn lon_in_range(d: DecimalS) -> bool {
    dec_le(dec_neg_one_eighty(), d) && dec_lt(d, dec_pos_one_eighty())
}

fn ninety(negative: bool) -> (r: Decimal)
    ensures
        negative ==> r.deep_view() == dec_neg_ninety(),
        !negative ==> r.deep_view() == dec_pos_ninety(),
{
    let r = Decimal { negative, int_digits: vec![9u8, 0u8], frac_digits: Vec::new() };
    proof {
        assert(r.int_digits@ =~= seq![9u8, 0u8]);
        assert(r.frac_digits@ =~= Seq::<u8>::empty());
    }
    r
}

fn one_eighty(negative: bool) -> (r: Decimal)
    ensures
        negative ==> r.deep_view() == dec_neg_one_eighty(),
        !negative ==> r.deep_view() == dec_pos_one_eighty(),
{
    let r = Decimal { negative, int_digits: vec![1u8, 8u8, 0u8], frac_digits: Vec::new() };
    proof {
        assert(r.int_digits@ =~= seq![1u8, 8u8, 0u8]);
        assert(r.frac_digits@ =~= Seq::<u8>::empty());
    }
    r
}

/// Reading the two required coordinate attributes, with the range
/// checks on both; a failing check names the field, its range, and the
/// value as written.
pub open spec fn p_waypoint_attrs(attrs: Seq<crate::events::AttrS>) -> Result<PointS, ErrS> {
    match find_attr(attrs, "lat"@) {
        None => Err(ErrS::InvalidElementLacksAttribute("latitude"@, "waypoint"@)),
        Some(lat_text) => {
            match dec_parse(lat_text) {
                None => Err(ErrS::ParseFloatError),
                Some(lat) => {
                    if !lat_in_range(lat) {
                        Err(
                            ErrS::LonLatOutOfBoundsError(
                                "latitude"@,
                                "[-90.0, 90.0]"@,
                                lat_text,
                            ),
                        )
                    } else {
                        match find_attr(attrs, "lon"@) {
                            None => Err(
                                ErrS::InvalidElementLacksAttribute("longitude"@, "waypoint"@),
                            ),
                            Some(lon_text) => {
                                match dec_parse(lon_text) {
                                    None => Err(ErrS::ParseFloatError),
                                    Some(lon) => {
                                        if !lon_in_range(lon) {
                                            Err(
                                                ErrS::LonLatOutOfBoundsError(
                                                    "Longitude"@,
                                                    "[-180.0, 180.0"@,
                                                    lon_text,
                                                ),
                                            )
                                        } else {
                                            Ok(PointS { x: lon, y: lat })
                                        }
                                    },
                                }
                            },
                        }
                    }
                },
            }
        },
    }
}

/// The children of a waypoint: every optional field of the point, each
/// read by its own grammar; `speed` is admitted under GPX 1.0 only.
#[verifier::opaque]
pub open spec fn p_waypoint_body(
    evs: Seq<EventS>,
    p: int,
    tag: Seq<char>,
    version: GpxVersion,
    w: WaypointS,
) -> PStep<WaypointS>
    decreases evs.len() - p, 1int,
{
    if p < 0 || p >= evs.len() {
        PStep::Fail(ErrS::MissingClosingTag("waypoint"@))
    } else {
        match evs[p] {
            EventS::Open { name, .. } => {
                if name == "ele"@ {
                    // an empty element leaves the field unset
                    match p_string(evs, p, "ele"@, true) {
                        PStep::Took(v, used) => {
                            if v.len() == 0 {
                                p_waypoint_next(evs, p, used, tag, version, w)
                            } else {
                                match dec_parse(v) {
                                    Some(d) => p_waypoint_next(
                                        evs,
                                        p,
                                        used,
                                        tag,
                                        version,
                                        WaypointS { elevation: Some(d), ..w },
                                    ),
                                    None => PStep::Fail(ErrS::ParseFloatError),
                                }
                            }
                        },
                        PStep::Fail(e) => PStep::Fail(e),
                    }
                } else if name == "speed"@ && version == GpxVersion::Gpx10 {
                    match p_dec_child(evs, p, "speed"@) {
                        PStep::Took(d, used) => p_waypoint_next(
                            evs,
                            p,
                            used,
                            tag,
                            version,
                            WaypointS { speed: Some(d), ..w },
                        ),
                        PStep::Fail(e) => PStep::Fail(e),
                    }
                } else if name == "time"@ {
                    match p_time(evs, p) {
                        PStep::Took(t, used) => p_waypoint_next(
                            evs,
                            p,
                            used,
                            tag,
                            version,
                            WaypointS { time: Some(t), ..w },
                        ),
                        PStep::Fail(e) => PStep::Fail(e),
                    }
                } else if name == "name"@ {
                    match p_string(evs, p, "name"@, true) {
                        PStep::Took(v, used) => p_waypoint_next(
                            evs,
                            p,
                            used,
                            tag,
                            version,
                            WaypointS { name: Some(v), ..w },
                        ),
                        PStep::Fail(e) => PStep::Fail(e),
                    }
                } else if name == "cmt"@ {
                    match p_string(evs, p, "cmt"@, true) {
                        PStep::Took(v, used) => p_waypoint_next(
                            evs,
                            p,
                            used,
                            tag,
                            version,
                            WaypointS { comment: Some(v), ..w },
                        ),
                        PStep::Fail(e) => PStep::Fail(e),
                    }
                } else if name == "desc"@ {
                    match p_string(evs, p, "desc"@, true) {
                        PStep::Took(v, used) => p_waypoint_next(
                            evs,
                            p,
                            used,
                            tag,
                            version,
                            WaypointS { description: Some(v), ..w },
                        ),
                        PStep::Fail(e) => PStep::Fail(e),
                    }
                } else if name == "src"@ {
                    match p_string(evs, p, "src"@, true) {
                        PStep::Took(v, used) => p_waypoint_next(
                            evs,
                            p,
                            used,
                            tag,
                            version,
                            WaypointS { source: Some(v), ..w },
                        ),
                        PStep::Fail(e) => PStep::Fail(e),
                    }
                } else if name == "link"@ {
                    match p_link(evs, p) {
                        PStep::Took(l, used) => p_waypoint_next(
                            evs,
                            p,
                            used,
                            tag,
                            version,
                            WaypointS { links: w.links.push(l), ..w },
                        ),
                        PStep::Fail(e) => PStep::Fail(e),
                    }
                } else if name == "sym"@ {
                    match p_string(evs, p, "sym"@, false) {
                        PStep::Took(v, used) => p_waypoint_next(
                            evs,
                            p,
                            used,
                            tag,
                            version,
                            WaypointS { symbol: Some(v), ..w },
                        ),
                        PStep::Fail(e) => PStep::Fail(e),
                    }
                } else if name == "type"@ {
                    match p_string(evs, p, "type"@, false) {
                        PStep::Took(v, used) => p_waypoint_next(
                            evs,
                            p,
                            used,
                            tag,
                            version,
                            WaypointS { _type: Some(v), ..w },
                        ),
                        PStep::Fail(e) => PStep::Fail(e),
                    }
                } else if name == "fix"@ {
                    match p_fix(evs, p) {
                        PStep::Took(f, used) => p_waypoint_next(
                            evs,
                            p,
                            used,
                            tag,
                            version,
                            WaypointS { fix: Some(f), ..w },
                        ),
                        PStep::Fail(e) => PStep::Fail(e),
                    }
                } else if name == "geoidheight"@ {
                    match p_dec_child(evs, p, "geoidheight"@) {
                        PStep::Took(d, used) => p_waypoint_next(
                            evs,
                            p,
                            used,
                            tag,
                            version,
                            WaypointS { geoidheight: Some(d), ..w },
                        ),
                        PStep::Fail(e) => PStep::Fail(e),
                    }
                } else if name == "sat"@ {
                    match p_uint_child(evs, p, "sat"@, 0xffff_ffff_ffff_ffff) {
                        PStep::Took(n, used) => p_waypoint_next(
                            evs,
                            p,
                            used,
                            tag,
                            version,
                            WaypointS { sat: Some(n), ..w },
                        ),
                        PStep::Fail(e) => PStep::Fail(e),
                    }
                } else if name == "hdop"@ {
                    match p_dec_child(evs, p, "hdop"@) {
                        PStep::Took(d, used) => p_waypoint_next(
                            evs,
                            p,
                            used,
                            tag,
                            version,
                            WaypointS { hdop: Some(d), ..w },
                        ),
                        PStep::Fail(e) => PStep::Fail(e),
                    }
                } else if name == "vdop"@ {
                    match p_dec_child(evs, p, "vdop"@) {
                        PStep::Took(d, used) => p_waypoint_next(
                            evs,
                            p,
                            used,
                            tag,
                            version,
                            WaypointS { vdop: Some(d), ..w },
                        ),
                        PStep::Fail(e) => PStep::Fail(e),
                    }
                } else if name == "pdop"@ {
                    match p_dec_child(evs, p, "pdop"@) {
                        PStep::Took(d, used) => p_waypoint_next(
                            evs,
                            p,
                            used,
                            tag,
                            version,
                            WaypointS { pdop: Some(d), ..w },
                        ),
                        PStep::Fail(e) => PStep::Fail(e),
                    }
                } else if name == "ageofdgpsdata"@ {
                    match p_dec_child(evs, p, "ageofdgpsdata"@) {
                        PStep::Took(d, used) => p_waypoint_next(
                            evs,
                            p,
                            used,
                            tag,
                            version,
                            WaypointS { dgps_age: Some(d), ..w },
                        ),
                        PStep::Fail(e) => PStep::Fail(e),
                    }
                } else if name == "dgpsid"@ {
                    match p_uint_child(evs, p, "dgpsid"@, 0xffff) {
                        PStep::Took(n, used) => p_waypoint_next(
                            evs,
                            p,
                            used,
                            tag,
                            version,
                            WaypointS { dgpsid: Some(n as u16), ..w },
                        ),
                        PStep::Fail(e) => PStep::Fail(e),
                    }
                } else if name == "extensions"@ {
                    match p_extensions(evs, p) {
                        PStep::Took(_, used) => p_waypoint_next(evs, p, used, tag, version, w),
                        PStep::Fail(e) => PStep::Fail(e),
                    }
                } else {
                    PStep::Fail(ErrS::InvalidChildElement(name, "waypoint"@))
                }
            },
            EventS::Close { name } => {
                if name != tag {
                    PStep::Fail(ErrS::InvalidClosingTag(name, "waypoint"@))
                } else {
                    PStep::Took(w, 1)
                }
            },
            EventS::Text { .. } => {
                match p_waypoint_body(evs, p + 1, tag, version, w) {
                    PStep::Took(l, u2) => PStep::Took(l, (u2 + 1) as nat),
                    PStep::Fail(e) => PStep::Fail(e),
                }
            },
            EventS::Failure => PStep::Fail(ErrS::EventParsingError("waypoint event"@)),
        }
    }
}

/// Folds one consumed child into the loop: the remaining body, with the
/// child's events accounted for. Every child of the grammar consumes at
/// least one event, so a zero count never arises.
pub open spec fn p_waypoint_next(
    evs: Seq<EventS>,
    p: int,
    used: nat,
    tag: Seq<char>,
    version: GpxVersion,
    w: WaypointS,
) -> PStep<WaypointS>
    decreases evs.len() - p, 0int,
{
    if used < 1 || p + used > evs.len() {
        PStep::Fail(ErrS::XmlParseError)
    } else {
        match p_waypoint_body(evs, p + used, tag, version, w) {
            PStep::Took(l, u2) => PStep::Took(l, (used + u2) as nat),
            PStep::Fail(e) => PStep::Fail(e),
        }
    }
}


/// Which arm of the waypoint dispatch a child tag selects, in the order
/// the grammar checks them.
pub open spec fn wp_branch(name: Seq<char>, version: GpxVersion) -> int {
    if name == "ele"@ {
        0
    } else if name == "speed"@ && version == GpxVersion::Gpx10 {
        1
    } else if name == "time"@ {
        2
    } else if name == "name"@ {
        3
    } else if name == "cmt"@ {
        4
    } else if name == "desc"@ {
        5
    } else if name == "src"@ {
        6
    } else if name == "link"@ {
        7
    } else if name == "sym"@ {
        8
    } else if name == "type"@ {
        9
    } else if name == "fix"@ {
        10
    } else if name == "geoidheight"@ {
        11
    } else if name == "sat"@ {
        12
    } else if name == "hdop"@ {
        13
    } else if name == "vdop"@ {
        14
    } else if name == "pdop"@ {
        15
    } else if name == "ageofdgpsdata"@ {
        16
    } else if name == "dgpsid"@ {
        17
    } else if name == "extensions"@ {
        18
    } else {
        19
    }
}

/// The cursor stands on an element-open whose tag selects arm `k`.
pub open spec fn wp_at_branch(ctx: Context, k: int) -> bool {
    &&& ctx.pos < ctx.events.len()
    &&& (ctx.events.deep_view()[ctx.pos as int] matches EventS::Open { name, .. } && wp_branch(
        name,
        ctx.version,
    ) == k)
}

/// One waypoint element under the given tag name.
#[verifier::opaque]
pub open spec fn p_waypoint(evs: Seq<EventS>, p: int, tag: Seq<char>, version: GpxVersion) -> PStep<
    WaypointS,
> {
    match p_verify_starting_tag(evs, p, tag) {
        PStep::Took(attrs, used0) => {
            match p_waypoint_attrs(attrs) {
                Err(e) => PStep::Fail(e),
                Ok(point) => {
                    match p_waypoint_body(evs, p + used0, tag, version, waypoint_at(point)) {
                        PStep::Took(l, used) => PStep::Took(l, (used0 + used) as nat),
                        PStep::Fail(e) => PStep::Fail(e),
                    }
                },
            }
        },
        PStep::Fail(e) => PStep::Fail(e),
    }
}

/// consume consumes a GPX waypoint from the event stream until it ends.
pub fn consume(context: &mut Context, tagname: &'static str) -> (r: GpxResult<Waypoint>)
    requires
        old(context).pos <= old(context).events.len(),
    ensures
        consume_post::<Waypoint>(
            p_waypoint(
                old(context).events.deep_view(),
                old(context).pos as int,
                tagname@,
                old(context).version,
            ),
            *old(context),
            *final(context),
            r,
        ),
        r matches Ok(_) ==> final(context).pos > old(context).pos,
{
    proof {
        reveal_with_fuel(p_waypoint, 1);
    }
    let attributes = match verify_starting_tag(context, tagname) {
        Ok(a) => a,
        Err(e) => {
            return Err(e);
        },
    };
    // required latitude, within its range
    let lat_text = match find_attribute(&attributes, "lat") {
        Some(v) => v,
        None => {
            return Err(GpxError::InvalidElementLacksAttribute("latitude", "waypoint"));
        },
    };
    let latitude = match Decimal::parse(lat_text.as_str()) {
        Some(d) => d,
        None => {
            return Err(GpxError::ParseFloatError);
        },
    };
    if !(ninety(true).le(&latitude) && latitude.le(&ninety(false))) {
        return Err(GpxError::LonLatOutOfBoundsError("latitude", "[-90.0, 90.0]", lat_text));
    }
    // required longitude, within its half-open range
    let lon_text = match find_attribute(&attributes, "lon") {
        Some(v) => v,
        None => {
            return Err(GpxError::InvalidElementLacksAttribute("longitude", "waypoint"));
        },
    };
    let longitude = match Decimal::parse(lon_text.as_str()) {
        Some(d) => d,
        None => {
            return Err(GpxError::ParseFloatError);
        },
    };
    if !(one_eighty(true).le(&longitude) && longitude.lt(&one_eighty(false))) {
        return Err(GpxError::LonLatOutOfBoundsError("Longitude", "[-180.0, 180.0", lon_text));
    }
    let waypoint = Waypoint::new(Point::new(longitude, latitude));
    consume_body(context, tagname, waypoint)
}

#[verifier::rlimit(60)]
fn consume_body(context: &mut Context, tagname: &'static str, waypoint: Waypoint) -> (r: GpxResult<
    Waypoint,
>)
    requires
        old(context).pos <= old(context).events.len(),
    ensures
        consume_post::<Waypoint>(
            p_waypoint_body(
                old(context).events.deep_view(),
                old(context).pos as int,
                tagname@,
                old(context).version,
                waypoint.deep_view(),
            ),
            *old(context),
            *final(context),
            r,
        ),
        r matches Ok(_) ==> final(context).pos > old(context).pos,
    decreases context.events.len() - context.pos, 1int,
{
    proof {
        reveal_with_fuel(p_waypoint_body, 2);
    }
    let ghost evs = context.events.deep_view();
    let ghost p0 = context.pos as int;
    let pk = match peek_event(context) {
        Some(pk) => pk,
        None => {
            return Err(GpxError::MissingClosingTag("waypoint"));
        },
    };
    match pk {
        Peeked::Open(name) => {
            if str_eq(name.as_str(), "ele") {
                wp_ele(context, tagname, waypoint)
            } else if str_eq(name.as_str(), "speed") && context.version == GpxVersion::Gpx10 {
                wp_speed(context, tagname, waypoint)
            } else if str_eq(name.as_str(), "time") {
                wp_time(context, tagname, waypoint)
            } else if str_eq(name.as_str(), "name") {
                wp_name(context, tagname, waypoint)
            } else if str_eq(name.as_str(), "cmt") {
                wp_cmt(context, tagname, waypoint)
            } else if str_eq(name.as_str(), "desc") {
                wp_desc(context, tagname, waypoint)
            } else if str_eq(name.as_str(), "src") {
                wp_src(context, tagname, waypoint)
            } else if str_eq(name.as_str(), "link") {
                wp_link(context, tagname, waypoint)
            } else if str_eq(name.as_str(), "sym") {
                wp_sym(context, tagname, waypoint)
            } else if str_eq(name.as_str(), "type") {
                wp_type(context, tagname, waypoint)
            } else if str_eq(name.as_str(), "fix") {
                wp_fix(context, tagname, waypoint)
            } else if str_eq(name.as_str(), "geoidheight") {
                wp_geoidheight(context, tagname, waypoint)
            } else if str_eq(name.as_str(), "sat") {
                wp_sat(context, tagname, waypoint)
            } else if str_eq(name.as_str(), "hdop") {
                wp_hdop(context, tagname, waypoint)
            } else if str_eq(name.as_str(), "vdop") {
                wp_vdop(context, tagname, waypoint)
            } else if str_eq(name.as_str(), "pdop") {
                wp_pdop(context, tagname, waypoint)
            } else if str_eq(name.as_str(), "ageofdgpsdata") {
                wp_ageofdgpsdata(context, tagname, waypoint)
            } else if str_eq(name.as_str(), "dgpsid") {
                wp_dgpsid(context, tagname, waypoint)
            } else if str_eq(name.as_str(), "extensions") {
                wp_extensions(context, tagname, waypoint)
            } else {
                Err(GpxError::InvalidChildElement(name, "waypoint"))
            }
        },
        Peeked::Close(name) => {
            if !str_eq(name.as_str(), tagname) {
                Err(GpxError::InvalidClosingTag(name, "waypoint"))
            } else {
                context.pos += 1;
                Ok(waypoint)
            }
        },
        Peeked::Text(_) => {
            context.pos += 1;
            consume_body(context, tagname, waypoint)
        },
        Peeked::Failure => Err(GpxError::EventParsingError("waypoint event")),
    }
}

#[verifier::rlimit(100)]
fn wp_ele(context: &mut Context, tagname: &'static str, waypoint: Waypoint) -> (r: GpxResult<
    Waypoint,
>)
    requires
        wp_at_branch(*old(context), 0),
    ensures
        consume_post::<Waypoint>(
            p_waypoint_body(
                old(context).events.deep_view(),
                old(context).pos as int,
                tagname@,
                old(context).version,
                waypoint.deep_view(),
            ),
            *old(context),
            *final(context),
            r,
        ),
        r matches Ok(_) ==> final(context).pos > old(context).pos,
    decreases context.events.len() - context.pos, 0int,
{
    proof {
        reveal_with_fuel(p_waypoint_body, 2);
    }
    let ghost evs = context.events.deep_view();
    let ghost p0 = context.pos as int;
    match crate::parser::string::consume(context, "ele", true) {
        Ok(v) => {
            proof {
                lemma_string_step(evs, p0, "ele"@, true);
            }
            if v.as_str().is_empty() {
                consume_body(context, tagname, waypoint)
            } else {
                match Decimal::parse(v.as_str()) {
                    Some(d) => consume_body(
                        context,
                        tagname,
                        Waypoint { elevation: Some(d), ..waypoint },
                    ),
                    None => Err(GpxError::ParseFloatError),
                }
            }
        },
        Err(e) => Err(e),
    }
}


#[verifier::rlimit(100)]
fn wp_speed(context: &mut Context, tagname: &'static str, waypoint: Waypoint) -> (r: GpxResult<
    Waypoint,
>)
    requires
        wp_at_branch(*old(context), 1),
    ensures
        consume_post::<Waypoint>(
            p_waypoint_body(
                old(context).events.deep_view(),
                old(context).pos as int,
                tagname@,
                old(context).version,
                waypoint.deep_view(),
            ),
            *old(context),
            *final(context),
            r,
        ),
        r matches Ok(_) ==> final(context).pos > old(context).pos,
    decreases context.events.len() - context.pos, 0int,
{
    proof {
        reveal_with_fuel(p_waypoint_body, 2);
    }
    let ghost evs = context.events.deep_view();
    let ghost p0 = context.pos as int;
    match consume_dec_child(context, "speed") {
        Ok(d) => {
            proof {
                reveal_with_fuel(crate::parser::string::p_dec_child, 1);
                lemma_string_step(evs, p0, "speed"@, false);
            }
            consume_body(context, tagname, Waypoint { speed: Some(d), ..waypoint })
        },
        Err(e) => Err(e),
    }
}


#[verifier::rlimit(100)]
fn wp_time(context: &mut Context, tagname: &'static str, waypoint: Waypoint) -> (r: GpxResult<
    Waypoint,
>)
    requires
        wp_at_branch(*old(context), 2),
    ensures
        consume_post::<Waypoint>(
            p_waypoint_body(
                old(context).events.deep_view(),
                old(context).pos as int,
                tagname@,
                old(context).version,
                waypoint.deep_view(),
            ),
            *old(context),
            *final(context),
            r,
        ),
        r matches Ok(_) ==> final(context).pos > old(context).pos,
    decreases context.events.len() - context.pos, 0int,
{
    proof {
        reveal_with_fuel(p_waypoint_body, 2);
    }
    let ghost evs = context.events.deep_view();
    let ghost p0 = context.pos as int;
    match crate::parser::time::consume(context) {
        Ok(t) => {
            proof {
                lemma_time_step(evs, p0);
            }
            consume_body(context, tagname, Waypoint { time: Some(t), ..waypoint })
        },
        Err(e) => Err(e),
    }
}


#[verifier::rlimit(100)]
fn wp_name(context: &mut Context, tagname: &'static str, waypoint: Waypoint) -> (r: GpxResult<
    Waypoint,
>)
    requires
        wp_at_branch(*old(context), 3),
    ensures
        consume_post::<Waypoint>(
            p_waypoint_body(
                old(context).events.deep_view(),
                old(context).pos as int,
                tagname@,
                old(context).version,
                waypoint.deep_view(),
            ),
            *old(context),
            *final(context),
            r,
        ),
        r matches Ok(_) ==> final(context).pos > old(context).pos,
    decreases context.events.len() - context.pos, 0int,
{
    proof {
        reveal_with_fuel(p_waypoint_body, 2);
    }
    let ghost evs = context.events.deep_view();
    let ghost p0 = context.pos as int;
    match crate::parser::string::consume(context, "name", true) {
        Ok(v) => {
            proof {
                lemma_string_step(evs, p0, "name"@, true);
            }
            consume_body(context, tagname, Waypoint { name: Some(v), ..waypoint })
        },
        Err(e) => Err(e),
    }
}


#[verifier::rlimit(100)]
fn wp_cmt(context: &mut Context, tagname: &'static str, waypoint: Waypoint) -> (r: GpxResult<
    Waypoint,
>)
    requires
        wp_at_branch(*old(context), 4),
    ensures
        consume_post::<Waypoint>(
            p_waypoint_body(
                old(context).events.deep_view(),
                old(context).pos as int,
                tagname@,
                old(context).version,
                waypoint.deep_view(),
            ),
            *old(context),
            *final(context),
            r,
        ),
        r matches Ok(_) ==> final(context).pos > old(context).pos,
    decreases context.events.len() - context.pos, 0int,
{
    proof {
        reveal_with_fuel(p_waypoint_body, 2);
    }
    let ghost evs = context.events.deep_view();
    let ghost p0 = context.pos as int;
    match crate::parser::string::consume(context, "cmt", true) {
        Ok(v) => {
            proof {
                lemma_string_step(evs, p0, "cmt"@, true);
            }
            consume_body(context, tagname, Waypoint { comment: Some(v), ..waypoint })
        },
        Err(e) => Err(e),
    }
}


#[verifier::rlimit(100)]
fn wp_desc(context: &mut Context, tagname: &'static str, waypoint: Waypoint) -> (r: GpxResult<
    Waypoint,
>)
    requires
        wp_at_branch(*old(context), 5),
    ensures
        consume_post::<Waypoint>(
            p_waypoint_body(
                old(context).events.deep_view(),
                old(context).pos as int,
                tagname@,
                old(context).version,
                waypoint.deep_view(),
            ),
            *old(context),
            *final(context),
            r,
        ),
        r matches Ok(_) ==> final(context).pos > old(context).pos,
    decreases context.events.len() - context.pos, 0int,
{
    proof {
        reveal_with_fuel(p_waypoint_body, 2);
    }
    let ghost evs = context.events.deep_view();
    let ghost p0 = context.pos as int;
    match crate::parser::string::consume(context, "desc", true) {
        Ok(v) => {
            proof {
                lemma_string_step(evs, p0, "desc"@, true);
            }
            consume_body(context, tagname, Waypoint { description: Some(v), ..waypoint })
        },
        Err(e) => Err(e),
    }
}


#[verifier::rlimit(100)]
fn wp_src(context: &mut Context, tagname: &'static str, waypoint: Waypoint) -> (r: GpxResult<
    Waypoint,
>)
    requires
        wp_at_branch(*old(context), 6),
    ensures
        consume_post::<Waypoint>(
            p_waypoint_body(
                old(context).events.deep_view(),
                old(context).pos as int,
                tagname@,
                old(context).version,
                waypoint.deep_view(),
            ),
            *old(context),
            *final(context),
            r,
        ),
        r matches Ok(_) ==> final(context).pos > old(context).pos,
    decreases context.events.len() - context.pos, 0int,
{
    proof {
        reveal_with_fuel(p_waypoint_body, 2);
    }
    let ghost evs = context.events.deep_view();
    let ghost p0 = context.pos as int;
    match crate::parser::string::consume(context, "src", true) {
        Ok(v) => {
            proof {
                lemma_string_step(evs, p0, "src"@, true);
            }
            consume_body(context, tagname, Waypoint { source: Some(v), ..waypoint })
        },
        Err(e) => Err(e),
    }
}


#[verifier::rlimit(100)]
fn wp_link(context: &mut Context, tagname: &'static str, waypoint: Waypoint) -> (r: GpxResult<
    Waypoint,
>)
    requires
        wp_at_branch(*old(context), 7),
    ensures
        consume_post::<Waypoint>(
            p_waypoint_body(
                old(context).events.deep_view(),
                old(context).pos as int,
                tagname@,
                old(context).version,
                waypoint.deep_view(),
            ),
            *old(context),
            *final(context),
            r,
        ),
        r matches Ok(_) ==> final(context).pos > old(context).pos,
    decreases context.events.len() - context.pos, 0int,
{
    proof {
        reveal_with_fuel(p_waypoint_body, 2);
    }
    let ghost evs = context.events.deep_view();
    let ghost p0 = context.pos as int;
    match crate::parser::link::consume(context) {
        Ok(l) => {
            proof {
                lemma_link_step(evs, p0);
            }
            let ghost w0 = waypoint.deep_view();
            let ghost l0 = l.deep_view();
            let mut waypoint = waypoint;
            waypoint.links.push(l);
            proof {
                assert(waypoint.links.deep_view() =~= w0.links.push(l0));
                assert(waypoint.deep_view() == (WaypointS { links: w0.links.push(l0), ..w0 }));
            }
            consume_body(context, tagname, waypoint)
        },
        Err(e) => Err(e),
    }
}


#[verifier::rlimit(100)]
fn wp_sym(context: &mut Context, tagname: &'static str, waypoint: Waypoint) -> (r: GpxResult<
    Waypoint,
>)
    requires
        wp_at_branch(*old(context), 8),
    ensures
        consume_post::<Waypoint>(
            p_waypoint_body(
                old(context).events.deep_view(),
                old(context).pos as int,
                tagname@,
                old(context).version,
                waypoint.deep_view(),
            ),
            *old(context),
            *final(context),
            r,
        ),
        r matches Ok(_) ==> final(context).pos > old(context).pos,
    decreases context.events.len() - context.pos, 0int,
{
    proof {
        reveal_with_fuel(p_waypoint_body, 2);
    }
    let ghost evs = context.events.deep_view();
    let ghost p0 = context.pos as int;
    match crate::parser::string::consume(context, "sym", false) {
        Ok(v) => {
            proof {
                lemma_string_step(evs, p0, "sym"@, false);
            }
            consume_body(context, tagname, Waypoint { symbol: Some(v), ..waypoint })
        },
        Err(e) => Err(e),
    }
}


#[verifier::rlimit(100)]
fn wp_type(context: &mut Context, tagname: &'static str, waypoint: Waypoint) -> (r: GpxResult<
    Waypoint,
>)
    requires
        wp_at_branch(*old(context), 9),
    ensures
        consume_post::<Waypoint>(
            p_waypoint_body(
                old(context).events.deep_view(),
                old(context).pos as int,
                tagname@,
                old(context).version,
                waypoint.deep_view(),
            ),
            *old(context),
            *final(context),
            r,
        ),
        r matches Ok(_) ==> final(context).pos > old(context).pos,
    decreases context.events.len() - context.pos, 0int,
{
    proof {
        reveal_with_fuel(p_waypoint_body, 2);
    }
    let ghost evs = context.events.deep_view();
    let ghost p0 = context.pos as int;
    match crate::parser::string::consume(context, "type", false) {
        Ok(v) => {
            proof {
                lemma_string_step(evs, p0, "type"@, false);
            }
            consume_body(context, tagname, Waypoint { _type: Some(v), ..waypoint })
        },
        Err(e) => Err(e),
    }
}


#[verifier::rlimit(100)]
fn wp_fix(context: &mut Context, tagname: &'static str, waypoint: Waypoint) -> (r: GpxResult<
    Waypoint,
>)
    requires
        wp_at_branch(*old(context), 10),
    ensures
        consume_post::<Waypoint>(
            p_waypoint_body(
                old(context).events.deep_view(),
                old(context).pos as int,
                tagname@,
                old(context).version,
                waypoint.deep_view(),
            ),
            *old(context),
            *final(context),
            r,
        ),
        r matches Ok(_) ==> final(context).pos > old(context).pos,
    decreases context.events.len() - context.pos, 0int,
{
    proof {
        reveal_with_fuel(p_waypoint_body, 2);
    }
    let ghost evs = context.events.deep_view();
    let ghost p0 = context.pos as int;
    match crate::parser::fix::consume(context) {
        Ok(f) => {
            proof {
                lemma_fix_step(evs, p0);
            }
            consume_body(context, tagname, Waypoint { fix: Some(f), ..waypoint })
        },
        Err(e) => Err(e),
    }
}


#[verifier::rlimit(100)]
fn wp_geoidheight(context: &mut Context, tagname: &'static str, waypoint: Waypoint) -> (r: GpxResult<
    Waypoint,
>)
    requires
        wp_at_branch(*old(context), 11),
    ensures
        consume_post::<Waypoint>(
            p_waypoint_body(
                old(context).events.deep_view(),
                old(context).pos as int,
                tagname@,
                old(context).version,
                waypoint.deep_view(),
            ),
            *old(context),
            *final(context),
            r,
        ),
        r matches Ok(_) ==> final(context).pos > old(context).pos,
    decreases context.events.len() - context.pos, 0int,
{
    proof {
        reveal_with_fuel(p_waypoint_body, 2);
    }
    let ghost evs = context.events.deep_view();
    let ghost p0 = context.pos as int;
    match consume_dec_child(context, "geoidheight") {
        Ok(d) => {
            proof {
                reveal_with_fuel(crate::parser::string::p_dec_child, 1);
                lemma_string_step(evs, p0, "geoidheight"@, false);
            }
            consume_body(context, tagname, Waypoint { geoidheight: Some(d), ..waypoint })
        },
        Err(e) => Err(e),
    }
}


#[verifier::rlimit(100)]
fn wp_sat(context: &mut Context, tagname: &'static str, waypoint: Waypoint) -> (r: GpxResult<
    Waypoint,
>)
    requires
        wp_at_branch(*old(context), 12),
    ensures
        consume_post::<Waypoint>(
            p_waypoint_body(
                old(context).events.deep_view(),
                old(context).pos as int,
                tagname@,
                old(context).version,
                waypoint.deep_view(),
            ),
            *old(context),
            *final(context),
            r,
        ),
        r matches Ok(_) ==> final(context).pos > old(context).pos,
    decreases context.events.len() - context.pos, 0int,
{
    proof {
        reveal_with_fuel(p_waypoint_body, 2);
    }
    let ghost evs = context.events.deep_view();
    let ghost p0 = context.pos as int;
    match consume_uint_child(context, "sat", u64::MAX) {
        Ok(n) => {
            proof {
                reveal_with_fuel(crate::parser::string::p_uint_child, 1);
                lemma_string_step(evs, p0, "sat"@, false);
            }
            consume_body(context, tagname, Waypoint { sat: Some(n), ..waypoint })
        },
        Err(e) => Err(e),
    }
}


#[verifier::rlimit(100)]
fn wp_hdop(context: &mut Context, tagname: &'static str, waypoint: Waypoint) -> (r: GpxResult<
    Waypoint,
>)
    requires
        wp_at_branch(*old(context), 13),
    ensures
        consume_post::<Waypoint>(
            p_waypoint_body(
                old(context).events.deep_view(),
                old(context).pos as int,
                tagname@,
                old(context).version,
                waypoint.deep_view(),
            ),
            *old(context),
            *final(context),
            r,
        ),
        r matches Ok(_) ==> final(context).pos > old(context).pos,
    decreases context.events.len() - context.pos, 0int,
{
    proof {
        reveal_with_fuel(p_waypoint_body, 2);
    }
    let ghost evs = context.events.deep_view();
    let ghost p0 = context.pos as int;
    match consume_dec_child(context, "hdop") {
        Ok(d) => {
            proof {
                reveal_with_fuel(crate::parser::string::p_dec_child, 1);
                lemma_string_step(evs, p0, "hdop"@, false);
            }
            consume_body(context, tagname, Waypoint { hdop: Some(d), ..waypoint })
        },
        Err(e) => Err(e),
    }
}


#[verifier::rlimit(100)]
fn wp_vdop(context: &mut Context, tagname: &'static str, waypoint: Waypoint) -> (r: GpxResult<
    Waypoint,
>)
    requires
        wp_at_branch(*old(context), 14),
    ensures
        consume_post::<Waypoint>(
            p_waypoint_body(
                old(context).events.deep_view(),
                old(context).pos as int,
                tagname@,
                old(context).version,
                waypoint.deep_view(),
            ),
            *old(context),
            *final(context),
            r,
        ),
        r matches Ok(_) ==> final(context).pos > old(context).pos,
    decreases context.events.len() - context.pos, 0int,
{
    proof {
        reveal_with_fuel(p_waypoint_body, 2);
    }
    let ghost evs = context.events.deep_view();
    let ghost p0 = context.pos as int;
    match consume_dec_child(context, "vdop") {
        Ok(d) => {
            proof {
                reveal_with_fuel(crate::parser::string::p_dec_child, 1);
                lemma_string_step(evs, p0, "vdop"@, false);
            }
            consume_body(context, tagname, Waypoint { vdop: Some(d), ..waypoint })
        },
        Err(e) => Err(e),
    }
}


#[verifier::rlimit(100)]
fn wp_pdop(context: &mut Context, tagname: &'static str, waypoint: Waypoint) -> (r: GpxResult<
    Waypoint,
>)
    requires
        wp_at_branch(*old(context), 15),
    ensures
        consume_post::<Waypoint>(
            p_waypoint_body(
                old(context).events.deep_view(),
                old(context).pos as int,
                tagname@,
                old(context).version,
                waypoint.deep_view(),
            ),
            *old(context),
            *final(context),
            r,
        ),
        r matches Ok(_) ==> final(context).pos > old(context).pos,
    decreases context.events.len() - context.pos, 0int,
{
    proof {
        reveal_with_fuel(p_waypoint_body, 2);
    }
    let ghost evs = context.events.deep_view();
    let ghost p0 = context.pos as int;
    match consume_dec_child(context, "pdop") {
        Ok(d) => {
            proof {
                reveal_with_fuel(crate::parser::string::p_dec_child, 1);
                lemma_string_step(evs, p0, "pdop"@, false);
            }
            consume_body(context, tagname, Waypoint { pdop: Some(d), ..waypoint })
        },
        Err(e) => Err(e),
    }
}


#[verifier::rlimit(100)]
fn wp_ageofdgpsdata(context: &mut Context, tagname: &'static str, waypoint: Waypoint) -> (r: GpxResult<
    Waypoint,
>)
    requires
        wp_at_branch(*old(context), 16),
    ensures
        consume_post::<Waypoint>(
            p_waypoint_body(
                old(context).events.deep_view(),
                old(context).pos as int,
                tagname@,
                old(context).version,
                waypoint.deep_view(),
            ),
            *old(context),
            *final(context),
            r,
        ),
        r matches Ok(_) ==> final(context).pos > old(context).pos,
    decreases context.events.len() - context.pos, 0int,
{
    proof {
        reveal_with_fuel(p_waypoint_body, 2);
    }
    let ghost evs = context.events.deep_view();
    let ghost p0 = context.pos as int;
    match consume_dec_child(context, "ageofdgpsdata") {
        Ok(d) => {
            proof {
                reveal_with_fuel(crate::parser::string::p_dec_child, 1);
                lemma_string_step(evs, p0, "ageofdgpsdata"@, false);
            }
            consume_body(context, tagname, Waypoint { dgps_age: Some(d), ..waypoint })
        },
        Err(e) => Err(e),
    }
}


#[verifier::rlimit(100)]
fn wp_dgpsid(context: &mut Context, tagname: &'static str, waypoint: Waypoint) -> (r: GpxResult<
    Waypoint,
>)
    requires
        wp_at_branch(*old(context), 17),
    ensures
        consume_post::<Waypoint>(
            p_waypoint_body(
                old(context).events.deep_view(),
                old(context).pos as int,
                tagname@,
                old(context).version,
                waypoint.deep_view(),
            ),
            *old(context),
            *final(context),
            r,
        ),
        r matches Ok(_) ==> final(context).pos > old(context).pos,
    decreases context.events.len() - context.pos, 0int,
{
    proof {
        reveal_with_fuel(p_waypoint_body, 2);
    }
    let ghost evs = context.events.deep_view();
    let ghost p0 = context.pos as int;
    match consume_uint_child(context, "dgpsid", 0xffff) {
        Ok(n) => {
            proof {
                reveal_with_fuel(crate::parser::string::p_uint_child, 1);
                lemma_string_step(evs, p0, "dgpsid"@, false);
            }
            consume_body(context, tagname, Waypoint { dgpsid: Some(n as u16), ..waypoint })
        },
        Err(e) => Err(e),
    }
}


#[verifier::rlimit(100)]
fn wp_extensions(context: &mut Context, tagname: &'static str, waypoint: Waypoint) -> (r: GpxResult<
    Waypoint,
>)
    requires
        wp_at_branch(*old(context), 18),
    ensures
        consume_post::<Waypoint>(
            p_waypoint_body(
                old(context).events.deep_view(),
                old(context).pos as int,
                tagname@,
                old(context).version,
                waypoint.deep_view(),
            ),
            *old(context),
            *final(context),
            r,
        ),
        r matches Ok(_) ==> final(context).pos > old(context).pos,
    decreases context.events.len() - context.pos, 0int,
{
    proof {
        reveal_with_fuel(p_waypoint_body, 2);
    }
    let ghost evs = context.events.deep_view();
    let ghost p0 = context.pos as int;
    match crate::parser::extensions::consume(context) {
        Ok(_) => {
            proof {
                lemma_extensions_step(evs, p0);
            }
            consume_body(context, tagname, waypoint)
        },
        Err(e) => Err(e),
    }
}

} // verus!
