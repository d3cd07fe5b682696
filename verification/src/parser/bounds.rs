//! bounds handles the bounds rectangle: four required attributes, a
//! min-at-most-max check on both axes, and no children at all.

use vstd::prelude::*;
use vstd::string::*;

use crate::decimal::{dec_lt, dec_parse, Decimal, DecimalS};
use crate::errors::{ErrS, GpxError, GpxResult};
use crate::events::{AttrS, EventS};
use crate::parser::{
    consume_post, find_attr, find_attribute, p_verify_starting_tag, peek_event,
    verify_starting_tag, Context, PStep, Peeked,
};
use crate::text::str_eq;
use crate::types::{Point, PointS, Rect, RectS};

verus! {

/// The four required corner attributes: presence of each latitude pair
/// is checked before either value is read, then the same for the
/// longitude pair, then the ordering of both axes.
pub open spec fn p_bounds_attrs(attrs: Seq<AttrS>) -> Result<RectS, ErrS> {
    match find_attr(attrs, "minlat"@) {
        None => Err(ErrS::InvalidElementLacksAttribute("minlat"@, "bounds"@)),
        Some(minlat_text) => {
            match find_attr(attrs, "maxlat"@) {
                None => Err(ErrS::InvalidElementLacksAttribute("maxlat"@, "bounds"@)),
                Some(maxlat_text) => {
                    match dec_parse(minlat_text) {
                        None => Err(ErrS::ParseFloatError),
                        Some(minlat) => {
                            match dec_parse(maxlat_text) {
                                None => Err(ErrS::ParseFloatError),
                                Some(maxlat) => {
                                    match find_attr(attrs, "minlon"@) {
                                        None => Err(
                                            ErrS::InvalidElementLacksAttribute(
                                                "minlon"@,
                                                "bounds"@,
                                            ),
                                        ),
                                        Some(minlon_text) => {
                                            match find_attr(attrs, "maxlon"@) {
                                                None => Err(
                                                    ErrS::InvalidElementLacksAttribute(
                                                        "maxlon"@,
                                                        "bounds"@,
                                                    ),
                                                ),
                                                Some(maxlon_text) => {
                                                    match dec_parse(minlon_text) {
                                                        None => Err(ErrS::ParseFloatError),
                                                        Some(minlon) => {
                                                            match dec_parse(maxlon_text) {
                                                                None => Err(ErrS::ParseFloatError),
                                                                Some(maxlon) => {
                                                                    if dec_lt(maxlon, minlon) {
                                                                        Err(
                                                                            ErrS::OutOfBounds(
                                                                                "longitude"@,
                                                                            ),
                                                                        )
                                                                    } else if dec_lt(
                                                                        maxlat,
                                                                        minlat,
                                                                    ) {
                                                                        Err(
                                                                            ErrS::OutOfBounds(
                                                                                "latitude"@,
                                                                            ),
                                                                        )
                                                                    } else {
                                                                        Ok(
                                                                            RectS {
                                                                                min: PointS {
                                                                                    x: minlon,
                                                                                    y: minlat,
                                                                                },
                                                                                max: PointS {
                                                                                    x: maxlon,
                                                                                    y: maxlat,
                                                                                },
                                                                            },
                                                                        )
                                                                    }
                                                                },
                                                            }
                                                        },
                                                    }
                                                },
                                            }
                                        },
                                    }
                                },
                            }
                        },
                    }
                },
            }
        },
    }
}

/// After the attributes, only the element's own closing tag may follow;
/// text is passed over.
#[verifier::opaque]
pub open spec fn p_bounds_body(evs: Seq<EventS>, p: int, rect: RectS) -> PStep<RectS>
    decreases evs.len() - p,
{
    if p < 0 || p >= evs.len() {
        PStep::Fail(ErrS::MissingClosingTag("bounds"@))
    } else {
        match evs[p] {
            EventS::Open { name, .. } => PStep::Fail(ErrS::InvalidChildElement(name, "bounds"@)),
            EventS::Close { name } => {
                if name != "bounds"@ {
                    PStep::Fail(ErrS::InvalidClosingTag(name, "bounds"@))
                } else {
                    PStep::Took(rect, 1)
                }
            },
            EventS::Text { .. } => {
                match p_bounds_body(evs, p + 1, rect) {
                    PStep::Took(v, u2) => PStep::Took(v, (u2 + 1) as nat),
                    PStep::Fail(e) => PStep::Fail(e),
                }
            },
            EventS::Failure => PStep::Fail(ErrS::XmlParseError),
        }
    }
}

/// One bounds element: the four corner attributes in checking order,
/// the ordering of each axis, and an immediate close.
#[verifier::opaque]
pub open spec fn p_bounds(evs: Seq<EventS>, p: int) -> PStep<RectS> {
    match p_verify_starting_tag(evs, p, "bounds"@) {
        PStep::Took(attrs, used0) => {
            match p_bounds_attrs(attrs) {
                Err(e) => PStep::Fail(e),
                Ok(rect) => {
                    match p_bounds_body(evs, p + used0, rect) {
                        PStep::Took(v, used) => PStep::Took(v, (used0 + used) as nat),
                        PStep::Fail(e) => PStep::Fail(e),
                    }
                },
            }
        },
        PStep::Fail(e) => PStep::Fail(e),
    }
}

/// consume consumes a bounds element until it ends.
pub fn consume(context: &mut Context) -> (r: GpxResult<Rect>)
    requires
        old(context).pos <= old(context).events.len(),
    ensures
        consume_post::<Rect>(
            p_bounds(old(context).events.deep_view(), old(context).pos as int),
            *old(context),
            *final(context),
            r,
        ),
        r matches Ok(_) ==> final(context).pos > old(context).pos,
{
    proof {
        reveal_with_fuel(p_bounds, 1);
    }
    let attributes = match verify_starting_tag(context, "bounds") {
        Ok(a) => a,
        Err(e) => {
            return Err(e);
        },
    };
    // presence of each pair is checked before either value is read
    let minlat_text = match find_attribute(&attributes, "minlat") {
        Some(t) => t,
        None => {
            return Err(GpxError::InvalidElementLacksAttribute("minlat", "bounds"));
        },
    };
    let maxlat_text = match find_attribute(&attributes, "maxlat") {
        Some(t) => t,
        None => {
            return Err(GpxError::InvalidElementLacksAttribute("maxlat", "bounds"));
        },
    };
    let minlat = match Decimal::parse(minlat_text.as_str()) {
        Some(d) => d,
        None => {
            return Err(GpxError::ParseFloatError);
        },
    };
    let maxlat = match Decimal::parse(maxlat_text.as_str()) {
        Some(d) => d,
        None => {
            return Err(GpxError::ParseFloatError);
        },
    };
    let minlon_text = match find_attribute(&attributes, "minlon") {
        Some(t) => t,
        None => {
            return Err(GpxError::InvalidElementLacksAttribute("minlon", "bounds"));
        },
    };
    let maxlon_text = match find_attribute(&attributes, "maxlon") {
        Some(t) => t,
        None => {
            return Err(GpxError::InvalidElementLacksAttribute("maxlon", "bounds"));
        },
    };
    let minlon = match Decimal::parse(minlon_text.as_str()) {
        Some(d) => d,
        None => {
            return Err(GpxError::ParseFloatError);
        },
    };
    let maxlon = match Decimal::parse(maxlon_text.as_str()) {
        Some(d) => d,
        None => {
            return Err(GpxError::ParseFloatError);
        },
    };
    // verify the box ordering first, so a flipped rectangle is rejected
    // rather than silently swapped
    if maxlon.lt(&minlon) {
        return Err(GpxError::OutOfBounds("longitude"));
    }
    if maxlat.lt(&minlat) {
        return Err(GpxError::OutOfBounds("latitude"));
    }
    let rect = Rect {
        min: Point { x: minlon, y: minlat },
        max: Point { x: maxlon, y: maxlat },
    };
    consume_body(context, rect)
}

fn consume_body(context: &mut Context, rect: Rect) -> (r: GpxResult<Rect>)
    requires
        old(context).pos <= old(context).events.len(),
    ensures
        consume_post::<Rect>(
            p_bounds_body(
                old(context).events.deep_view(),
                old(context).pos as int,
                rect.deep_view(),
            ),
            *old(context),
            *final(context),
            r,
        ),
        r matches Ok(_) ==> final(context).pos > old(context).pos,
    decreases context.events.len() - context.pos,
{
    proof {
        reveal_with_fuel(p_bounds_body, 1);
    }
    let pk = match peek_event(context) {
        Some(pk) => pk,
        None => {
            return Err(GpxError::MissingClosingTag("bounds"));
        },
    };
    match pk {
        Peeked::Open(name) => Err(GpxError::InvalidChildElement(name, "bounds")),
        Peeked::Close(name) => {
            if !str_eq(name.as_str(), "bounds") {
                Err(GpxError::InvalidClosingTag(name, "bounds"))
            } else {
                context.pos += 1;
                Ok(rect)
            }
        },
        Peeked::Text(_) => {
            context.pos += 1;
            consume_body(context, rect)
        },
        Peeked::Failure => Err(GpxError::XmlParseError),
    }
}

} // verus!
