//! Writes a document to GPX format: a tree walk that emits the matching
//! event sequence, version-gating which fields are legal to emit, and a
//! trusted emitter that renders the events as bytes.

use vstd::prelude::*;
use vstd::string::*;

use crate::decimal::{dec_text, dec_wf, Decimal, DecimalS};
use crate::errors::{ErrS, GpxError, GpxResult};
use crate::events::{emit_xml, emitted_of, AttrS, Attribute, Event, EventS};
use crate::parser::time::{time_text, time_wf, Time};
use crate::text::{int_text, nat_text};
use crate::types::{
    gpx_wf, link_wf, metadata_wf, rect_wf, route_wf, segment_wf, track_wf, waypoint_wf,
    CopyrightS, Fix, FixS, Gpx, GpxCopyright, GpxS, GpxVersion, Link, LinkS, Metadata, MetadataS,
    Person, PersonS, Rect, RectS, Route, RouteS, Track, TrackS, TrackSegment, TrackSegmentS,
    Waypoint, WaypointS,
};

verus! {

pub open spec fn ev_open(name: Seq<char>, attrs: Seq<AttrS>) -> EventS {
    EventS::Open { name, attributes: attrs }
}

pub open spec fn ev_close(name: Seq<char>) -> EventS {
    EventS::Close { name }
}

pub open spec fn ev_text(content: Seq<char>) -> EventS {
    EventS::Text { content }
}

/// One string element: open tag, its text, close tag.
#[verifier::opaque]
pub open spec fn w_string(key: Seq<char>, value: Seq<char>) -> Seq<EventS> {
    seq![ev_open(key, Seq::<AttrS>::empty()), ev_text(value), ev_close(key)]
}

#[verifier::opaque]
pub open spec fn w_string_opt(key: Seq<char>, value: Option<Seq<char>>) -> Seq<EventS> {
    match value {
        Some(v) => w_string(key, v),
        None => Seq::<EventS>::empty(),
    }
}

#[verifier::opaque]
pub open spec fn w_dec_opt(key: Seq<char>, value: Option<DecimalS>) -> Seq<EventS> {
    match value {
        Some(d) => w_string(key, dec_text(d)),
        None => Seq::<EventS>::empty(),
    }
}

#[verifier::opaque]
pub open spec fn w_u64_opt(key: Seq<char>, value: Option<u64>) -> Seq<EventS> {
    match value {
        Some(n) => w_string(key, nat_text(n as int)),
        None => Seq::<EventS>::empty(),
    }
}

#[verifier::opaque]
pub open spec fn w_u32_opt(key: Seq<char>, value: Option<u32>) -> Seq<EventS> {
    match value {
        Some(n) => w_string(key, nat_text(n as int)),
        None => Seq::<EventS>::empty(),
    }
}

#[verifier::opaque]
pub open spec fn w_u16_opt(key: Seq<char>, value: Option<u16>) -> Seq<EventS> {
    match value {
        Some(n) => w_string(key, nat_text(n as int)),
        None => Seq::<EventS>::empty(),
    }
}

#[verifier::opaque]
pub open spec fn w_i32_opt(key: Seq<char>, value: Option<i32>) -> Seq<EventS> {
    match value {
        Some(n) => w_string(key, int_text(n as int)),
        None => Seq::<EventS>::empty(),
    }
}

#[verifier::opaque]
pub open spec fn w_time_opt(value: Option<Time>) -> Seq<EventS> {
    match value {
        Some(t) => w_string("time"@, time_text(t)),
        None => Seq::<EventS>::empty(),
    }
}

/// The classified fix tokens, and an `Other` value written as it was
/// read.
pub open spec fn fix_text(f: FixS) -> Seq<char> {
    match f {
        FixS::NoFix => "none"@,
        FixS::TwoDimensional => "2d"@,
        FixS::ThreeDimensional => "3d"@,
        FixS::DGPS => "dgps"@,
        FixS::PPS => "pps"@,
        FixS::Other(s) => s,
    }
}

#[verifier::opaque]
pub open spec fn w_fix_opt(value: Option<FixS>) -> Seq<EventS> {
    match value {
        Some(f) => w_string("fix"@, fix_text(f)),
        None => Seq::<EventS>::empty(),
    }
}

/// A link element: its required `href` attribute and optional children.
#[verifier::opaque]
pub open spec fn w_link(l: LinkS) -> Seq<EventS> {
    seq![ev_open("link"@, seq![AttrS { name: "href"@, value: l.href }])] + w_string_opt(
        "text"@,
        l.text,
    ) + w_string_opt("type"@, l._type) + seq![ev_close("link"@)]
}

#[verifier::opaque]
pub open spec fn w_links(ls: Seq<LinkS>) -> Seq<EventS>
    decreases ls.len(),
{
    if ls.len() == 0 {
        Seq::<EventS>::empty()
    } else {
        w_links(ls.drop_last()) + w_link(ls.last())
    }
}

/// The email address split at its single `@`: the id and domain parts,
/// or the error a malformed address reports.
pub open spec fn email_split(s: Seq<char>) -> Result<(Seq<char>, Seq<char>), ErrS> {
    let i = crate::decimal::char_index_of(s, '@', 0);
    if i == s.len() {
        Err(ErrS::MissingEmailPartError("domain"@))
    } else if crate::decimal::char_index_of(s, '@', i + 1) != s.len() {
        Err(ErrS::TooManyAtsError)
    } else {
        Ok((s.take(i), s.skip(i + 1)))
    }
}

/// An address joined from an id and a domain that hold no `@` splits
/// back into the same two parts: what the parser builds from the email
/// element's attributes, the writer takes apart again.
pub proof fn lemma_email_round_trip(id: Seq<char>, domain: Seq<char>)
    requires
        forall|i: int| 0 <= i < id.len() ==> id[i] != '@',
        forall|i: int| 0 <= i < domain.len() ==> domain[i] != '@',
    ensures
        email_split(id + "@"@ + domain) == Ok::<(Seq<char>, Seq<char>), ErrS>((id, domain)),
{
    reveal_strlit("@");
    let s = id + "@"@ + domain;
    assert(s[id.len() as int] == '@');
    assert(forall|m: int| 0 <= m < id.len() ==> s[m] == id[m]);
    crate::decimal::lemma_char_index_from(s, '@', 0, id.len() as int);
    assert(forall|m: int| id.len() < m < s.len() ==> s[m] == domain[m - id.len() - 1]);
    crate::decimal::lemma_char_index_from(s, '@', id.len() as int + 1, s.len() as int);
    assert(s.take(id.len() as int) =~= id);
    assert(s.skip(id.len() as int + 1) =~= domain);
}

/// A split address joins back to the string it came from.
pub proof fn lemma_email_split_rejoin(s: Seq<char>)
    ensures
        email_split(s) matches Ok(parts) ==> parts.0 + "@"@ + parts.1 == s,
{
    reveal_strlit("@");
    let i = crate::decimal::char_index_of(s, '@', 0);
    crate::decimal::lemma_char_index_found(s, '@', 0);
    crate::decimal::lemma_char_index_in_range(s, '@', 0);
    if i < s.len() {
        assert(s.take(i) + "@"@ + s.skip(i + 1) =~= s);
    }
}

/// An email element in attribute form, as GPX 1.1 has it.
#[verifier::opaque]
pub open spec fn w_email_opt(value: Option<Seq<char>>) -> Result<Seq<EventS>, ErrS> {
    match value {
        None => Ok(Seq::<EventS>::empty()),
        Some(em) => {
            match email_split(em) {
                Err(e) => Err(e),
                Ok(parts) => Ok(
                    seq![
                        ev_open(
                            "email"@,
                            seq![
                                AttrS { name: "id"@, value: parts.0 },
                                AttrS { name: "domain"@, value: parts.1 },
                            ],
                        ),
                        ev_close("email"@),
                    ],
                ),
            }
        },
    }
}

/// A person element under the given key, as GPX 1.1 has it.
#[verifier::opaque]
pub open spec fn w_person(key: Seq<char>, p: PersonS) -> Result<Seq<EventS>, ErrS> {
    match w_email_opt(p.email) {
        Err(e) => Err(e),
        Ok(email_evs) => Ok(
            seq![ev_open(key, Seq::<AttrS>::empty())] + w_string_opt("name"@, p.name) + email_evs
                + (match p.link {
                Some(l) => w_link(l),
                None => Seq::<EventS>::empty(),
            }) + seq![ev_close(key)],
        ),
    }
}

#[verifier::opaque]
pub open spec fn w_person_opt(key: Seq<char>, p: Option<PersonS>) -> Result<Seq<EventS>, ErrS> {
    match p {
        None => Ok(Seq::<EventS>::empty()),
        Some(person) => w_person(key, person),
    }
}

/// A copyright element: its optional `author` attribute and children.
#[verifier::opaque]
pub open spec fn w_copyright(c: CopyrightS) -> Seq<EventS> {
    let attrs: Seq<AttrS> = match c.author {
        Some(a) => seq![AttrS { name: "author"@, value: a }],
        None => Seq::<AttrS>::empty(),
    };
    seq![ev_open("copyright"@, attrs)] + w_i32_opt("year"@, c.year) + w_string_opt(
        "license"@,
        c.license,
    ) + seq![ev_close("copyright"@)]
}

#[verifier::opaque]
pub open spec fn w_copyright_opt(c: Option<CopyrightS>) -> Seq<EventS> {
    match c {
        Some(cp) => w_copyright(cp),
        None => Seq::<EventS>::empty(),
    }
}

/// A bounds element: the four corner attributes and an immediate close.
#[verifier::opaque]
pub open spec fn w_bounds(r: RectS) -> Seq<EventS> {
    seq![
        ev_open(
            "bounds"@,
            seq![
                AttrS { name: "minlat"@, value: dec_text(r.min.y) },
                AttrS { name: "maxlat"@, value: dec_text(r.max.y) },
                AttrS { name: "minlon"@, value: dec_text(r.min.x) },
                AttrS { name: "maxlon"@, value: dec_text(r.max.x) },
            ],
        ),
        ev_close("bounds"@),
    ]
}

#[verifier::opaque]
pub open spec fn w_bounds_opt(r: Option<RectS>) -> Seq<EventS> {
    match r {
        Some(rect) => w_bounds(rect),
        None => Seq::<EventS>::empty(),
    }
}

/// A waypoint element under the given tag: the coordinate attributes,
/// then every set field; `speed` is written under GPX 1.0 only.
#[verifier::opaque]
pub open spec fn w_waypoint(tag: Seq<char>, w: WaypointS, version: GpxVersion) -> Seq<EventS> {
    seq![
        ev_open(
            tag,
            seq![
                AttrS { name: "lat"@, value: dec_text(w.point.y) },
                AttrS { name: "lon"@, value: dec_text(w.point.x) },
            ],
        ),
    ] + w_dec_opt("ele"@, w.elevation) + (if version == GpxVersion::Gpx10 {
        w_dec_opt("speed"@, w.speed)
    } else {
        Seq::<EventS>::empty()
    }) + w_time_opt(w.time) + w_dec_opt("geoidheight"@, w.geoidheight) + w_string_opt(
        "name"@,
        w.name,
    ) + w_string_opt("cmt"@, w.comment) + w_string_opt("desc"@, w.description) + w_string_opt(
        "src"@,
        w.source,
    ) + w_links(w.links) + w_string_opt("sym"@, w.symbol) + w_string_opt("type"@, w._type)
        + w_fix_opt(w.fix) + w_u64_opt("sat"@, w.sat) + w_dec_opt("hdop"@, w.hdop) + w_dec_opt(
        "vdop"@,
        w.vdop,
    ) + w_dec_opt("pdop"@, w.pdop) + w_dec_opt("ageofdgpsdata"@, w.dgps_age) + w_u16_opt(
        "dgpsid"@,
        w.dgpsid,
    ) + seq![ev_close(tag)]
}

#[verifier::opaque]
pub open spec fn w_waypoints(tag: Seq<char>, ws: Seq<WaypointS>, version: GpxVersion) -> Seq<
    EventS,
>
    decreases ws.len(),
{
    if ws.len() == 0 {
        Seq::<EventS>::empty()
    } else {
        w_waypoints(tag, ws.drop_last(), version) + w_waypoint(tag, ws.last(), version)
    }
}

/// A track segment element: its points and nothing else.
#[verifier::opaque]
pub open spec fn w_segment(s: TrackSegmentS, version: GpxVersion) -> Seq<EventS> {
    seq![ev_open("trkseg"@, Seq::<AttrS>::empty())] + w_waypoints("trkpt"@, s.points, version)
        + seq![ev_close("trkseg"@)]
}

#[verifier::opaque]
pub open spec fn w_segments(ss: Seq<TrackSegmentS>, version: GpxVersion) -> Seq<EventS>
    decreases ss.len(),
{
    if ss.len() == 0 {
        Seq::<EventS>::empty()
    } else {
        w_segments(ss.drop_last(), version) + w_segment(ss.last(), version)
    }
}

/// A track element: the descriptive fields, links, number, segments.
#[verifier::opaque]
pub open spec fn w_track(t: TrackS, version: GpxVersion) -> Seq<EventS> {
    seq![ev_open("trk"@, Seq::<AttrS>::empty())] + w_string_opt("name"@, t.name) + w_string_opt(
        "cmt"@,
        t.comment,
    ) + w_string_opt("desc"@, t.description) + w_string_opt("src"@, t.source) + w_links(t.links)
        + w_string_opt("type"@, t._type) + w_u32_opt("number"@, t.number) + w_segments(
        t.segments,
        version,
    ) + seq![ev_close("trk"@)]
}

#[verifier::opaque]
pub open spec fn w_tracks(ts: Seq<TrackS>, version: GpxVersion) -> Seq<EventS>
    decreases ts.len(),
{
    if ts.len() == 0 {
        Seq::<EventS>::empty()
    } else {
        w_tracks(ts.drop_last(), version) + w_track(ts.last(), version)
    }
}

/// A route element: the descriptive fields, links, number, points.
#[verifier::opaque]
pub open spec fn w_route(t: RouteS, version: GpxVersion) -> Seq<EventS> {
    seq![ev_open("rte"@, Seq::<AttrS>::empty())] + w_string_opt("name"@, t.name) + w_string_opt(
        "cmt"@,
        t.comment,
    ) + w_string_opt("desc"@, t.description) + w_string_opt("src"@, t.source) + w_links(t.links)
        + w_u32_opt("number"@, t.number) + w_string_opt("type"@, t._type) + w_waypoints(
        "rtept"@,
        t.points,
        version,
    ) + seq![ev_close("rte"@)]
}

#[verifier::opaque]
pub open spec fn w_routes(ts: Seq<RouteS>, version: GpxVersion) -> Seq<EventS>
    decreases ts.len(),
{
    if ts.len() == 0 {
        Seq::<EventS>::empty()
    } else {
        w_routes(ts.drop_last(), version) + w_route(ts.last(), version)
    }
}

/// The GPX 1.0 metadata: the fields flattened back out as top-level
/// elements, the author's email and link as the flat 1.0 forms.
#[verifier::opaque]
pub open spec fn w_metadata10(md: MetadataS) -> Seq<EventS> {
    w_string_opt("name"@, md.name) + w_string_opt("desc"@, md.description) + (match md.author {
        Some(a) => w_string_opt("author"@, a.name) + w_string_opt("email"@, a.email) + (
        match a.link {
            Some(l) => w_string("url"@, l.href) + w_string_opt("urlname"@, l.text),
            None => Seq::<EventS>::empty(),
        }),
        None => Seq::<EventS>::empty(),
    }) + w_string_opt("keywords"@, md.keywords) + w_time_opt(md.time) + w_bounds_opt(md.bounds)
}

/// The GPX 1.1 metadata: one nested `metadata` element.
#[verifier::opaque]
pub open spec fn w_metadata11(md: MetadataS) -> Result<Seq<EventS>, ErrS> {
    match w_person_opt("author"@, md.author) {
        Err(e) => Err(e),
        Ok(author_evs) => Ok(
            seq![ev_open("metadata"@, Seq::<AttrS>::empty())] + w_string_opt("name"@, md.name)
                + w_string_opt("desc"@, md.description) + author_evs + w_copyright_opt(md.copyright)
                + w_string_opt("keywords"@, md.keywords) + w_time_opt(md.time) + w_links(md.links)
                + w_bounds_opt(md.bounds) + seq![ev_close("metadata"@)],
        ),
    }
}

#[verifier::opaque]
pub open spec fn w_metadata(g: GpxS) -> Result<Seq<EventS>, ErrS> {
    match g.metadata {
        None => Ok(Seq::<EventS>::empty()),
        Some(md) => {
            if g.version == GpxVersion::Gpx10 {
                Ok(w_metadata10(md))
            } else {
                w_metadata11(md)
            }
        },
    }
}

pub open spec fn version_text_of(v: GpxVersion) -> Seq<char> {
    match v {
        GpxVersion::Gpx10 => "1.0"@,
        _ => "1.1"@,
    }
}

pub open spec fn xmlns_of(v: GpxVersion) -> Seq<char> {
    match v {
        GpxVersion::Gpx10 => "http://www.topografix.com/GPX/1/0"@,
        _ => "http://www.topografix.com/GPX/1/1"@,
    }
}

pub open spec fn creator_or_default(c: Option<Seq<char>>) -> Seq<char> {
    match c {
        Some(s) => s,
        None => "https://github.com/georust/gpx"@,
    }
}

/// The whole document's event sequence: an unknown version cannot be
/// written, and a malformed author email reports its own error.
#[verifier::opaque]
pub open spec fn w_gpx(g: GpxS) -> Result<Seq<EventS>, ErrS> {
    if g.version == GpxVersion::Unknown {
        Err(ErrS::UnknownVersionError(GpxVersion::Unknown))
    } else {
        match w_metadata(g) {
            Err(e) => Err(e),
            Ok(md_evs) => Ok(
                seq![
                    ev_open(
                        "gpx"@,
                        seq![
                            AttrS { name: "version"@, value: version_text_of(g.version) },
                            AttrS { name: "xmlns"@, value: xmlns_of(g.version) },
                            AttrS { name: "creator"@, value: creator_or_default(g.creator) },
                        ],
                    ),
                ] + md_evs + w_waypoints("wpt"@, g.waypoints, g.version) + w_tracks(
                    g.tracks,
                    g.version,
                ) + w_routes(g.routes, g.version) + seq![ev_close("gpx"@)],
            ),
        }
    }
}

fn push_open(out: &mut Vec<Event>, name: &'static str, attributes: Vec<Attribute>)
    ensures
        final(out).deep_view() == old(out).deep_view().push(
            ev_open(name@, attributes.deep_view()),
        ),
{
    let ghost a0 = attributes.deep_view();
    out.push(Event::Open { name: name.to_owned(), attributes });
    proof {
        assert(out.deep_view() =~= old(out).deep_view().push(ev_open(name@, a0)));
    }
}

fn push_close(out: &mut Vec<Event>, name: &'static str)
    ensures
        final(out).deep_view() == old(out).deep_view().push(ev_close(name@)),
{
    out.push(Event::Close { name: name.to_owned() });
    proof {
        assert(out.deep_view() =~= old(out).deep_view().push(ev_close(name@)));
    }
}

fn push_text(out: &mut Vec<Event>, content: String)
    ensures
        final(out).deep_view() == old(out).deep_view().push(ev_text(content@)),
{
    let ghost c0 = content@;
    out.push(Event::Text { content });
    proof {
        assert(out.deep_view() =~= old(out).deep_view().push(ev_text(c0)));
    }
}

fn attribute(name: &'static str, value: String) -> (r: Attribute)
    ensures
        r.deep_view() == (AttrS { name: name@, value: value@ }),
{
    Attribute { name: name.to_owned(), value }
}

fn write_string(out: &mut Vec<Event>, key: &'static str, value: String)
    ensures
        final(out).deep_view() == old(out).deep_view() + w_string(key@, value@),
{
    proof {
        reveal_with_fuel(w_string, 1);
    }
    let ghost v0 = value@;
    let attrs: Vec<Attribute> = Vec::new();
    proof {
        assert(attrs.deep_view() =~= Seq::<AttrS>::empty());
    }
    push_open(out, key, attrs);
    push_text(out, value);
    push_close(out, key);
    proof {
        assert(out.deep_view() =~= old(out).deep_view() + w_string(key@, v0));
    }
}

fn write_string_if_exists(out: &mut Vec<Event>, key: &'static str, value: &Option<String>)
    ensures
        final(out).deep_view() == old(out).deep_view() + w_string_opt(key@, value.deep_view()),
{
    proof {
        reveal_with_fuel(w_string_opt, 1);
        reveal_with_fuel(w_string, 1);
    }
    match value {
        Some(v) => write_string(out, key, v.clone()),
        None => {
            proof {
                assert(out.deep_view() =~= old(out).deep_view() + Seq::<EventS>::empty());
            }
        },
    }
}

fn write_dec_if_exists(out: &mut Vec<Event>, key: &'static str, value: &Option<Decimal>)
    requires
        value matches Some(d) ==> dec_wf(d.deep_view()),
    ensures
        final(out).deep_view() == old(out).deep_view() + w_dec_opt(key@, value.deep_view()),
{
    proof {
        reveal_with_fuel(w_dec_opt, 1);
        reveal_with_fuel(w_string, 1);
    }
    match value {
        Some(d) => write_string(out, key, d.to_text()),
        None => {
            proof {
                assert(out.deep_view() =~= old(out).deep_view() + Seq::<EventS>::empty());
            }
        },
    }
}

fn write_u64_if_exists(out: &mut Vec<Event>, key: &'static str, value: &Option<u64>)
    ensures
        final(out).deep_view() == old(out).deep_view() + w_u64_opt(key@, *value),
{
    proof {
        reveal_with_fuel(w_u64_opt, 1);
        reveal_with_fuel(w_string, 1);
    }
    match value {
        Some(n) => write_string(out, key, crate::text::format_u64(*n)),
        None => {
            proof {
                assert(out.deep_view() =~= old(out).deep_view() + Seq::<EventS>::empty());
            }
        },
    }
}

fn write_u32_if_exists(out: &mut Vec<Event>, key: &'static str, value: &Option<u32>)
    ensures
        final(out).deep_view() == old(out).deep_view() + w_u32_opt(key@, *value),
{
    proof {
        reveal_with_fuel(w_u32_opt, 1);
        reveal_with_fuel(w_string, 1);
    }
    match value {
        Some(n) => write_string(out, key, crate::text::format_u64(*n as u64)),
        None => {
            proof {
                assert(out.deep_view() =~= old(out).deep_view() + Seq::<EventS>::empty());
            }
        },
    }
}

fn write_u16_if_exists(out: &mut Vec<Event>, key: &'static str, value: &Option<u16>)
    ensures
        final(out).deep_view() == old(out).deep_view() + w_u16_opt(key@, *value),
{
    proof {
        reveal_with_fuel(w_u16_opt, 1);
        reveal_with_fuel(w_string, 1);
    }
    match value {
        Some(n) => write_string(out, key, crate::text::format_u64(*n as u64)),
        None => {
            proof {
                assert(out.deep_view() =~= old(out).deep_view() + Seq::<EventS>::empty());
            }
        },
    }
}

fn write_i32_if_exists(out: &mut Vec<Event>, key: &'static str, value: &Option<i32>)
    ensures
        final(out).deep_view() == old(out).deep_view() + w_i32_opt(key@, *value),
{
    proof {
        reveal_with_fuel(w_i32_opt, 1);
        reveal_with_fuel(w_string, 1);
    }
    match value {
        Some(n) => write_string(out, key, crate::text::format_i32(*n)),
        None => {
            proof {
                assert(out.deep_view() =~= old(out).deep_view() + Seq::<EventS>::empty());
            }
        },
    }
}

fn write_time_if_exists(out: &mut Vec<Event>, value: &Option<Time>) -> (r: GpxResult<()>)
    requires
        value matches Some(t) ==> time_wf(*t),
    ensures
        r is Ok,
        final(out).deep_view() == old(out).deep_view() + w_time_opt(*value),
{
    proof {
        reveal_with_fuel(w_time_opt, 1);
        reveal_with_fuel(w_string, 1);
    }
    match value {
        Some(t) => {
            match t.format() {
                Ok(s) => {
                    write_string(out, "time", s);
                    Ok(())
                },
                Err(e) => Err(e),
            }
        },
        None => {
            proof {
                assert(out.deep_view() =~= old(out).deep_view() + Seq::<EventS>::empty());
            }
            Ok(())
        },
    }
}

fn write_fix_if_exists(out: &mut Vec<Event>, value: &Option<Fix>)
    ensures
        final(out).deep_view() == old(out).deep_view() + w_fix_opt(value.deep_view()),
{
    proof {
        reveal_with_fuel(w_fix_opt, 1);
        reveal_with_fuel(w_string, 1);
    }
    match value {
        Some(f) => {
            let text: String = match f {
                Fix::NoFix => String::from_str("none"),
                Fix::TwoDimensional => String::from_str("2d"),
                Fix::ThreeDimensional => String::from_str("3d"),
                Fix::DGPS => String::from_str("dgps"),
                Fix::PPS => String::from_str("pps"),
                Fix::Other(s) => s.clone(),
            };
            proof {
                assert(text@ == fix_text(f.deep_view()));
            }
            write_string(out, "fix", text);
        },
        None => {
            proof {
                assert(out.deep_view() =~= old(out).deep_view() + Seq::<EventS>::empty());
            }
        },
    }
}

fn write_link(out: &mut Vec<Event>, link: &Link)
    ensures
        final(out).deep_view() == old(out).deep_view() + w_link(link.deep_view()),
{
    proof {
        reveal_with_fuel(w_link, 1);
    }
    let mut attrs: Vec<Attribute> = Vec::new();
    attrs.push(attribute("href", link.href.clone()));
    proof {
        assert(attrs.deep_view() =~= seq![AttrS { name: "href"@, value: link.href@ }]);
    }
    push_open(out, "link", attrs);
    write_string_if_exists(out, "text", &link.text);
    write_string_if_exists(out, "type", &link._type);
    push_close(out, "link");
    proof {
        assert(out.deep_view() =~= old(out).deep_view() + w_link(link.deep_view()));
    }
}

fn write_links(out: &mut Vec<Event>, links: &Vec<Link>)
    ensures
        final(out).deep_view() == old(out).deep_view() + w_links(links.deep_view()),
{
    proof {
        reveal_with_fuel(w_links, 1);
    }
    let ghost base = out.deep_view();
    let mut i: usize = 0;
    proof {
        assert(out.deep_view() =~= base + w_links(links.deep_view().take(0)));
    }
    while i < links.len()
        invariant
            0 <= i <= links@.len(),
            links.deep_view().len() == links@.len(),
            out.deep_view() == base + w_links(links.deep_view().take(i as int)),
        decreases links@.len() - i,
    {
        write_link(out, &links[i]);
        proof {
            reveal_with_fuel(w_links, 1);
            let lv = links.deep_view();
            assert(lv.take(i + 1).drop_last() =~= lv.take(i as int));
            assert(lv.take(i + 1).last() == lv[i as int]);
            assert(out.deep_view() =~= base + w_links(lv.take(i + 1)));
        }
        i += 1;
    }
    proof {
        assert(links.deep_view().take(links@.len() as int) =~= links.deep_view());
    }
}

/// Splits an email address at its single `@`, per `email_split`.
fn split_email(s: &str) -> (r: Result<(String, String), GpxError>)
    ensures
        match email_split(s@) {
            Ok(parts) => r matches Ok(p) && p.0@ == parts.0 && p.1@ == parts.1,
            Err(e) => r matches Err(x) && x.deep_view() == e,
        },
{
    let len = s.unicode_len();
    let mut i: usize = 0;
    while i < len && s.get_char(i) != '@'
        invariant
            0 <= i <= len,
            len == s@.len(),
            forall|m: int| 0 <= m < i ==> s@[m] != '@',
        decreases len - i,
    {
        i += 1;
    }
    proof {
        crate::decimal::lemma_char_index_from(s@, '@', 0, i as int);
    }
    if i == len {
        return Err(GpxError::MissingEmailPartError("domain"));
    }
    let mut j: usize = i + 1;
    while j < len && s.get_char(j) != '@'
        invariant
            i + 1 <= j <= len,
            len == s@.len(),
            forall|m: int| i + 1 <= m < j ==> s@[m] != '@',
        decreases len - j,
    {
        j += 1;
    }
    proof {
        crate::decimal::lemma_char_index_from(s@, '@', i + 1, j as int);
    }
    if j < len {
        return Err(GpxError::TooManyAtsError);
    }
    let id = s.substring_char(0, i).to_owned();
    let domain = s.substring_char(i + 1, len).to_owned();
    proof {
        assert(id@ =~= s@.take(i as int));
        assert(domain@ =~= s@.skip(i + 1));
    }
    Ok((id, domain))
}

fn write_email_if_exists(out: &mut Vec<Event>, value: &Option<String>) -> (r: GpxResult<()>)
    ensures
        match w_email_opt(value.deep_view()) {
            Ok(evs) => r is Ok && final(out).deep_view() == old(out).deep_view() + evs,
            Err(e) => r matches Err(x) && x.deep_view() == e,
        },
{
    proof {
        reveal_with_fuel(w_email_opt, 1);
    }
    match value {
        None => {
            proof {
                assert(out.deep_view() =~= old(out).deep_view() + Seq::<EventS>::empty());
            }
            Ok(())
        },
        Some(em) => {
            let parts = match split_email(em.as_str()) {
                Ok(p) => p,
                Err(e) => {
                    return Err(e);
                },
            };
            let ghost id0 = parts.0@;
            let ghost dom0 = parts.1@;
            let mut attrs: Vec<Attribute> = Vec::new();
            attrs.push(attribute("id", parts.0));
            attrs.push(attribute("domain", parts.1));
            proof {
                assert(attrs.deep_view() =~= seq![
                    AttrS { name: "id"@, value: id0 },
                    AttrS { name: "domain"@, value: dom0 },
                ]);
            }
            push_open(out, "email", attrs);
            push_close(out, "email");
            proof {
                assert(out.deep_view() =~= old(out).deep_view() + seq![
                    ev_open(
                        "email"@,
                        seq![
                            AttrS { name: "id"@, value: id0 },
                            AttrS { name: "domain"@, value: dom0 },
                        ],
                    ),
                    ev_close("email"@),
                ]);
            }
            Ok(())
        },
    }
}

fn write_person_if_exists(out: &mut Vec<Event>, key: &'static str, value: &Option<Person>) -> (r:
    GpxResult<()>)
    ensures
        match w_person_opt(key@, value.deep_view()) {
            Ok(evs) => r is Ok && final(out).deep_view() == old(out).deep_view() + evs,
            Err(e) => r matches Err(x) && x.deep_view() == e,
        },
{
    proof {
        reveal_with_fuel(w_person_opt, 1);
        reveal_with_fuel(w_person, 1);
    }
    match value {
        None => {
            proof {
                assert(out.deep_view() =~= old(out).deep_view() + Seq::<EventS>::empty());
            }
            Ok(())
        },
        Some(person) => {
            let attrs: Vec<Attribute> = Vec::new();
            proof {
                assert(attrs.deep_view() =~= Seq::<AttrS>::empty());
            }
            push_open(out, key, attrs);
            write_string_if_exists(out, "name", &person.name);
            match write_email_if_exists(out, &person.email) {
                Ok(_) => {},
                Err(e) => {
                    return Err(e);
                },
            }
            match &person.link {
                Some(l) => write_link(out, l),
                None => {},
            }
            push_close(out, key);
            proof {
                match w_person_opt(key@, value.deep_view()) {
                    Ok(evs) => {
                        assert(out.deep_view() =~= old(out).deep_view() + evs);
                    },
                    Err(_) => {},
                }
            }
            Ok(())
        },
    }
}

fn write_copyright_if_exists(out: &mut Vec<Event>, value: &Option<GpxCopyright>)
    ensures
        final(out).deep_view() == old(out).deep_view() + w_copyright_opt(value.deep_view()),
{
    proof {
        reveal_with_fuel(w_copyright_opt, 1);
        reveal_with_fuel(w_copyright, 1);
    }
    match value {
        None => {
            proof {
                assert(out.deep_view() =~= old(out).deep_view() + Seq::<EventS>::empty());
            }
        },
        Some(c) => {
            let mut attrs: Vec<Attribute> = Vec::new();
            match &c.author {
                Some(a) => {
                    attrs.push(attribute("author", a.clone()));
                    proof {
                        assert(attrs.deep_view() =~= seq![AttrS { name: "author"@, value: a@ }]);
                    }
                },
                None => {
                    proof {
                        assert(attrs.deep_view() =~= Seq::<AttrS>::empty());
                    }
                },
            }
            push_open(out, "copyright", attrs);
            write_i32_if_exists(out, "year", &c.year);
            write_string_if_exists(out, "license", &c.license);
            push_close(out, "copyright");
            proof {
                assert(out.deep_view() =~= old(out).deep_view() + w_copyright(c.deep_view()));
            }
        },
    }
}

fn write_bounds_if_exists(out: &mut Vec<Event>, value: &Option<Rect>)
    requires
        value matches Some(r) ==> rect_wf(r.deep_view()),
    ensures
        final(out).deep_view() == old(out).deep_view() + w_bounds_opt(value.deep_view()),
{
    proof {
        reveal_with_fuel(w_bounds_opt, 1);
        reveal_with_fuel(w_bounds, 1);
    }
    match value {
        None => {
            proof {
                assert(out.deep_view() =~= old(out).deep_view() + Seq::<EventS>::empty());
            }
        },
        Some(rect) => {
            let mut attrs: Vec<Attribute> = Vec::new();
            attrs.push(attribute("minlat", rect.min.y.to_text()));
            attrs.push(attribute("maxlat", rect.max.y.to_text()));
            attrs.push(attribute("minlon", rect.min.x.to_text()));
            attrs.push(attribute("maxlon", rect.max.x.to_text()));
            proof {
                let rv = rect.deep_view();
                assert(attrs.deep_view() =~= seq![
                    AttrS { name: "minlat"@, value: dec_text(rv.min.y) },
                    AttrS { name: "maxlat"@, value: dec_text(rv.max.y) },
                    AttrS { name: "minlon"@, value: dec_text(rv.min.x) },
                    AttrS { name: "maxlon"@, value: dec_text(rv.max.x) },
                ]);
            }
            push_open(out, "bounds", attrs);
            push_close(out, "bounds");
            proof {
                assert(out.deep_view() =~= old(out).deep_view() + w_bounds(rect.deep_view()));
            }
        },
    }
}

#[verifier::rlimit(100)]
fn write_waypoint(out: &mut Vec<Event>, tag: &'static str, w: &Waypoint, version: GpxVersion) -> (r:
    GpxResult<()>)
    requires
        waypoint_wf(w.deep_view()),
    ensures
        r is Ok,
        final(out).deep_view() == old(out).deep_view() + w_waypoint(tag@, w.deep_view(), version),
{
    proof {
        reveal_with_fuel(w_waypoint, 1);
    }
    let mut attrs: Vec<Attribute> = Vec::new();
    attrs.push(attribute("lat", w.point.y.to_text()));
    attrs.push(attribute("lon", w.point.x.to_text()));
    proof {
        let wv = w.deep_view();
        assert(attrs.deep_view() =~= seq![
            AttrS { name: "lat"@, value: dec_text(wv.point.y) },
            AttrS { name: "lon"@, value: dec_text(wv.point.x) },
        ]);
    }
    push_open(out, tag, attrs);
    proof {
        assert(out.deep_view() =~= old(out).deep_view() + (seq![ev_open(tag@, seq![AttrS { name: "lat"@, value: dec_text(w.deep_view().point.y) }, AttrS { name: "lon"@, value: dec_text(w.deep_view().point.x) }])]));
    }
    write_dec_if_exists(out, "ele", &w.elevation);
    proof {
        assert(out.deep_view() =~= old(out).deep_view() + (seq![ev_open(tag@, seq![AttrS { name: "lat"@, value: dec_text(w.deep_view().point.y) }, AttrS { name: "lon"@, value: dec_text(w.deep_view().point.x) }])] + w_dec_opt("ele"@, w.deep_view().elevation)));
    }
    if version == GpxVersion::Gpx10 {
        write_dec_if_exists(out, "speed", &w.speed);
    }
    proof {
        assert(out.deep_view() =~= old(out).deep_view() + (seq![ev_open(tag@, seq![AttrS { name: "lat"@, value: dec_text(w.deep_view().point.y) }, AttrS { name: "lon"@, value: dec_text(w.deep_view().point.x) }])] + w_dec_opt("ele"@, w.deep_view().elevation) + (if version == GpxVersion::Gpx10 { w_dec_opt("speed"@, w.deep_view().speed) } else { Seq::<EventS>::empty() })));
    }
    match write_time_if_exists(out, &w.time) {
        Ok(_) => {},
        Err(e) => {
            return Err(e);
        },
    }
    proof {
        assert(out.deep_view() =~= old(out).deep_view() + (seq![ev_open(tag@, seq![AttrS { name: "lat"@, value: dec_text(w.deep_view().point.y) }, AttrS { name: "lon"@, value: dec_text(w.deep_view().point.x) }])] + w_dec_opt("ele"@, w.deep_view().elevation) + (if version == GpxVersion::Gpx10 { w_dec_opt("speed"@, w.deep_view().speed) } else { Seq::<EventS>::empty() }) + w_time_opt(w.deep_view().time)));
    }
    write_dec_if_exists(out, "geoidheight", &w.geoidheight);
    proof {
        assert(out.deep_view() =~= old(out).deep_view() + (seq![ev_open(tag@, seq![AttrS { name: "lat"@, value: dec_text(w.deep_view().point.y) }, AttrS { name: "lon"@, value: dec_text(w.deep_view().point.x) }])] + w_dec_opt("ele"@, w.deep_view().elevation) + (if version == GpxVersion::Gpx10 { w_dec_opt("speed"@, w.deep_view().speed) } else { Seq::<EventS>::empty() }) + w_time_opt(w.deep_view().time) + w_dec_opt("geoidheight"@, w.deep_view().geoidheight)));
    }
    write_string_if_exists(out, "name", &w.name);
    proof {
        assert(out.deep_view() =~= old(out).deep_view() + (seq![ev_open(tag@, seq![AttrS { name: "lat"@, value: dec_text(w.deep_view().point.y) }, AttrS { name: "lon"@, value: dec_text(w.deep_view().point.x) }])] + w_dec_opt("ele"@, w.deep_view().elevation) + (if version == GpxVersion::Gpx10 { w_dec_opt("speed"@, w.deep_view().speed) } else { Seq::<EventS>::empty() }) + w_time_opt(w.deep_view().time) + w_dec_opt("geoidheight"@, w.deep_view().geoidheight) + w_string_opt("name"@, w.deep_view().name)));
    }
    write_string_if_exists(out, "cmt", &w.comment);
    proof {
        assert(out.deep_view() =~= old(out).deep_view() + (seq![ev_open(tag@, seq![AttrS { name: "lat"@, value: dec_text(w.deep_view().point.y) }, AttrS { name: "lon"@, value: dec_text(w.deep_view().point.x) }])] + w_dec_opt("ele"@, w.deep_view().elevation) + (if version == GpxVersion::Gpx10 { w_dec_opt("speed"@, w.deep_view().speed) } else { Seq::<EventS>::empty() }) + w_time_opt(w.deep_view().time) + w_dec_opt("geoidheight"@, w.deep_view().geoidheight) + w_string_opt("name"@, w.deep_view().name) + w_string_opt("cmt"@, w.deep_view().comment)));
    }
    write_string_if_exists(out, "desc", &w.description);
    proof {
        assert(out.deep_view() =~= old(out).deep_view() + (seq![ev_open(tag@, seq![AttrS { name: "lat"@, value: dec_text(w.deep_view().point.y) }, AttrS { name: "lon"@, value: dec_text(w.deep_view().point.x) }])] + w_dec_opt("ele"@, w.deep_view().elevation) + (if version == GpxVersion::Gpx10 { w_dec_opt("speed"@, w.deep_view().speed) } else { Seq::<EventS>::empty() }) + w_time_opt(w.deep_view().time) + w_dec_opt("geoidheight"@, w.deep_view().geoidheight) + w_string_opt("name"@, w.deep_view().name) + w_string_opt("cmt"@, w.deep_view().comment) + w_string_opt("desc"@, w.deep_view().description)));
    }
    write_string_if_exists(out, "src", &w.source);
    proof {
        assert(out.deep_view() =~= old(out).deep_view() + (seq![ev_open(tag@, seq![AttrS { name: "lat"@, value: dec_text(w.deep_view().point.y) }, AttrS { name: "lon"@, value: dec_text(w.deep_view().point.x) }])] + w_dec_opt("ele"@, w.deep_view().elevation) + (if version == GpxVersion::Gpx10 { w_dec_opt("speed"@, w.deep_view().speed) } else { Seq::<EventS>::empty() }) + w_time_opt(w.deep_view().time) + w_dec_opt("geoidheight"@, w.deep_view().geoidheight) + w_string_opt("name"@, w.deep_view().name) + w_string_opt("cmt"@, w.deep_view().comment) + w_string_opt("desc"@, w.deep_view().description) + w_string_opt("src"@, w.deep_view().source)));
    }
    write_links(out, &w.links);
    proof {
        assert(out.deep_view() =~= old(out).deep_view() + (seq![ev_open(tag@, seq![AttrS { name: "lat"@, value: dec_text(w.deep_view().point.y) }, AttrS { name: "lon"@, value: dec_text(w.deep_view().point.x) }])] + w_dec_opt("ele"@, w.deep_view().elevation) + (if version == GpxVersion::Gpx10 { w_dec_opt("speed"@, w.deep_view().speed) } else { Seq::<EventS>::empty() }) + w_time_opt(w.deep_view().time) + w_dec_opt("geoidheight"@, w.deep_view().geoidheight) + w_string_opt("name"@, w.deep_view().name) + w_string_opt("cmt"@, w.deep_view().comment) + w_string_opt("desc"@, w.deep_view().description) + w_string_opt("src"@, w.deep_view().source) + w_links(w.deep_view().links)));
    }
    write_string_if_exists(out, "sym", &w.symbol);
    proof {
        assert(out.deep_view() =~= old(out).deep_view() + (seq![ev_open(tag@, seq![AttrS { name: "lat"@, value: dec_text(w.deep_view().point.y) }, AttrS { name: "lon"@, value: dec_text(w.deep_view().point.x) }])] + w_dec_opt("ele"@, w.deep_view().elevation) + (if version == GpxVersion::Gpx10 { w_dec_opt("speed"@, w.deep_view().speed) } else { Seq::<EventS>::empty() }) + w_time_opt(w.deep_view().time) + w_dec_opt("geoidheight"@, w.deep_view().geoidheight) + w_string_opt("name"@, w.deep_view().name) + w_string_opt("cmt"@, w.deep_view().comment) + w_string_opt("desc"@, w.deep_view().description) + w_string_opt("src"@, w.deep_view().source) + w_links(w.deep_view().links) + w_string_opt("sym"@, w.deep_view().symbol)));
    }
    write_string_if_exists(out, "type", &w._type);
    proof {
        assert(out.deep_view() =~= old(out).deep_view() + (seq![ev_open(tag@, seq![AttrS { name: "lat"@, value: dec_text(w.deep_view().point.y) }, AttrS { name: "lon"@, value: dec_text(w.deep_view().point.x) }])] + w_dec_opt("ele"@, w.deep_view().elevation) + (if version == GpxVersion::Gpx10 { w_dec_opt("speed"@, w.deep_view().speed) } else { Seq::<EventS>::empty() }) + w_time_opt(w.deep_view().time) + w_dec_opt("geoidheight"@, w.deep_view().geoidheight) + w_string_opt("name"@, w.deep_view().name) + w_string_opt("cmt"@, w.deep_view().comment) + w_string_opt("desc"@, w.deep_view().description) + w_string_opt("src"@, w.deep_view().source) + w_links(w.deep_view().links) + w_string_opt("sym"@, w.deep_view().symbol) + w_string_opt("type"@, w.deep_view()._type)));
    }
    write_fix_if_exists(out, &w.fix);
    proof {
        assert(out.deep_view() =~= old(out).deep_view() + (seq![ev_open(tag@, seq![AttrS { name: "lat"@, value: dec_text(w.deep_view().point.y) }, AttrS { name: "lon"@, value: dec_text(w.deep_view().point.x) }])] + w_dec_opt("ele"@, w.deep_view().elevation) + (if version == GpxVersion::Gpx10 { w_dec_opt("speed"@, w.deep_view().speed) } else { Seq::<EventS>::empty() }) + w_time_opt(w.deep_view().time) + w_dec_opt("geoidheight"@, w.deep_view().geoidheight) + w_string_opt("name"@, w.deep_view().name) + w_string_opt("cmt"@, w.deep_view().comment) + w_string_opt("desc"@, w.deep_view().description) + w_string_opt("src"@, w.deep_view().source) + w_links(w.deep_view().links) + w_string_opt("sym"@, w.deep_view().symbol) + w_string_opt("type"@, w.deep_view()._type) + w_fix_opt(w.deep_view().fix)));
    }
    write_u64_if_exists(out, "sat", &w.sat);
    proof {
        assert(out.deep_view() =~= old(out).deep_view() + (seq![ev_open(tag@, seq![AttrS { name: "lat"@, value: dec_text(w.deep_view().point.y) }, AttrS { name: "lon"@, value: dec_text(w.deep_view().point.x) }])] + w_dec_opt("ele"@, w.deep_view().elevation) + (if version == GpxVersion::Gpx10 { w_dec_opt("speed"@, w.deep_view().speed) } else { Seq::<EventS>::empty() }) + w_time_opt(w.deep_view().time) + w_dec_opt("geoidheight"@, w.deep_view().geoidheight) + w_string_opt("name"@, w.deep_view().name) + w_string_opt("cmt"@, w.deep_view().comment) + w_string_opt("desc"@, w.deep_view().description) + w_string_opt("src"@, w.deep_view().source) + w_links(w.deep_view().links) + w_string_opt("sym"@, w.deep_view().symbol) + w_string_opt("type"@, w.deep_view()._type) + w_fix_opt(w.deep_view().fix) + w_u64_opt("sat"@, w.deep_view().sat)));
    }
    write_dec_if_exists(out, "hdop", &w.hdop);
    proof {
        assert(out.deep_view() =~= old(out).deep_view() + (seq![ev_open(tag@, seq![AttrS { name: "lat"@, value: dec_text(w.deep_view().point.y) }, AttrS { name: "lon"@, value: dec_text(w.deep_view().point.x) }])] + w_dec_opt("ele"@, w.deep_view().elevation) + (if version == GpxVersion::Gpx10 { w_dec_opt("speed"@, w.deep_view().speed) } else { Seq::<EventS>::empty() }) + w_time_opt(w.deep_view().time) + w_dec_opt("geoidheight"@, w.deep_view().geoidheight) + w_string_opt("name"@, w.deep_view().name) + w_string_opt("cmt"@, w.deep_view().comment) + w_string_opt("desc"@, w.deep_view().description) + w_string_opt("src"@, w.deep_view().source) + w_links(w.deep_view().links) + w_string_opt("sym"@, w.deep_view().symbol) + w_string_opt("type"@, w.deep_view()._type) + w_fix_opt(w.deep_view().fix) + w_u64_opt("sat"@, w.deep_view().sat) + w_dec_opt("hdop"@, w.deep_view().hdop)));
    }
    write_dec_if_exists(out, "vdop", &w.vdop);
    proof {
        assert(out.deep_view() =~= old(out).deep_view() + (seq![ev_open(tag@, seq![AttrS { name: "lat"@, value: dec_text(w.deep_view().point.y) }, AttrS { name: "lon"@, value: dec_text(w.deep_view().point.x) }])] + w_dec_opt("ele"@, w.deep_view().elevation) + (if version == GpxVersion::Gpx10 { w_dec_opt("speed"@, w.deep_view().speed) } else { Seq::<EventS>::empty() }) + w_time_opt(w.deep_view().time) + w_dec_opt("geoidheight"@, w.deep_view().geoidheight) + w_string_opt("name"@, w.deep_view().name) + w_string_opt("cmt"@, w.deep_view().comment) + w_string_opt("desc"@, w.deep_view().description) + w_string_opt("src"@, w.deep_view().source) + w_links(w.deep_view().links) + w_string_opt("sym"@, w.deep_view().symbol) + w_string_opt("type"@, w.deep_view()._type) + w_fix_opt(w.deep_view().fix) + w_u64_opt("sat"@, w.deep_view().sat) + w_dec_opt("hdop"@, w.deep_view().hdop) + w_dec_opt("vdop"@, w.deep_view().vdop)));
    }
    write_dec_if_exists(out, "pdop", &w.pdop);
    proof {
        assert(out.deep_view() =~= old(out).deep_view() + (seq![ev_open(tag@, seq![AttrS { name: "lat"@, value: dec_text(w.deep_view().point.y) }, AttrS { name: "lon"@, value: dec_text(w.deep_view().point.x) }])] + w_dec_opt("ele"@, w.deep_view().elevation) + (if version == GpxVersion::Gpx10 { w_dec_opt("speed"@, w.deep_view().speed) } else { Seq::<EventS>::empty() }) + w_time_opt(w.deep_view().time) + w_dec_opt("geoidheight"@, w.deep_view().geoidheight) + w_string_opt("name"@, w.deep_view().name) + w_string_opt("cmt"@, w.deep_view().comment) + w_string_opt("desc"@, w.deep_view().description) + w_string_opt("src"@, w.deep_view().source) + w_links(w.deep_view().links) + w_string_opt("sym"@, w.deep_view().symbol) + w_string_opt("type"@, w.deep_view()._type) + w_fix_opt(w.deep_view().fix) + w_u64_opt("sat"@, w.deep_view().sat) + w_dec_opt("hdop"@, w.deep_view().hdop) + w_dec_opt("vdop"@, w.deep_view().vdop) + w_dec_opt("pdop"@, w.deep_view().pdop)));
    }
    write_dec_if_exists(out, "ageofdgpsdata", &w.dgps_age);
    proof {
        assert(out.deep_view() =~= old(out).deep_view() + (seq![ev_open(tag@, seq![AttrS { name: "lat"@, value: dec_text(w.deep_view().point.y) }, AttrS { name: "lon"@, value: dec_text(w.deep_view().point.x) }])] + w_dec_opt("ele"@, w.deep_view().elevation) + (if version == GpxVersion::Gpx10 { w_dec_opt("speed"@, w.deep_view().speed) } else { Seq::<EventS>::empty() }) + w_time_opt(w.deep_view().time) + w_dec_opt("geoidheight"@, w.deep_view().geoidheight) + w_string_opt("name"@, w.deep_view().name) + w_string_opt("cmt"@, w.deep_view().comment) + w_string_opt("desc"@, w.deep_view().description) + w_string_opt("src"@, w.deep_view().source) + w_links(w.deep_view().links) + w_string_opt("sym"@, w.deep_view().symbol) + w_string_opt("type"@, w.deep_view()._type) + w_fix_opt(w.deep_view().fix) + w_u64_opt("sat"@, w.deep_view().sat) + w_dec_opt("hdop"@, w.deep_view().hdop) + w_dec_opt("vdop"@, w.deep_view().vdop) + w_dec_opt("pdop"@, w.deep_view().pdop) + w_dec_opt("ageofdgpsdata"@, w.deep_view().dgps_age)));
    }
    write_u16_if_exists(out, "dgpsid", &w.dgpsid);
    proof {
        assert(out.deep_view() =~= old(out).deep_view() + (seq![ev_open(tag@, seq![AttrS { name: "lat"@, value: dec_text(w.deep_view().point.y) }, AttrS { name: "lon"@, value: dec_text(w.deep_view().point.x) }])] + w_dec_opt("ele"@, w.deep_view().elevation) + (if version == GpxVersion::Gpx10 { w_dec_opt("speed"@, w.deep_view().speed) } else { Seq::<EventS>::empty() }) + w_time_opt(w.deep_view().time) + w_dec_opt("geoidheight"@, w.deep_view().geoidheight) + w_string_opt("name"@, w.deep_view().name) + w_string_opt("cmt"@, w.deep_view().comment) + w_string_opt("desc"@, w.deep_view().description) + w_string_opt("src"@, w.deep_view().source) + w_links(w.deep_view().links) + w_string_opt("sym"@, w.deep_view().symbol) + w_string_opt("type"@, w.deep_view()._type) + w_fix_opt(w.deep_view().fix) + w_u64_opt("sat"@, w.deep_view().sat) + w_dec_opt("hdop"@, w.deep_view().hdop) + w_dec_opt("vdop"@, w.deep_view().vdop) + w_dec_opt("pdop"@, w.deep_view().pdop) + w_dec_opt("ageofdgpsdata"@, w.deep_view().dgps_age) + w_u16_opt("dgpsid"@, w.deep_view().dgpsid)));
    }
    push_close(out, tag);
    proof {
        assert(out.deep_view() =~= old(out).deep_view() + w_waypoint(tag@, w.deep_view(), version));
    }
    Ok(())
}

fn write_waypoints(out: &mut Vec<Event>, tag: &'static str, ws: &Vec<Waypoint>, version: GpxVersion)
    -> (r: GpxResult<()>)
    requires
        forall|i: int| 0 <= i < ws.deep_view().len() ==> waypoint_wf(#[trigger] ws.deep_view()[i]),
    ensures
        r is Ok,
        final(out).deep_view() == old(out).deep_view() + w_waypoints(tag@, ws.deep_view(), version),
{
    proof {
        reveal_with_fuel(w_waypoints, 1);
    }
    let ghost base = out.deep_view();
    let mut i: usize = 0;
    proof {
        assert(out.deep_view() =~= base + w_waypoints(tag@, ws.deep_view().take(0), version));
    }
    while i < ws.len()
        invariant
            0 <= i <= ws@.len(),
            ws.deep_view().len() == ws@.len(),
            forall|k: int| 0 <= k < ws.deep_view().len() ==> waypoint_wf(#[trigger] ws.deep_view()[k]),
            out.deep_view() == base + w_waypoints(tag@, ws.deep_view().take(i as int), version),
        decreases ws@.len() - i,
    {
        proof {
            assert(ws.deep_view()[i as int] == ws@[i as int].deep_view());
        }
        match write_waypoint(out, tag, &ws[i], version) {
            Ok(_) => {},
            Err(e) => {
                return Err(e);
            },
        }
        proof {
            reveal_with_fuel(w_waypoints, 1);
            let wv = ws.deep_view();
            assert(wv.take(i + 1).drop_last() =~= wv.take(i as int));
            assert(wv.take(i + 1).last() == wv[i as int]);
            assert(out.deep_view() =~= base + w_waypoints(tag@, wv.take(i + 1), version));
        }
        i += 1;
    }
    proof {
        assert(ws.deep_view().take(ws@.len() as int) =~= ws.deep_view());
    }
    Ok(())
}

fn write_track_segment(out: &mut Vec<Event>, segment: &TrackSegment, version: GpxVersion) -> (r:
    GpxResult<()>)
    requires
        segment_wf(segment.deep_view()),
    ensures
        r is Ok,
        final(out).deep_view() == old(out).deep_view() + w_segment(segment.deep_view(), version),
{
    proof {
        reveal_with_fuel(w_segment, 1);
    }
    let attrs: Vec<Attribute> = Vec::new();
    proof {
        assert(attrs.deep_view() =~= Seq::<AttrS>::empty());
    }
    push_open(out, "trkseg", attrs);
    proof {
        assert forall|i: int|
            0 <= i < segment.points.deep_view().len() implies waypoint_wf(
            #[trigger] segment.points.deep_view()[i],
        ) by {
            assert(waypoint_wf(segment.deep_view().points[i]));
        }
    }
    match write_waypoints(out, "trkpt", &segment.points, version) {
        Ok(_) => {},
        Err(e) => {
            return Err(e);
        },
    }
    push_close(out, "trkseg");
    proof {
        assert(out.deep_view() =~= old(out).deep_view() + w_segment(segment.deep_view(), version));
    }
    Ok(())
}

fn write_track(out: &mut Vec<Event>, track: &Track, version: GpxVersion) -> (r: GpxResult<()>)
    requires
        track_wf(track.deep_view()),
    ensures
        r is Ok,
        final(out).deep_view() == old(out).deep_view() + w_track(track.deep_view(), version),
{
    proof {
        reveal_with_fuel(w_track, 1);
        reveal_with_fuel(w_segments, 1);
    }
    let attrs: Vec<Attribute> = Vec::new();
    proof {
        assert(attrs.deep_view() =~= Seq::<AttrS>::empty());
    }
    push_open(out, "trk", attrs);
    proof {
        assert(out.deep_view() =~= old(out).deep_view() + (seq![ev_open("trk"@, Seq::<AttrS>::empty())]));
    }
    write_string_if_exists(out, "name", &track.name);
    proof {
        assert(out.deep_view() =~= old(out).deep_view() + (seq![ev_open("trk"@, Seq::<AttrS>::empty())] + w_string_opt("name"@, track.deep_view().name)));
    }
    write_string_if_exists(out, "cmt", &track.comment);
    proof {
        assert(out.deep_view() =~= old(out).deep_view() + (seq![ev_open("trk"@, Seq::<AttrS>::empty())] + w_string_opt("name"@, track.deep_view().name) + w_string_opt("cmt"@, track.deep_view().comment)));
    }
    write_string_if_exists(out, "desc", &track.description);
    proof {
        assert(out.deep_view() =~= old(out).deep_view() + (seq![ev_open("trk"@, Seq::<AttrS>::empty())] + w_string_opt("name"@, track.deep_view().name) + w_string_opt("cmt"@, track.deep_view().comment) + w_string_opt("desc"@, track.deep_view().description)));
    }
    write_string_if_exists(out, "src", &track.source);
    proof {
        assert(out.deep_view() =~= old(out).deep_view() + (seq![ev_open("trk"@, Seq::<AttrS>::empty())] + w_string_opt("name"@, track.deep_view().name) + w_string_opt("cmt"@, track.deep_view().comment) + w_string_opt("desc"@, track.deep_view().description) + w_string_opt("src"@, track.deep_view().source)));
    }
    write_links(out, &track.links);
    proof {
        assert(out.deep_view() =~= old(out).deep_view() + (seq![ev_open("trk"@, Seq::<AttrS>::empty())] + w_string_opt("name"@, track.deep_view().name) + w_string_opt("cmt"@, track.deep_view().comment) + w_string_opt("desc"@, track.deep_view().description) + w_string_opt("src"@, track.deep_view().source) + w_links(track.deep_view().links)));
    }
    write_string_if_exists(out, "type", &track._type);
    proof {
        assert(out.deep_view() =~= old(out).deep_view() + (seq![ev_open("trk"@, Seq::<AttrS>::empty())] + w_string_opt("name"@, track.deep_view().name) + w_string_opt("cmt"@, track.deep_view().comment) + w_string_opt("desc"@, track.deep_view().description) + w_string_opt("src"@, track.deep_view().source) + w_links(track.deep_view().links) + w_string_opt("type"@, track.deep_view()._type)));
    }
    write_u32_if_exists(out, "number", &track.number);
    proof {
        assert(out.deep_view() =~= old(out).deep_view() + (seq![ev_open("trk"@, Seq::<AttrS>::empty())] + w_string_opt("name"@, track.deep_view().name) + w_string_opt("cmt"@, track.deep_view().comment) + w_string_opt("desc"@, track.deep_view().description) + w_string_opt("src"@, track.deep_view().source) + w_links(track.deep_view().links) + w_string_opt("type"@, track.deep_view()._type) + w_u32_opt("number"@, track.deep_view().number)));
    }
    let ghost base2 = out.deep_view();
    let mut i: usize = 0;
    proof {
        assert(out.deep_view() =~= base2 + w_segments(
            track.segments.deep_view().take(0),
            version,
        ));
    }
    while i < track.segments.len()
        invariant
            0 <= i <= track.segments@.len(),
            track.segments.deep_view().len() == track.segments@.len(),
            track_wf(track.deep_view()),
            out.deep_view() == base2 + w_segments(
                track.segments.deep_view().take(i as int),
                version,
            ),
        decreases track.segments@.len() - i,
    {
        proof {
            assert(track.deep_view().segments[i as int] == track.segments@[i as int].deep_view());
        }
        match write_track_segment(out, &track.segments[i], version) {
            Ok(_) => {},
            Err(e) => {
                return Err(e);
            },
        }
        proof {
            reveal_with_fuel(w_segments, 1);
            let sv = track.segments.deep_view();
            assert(sv.take(i + 1).drop_last() =~= sv.take(i as int));
            assert(sv.take(i + 1).last() == sv[i as int]);
            assert(out.deep_view() =~= base2 + w_segments(sv.take(i + 1), version));
        }
        i += 1;
    }
    proof {
        assert(track.segments.deep_view().take(track.segments@.len() as int) =~= track.segments.deep_view());
    }
    push_close(out, "trk");
    proof {
        assert(out.deep_view() =~= old(out).deep_view() + w_track(track.deep_view(), version));
    }
    Ok(())
}

fn write_route(out: &mut Vec<Event>, route: &Route, version: GpxVersion) -> (r: GpxResult<()>)
    requires
        route_wf(route.deep_view()),
    ensures
        r is Ok,
        final(out).deep_view() == old(out).deep_view() + w_route(route.deep_view(), version),
{
    proof {
        reveal_with_fuel(w_route, 1);
    }
    let attrs: Vec<Attribute> = Vec::new();
    proof {
        assert(attrs.deep_view() =~= Seq::<AttrS>::empty());
    }
    push_open(out, "rte", attrs);
    proof {
        assert(out.deep_view() =~= old(out).deep_view() + (seq![ev_open("rte"@, Seq::<AttrS>::empty())]));
    }
    write_string_if_exists(out, "name", &route.name);
    proof {
        assert(out.deep_view() =~= old(out).deep_view() + (seq![ev_open("rte"@, Seq::<AttrS>::empty())] + w_string_opt("name"@, route.deep_view().name)));
    }
    write_string_if_exists(out, "cmt", &route.comment);
    proof {
        assert(out.deep_view() =~= old(out).deep_view() + (seq![ev_open("rte"@, Seq::<AttrS>::empty())] + w_string_opt("name"@, route.deep_view().name) + w_string_opt("cmt"@, route.deep_view().comment)));
    }
    write_string_if_exists(out, "desc", &route.description);
    proof {
        assert(out.deep_view() =~= old(out).deep_view() + (seq![ev_open("rte"@, Seq::<AttrS>::empty())] + w_string_opt("name"@, route.deep_view().name) + w_string_opt("cmt"@, route.deep_view().comment) + w_string_opt("desc"@, route.deep_view().description)));
    }
    write_string_if_exists(out, "src", &route.source);
    proof {
        assert(out.deep_view() =~= old(out).deep_view() + (seq![ev_open("rte"@, Seq::<AttrS>::empty())] + w_string_opt("name"@, route.deep_view().name) + w_string_opt("cmt"@, route.deep_view().comment) + w_string_opt("desc"@, route.deep_view().description) + w_string_opt("src"@, route.deep_view().source)));
    }
    write_links(out, &route.links);
    proof {
        assert(out.deep_view() =~= old(out).deep_view() + (seq![ev_open("rte"@, Seq::<AttrS>::empty())] + w_string_opt("name"@, route.deep_view().name) + w_string_opt("cmt"@, route.deep_view().comment) + w_string_opt("desc"@, route.deep_view().description) + w_string_opt("src"@, route.deep_view().source) + w_links(route.deep_view().links)));
    }
    write_u32_if_exists(out, "number", &route.number);
    proof {
        assert(out.deep_view() =~= old(out).deep_view() + (seq![ev_open("rte"@, Seq::<AttrS>::empty())] + w_string_opt("name"@, route.deep_view().name) + w_string_opt("cmt"@, route.deep_view().comment) + w_string_opt("desc"@, route.deep_view().description) + w_string_opt("src"@, route.deep_view().source) + w_links(route.deep_view().links) + w_u32_opt("number"@, route.deep_view().number)));
    }
    write_string_if_exists(out, "type", &route._type);
    proof {
        assert(out.deep_view() =~= old(out).deep_view() + (seq![ev_open("rte"@, Seq::<AttrS>::empty())] + w_string_opt("name"@, route.deep_view().name) + w_string_opt("cmt"@, route.deep_view().comment) + w_string_opt("desc"@, route.deep_view().description) + w_string_opt("src"@, route.deep_view().source) + w_links(route.deep_view().links) + w_u32_opt("number"@, route.deep_view().number) + w_string_opt("type"@, route.deep_view()._type)));
    }
    proof {
        assert forall|i: int|
            0 <= i < route.points.deep_view().len() implies waypoint_wf(
            #[trigger] route.points.deep_view()[i],
        ) by {
            assert(waypoint_wf(route.deep_view().points[i]));
        }
    }
    match write_waypoints(out, "rtept", &route.points, version) {
        Ok(_) => {},
        Err(e) => {
            return Err(e);
        },
    }
    push_close(out, "rte");
    proof {
        assert(out.deep_view() =~= old(out).deep_view() + w_route(route.deep_view(), version));
    }
    Ok(())
}

fn write_gpx10_metadata(out: &mut Vec<Event>, md: &Metadata) -> (r: GpxResult<()>)
    requires
        metadata_wf(md.deep_view()),
    ensures
        r is Ok,
        final(out).deep_view() == old(out).deep_view() + w_metadata10(md.deep_view()),
{
    proof {
        reveal_with_fuel(w_metadata10, 1);
    }
    write_string_if_exists(out, "name", &md.name);
    proof {
        assert(out.deep_view() =~= old(out).deep_view() + (w_string_opt("name"@, md.deep_view().name)));
    }
    write_string_if_exists(out, "desc", &md.description);
    proof {
        assert(out.deep_view() =~= old(out).deep_view() + (w_string_opt("name"@, md.deep_view().name) + w_string_opt("desc"@, md.deep_view().description)));
    }
    match &md.author {
        Some(a) => {
            write_string_if_exists(out, "author", &a.name);
            write_string_if_exists(out, "email", &a.email);
            match &a.link {
                Some(l) => {
                    write_string(out, "url", l.href.clone());
                    write_string_if_exists(out, "urlname", &l.text);
                },
                None => {},
            }
        },
        None => {},
    }
    proof {
        assert(out.deep_view() =~= old(out).deep_view() + (w_string_opt("name"@, md.deep_view().name) + w_string_opt("desc"@, md.deep_view().description) + (match md.deep_view().author {
        Some(a) => w_string_opt("author"@, a.name) + w_string_opt("email"@, a.email) + (match a.link {
            Some(l) => w_string("url"@, l.href) + w_string_opt("urlname"@, l.text),
            None => Seq::<EventS>::empty(),
        }),
        None => Seq::<EventS>::empty(),
    })));
    }
    write_string_if_exists(out, "keywords", &md.keywords);
    proof {
        assert(out.deep_view() =~= old(out).deep_view() + (w_string_opt("name"@, md.deep_view().name) + w_string_opt("desc"@, md.deep_view().description) + (match md.deep_view().author {
        Some(a) => w_string_opt("author"@, a.name) + w_string_opt("email"@, a.email) + (match a.link {
            Some(l) => w_string("url"@, l.href) + w_string_opt("urlname"@, l.text),
            None => Seq::<EventS>::empty(),
        }),
        None => Seq::<EventS>::empty(),
    }) + w_string_opt("keywords"@, md.deep_view().keywords)));
    }
    match write_time_if_exists(out, &md.time) {
        Ok(_) => {},
        Err(e) => {
            return Err(e);
        },
    }
    proof {
        assert(out.deep_view() =~= old(out).deep_view() + (w_string_opt("name"@, md.deep_view().name) + w_string_opt("desc"@, md.deep_view().description) + (match md.deep_view().author {
        Some(a) => w_string_opt("author"@, a.name) + w_string_opt("email"@, a.email) + (match a.link {
            Some(l) => w_string("url"@, l.href) + w_string_opt("urlname"@, l.text),
            None => Seq::<EventS>::empty(),
        }),
        None => Seq::<EventS>::empty(),
    }) + w_string_opt("keywords"@, md.deep_view().keywords) + w_time_opt(md.deep_view().time)));
    }
    write_bounds_if_exists(out, &md.bounds);
    proof {
        assert(out.deep_view() =~= old(out).deep_view() + (w_string_opt("name"@, md.deep_view().name) + w_string_opt("desc"@, md.deep_view().description) + (match md.deep_view().author {
        Some(a) => w_string_opt("author"@, a.name) + w_string_opt("email"@, a.email) + (match a.link {
            Some(l) => w_string("url"@, l.href) + w_string_opt("urlname"@, l.text),
            None => Seq::<EventS>::empty(),
        }),
        None => Seq::<EventS>::empty(),
    }) + w_string_opt("keywords"@, md.deep_view().keywords) + w_time_opt(md.deep_view().time) + w_bounds_opt(md.deep_view().bounds)));
    }
    proof {
        assert(out.deep_view() =~= old(out).deep_view() + w_metadata10(md.deep_view()));
    }
    Ok(())
}

fn write_gpx11_metadata(out: &mut Vec<Event>, md: &Metadata) -> (r: GpxResult<()>)
    requires
        metadata_wf(md.deep_view()),
    ensures
        match w_metadata11(md.deep_view()) {
            Ok(evs) => r is Ok && final(out).deep_view() == old(out).deep_view() + evs,
            Err(e) => r matches Err(x) && x.deep_view() == e,
        },
{
    proof {
        reveal_with_fuel(w_metadata11, 1);
    }
    let attrs: Vec<Attribute> = Vec::new();
    proof {
        assert(attrs.deep_view() =~= Seq::<AttrS>::empty());
    }
    push_open(out, "metadata", attrs);
    proof {
        assert(out.deep_view() =~= old(out).deep_view() + (seq![ev_open("metadata"@, Seq::<AttrS>::empty())]));
    }
    write_string_if_exists(out, "name", &md.name);
    proof {
        assert(out.deep_view() =~= old(out).deep_view() + (seq![ev_open("metadata"@, Seq::<AttrS>::empty())] + w_string_opt("name"@, md.deep_view().name)));
    }
    write_string_if_exists(out, "desc", &md.description);
    proof {
        assert(out.deep_view() =~= old(out).deep_view() + (seq![ev_open("metadata"@, Seq::<AttrS>::empty())] + w_string_opt("name"@, md.deep_view().name) + w_string_opt("desc"@, md.deep_view().description)));
    }
    match write_person_if_exists(out, "author", &md.author) {
        Ok(_) => {},
        Err(e) => {
            return Err(e);
        },
    }
    write_copyright_if_exists(out, &md.copyright);
    proof {
        assert(out.deep_view() =~= old(out).deep_view() + (seq![ev_open("metadata"@, Seq::<AttrS>::empty())] + w_string_opt("name"@, md.deep_view().name) + w_string_opt("desc"@, md.deep_view().description) + (match w_person_opt("author"@, md.deep_view().author) { Ok(evs) => evs, Err(_) => Seq::<EventS>::empty() }) + w_copyright_opt(md.deep_view().copyright)));
    }
    write_string_if_exists(out, "keywords", &md.keywords);
    proof {
        assert(out.deep_view() =~= old(out).deep_view() + (seq![ev_open("metadata"@, Seq::<AttrS>::empty())] + w_string_opt("name"@, md.deep_view().name) + w_string_opt("desc"@, md.deep_view().description) + (match w_person_opt("author"@, md.deep_view().author) { Ok(evs) => evs, Err(_) => Seq::<EventS>::empty() }) + w_copyright_opt(md.deep_view().copyright) + w_string_opt("keywords"@, md.deep_view().keywords)));
    }
    match write_time_if_exists(out, &md.time) {
        Ok(_) => {},
        Err(e) => {
            return Err(e);
        },
    }
    write_links(out, &md.links);
    proof {
        assert(out.deep_view() =~= old(out).deep_view() + (seq![ev_open("metadata"@, Seq::<AttrS>::empty())] + w_string_opt("name"@, md.deep_view().name) + w_string_opt("desc"@, md.deep_view().description) + (match w_person_opt("author"@, md.deep_view().author) { Ok(evs) => evs, Err(_) => Seq::<EventS>::empty() }) + w_copyright_opt(md.deep_view().copyright) + w_string_opt("keywords"@, md.deep_view().keywords) + w_time_opt(md.deep_view().time) + w_links(md.deep_view().links)));
    }
    write_bounds_if_exists(out, &md.bounds);
    proof {
        assert(out.deep_view() =~= old(out).deep_view() + (seq![ev_open("metadata"@, Seq::<AttrS>::empty())] + w_string_opt("name"@, md.deep_view().name) + w_string_opt("desc"@, md.deep_view().description) + (match w_person_opt("author"@, md.deep_view().author) { Ok(evs) => evs, Err(_) => Seq::<EventS>::empty() }) + w_copyright_opt(md.deep_view().copyright) + w_string_opt("keywords"@, md.deep_view().keywords) + w_time_opt(md.deep_view().time) + w_links(md.deep_view().links) + w_bounds_opt(md.deep_view().bounds)));
    }
    push_close(out, "metadata");
    proof {
        match w_metadata11(md.deep_view()) {
            Ok(evs) => {
                assert(out.deep_view() =~= old(out).deep_view() + evs);
            },
            Err(_) => {},
        }
    }
    Ok(())
}

fn version_to_version_string(version: GpxVersion) -> (r: GpxResult<&'static str>)
    ensures
        version != GpxVersion::Unknown ==> (r matches Ok(s) && s@ == version_text_of(version)),
        version == GpxVersion::Unknown ==> r == GpxResult::<&'static str>::Err(
            GpxError::UnknownVersionError(GpxVersion::Unknown),
        ),
{
    match version {
        GpxVersion::Gpx10 => Ok("1.0"),
        GpxVersion::Gpx11 => Ok("1.1"),
        GpxVersion::Unknown => Err(GpxError::UnknownVersionError(GpxVersion::Unknown)),
    }
}

fn version_to_xml_url(version: GpxVersion) -> (r: GpxResult<&'static str>)
    ensures
        version != GpxVersion::Unknown ==> (r matches Ok(s) && s@ == xmlns_of(version)),
        version == GpxVersion::Unknown ==> r == GpxResult::<&'static str>::Err(
            GpxError::UnknownVersionError(GpxVersion::Unknown),
        ),
{
    match version {
        GpxVersion::Gpx10 => Ok("http://www.topografix.com/GPX/1/0"),
        GpxVersion::Gpx11 => Ok("http://www.topografix.com/GPX/1/1"),
        GpxVersion::Unknown => Err(GpxError::UnknownVersionError(GpxVersion::Unknown)),
    }
}

/// Writes a document as its event sequence, version-gating the metadata
/// form; an unknown version cannot be written.
pub fn write_with_event_writer(gpx: &Gpx) -> (r: GpxResult<Vec<Event>>)
    requires
        gpx_wf(gpx.deep_view()),
    ensures
        match w_gpx(gpx.deep_view()) {
            Ok(evs) => r matches Ok(v) && v.deep_view() == evs,
            Err(e) => r matches Err(x) && x.deep_view() == e,
        },
{
    proof {
        reveal_with_fuel(w_gpx, 1);
        reveal_with_fuel(w_metadata, 1);
        reveal_with_fuel(w_tracks, 1);
        reveal_with_fuel(w_routes, 1);
    }
    let mut out: Vec<Event> = Vec::new();
    proof {
        assert(out.deep_view() =~= Seq::<EventS>::empty());
    }
    let version_str = match version_to_version_string(gpx.version) {
        Ok(s) => s,
        Err(e) => {
            return Err(e);
        },
    };
    let xmlns = match version_to_xml_url(gpx.version) {
        Ok(s) => s,
        Err(e) => {
            return Err(e);
        },
    };
    let creator: String = match &gpx.creator {
        Some(c) => c.clone(),
        None => String::from_str("https://github.com/georust/gpx"),
    };
    let mut attrs: Vec<Attribute> = Vec::new();
    attrs.push(attribute("version", version_str.to_owned()));
    attrs.push(attribute("xmlns", xmlns.to_owned()));
    let ghost c0 = creator@;
    attrs.push(attribute("creator", creator));
    proof {
        let gv = gpx.deep_view();
        assert(c0 == creator_or_default(gv.creator));
        assert(attrs.deep_view() =~= seq![
            AttrS { name: "version"@, value: version_text_of(gv.version) },
            AttrS { name: "xmlns"@, value: xmlns_of(gv.version) },
            AttrS { name: "creator"@, value: creator_or_default(gv.creator) },
        ]);
    }
    push_open(&mut out, "gpx", attrs);
    let ghost open_evs: Seq<EventS> = seq![
        ev_open(
            "gpx"@,
            seq![
                AttrS { name: "version"@, value: version_text_of(gpx.deep_view().version) },
                AttrS { name: "xmlns"@, value: xmlns_of(gpx.deep_view().version) },
                AttrS { name: "creator"@, value: creator_or_default(gpx.deep_view().creator) },
            ],
        ),
    ];
    proof {
        assert(out.deep_view() =~= open_evs);
    }
    match &gpx.metadata {
        Some(md) => {
            if gpx.version == GpxVersion::Gpx10 {
                match write_gpx10_metadata(&mut out, md) {
                    Ok(_) => {},
                    Err(e) => {
                        return Err(e);
                    },
                }
            } else {
                match write_gpx11_metadata(&mut out, md) {
                    Ok(_) => {},
                    Err(e) => {
                        return Err(e);
                    },
                }
            }
        },
        None => {},
    }
    proof {
        assert forall|i: int|
            0 <= i < gpx.waypoints.deep_view().len() implies waypoint_wf(
            #[trigger] gpx.waypoints.deep_view()[i],
        ) by {
            assert(waypoint_wf(gpx.deep_view().waypoints[i]));
        }
    }
    match write_waypoints(&mut out, "wpt", &gpx.waypoints, gpx.version) {
        Ok(_) => {},
        Err(e) => {
            return Err(e);
        },
    }
    proof {
        match w_metadata(gpx.deep_view()) {
            Ok(md_evs) => {
                assert(out.deep_view() =~= open_evs + md_evs + w_waypoints(
                    "wpt"@,
                    gpx.deep_view().waypoints,
                    gpx.deep_view().version,
                ));
            },
            Err(_) => {},
        }
    }
    let ghost base_t = out.deep_view();
    let mut i: usize = 0;
    proof {
        assert(out.deep_view() =~= base_t + w_tracks(
            gpx.tracks.deep_view().take(0),
            gpx.deep_view().version,
        ));
    }
    while i < gpx.tracks.len()
        invariant
            0 <= i <= gpx.tracks@.len(),
            gpx.tracks.deep_view().len() == gpx.tracks@.len(),
            gpx_wf(gpx.deep_view()),
            out.deep_view() == base_t + w_tracks(
                gpx.tracks.deep_view().take(i as int),
                gpx.deep_view().version,
            ),
        decreases gpx.tracks@.len() - i,
    {
        proof {
            assert(gpx.deep_view().tracks[i as int] == gpx.tracks@[i as int].deep_view());
        }
        match write_track(&mut out, &gpx.tracks[i], gpx.version) {
            Ok(_) => {},
            Err(e) => {
                return Err(e);
            },
        }
        proof {
            reveal_with_fuel(w_tracks, 1);
            let tv = gpx.tracks.deep_view();
            assert(tv.take(i + 1).drop_last() =~= tv.take(i as int));
            assert(tv.take(i + 1).last() == tv[i as int]);
            assert(out.deep_view() =~= base_t + w_tracks(tv.take(i + 1), gpx.deep_view().version));
        }
        i += 1;
    }
    proof {
        assert(gpx.tracks.deep_view().take(gpx.tracks@.len() as int) =~= gpx.tracks.deep_view());
    }
    let ghost base_r = out.deep_view();
    let mut j: usize = 0;
    proof {
        assert(out.deep_view() =~= base_r + w_routes(
            gpx.routes.deep_view().take(0),
            gpx.deep_view().version,
        ));
    }
    while j < gpx.routes.len()
        invariant
            0 <= j <= gpx.routes@.len(),
            gpx.routes.deep_view().len() == gpx.routes@.len(),
            gpx_wf(gpx.deep_view()),
            out.deep_view() == base_r + w_routes(
                gpx.routes.deep_view().take(j as int),
                gpx.deep_view().version,
            ),
        decreases gpx.routes@.len() - j,
    {
        proof {
            assert(gpx.deep_view().routes[j as int] == gpx.routes@[j as int].deep_view());
        }
        match write_route(&mut out, &gpx.routes[j], gpx.version) {
            Ok(_) => {},
            Err(e) => {
                return Err(e);
            },
        }
        proof {
            reveal_with_fuel(w_routes, 1);
            let rv = gpx.routes.deep_view();
            assert(rv.take(j + 1).drop_last() =~= rv.take(j as int));
            assert(rv.take(j + 1).last() == rv[j as int]);
            assert(out.deep_view() =~= base_r + w_routes(rv.take(j + 1), gpx.deep_view().version));
        }
        j += 1;
    }
    proof {
        assert(gpx.routes.deep_view().take(gpx.routes@.len() as int) =~= gpx.routes.deep_view());
    }
    push_close(&mut out, "gpx");
    proof {
        match w_gpx(gpx.deep_view()) {
            Ok(evs) => {
                assert(out.deep_view() =~= evs);
            },
            Err(_) => {},
        }
    }
    Ok(out)
}

/// Writes a document to GPX-format bytes: the event sequence rendered
/// by the emitter.
pub fn write(gpx: &Gpx) -> (r: GpxResult<Vec<u8>>)
    requires
        gpx_wf(gpx.deep_view()),
    ensures
        match w_gpx(gpx.deep_view()) {
            Err(e) => r matches Err(x) && x.deep_view() == e,
            Ok(evs) => match emitted_of(evs) {
                Some(bytes) => r matches Ok(b) && b@ == bytes,
                None => r == GpxResult::<Vec<u8>>::Err(GpxError::XmlWriteError),
            },
        },
{
    let events = match write_with_event_writer(gpx) {
        Ok(evs) => evs,
        Err(e) => {
            return Err(e);
        },
    };
    emit_xml(&events)
}

} // verus!
