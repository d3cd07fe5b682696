//! gpx handles parsing of the document root: the `version` and
//! `creator` attributes, the version-gated child grammars, and the
//! reconciliation that rebuilds a GPX 1.0 document's scattered
//! metadata fields into one Metadata value.

use vstd::prelude::*;
use vstd::string::*;

use crate::errors::{ErrS, GpxError, GpxResult};
use crate::events::EventS;
use crate::parser::bounds::p_bounds;
use crate::parser::extensions::p_extensions;
use crate::parser::metadata::p_metadata;
use crate::parser::route::p_route;
use crate::parser::string::p_string;
use crate::parser::time::{p_time, Time};
use crate::parser::track::p_track;
use crate::parser::waypoint::p_waypoint;
use crate::parser::{
    consume_post, consumed_to, find_attr, find_attribute, p_verify_starting_tag, peek_event,
    verify_starting_tag, Context, PStep, Peeked,
};
use crate::text::str_eq;
use crate::types::{
    metadata_empty, person_empty, Gpx, GpxS, GpxVersion, LinkS, Metadata, MetadataS, Person,
    PersonS, Rect, RectS, RouteS, TrackS, WaypointS, Link,
};

verus! {

/// The flattened GPX 1.0 top-level fields, gathered while the root's
/// children are read and reconciled into a Metadata value at the close.
pub struct GpxScratch {
    pub author: Option<String>,
    pub email: Option<String>,
    pub url: Option<String>,
    pub urlname: Option<String>,
    pub gpx_name: Option<String>,
    pub description: Option<String>,
    pub keywords: Option<String>,
    pub time: Option<Time>,
    pub bounds: Option<Rect>,
}

/// The mathematical model of a `GpxScratch`.
pub struct GpxScratchS {
    pub author: Option<Seq<char>>,
    pub email: Option<Seq<char>>,
    pub url: Option<Seq<char>>,
    pub urlname: Option<Seq<char>>,
    pub gpx_name: Option<Seq<char>>,
    pub description: Option<Seq<char>>,
    pub keywords: Option<Seq<char>>,
    pub time: Option<Time>,
    pub bounds: Option<RectS>,
}

impl DeepView for GpxScratch {
    type V = GpxScratchS;

    open spec fn deep_view(&self) -> GpxScratchS {
        GpxScratchS {
            author: self.author.deep_view(),
            email: self.email.deep_view(),
            url: self.url.deep_view(),
            urlname: self.urlname.deep_view(),
            gpx_name: self.gpx_name.deep_view(),
            description: self.description.deep_view(),
            keywords: self.keywords.deep_view(),
            time: self.time,
            bounds: self.bounds.deep_view(),
        }
    }
}

pub open spec fn scratch_empty() -> GpxScratchS {
    GpxScratchS {
        author: None,
        email: None,
        url: None,
        urlname: None,
        gpx_name: None,
        description: None,
        keywords: None,
        time: None,
        bounds: None,
    }
}

/// The recognized values of the `version` attribute.
pub open spec fn version_of_text(s: Seq<char>) -> GpxVersion {
    if s == "1.0"@ {
        GpxVersion::Gpx10
    } else if s == "1.1"@ {
        GpxVersion::Gpx11
    } else {
        GpxVersion::Unknown
    }
}

/// Rebuilds a Metadata value from the flattened GPX 1.0 fields: a URL
/// pair becomes the author's link, an all-empty Person is no author at
/// all, and an all-empty Metadata is left off the document.
pub open spec fn synth_gpx10(g: GpxS, sc: GpxScratchS) -> GpxS {
    let link = match sc.url {
        Some(u) => Some(LinkS { href: u, text: sc.urlname, _type: None }),
        None => None,
    };
    let person = PersonS { name: sc.author, email: sc.email, link };
    let author = if person == person_empty() {
        None
    } else {
        Some(person)
    };
    let md = MetadataS {
        name: sc.gpx_name,
        description: sc.description,
        author,
        links: Seq::<LinkS>::empty(),
        time: sc.time,
        keywords: sc.keywords,
        copyright: None,
        bounds: sc.bounds,
    };
    if md == metadata_empty() {
        g
    } else {
        GpxS { metadata: Some(md), ..g }
    }
}

/// Which arm of the root dispatch a child tag selects, with the
/// version gates the grammar puts on each.
pub open spec fn gpx_branch(name: Seq<char>, version: GpxVersion) -> int {
    if name == "metadata"@ && version != GpxVersion::Gpx10 {
        0
    } else if name == "trk"@ {
        1
    } else if name == "rte"@ {
        2
    } else if name == "wpt"@ {
        3
    } else if name == "time"@ && version == GpxVersion::Gpx10 {
        4
    } else if name == "bounds"@ && version == GpxVersion::Gpx10 {
        5
    } else if name == "author"@ && version == GpxVersion::Gpx10 {
        6
    } else if name == "email"@ && version == GpxVersion::Gpx10 {
        7
    } else if name == "url"@ && version == GpxVersion::Gpx10 {
        8
    } else if name == "urlname"@ && version == GpxVersion::Gpx10 {
        9
    } else if name == "name"@ && version == GpxVersion::Gpx10 {
        10
    } else if name == "desc"@ && version == GpxVersion::Gpx10 {
        11
    } else if name == "keywords"@ && version == GpxVersion::Gpx10 {
        12
    } else if name == "extensions"@ {
        13
    } else {
        14
    }
}

/// The cursor stands on an element-open whose tag selects arm `k`.
pub open spec fn gpx_at_branch(ctx: Context, k: int) -> bool {
    &&& ctx.pos < ctx.events.len()
    &&& (ctx.events.deep_view()[ctx.pos as int] matches EventS::Open { name, .. } && gpx_branch(
        name,
        ctx.version,
    ) == k)
}

/// The children of the root element: the version-independent lists, the
/// 1.1 metadata element, and the flattened 1.0 fields.
#[verifier::opaque]
pub open spec fn p_gpx_body(
    evs: Seq<EventS>,
    p: int,
    version: GpxVersion,
    g: GpxS,
    sc: GpxScratchS,
) -> PStep<GpxS>
    decreases evs.len() - p, 1int,
{
    if p < 0 || p >= evs.len() {
        PStep::Fail(ErrS::MissingClosingTag("gpx"@))
    } else {
        match evs[p] {
            EventS::Open { name, .. } => {
                if name == "metadata"@ && version != GpxVersion::Gpx10 {
                    match p_metadata(evs, p) {
                        PStep::Took(v, used) => p_gpx_next(
                            evs,
                            p,
                            used,
                            version,
                            GpxS { metadata: Some(v), ..g },
                            sc,
                        ),
                        PStep::Fail(e) => PStep::Fail(e),
                    }
                } else if name == "trk"@ {
                    match p_track(evs, p, version) {
                        PStep::Took(v, used) => p_gpx_next(
                            evs,
                            p,
                            used,
                            version,
                            GpxS { tracks: g.tracks.push(v), ..g },
                            sc,
                        ),
                        PStep::Fail(e) => PStep::Fail(e),
                    }
                } else if name == "rte"@ {
                    match p_route(evs, p, version) {
                        PStep::Took(v, used) => p_gpx_next(
                            evs,
                            p,
                            used,
                            version,
                            GpxS { routes: g.routes.push(v), ..g },
                            sc,
                        ),
                        PStep::Fail(e) => PStep::Fail(e),
                    }
                } else if name == "wpt"@ {
                    match p_waypoint(evs, p, "wpt"@, version) {
                        PStep::Took(v, used) => p_gpx_next(
                            evs,
                            p,
                            used,
                            version,
                            GpxS { waypoints: g.waypoints.push(v), ..g },
                            sc,
                        ),
                        PStep::Fail(e) => PStep::Fail(e),
                    }
                } else if name == "time"@ && version == GpxVersion::Gpx10 {
                    match p_time(evs, p) {
                        PStep::Took(v, used) => p_gpx_next(
                            evs,
                            p,
                            used,
                            version,
                            g,
                            GpxScratchS { time: Some(v), ..sc },
                        ),
                        PStep::Fail(e) => PStep::Fail(e),
                    }
                } else if name == "bounds"@ && version == GpxVersion::Gpx10 {
                    match p_bounds(evs, p) {
                        PStep::Took(v, used) => p_gpx_next(
                            evs,
                            p,
                            used,
                            version,
                            g,
                            GpxScratchS { bounds: Some(v), ..sc },
                        ),
                        PStep::Fail(e) => PStep::Fail(e),
                    }
                } else if name == "author"@ && version == GpxVersion::Gpx10 {
                    match p_string(evs, p, "author"@, false) {
                        PStep::Took(v, used) => p_gpx_next(
                            evs,
                            p,
                            used,
                            version,
                            g,
                            GpxScratchS { author: Some(v), ..sc },
                        ),
                        PStep::Fail(e) => PStep::Fail(e),
                    }
                } else if name == "email"@ && version == GpxVersion::Gpx10 {
                    match p_string(evs, p, "email"@, false) {
                        PStep::Took(v, used) => p_gpx_next(
                            evs,
                            p,
                            used,
                            version,
                            g,
                            GpxScratchS { email: Some(v), ..sc },
                        ),
                        PStep::Fail(e) => PStep::Fail(e),
                    }
                } else if name == "url"@ && version == GpxVersion::Gpx10 {
                    match p_string(evs, p, "url"@, false) {
                        PStep::Took(v, used) => p_gpx_next(
                            evs,
                            p,
                            used,
                            version,
                            g,
                            GpxScratchS { url: Some(v), ..sc },
                        ),
                        PStep::Fail(e) => PStep::Fail(e),
                    }
                } else if name == "urlname"@ && version == GpxVersion::Gpx10 {
                    match p_string(evs, p, "urlname"@, false) {
                        PStep::Took(v, used) => p_gpx_next(
                            evs,
                            p,
                            used,
                            version,
                            g,
                            GpxScratchS { urlname: Some(v), ..sc },
                        ),
                        PStep::Fail(e) => PStep::Fail(e),
                    }
                } else if name == "name"@ && version == GpxVersion::Gpx10 {
                    match p_string(evs, p, "name"@, false) {
                        PStep::Took(v, used) => p_gpx_next(
                            evs,
                            p,
                            used,
                            version,
                            g,
                            GpxScratchS { gpx_name: Some(v), ..sc },
                        ),
                        PStep::Fail(e) => PStep::Fail(e),
                    }
                } else if name == "desc"@ && version == GpxVersion::Gpx10 {
                    match p_string(evs, p, "desc"@, true) {
                        PStep::Took(v, used) => p_gpx_next(
                            evs,
                            p,
                            used,
                            version,
                            g,
                            GpxScratchS { description: Some(v), ..sc },
                        ),
                        PStep::Fail(e) => PStep::Fail(e),
                    }
                } else if name == "keywords"@ && version == GpxVersion::Gpx10 {
                    match p_string(evs, p, "keywords"@, true) {
                        PStep::Took(v, used) => p_gpx_next(
                            evs,
                            p,
                            used,
                            version,
                            g,
                            GpxScratchS { keywords: Some(v), ..sc },
                        ),
                        PStep::Fail(e) => PStep::Fail(e),
                    }
                } else if name == "extensions"@ {
                    match p_extensions(evs, p) {
                        PStep::Took(_, used) => p_gpx_next(evs, p, used, version, g, sc),
                        PStep::Fail(e) => PStep::Fail(e),
                    }
                } else {
                    PStep::Fail(ErrS::InvalidChildElement(name, "gpx"@))
                }
            },
            EventS::Close { name } => {
                if name != "gpx"@ {
                    PStep::Fail(ErrS::InvalidClosingTag(name, "gpx"@))
                } else if g.version == GpxVersion::Gpx10 {
                    PStep::Took(synth_gpx10(g, sc), 1)
                } else {
                    PStep::Took(g, 1)
                }
            },
            EventS::Text { .. } => {
                match p_gpx_body(evs, p + 1, version, g, sc) {
                    PStep::Took(l, u2) => PStep::Took(l, (u2 + 1) as nat),
                    PStep::Fail(e) => PStep::Fail(e),
                }
            },
            EventS::Failure => PStep::Fail(ErrS::EventParsingError("Expecting an event"@)),
        }
    }
}

/// The loop's continuation after one consumed child; every child
/// consumes at least one event, so a zero count never arises.
pub open spec fn p_gpx_next(
    evs: Seq<EventS>,
    p: int,
    used: nat,
    version: GpxVersion,
    g: GpxS,
    sc: GpxScratchS,
) -> PStep<GpxS>
    decreases evs.len() - p, 0int,
{
    if used < 1 || p + used > evs.len() {
        PStep::Fail(ErrS::XmlParseError)
    } else {
        match p_gpx_body(evs, p + used, version, g, sc) {
            PStep::Took(l, u2) => PStep::Took(l, (used + u2) as nat),
            PStep::Fail(e) => PStep::Fail(e),
        }
    }
}

/// One whole document: the root tag with its `version` and `creator`
/// attributes, then the children under the detected version's grammar.
#[verifier::opaque]
pub open spec fn p_gpx(evs: Seq<EventS>, p: int) -> PStep<GpxS> {
    match p_verify_starting_tag(evs, p, "gpx"@) {
        PStep::Took(attrs, used0) => {
            match find_attr(attrs, "version"@) {
                None => PStep::Fail(ErrS::InvalidElementLacksAttribute("version"@, "gpx"@)),
                Some(vs) => {
                    if version_of_text(vs) == GpxVersion::Unknown {
                        PStep::Fail(ErrS::UnknownVersionError(GpxVersion::Unknown))
                    } else {
                        let g = GpxS {
                            version: version_of_text(vs),
                            creator: find_attr(attrs, "creator"@),
                            metadata: None,
                            waypoints: Seq::<WaypointS>::empty(),
                            tracks: Seq::<TrackS>::empty(),
                            routes: Seq::<RouteS>::empty(),
                        };
                        match p_gpx_body(evs, p + used0, version_of_text(vs), g, scratch_empty()) {
                            PStep::Took(l, used) => PStep::Took(l, (used0 + used) as nat),
                            PStep::Fail(e) => PStep::Fail(e),
                        }
                    }
                },
            }
        },
        PStep::Fail(e) => PStep::Fail(e),
    }
}

/// Convert the version string to the version enum.
fn version_string_to_version(version_str: &str) -> (r: GpxResult<GpxVersion>)
    ensures
        version_of_text(version_str@) != GpxVersion::Unknown ==> r == GpxResult::<
            GpxVersion,
        >::Ok(version_of_text(version_str@)),
        version_of_text(version_str@) == GpxVersion::Unknown ==> r == GpxResult::<
            GpxVersion,
        >::Err(GpxError::UnknownVersionError(GpxVersion::Unknown)),
{
    if str_eq(version_str, "1.0") {
        Ok(GpxVersion::Gpx10)
    } else if str_eq(version_str, "1.1") {
        Ok(GpxVersion::Gpx11)
    } else {
        Err(GpxError::UnknownVersionError(GpxVersion::Unknown))
    }
}

/// consume consumes an entire GPX document and detects its version,
/// which every version-gated consumer below reads.
pub fn consume(context: &mut Context) -> (r: GpxResult<Gpx>)
    requires
        old(context).pos <= old(context).events.len(),
    ensures
        final(context).events == old(context).events,
        final(context).pos >= old(context).pos,
        final(context).pos <= final(context).events.len(),
        consumed_to::<Gpx>(
            p_gpx(old(context).events.deep_view(), old(context).pos as int),
            r,
            old(context).pos as int,
            final(context).pos as int,
        ),
{
    proof {
        reveal_with_fuel(p_gpx, 1);
    }
    let attributes = match verify_starting_tag(context, "gpx") {
        Ok(a) => a,
        Err(e) => {
            return Err(e);
        },
    };
    let version_attr = match find_attribute(&attributes, "version") {
        Some(v) => v,
        None => {
            return Err(GpxError::InvalidElementLacksAttribute("version", "gpx"));
        },
    };
    let version = match version_string_to_version(version_attr.as_str()) {
        Ok(v) => v,
        Err(e) => {
            return Err(e);
        },
    };
    let creator = find_attribute(&attributes, "creator");
    context.version = version;
    let acc = Gpx {
        version,
        creator,
        metadata: None,
        waypoints: Vec::new(),
        tracks: Vec::new(),
        routes: Vec::new(),
    };
    proof {
        assert(acc.waypoints.deep_view() =~= Seq::<WaypointS>::empty());
        assert(acc.tracks.deep_view() =~= Seq::<TrackS>::empty());
        assert(acc.routes.deep_view() =~= Seq::<RouteS>::empty());
    }
    let scratch = GpxScratch {
        author: None,
        email: None,
        url: None,
        urlname: None,
        gpx_name: None,
        description: None,
        keywords: None,
        time: None,
        bounds: None,
    };
    consume_body(context, acc, scratch)
}

#[verifier::rlimit(100)]
fn consume_body(context: &mut Context, acc: Gpx, scratch: GpxScratch) -> (r: GpxResult<Gpx>)
    requires
        old(context).pos <= old(context).events.len(),
    ensures
        consume_post::<Gpx>(
            p_gpx_body(
                old(context).events.deep_view(),
                old(context).pos as int,
                old(context).version,
                acc.deep_view(),
                scratch.deep_view(),
            ),
            *old(context),
            *final(context),
            r,
        ),
        r matches Ok(_) ==> final(context).pos > old(context).pos,
    decreases context.events.len() - context.pos, 1int,
{
    proof {
        reveal_with_fuel(p_gpx_body, 2);
    }
    let ghost evs = context.events.deep_view();
    let ghost p0 = context.pos as int;
    let pk = match peek_event(context) {
        Some(pk) => pk,
        None => {
            return Err(GpxError::MissingClosingTag("gpx"));
        },
    };
    match pk {
        Peeked::Open(name) => {
            if str_eq(name.as_str(), "metadata") && !(context.version == GpxVersion::Gpx10) {
                gx_metadata(context, acc, scratch)
            } else if str_eq(name.as_str(), "trk") {
                gx_trk(context, acc, scratch)
            } else if str_eq(name.as_str(), "rte") {
                gx_rte(context, acc, scratch)
            } else if str_eq(name.as_str(), "wpt") {
                gx_wpt(context, acc, scratch)
            } else if str_eq(name.as_str(), "time") && context.version == GpxVersion::Gpx10 {
                gx_time(context, acc, scratch)
            } else if str_eq(name.as_str(), "bounds") && context.version == GpxVersion::Gpx10 {
                gx_bounds(context, acc, scratch)
            } else if str_eq(name.as_str(), "author") && context.version == GpxVersion::Gpx10 {
                gx_author(context, acc, scratch)
            } else if str_eq(name.as_str(), "email") && context.version == GpxVersion::Gpx10 {
                gx_email(context, acc, scratch)
            } else if str_eq(name.as_str(), "url") && context.version == GpxVersion::Gpx10 {
                gx_url(context, acc, scratch)
            } else if str_eq(name.as_str(), "urlname") && context.version == GpxVersion::Gpx10 {
                gx_urlname(context, acc, scratch)
            } else if str_eq(name.as_str(), "name") && context.version == GpxVersion::Gpx10 {
                gx_name(context, acc, scratch)
            } else if str_eq(name.as_str(), "desc") && context.version == GpxVersion::Gpx10 {
                gx_desc(context, acc, scratch)
            } else if str_eq(name.as_str(), "keywords") && context.version == GpxVersion::Gpx10 {
                gx_keywords(context, acc, scratch)
            } else if str_eq(name.as_str(), "extensions") {
                gx_extensions(context, acc, scratch)
            } else {
                Err(GpxError::InvalidChildElement(name, "gpx"))
            }
        },
        Peeked::Close(name) => {
            if !str_eq(name.as_str(), "gpx") {
                Err(GpxError::InvalidClosingTag(name, "gpx"))
            } else if acc.version == GpxVersion::Gpx10 {
                context.pos += 1;
                let doc = reconcile_gpx10(acc, scratch);
                Ok(doc)
            } else {
                context.pos += 1;
                Ok(acc)
            }
        },
        Peeked::Text(_) => {
            context.pos += 1;
            consume_body(context, acc, scratch)
        },
        Peeked::Failure => Err(GpxError::EventParsingError("Expecting an event")),
    }
}

/// Rebuilds the GPX 1.0 metadata from the gathered fields, per
/// `synth_gpx10`.
fn reconcile_gpx10(acc: Gpx, scratch: GpxScratch) -> (r: Gpx)
    ensures
        r.deep_view() == synth_gpx10(acc.deep_view(), scratch.deep_view()),
{
    let link = match scratch.url {
        Some(u) => Some(Link { href: u, text: scratch.urlname, _type: None }),
        None => None,
    };
    let person = Person { name: scratch.author, email: scratch.email, link };
    let has_person = person.name.is_some() || person.email.is_some() || person.link.is_some();
    let author = if has_person {
        Some(person)
    } else {
        None
    };
    let md = Metadata {
        name: scratch.gpx_name,
        description: scratch.description,
        author,
        links: Vec::new(),
        time: scratch.time,
        keywords: scratch.keywords,
        copyright: None,
        bounds: scratch.bounds,
    };
    proof {
        assert(md.links.deep_view() =~= Seq::<LinkS>::empty());
    }
    let has_md = md.name.is_some() || md.description.is_some() || md.author.is_some()
        || md.time.is_some() || md.keywords.is_some() || md.bounds.is_some();
    if has_md {
        Gpx { metadata: Some(md), ..acc }
    } else {
        acc
    }
}

#[verifier::rlimit(100)]
fn gx_metadata(context: &mut Context, acc: Gpx, scratch: GpxScratch) -> (r: GpxResult<Gpx>)
    requires
        gpx_at_branch(*old(context), 0),
    ensures
        consume_post::<Gpx>(
            p_gpx_body(
                old(context).events.deep_view(),
                old(context).pos as int,
                old(context).version,
                acc.deep_view(),
                scratch.deep_view(),
            ),
            *old(context),
            *final(context),
            r,
        ),
        r matches Ok(_) ==> final(context).pos > old(context).pos,
    decreases context.events.len() - context.pos, 0int,
{
    proof {
        reveal_with_fuel(p_gpx_body, 2);
    }
    let ghost evs = context.events.deep_view();
    let ghost p0 = context.pos as int;
    match crate::parser::metadata::consume(context) {
        Ok(v) => consume_body(context, Gpx { metadata: Some(v), ..acc }, scratch),
        Err(e) => Err(e),
    }
}


#[verifier::rlimit(100)]
fn gx_trk(context: &mut Context, acc: Gpx, scratch: GpxScratch) -> (r: GpxResult<Gpx>)
    requires
        gpx_at_branch(*old(context), 1),
    ensures
        consume_post::<Gpx>(
            p_gpx_body(
                old(context).events.deep_view(),
                old(context).pos as int,
                old(context).version,
                acc.deep_view(),
                scratch.deep_view(),
            ),
            *old(context),
            *final(context),
            r,
        ),
        r matches Ok(_) ==> final(context).pos > old(context).pos,
    decreases context.events.len() - context.pos, 0int,
{
    proof {
        reveal_with_fuel(p_gpx_body, 2);
    }
    let ghost evs = context.events.deep_view();
    let ghost p0 = context.pos as int;
    match crate::parser::track::consume(context) {
        Ok(v) => {
            let ghost a0 = acc.deep_view();
            let ghost v0 = v.deep_view();
            let mut acc = acc;
            acc.tracks.push(v);
            proof {
                assert(acc.tracks.deep_view() =~= a0.tracks.push(v0));
                assert(acc.deep_view() == (GpxS { tracks: a0.tracks.push(v0), ..a0 }));
            }
            consume_body(context, acc, scratch)
        },
        Err(e) => Err(e),
    }
}


#[verifier::rlimit(100)]
fn gx_rte(context: &mut Context, acc: Gpx, scratch: GpxScratch) -> (r: GpxResult<Gpx>)
    requires
        gpx_at_branch(*old(context), 2),
    ensures
        consume_post::<Gpx>(
            p_gpx_body(
                old(context).events.deep_view(),
                old(context).pos as int,
                old(context).version,
                acc.deep_view(),
                scratch.deep_view(),
            ),
            *old(context),
            *final(context),
            r,
        ),
        r matches Ok(_) ==> final(context).pos > old(context).pos,
    decreases context.events.len() - context.pos, 0int,
{
    proof {
        reveal_with_fuel(p_gpx_body, 2);
    }
    let ghost evs = context.events.deep_view();
    let ghost p0 = context.pos as int;
    match crate::parser::route::consume(context) {
        Ok(v) => {
            let ghost a0 = acc.deep_view();
            let ghost v0 = v.deep_view();
            let mut acc = acc;
            acc.routes.push(v);
            proof {
                assert(acc.routes.deep_view() =~= a0.routes.push(v0));
                assert(acc.deep_view() == (GpxS { routes: a0.routes.push(v0), ..a0 }));
            }
            consume_body(context, acc, scratch)
        },
        Err(e) => Err(e),
    }
}


#[verifier::rlimit(100)]
fn gx_wpt(context: &mut Context, acc: Gpx, scratch: GpxScratch) -> (r: GpxResult<Gpx>)
    requires
        gpx_at_branch(*old(context), 3),
    ensures
        consume_post::<Gpx>(
            p_gpx_body(
                old(context).events.deep_view(),
                old(context).pos as int,
                old(context).version,
                acc.deep_view(),
                scratch.deep_view(),
            ),
            *old(context),
            *final(context),
            r,
        ),
        r matches Ok(_) ==> final(context).pos > old(context).pos,
    decreases context.events.len() - context.pos, 0int,
{
    proof {
        reveal_with_fuel(p_gpx_body, 2);
    }
    let ghost evs = context.events.deep_view();
    let ghost p0 = context.pos as int;
    match crate::parser::waypoint::consume(context, "wpt") {
        Ok(v) => {
            let ghost a0 = acc.deep_view();
            let ghost v0 = v.deep_view();
            let mut acc = acc;
            acc.waypoints.push(v);
            proof {
                assert(acc.waypoints.deep_view() =~= a0.waypoints.push(v0));
                assert(acc.deep_view() == (GpxS { waypoints: a0.waypoints.push(v0), ..a0 }));
            }
            consume_body(context, acc, scratch)
        },
        Err(e) => Err(e),
    }
}


#[verifier::rlimit(100)]
fn gx_time(context: &mut Context, acc: Gpx, scratch: GpxScratch) -> (r: GpxResult<Gpx>)
    requires
        gpx_at_branch(*old(context), 4),
    ensures
        consume_post::<Gpx>(
            p_gpx_body(
                old(context).events.deep_view(),
                old(context).pos as int,
                old(context).version,
                acc.deep_view(),
                scratch.deep_view(),
            ),
            *old(context),
            *final(context),
            r,
        ),
        r matches Ok(_) ==> final(context).pos > old(context).pos,
    decreases context.events.len() - context.pos, 0int,
{
    proof {
        reveal_with_fuel(p_gpx_body, 2);
    }
    let ghost evs = context.events.deep_view();
    let ghost p0 = context.pos as int;
    match crate::parser::time::consume(context) {
        Ok(v) => consume_body(context, acc, GpxScratch { time: Some(v), ..scratch }),
        Err(e) => Err(e),
    }
}


#[verifier::rlimit(100)]
fn gx_bounds(context: &mut Context, acc: Gpx, scratch: GpxScratch) -> (r: GpxResult<Gpx>)
    requires
        gpx_at_branch(*old(context), 5),
    ensures
        consume_post::<Gpx>(
            p_gpx_body(
                old(context).events.deep_view(),
                old(context).pos as int,
                old(context).version,
                acc.deep_view(),
                scratch.deep_view(),
            ),
            *old(context),
            *final(context),
            r,
        ),
        r matches Ok(_) ==> final(context).pos > old(context).pos,
    decreases context.events.len() - context.pos, 0int,
{
    proof {
        reveal_with_fuel(p_gpx_body, 2);
    }
    let ghost evs = context.events.deep_view();
    let ghost p0 = context.pos as int;
    match crate::parser::bounds::consume(context) {
        Ok(v) => consume_body(context, acc, GpxScratch { bounds: Some(v), ..scratch }),
        Err(e) => Err(e),
    }
}


#[verifier::rlimit(100)]
fn gx_author(context: &mut Context, acc: Gpx, scratch: GpxScratch) -> (r: GpxResult<Gpx>)
    requires
        gpx_at_branch(*old(context), 6),
    ensures
        consume_post::<Gpx>(
            p_gpx_body(
                old(context).events.deep_view(),
                old(context).pos as int,
                old(context).version,
                acc.deep_view(),
                scratch.deep_view(),
            ),
            *old(context),
            *final(context),
            r,
        ),
        r matches Ok(_) ==> final(context).pos > old(context).pos,
    decreases context.events.len() - context.pos, 0int,
{
    proof {
        reveal_with_fuel(p_gpx_body, 2);
    }
    let ghost evs = context.events.deep_view();
    let ghost p0 = context.pos as int;
    match crate::parser::string::consume(context, "author", false) {
        Ok(v) => consume_body(context, acc, GpxScratch { author: Some(v), ..scratch }),
        Err(e) => Err(e),
    }
}


#[verifier::rlimit(100)]
fn gx_email(context: &mut Context, acc: Gpx, scratch: GpxScratch) -> (r: GpxResult<Gpx>)
    requires
        gpx_at_branch(*old(context), 7),
    ensures
        consume_post::<Gpx>(
            p_gpx_body(
                old(context).events.deep_view(),
                old(context).pos as int,
                old(context).version,
                acc.deep_view(),
                scratch.deep_view(),
            ),
            *old(context),
            *final(context),
            r,
        ),
        r matches Ok(_) ==> final(context).pos > old(context).pos,
    decreases context.events.len() - context.pos, 0int,
{
    proof {
        reveal_with_fuel(p_gpx_body, 2);
    }
    let ghost evs = context.events.deep_view();
    let ghost p0 = context.pos as int;
    match crate::parser::string::consume(context, "email", false) {
        Ok(v) => consume_body(context, acc, GpxScratch { email: Some(v), ..scratch }),
        Err(e) => Err(e),
    }
}


#[verifier::rlimit(100)]
fn gx_url(context: &mut Context, acc: Gpx, scratch: GpxScratch) -> (r: GpxResult<Gpx>)
    requires
        gpx_at_branch(*old(context), 8),
    ensures
        consume_post::<Gpx>(
            p_gpx_body(
                old(context).events.deep_view(),
                old(context).pos as int,
                old(context).version,
                acc.deep_view(),
                scratch.deep_view(),
            ),
            *old(context),
            *final(context),
            r,
        ),
        r matches Ok(_) ==> final(context).pos > old(context).pos,
    decreases context.events.len() - context.pos, 0int,
{
    proof {
        reveal_with_fuel(p_gpx_body, 2);
    }
    let ghost evs = context.events.deep_view();
    let ghost p0 = context.pos as int;
    match crate::parser::string::consume(context, "url", false) {
        Ok(v) => consume_body(context, acc, GpxScratch { url: Some(v), ..scratch }),
        Err(e) => Err(e),
    }
}


#[verifier::rlimit(100)]
fn gx_urlname(context: &mut Context, acc: Gpx, scratch: GpxScratch) -> (r: GpxResult<Gpx>)
    requires
        gpx_at_branch(*old(context), 9),
    ensures
        consume_post::<Gpx>(
            p_gpx_body(
                old(context).events.deep_view(),
                old(context).pos as int,
                old(context).version,
                acc.deep_view(),
                scratch.deep_view(),
            ),
            *old(context),
            *final(context),
            r,
        ),
        r matches Ok(_) ==> final(context).pos > old(context).pos,
    decreases context.events.len() - context.pos, 0int,
{
    proof {
        reveal_with_fuel(p_gpx_body, 2);
    }
    let ghost evs = context.events.deep_view();
    let ghost p0 = context.pos as int;
    match crate::parser::string::consume(context, "urlname", false) {
        Ok(v) => consume_body(context, acc, GpxScratch { urlname: Some(v), ..scratch }),
        Err(e) => Err(e),
    }
}


#[verifier::rlimit(100)]
fn gx_name(context: &mut Context, acc: Gpx, scratch: GpxScratch) -> (r: GpxResult<Gpx>)
    requires
        gpx_at_branch(*old(context), 10),
    ensures
        consume_post::<Gpx>(
            p_gpx_body(
                old(context).events.deep_view(),
                old(context).pos as int,
                old(context).version,
                acc.deep_view(),
                scratch.deep_view(),
            ),
            *old(context),
            *final(context),
            r,
        ),
        r matches Ok(_) ==> final(context).pos > old(context).pos,
    decreases context.events.len() - context.pos, 0int,
{
    proof {
        reveal_with_fuel(p_gpx_body, 2);
    }
    let ghost evs = context.events.deep_view();
    let ghost p0 = context.pos as int;
    match crate::parser::string::consume(context, "name", false) {
        Ok(v) => consume_body(context, acc, GpxScratch { gpx_name: Some(v), ..scratch }),
        Err(e) => Err(e),
    }
}


#[verifier::rlimit(100)]
fn gx_desc(context: &mut Context, acc: Gpx, scratch: GpxScratch) -> (r: GpxResult<Gpx>)
    requires
        gpx_at_branch(*old(context), 11),
    ensures
        consume_post::<Gpx>(
            p_gpx_body(
                old(context).events.deep_view(),
                old(context).pos as int,
                old(context).version,
                acc.deep_view(),
                scratch.deep_view(),
            ),
            *old(context),
            *final(context),
            r,
        ),
        r matches Ok(_) ==> final(context).pos > old(context).pos,
    decreases context.events.len() - context.pos, 0int,
{
    proof {
        reveal_with_fuel(p_gpx_body, 2);
    }
    let ghost evs = context.events.deep_view();
    let ghost p0 = context.pos as int;
    match crate::parser::string::consume(context, "desc", true) {
        Ok(v) => consume_body(context, acc, GpxScratch { description: Some(v), ..scratch }),
        Err(e) => Err(e),
    }
}


#[verifier::rlimit(100)]
fn gx_keywords(context: &mut Context, acc: Gpx, scratch: GpxScratch) -> (r: GpxResult<Gpx>)
    requires
        gpx_at_branch(*old(context), 12),
    ensures
        consume_post::<Gpx>(
            p_gpx_body(
                old(context).events.deep_view(),
                old(context).pos as int,
                old(context).version,
                acc.deep_view(),
                scratch.deep_view(),
            ),
            *old(context),
            *final(context),
            r,
        ),
        r matches Ok(_) ==> final(context).pos > old(context).pos,
    decreases context.events.len() - context.pos, 0int,
{
    proof {
        reveal_with_fuel(p_gpx_body, 2);
    }
    let ghost evs = context.events.deep_view();
    let ghost p0 = context.pos as int;
    match crate::parser::string::consume(context, "keywords", true) {
        Ok(v) => consume_body(context, acc, GpxScratch { keywords: Some(v), ..scratch }),
        Err(e) => Err(e),
    }
}


#[verifier::rlimit(100)]
fn gx_extensions(context: &mut Context, acc: Gpx, scratch: GpxScratch) -> (r: GpxResult<Gpx>)
    requires
        gpx_at_branch(*old(context), 13),
    ensures
        consume_post::<Gpx>(
            p_gpx_body(
                old(context).events.deep_view(),
                old(context).pos as int,
                old(context).version,
                acc.deep_view(),
                scratch.deep_view(),
            ),
            *old(context),
            *final(context),
            r,
        ),
        r matches Ok(_) ==> final(context).pos > old(context).pos,
    decreases context.events.len() - context.pos, 0int,
{
    proof {
        reveal_with_fuel(p_gpx_body, 2);
    }
    let ghost evs = context.events.deep_view();
    let ghost p0 = context.pos as int;
    match crate::parser::extensions::consume(context) {
        Ok(_) => consume_body(context, acc, scratch),
        Err(e) => Err(e),
    }
}


} // verus!
