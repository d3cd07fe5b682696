//! generic types for GPX: the in-memory document model the parser fills
//! in and the writer reads from, together with the mathematical model of
//! each type.

use vstd::prelude::*;

use crate::decimal::{dec_le, dec_wf, Decimal, DecimalS};
use crate::parser::time::{time_wf, Time};

verus! {

/// The two GPX schema generations, plus the state before a document's
/// `version` attribute has been read.
#[derive(Clone, Copy, Debug, PartialEq, Eq, Structural)]
pub enum GpxVersion {
    Unknown,
    Gpx10,
    Gpx11,
}

impl Default for GpxVersion {
    fn default() -> (r: GpxVersion)
        ensures
            r == GpxVersion::Unknown,
    {
        GpxVersion::Unknown
    }
}

/// A geographical point: `x` is the longitude, `y` the latitude, in
/// degrees.
#[derive(Clone, Debug, PartialEq)]
pub struct Point {
    pub x: Decimal,
    pub y: Decimal,
}

/// The mathematical model of a `Point`.
pub struct PointS {
    pub x: DecimalS,
    pub y: DecimalS,
}

impl DeepView for Point {
    type V = PointS;

    open spec fn deep_view(&self) -> PointS {
        PointS { x: self.x.deep_view(), y: self.y.deep_view() }
    }
}

impl Point {
    /// A point from longitude `x` and latitude `y`.
    pub fn new(x: Decimal, y: Decimal) -> (r: Point)
        ensures
            r.deep_view() == (PointS { x: x.deep_view(), y: y.deep_view() }),
    {
        Point { x, y }
    }

    /// Longitude of the point.
    pub fn x(&self) -> (r: Decimal)
        ensures
            r.deep_view() == self.deep_view().x,
    {
        self.x.clone_dec()
    }

    /// Latitude of the point.
    pub fn y(&self) -> (r: Decimal)
        ensures
            r.deep_view() == self.deep_view().y,
    {
        self.y.clone_dec()
    }

    /// Longitude of the point.
    pub fn lng(&self) -> (r: Decimal)
        ensures
            r.deep_view() == self.deep_view().x,
    {
        self.x.clone_dec()
    }

    /// Latitude of the point.
    pub fn lat(&self) -> (r: Decimal)
        ensures
            r.deep_view() == self.deep_view().y,
    {
        self.y.clone_dec()
    }
}

pub open spec fn point_wf(p: PointS) -> bool {
    dec_wf(p.x) && dec_wf(p.y)
}

/// A rectangle of geographic bounds; the invariant that each minimum
/// stays at or under its maximum is checked before construction.
#[derive(Clone, Debug, PartialEq)]
pub struct Rect {
    pub min: Point,
    pub max: Point,
}

/// The mathematical model of a `Rect`.
pub struct RectS {
    pub min: PointS,
    pub max: PointS,
}

impl DeepView for Rect {
    type V = RectS;

    open spec fn deep_view(&self) -> RectS {
        RectS { min: self.min.deep_view(), max: self.max.deep_view() }
    }
}

impl Rect {
    /// The corner with the smaller coordinates.
    pub fn min(&self) -> (r: Point)
        ensures
            r.deep_view() == self.deep_view().min,
    {
        Point { x: self.min.x.clone_dec(), y: self.min.y.clone_dec() }
    }

    /// The corner with the larger coordinates.
    pub fn max(&self) -> (r: Point)
        ensures
            r.deep_view() == self.deep_view().max,
    {
        Point { x: self.max.x.clone_dec(), y: self.max.y.clone_dec() }
    }
}

pub open spec fn rect_wf(r: RectS) -> bool {
    &&& point_wf(r.min)
    &&& point_wf(r.max)
    &&& dec_le(r.min.x, r.max.x)
    &&& dec_le(r.min.y, r.max.y)
}

/// Link represents a link to an external resource: a required URL and
/// an optional display text and MIME type.
#[derive(Clone, Debug, PartialEq)]
pub struct Link {
    pub href: String,
    pub text: Option<String>,
    pub _type: Option<String>,
}

/// The mathematical model of a `Link`.
pub struct LinkS {
    pub href: Seq<char>,
    pub text: Option<Seq<char>>,
    pub _type: Option<Seq<char>>,
}

impl DeepView for Link {
    type V = LinkS;

    open spec fn deep_view(&self) -> LinkS {
        LinkS { href: self.href@, text: self.text.deep_view(), _type: self._type.deep_view() }
    }
}

pub open spec fn link_empty() -> LinkS {
    LinkS { href: Seq::<char>::empty(), text: None, _type: None }
}

impl Default for Link {
    fn default() -> (r: Link)
        ensures
            r.deep_view() == link_empty(),
    {
        Link { href: String::new(), text: None, _type: None }
    }
}

/// Person represents a person or organization: an optional name, email
/// address and link.
#[derive(Clone, Debug, PartialEq)]
pub struct Person {
    pub name: Option<String>,
    pub email: Option<String>,
    pub link: Option<Link>,
}

/// The mathematical model of a `Person`.
pub struct PersonS {
    pub name: Option<Seq<char>>,
    pub email: Option<Seq<char>>,
    pub link: Option<LinkS>,
}

impl DeepView for Person {
    type V = PersonS;

    open spec fn deep_view(&self) -> PersonS {
        PersonS {
            name: self.name.deep_view(),
            email: self.email.deep_view(),
            link: self.link.deep_view(),
        }
    }
}

pub open spec fn person_empty() -> PersonS {
    PersonS { name: None, email: None, link: None }
}

impl Default for Person {
    fn default() -> (r: Person)
        ensures
            r.deep_view() == person_empty(),
    {
        Person { name: None, email: None, link: None }
    }
}

/// Information about the copyright holder and any license governing use
/// of a file.
#[derive(Clone, Debug, PartialEq)]
pub struct GpxCopyright {
    pub author: Option<String>,
    pub year: Option<i32>,
    pub license: Option<String>,
}

/// The mathematical model of a `GpxCopyright`.
pub struct CopyrightS {
    pub author: Option<Seq<char>>,
    pub year: Option<i32>,
    pub license: Option<Seq<char>>,
}

impl DeepView for GpxCopyright {
    type V = CopyrightS;

    open spec fn deep_view(&self) -> CopyrightS {
        CopyrightS {
            author: self.author.deep_view(),
            year: self.year,
            license: self.license.deep_view(),
        }
    }
}

pub open spec fn copyright_empty() -> CopyrightS {
    CopyrightS { author: None, year: None, license: None }
}

impl Default for GpxCopyright {
    fn default() -> (r: GpxCopyright)
        ensures
            r.deep_view() == copyright_empty(),
    {
        GpxCopyright { author: None, year: None, license: None }
    }
}

/// Type of the GPS fix: the five classified kinds, or any other value
/// carried through unchanged.
#[derive(Clone, Debug, PartialEq)]
pub enum Fix {
    /// The GPS had no fix.
    NoFix,
    /// 2D fix: longitude and latitude only.
    TwoDimensional,
    /// 3D fix: longitude, latitude and altitude.
    ThreeDimensional,
    /// Differential Global Positioning System.
    DGPS,
    /// Military signal.
    PPS,
    /// A value outside the classification, kept as written.
    Other(String),
}

/// The mathematical model of a `Fix`.
pub enum FixS {
    NoFix,
    TwoDimensional,
    ThreeDimensional,
    DGPS,
    PPS,
    Other(Seq<char>),
}

impl DeepView for Fix {
    type V = FixS;

    open spec fn deep_view(&self) -> FixS {
        match self {
            Fix::NoFix => FixS::NoFix,
            Fix::TwoDimensional => FixS::TwoDimensional,
            Fix::ThreeDimensional => FixS::ThreeDimensional,
            Fix::DGPS => FixS::DGPS,
            Fix::PPS => FixS::PPS,
            Fix::Other(s) => FixS::Other(s@),
        }
    }
}

/// Waypoint represents a waypoint, point of interest, or named feature
/// on a map: a required geographical point and the optional fields the
/// schema allows on a point.
#[derive(Clone, Debug, PartialEq)]
pub struct Waypoint {
    /// The geographical point.
    pub point: Point,
    /// Elevation (in meters) of the point.
    pub elevation: Option<Decimal>,
    /// Speed (in meters per second), a GPX 1.0 field.
    pub speed: Option<Decimal>,
    /// Creation or modification timestamp, in UTC.
    pub time: Option<Time>,
    /// The GPS name of the waypoint.
    pub name: Option<String>,
    /// GPS waypoint comment.
    pub comment: Option<String>,
    /// A text description of the element.
    pub description: Option<String>,
    /// Source of the data.
    pub source: Option<String>,
    /// Links to additional information about the waypoint.
    pub links: Vec<Link>,
    /// Text of the GPS symbol name.
    pub symbol: Option<String>,
    /// Type (classification) of the waypoint.
    pub _type: Option<String>,
    /// Height of geoid in meters above WGS 84.
    pub geoidheight: Option<Decimal>,
    /// Type of the GPS fix.
    pub fix: Option<Fix>,
    /// Number of satellites used to calculate the fix.
    pub sat: Option<u64>,
    /// Horizontal dilution of precision.
    pub hdop: Option<Decimal>,
    /// Vertical dilution of precision.
    pub vdop: Option<Decimal>,
    /// Positional dilution of precision.
    pub pdop: Option<Decimal>,
    /// A field kept for compatibility; no longer read or written.
    pub age: Option<Decimal>,
    /// Number of seconds since the last DGPS update.
    pub dgps_age: Option<Decimal>,
    /// ID of the DGPS station used in differential correction.
    pub dgpsid: Option<u16>,
}

/// The mathematical model of a `Waypoint`.
pub struct WaypointS {
    pub point: PointS,
    pub elevation: Option<DecimalS>,
    pub speed: Option<DecimalS>,
    pub time: Option<Time>,
    pub name: Option<Seq<char>>,
    pub comment: Option<Seq<char>>,
    pub description: Option<Seq<char>>,
    pub source: Option<Seq<char>>,
    pub links: Seq<LinkS>,
    pub symbol: Option<Seq<char>>,
    pub _type: Option<Seq<char>>,
    pub geoidheight: Option<DecimalS>,
    pub fix: Option<FixS>,
    pub sat: Option<u64>,
    pub hdop: Option<DecimalS>,
    pub vdop: Option<DecimalS>,
    pub pdop: Option<DecimalS>,
    pub age: Option<DecimalS>,
    pub dgps_age: Option<DecimalS>,
    pub dgpsid: Option<u16>,
}

impl DeepView for Waypoint {
    type V = WaypointS;

    open spec fn deep_view(&self) -> WaypointS {
        WaypointS {
            point: self.point.deep_view(),
            elevation: self.elevation.deep_view(),
            speed: self.speed.deep_view(),
            time: self.time,
            name: self.name.deep_view(),
            comment: self.comment.deep_view(),
            description: self.description.deep_view(),
            source: self.source.deep_view(),
            links: self.links.deep_view(),
            symbol: self.symbol.deep_view(),
            _type: self._type.deep_view(),
            geoidheight: self.geoidheight.deep_view(),
            fix: self.fix.deep_view(),
            sat: self.sat,
            hdop: self.hdop.deep_view(),
            vdop: self.vdop.deep_view(),
            pdop: self.pdop.deep_view(),
            age: self.age.deep_view(),
            dgps_age: self.dgps_age.deep_view(),
            dgpsid: self.dgpsid,
        }
    }
}

pub open spec fn waypoint_at(p: PointS) -> WaypointS {
    WaypointS {
        point: p,
        elevation: None,
        speed: None,
        time: None,
        name: None,
        comment: None,
        description: None,
        source: None,
        links: Seq::<LinkS>::empty(),
        symbol: None,
        _type: None,
        geoidheight: None,
        fix: None,
        sat: None,
        hdop: None,
        vdop: None,
        pdop: None,
        age: None,
        dgps_age: None,
        dgpsid: None,
    }
}

impl Waypoint {
    /// Gives the geographical point of the waypoint.
    pub fn point(&self) -> (r: Point)
        ensures
            r.deep_view() == self.deep_view().point,
    {
        Point { x: self.point.x.clone_dec(), y: self.point.y.clone_dec() }
    }

    /// Creates a new Waypoint from a given geographical point; all other
    /// fields are empty.
    pub fn new(point: Point) -> (r: Waypoint)
        ensures
            r.deep_view() == waypoint_at(point.deep_view()),
    {
        let r = Waypoint {
            point,
            elevation: None,
            speed: None,
            time: None,
            name: None,
            comment: None,
            description: None,
            source: None,
            links: Vec::new(),
            symbol: None,
            _type: None,
            geoidheight: None,
            fix: None,
            sat: None,
            hdop: None,
            vdop: None,
            pdop: None,
            age: None,
            dgps_age: None,
            dgpsid: None,
        };
        proof {
            assert(r.links.deep_view() =~= Seq::<LinkS>::empty());
        }
        r
    }
}

impl Default for Waypoint {
    fn default() -> (r: Waypoint)
        ensures
            r.deep_view() == waypoint_at(
                PointS {
                    x: crate::decimal::dec_norm(false, seq![0u8], Seq::<u8>::empty()),
                    y: crate::decimal::dec_norm(false, seq![0u8], Seq::<u8>::empty()),
                },
            ),
    {
        Waypoint::new(Point::new(Decimal::zero(), Decimal::zero()))
    }
}

/// TrackSegment represents a list of track points that are logically
/// connected in order.
#[derive(Clone, Debug, PartialEq)]
pub struct TrackSegment {
    /// Each Waypoint holds the coordinates, elevation, timestamp, and
    /// metadata for a single point in a track.
    pub points: Vec<Waypoint>,
}

/// The mathematical model of a `TrackSegment`.
pub struct TrackSegmentS {
    pub points: Seq<WaypointS>,
}

impl DeepView for TrackSegment {
    type V = TrackSegmentS;

    open spec fn deep_view(&self) -> TrackSegmentS {
        TrackSegmentS { points: self.points.deep_view() }
    }
}

pub open spec fn segment_empty() -> TrackSegmentS {
    TrackSegmentS { points: Seq::<WaypointS>::empty() }
}

impl Default for TrackSegment {
    fn default() -> (r: TrackSegment)
        ensures
            r.deep_view() == segment_empty(),
    {
        let r = TrackSegment { points: Vec::new() };
        proof {
            assert(r.points.deep_view() =~= Seq::<WaypointS>::empty());
        }
        r
    }
}

impl TrackSegment {
    /// Creates a new TrackSegment with default values.
    pub fn new() -> (r: TrackSegment)
        ensures
            r.deep_view() == segment_empty(),
    {
        TrackSegment::default()
    }
}

/// Track represents an ordered list of points describing a path,
/// subdivided into segments.
#[derive(Clone, Debug, PartialEq)]
pub struct Track {
    /// GPS name of track.
    pub name: Option<String>,
    /// GPS comment for track.
    pub comment: Option<String>,
    /// User description of track.
    pub description: Option<String>,
    /// Source of the data.
    pub source: Option<String>,
    /// Links to external information about the track.
    pub links: Vec<Link>,
    /// Type (classification) of track.
    pub _type: Option<String>,
    /// GPS track number.
    pub number: Option<u32>,
    /// The segments of the track, each a continuous span of track data.
    pub segments: Vec<TrackSegment>,
}

/// The mathematical model of a `Track`.
pub struct TrackS {
    pub name: Option<Seq<char>>,
    pub comment: Option<Seq<char>>,
    pub description: Option<Seq<char>>,
    pub source: Option<Seq<char>>,
    pub links: Seq<LinkS>,
    pub _type: Option<Seq<char>>,
    pub number: Option<u32>,
    pub segments: Seq<TrackSegmentS>,
}

impl DeepView for Track {
    type V = TrackS;

    open spec fn deep_view(&self) -> TrackS {
        TrackS {
            name: self.name.deep_view(),
            comment: self.comment.deep_view(),
            description: self.description.deep_view(),
            source: self.source.deep_view(),
            links: self.links.deep_view(),
            _type: self._type.deep_view(),
            number: self.number,
            segments: self.segments.deep_view(),
        }
    }
}

pub open spec fn track_empty() -> TrackS {
    TrackS {
        name: None,
        comment: None,
        description: None,
        source: None,
        links: Seq::<LinkS>::empty(),
        _type: None,
        number: None,
        segments: Seq::<TrackSegmentS>::empty(),
    }
}

impl Default for Track {
    fn default() -> (r: Track)
        ensures
            r.deep_view() == track_empty(),
    {
        let r = Track {
            name: None,
            comment: None,
            description: None,
            source: None,
            links: Vec::new(),
            _type: None,
            number: None,
            segments: Vec::new(),
        };
        proof {
            assert(r.links.deep_view() =~= Seq::<LinkS>::empty());
            assert(r.segments.deep_view() =~= Seq::<TrackSegmentS>::empty());
        }
        r
    }
}

impl Track {
    /// Creates a new Track with default values.
    pub fn new() -> (r: Track)
        ensures
            r.deep_view() == track_empty(),
    {
        Track::default()
    }
}

/// Route represents an ordered list of waypoints leading to a
/// destination.
#[derive(Clone, Debug, PartialEq)]
pub struct Route {
    /// GPS name of route.
    pub name: Option<String>,
    /// GPS comment for route.
    pub comment: Option<String>,
    /// User description of route.
    pub description: Option<String>,
    /// Source of the data.
    pub source: Option<String>,
    /// Links to external information about the route.
    pub links: Vec<Link>,
    /// GPS route number.
    pub number: Option<u32>,
    /// Type (classification) of route.
    pub _type: Option<String>,
    /// The points of the route.
    pub points: Vec<Waypoint>,
}

/// The mathematical model of a `Route`.
pub struct RouteS {
    pub name: Option<Seq<char>>,
    pub comment: Option<Seq<char>>,
    pub description: Option<Seq<char>>,
    pub source: Option<Seq<char>>,
    pub links: Seq<LinkS>,
    pub number: Option<u32>,
    pub _type: Option<Seq<char>>,
    pub points: Seq<WaypointS>,
}

impl DeepView for Route {
    type V = RouteS;

    open spec fn deep_view(&self) -> RouteS {
        RouteS {
            name: self.name.deep_view(),
            comment: self.comment.deep_view(),
            description: self.description.deep_view(),
            source: self.source.deep_view(),
            links: self.links.deep_view(),
            number: self.number,
            _type: self._type.deep_view(),
            points: self.points.deep_view(),
        }
    }
}

pub open spec fn route_empty() -> RouteS {
    RouteS {
        name: None,
        comment: None,
        description: None,
        source: None,
        links: Seq::<LinkS>::empty(),
        number: None,
        _type: None,
        points: Seq::<WaypointS>::empty(),
    }
}

impl Default for Route {
    fn default() -> (r: Route)
        ensures
            r.deep_view() == route_empty(),
    {
        let r = Route {
            name: None,
            comment: None,
            description: None,
            source: None,
            links: Vec::new(),
            number: None,
            _type: None,
            points: Vec::new(),
        };
        proof {
            assert(r.links.deep_view() =~= Seq::<LinkS>::empty());
            assert(r.points.deep_view() =~= Seq::<WaypointS>::empty());
        }
        r
    }
}

impl Route {
    /// Creates a new Route with default values.
    pub fn new() -> (r: Route)
        ensures
            r.deep_view() == route_empty(),
    {
        Route::default()
    }
}

/// Metadata is information about the GPX file, author, and copyright
/// restrictions.
#[derive(Clone, Debug, PartialEq)]
pub struct Metadata {
    /// The name of the GPX file.
    pub name: Option<String>,
    /// A description of the contents of the GPX file.
    pub description: Option<String>,
    /// The person or organization who created the GPX file.
    pub author: Option<Person>,
    /// URLs associated with the location described in the file.
    pub links: Vec<Link>,
    /// The creation date of the file.
    pub time: Option<Time>,
    /// Keywords associated with the file.
    pub keywords: Option<String>,
    /// Information about the copyright holder.
    pub copyright: Option<GpxCopyright>,
    /// Bounds for the tracks in the GPX.
    pub bounds: Option<Rect>,
}

/// The mathematical model of a `Metadata`.
pub struct MetadataS {
    pub name: Option<Seq<char>>,
    pub description: Option<Seq<char>>,
    pub author: Option<PersonS>,
    pub links: Seq<LinkS>,
    pub time: Option<Time>,
    pub keywords: Option<Seq<char>>,
    pub copyright: Option<CopyrightS>,
    pub bounds: Option<RectS>,
}

impl DeepView for Metadata {
    type V = MetadataS;

    open spec fn deep_view(&self) -> MetadataS {
        MetadataS {
            name: self.name.deep_view(),
            description: self.description.deep_view(),
            author: self.author.deep_view(),
            links: self.links.deep_view(),
            time: self.time,
            keywords: self.keywords.deep_view(),
            copyright: self.copyright.deep_view(),
            bounds: self.bounds.deep_view(),
        }
    }
}

pub open spec fn metadata_empty() -> MetadataS {
    MetadataS {
        name: None,
        description: None,
        author: None,
        links: Seq::<LinkS>::empty(),
        time: None,
        keywords: None,
        copyright: None,
        bounds: None,
    }
}

impl Default for Metadata {
    fn default() -> (r: Metadata)
        ensures
            r.deep_view() == metadata_empty(),
    {
        let r = Metadata {
            name: None,
            description: None,
            author: None,
            links: Vec::new(),
            time: None,
            keywords: None,
            copyright: None,
            bounds: None,
        };
        proof {
            assert(r.links.deep_view() =~= Seq::<LinkS>::empty());
        }
        r
    }
}

/// Gpx is the root element in the XML file: the schema version, the
/// creating tool, the file's metadata, and its waypoints, tracks and
/// routes.
#[derive(Clone, Debug, PartialEq)]
pub struct Gpx {
    /// Version of the GPX file.
    pub version: GpxVersion,
    /// Creator name or URL of the software that created the document.
    pub creator: Option<String>,
    /// Metadata about the file.
    pub metadata: Option<Metadata>,
    /// A list of waypoints.
    pub waypoints: Vec<Waypoint>,
    /// A list of tracks.
    pub tracks: Vec<Track>,
    /// A list of routes, each a list of point-by-point directions.
    pub routes: Vec<Route>,
}

/// The mathematical model of a `Gpx`.
pub struct GpxS {
    pub version: GpxVersion,
    pub creator: Option<Seq<char>>,
    pub metadata: Option<MetadataS>,
    pub waypoints: Seq<WaypointS>,
    pub tracks: Seq<TrackS>,
    pub routes: Seq<RouteS>,
}

impl DeepView for Gpx {
    type V = GpxS;

    open spec fn deep_view(&self) -> GpxS {
        GpxS {
            version: self.version,
            creator: self.creator.deep_view(),
            metadata: self.metadata.deep_view(),
            waypoints: self.waypoints.deep_view(),
            tracks: self.tracks.deep_view(),
            routes: self.routes.deep_view(),
        }
    }
}

pub open spec fn gpx_empty() -> GpxS {
    GpxS {
        version: GpxVersion::Unknown,
        creator: None,
        metadata: None,
        waypoints: Seq::<WaypointS>::empty(),
        tracks: Seq::<TrackS>::empty(),
        routes: Seq::<RouteS>::empty(),
    }
}

impl Default for Gpx {
    fn default() -> (r: Gpx)
        ensures
            r.deep_view() == gpx_empty(),
    {
        let r = Gpx {
            version: GpxVersion::Unknown,
            creator: None,
            metadata: None,
            waypoints: Vec::new(),
            tracks: Vec::new(),
            routes: Vec::new(),
        };
        proof {
            assert(r.waypoints.deep_view() =~= Seq::<WaypointS>::empty());
            assert(r.tracks.deep_view() =~= Seq::<TrackS>::empty());
            assert(r.routes.deep_view() =~= Seq::<RouteS>::empty());
        }
        r
    }
}

/// Well-formedness of the renderable values of each type: every decimal
/// in normal form and every instant within its ranges. These are the
/// conditions under which the writer can render a document.
pub open spec fn link_wf(l: LinkS) -> bool {
    true
}

pub open spec fn copyright_wf(c: CopyrightS) -> bool {
    true
}

pub open spec fn person_wf(p: PersonS) -> bool {
    true
}

pub open spec fn waypoint_wf(w: WaypointS) -> bool {
    &&& point_wf(w.point)
    &&& (w.elevation matches Some(d) ==> dec_wf(d))
    &&& (w.speed matches Some(d) ==> dec_wf(d))
    &&& (w.time matches Some(t) ==> time_wf(t))
    &&& (w.geoidheight matches Some(d) ==> dec_wf(d))
    &&& (w.hdop matches Some(d) ==> dec_wf(d))
    &&& (w.vdop matches Some(d) ==> dec_wf(d))
    &&& (w.pdop matches Some(d) ==> dec_wf(d))
    &&& (w.age matches Some(d) ==> dec_wf(d))
    &&& (w.dgps_age matches Some(d) ==> dec_wf(d))
}

pub open spec fn segment_wf(s: TrackSegmentS) -> bool {
    forall|i: int| 0 <= i < s.points.len() ==> waypoint_wf(#[trigger] s.points[i])
}

pub open spec fn track_wf(t: TrackS) -> bool {
    forall|i: int| 0 <= i < t.segments.len() ==> segment_wf(#[trigger] t.segments[i])
}

pub open spec fn route_wf(r: RouteS) -> bool {
    forall|i: int| 0 <= i < r.points.len() ==> waypoint_wf(#[trigger] r.points[i])
}

pub open spec fn metadata_wf(m: MetadataS) -> bool {
    &&& (m.time matches Some(t) ==> time_wf(t))
    &&& (m.bounds matches Some(b) ==> rect_wf(b))
}

pub open spec fn gpx_wf(g: GpxS) -> bool {
    &&& (g.metadata matches Some(m) ==> metadata_wf(m))
    &&& (forall|i: int| 0 <= i < g.waypoints.len() ==> waypoint_wf(#[trigger] g.waypoints[i]))
    &&& (forall|i: int| 0 <= i < g.tracks.len() ==> track_wf(#[trigger] g.tracks[i]))
    &&& (forall|i: int| 0 <= i < g.routes.len() ==> route_wf(#[trigger] g.routes[i]))
}

/// Executable forms of the well-formedness predicates, so that a caller
/// holding a document it did not parse itself can establish the
/// writer's precondition.
impl Rect {
    pub fn is_well_formed(&self) -> (r: bool)
        ensures
            r == rect_wf(self.deep_view()),
    {
        self.min.x.is_well_formed() && self.min.y.is_well_formed() && self.max.x.is_well_formed()
            && self.max.y.is_well_formed() && self.min.x.le(&self.max.x) && self.min.y.le(
            &self.max.y,
        )
    }
}

fn dec_opt_ok(v: &Option<Decimal>) -> (r: bool)
    ensures
        r == (v.deep_view() matches Some(d) ==> dec_wf(d)),
{
    match v {
        Some(d) => d.is_well_formed(),
        None => true,
    }
}

impl Waypoint {
    pub fn is_well_formed(&self) -> (r: bool)
        ensures
            r == waypoint_wf(self.deep_view()),
    {
        let time_ok = match &self.time {
            Some(t) => t.is_well_formed(),
            None => true,
        };
        self.point.x.is_well_formed() && self.point.y.is_well_formed() && dec_opt_ok(
            &self.elevation,
        ) && dec_opt_ok(&self.speed) && time_ok && dec_opt_ok(&self.geoidheight) && dec_opt_ok(
            &self.hdop,
        ) && dec_opt_ok(&self.vdop) && dec_opt_ok(&self.pdop) && dec_opt_ok(&self.age)
            && dec_opt_ok(&self.dgps_age)
    }
}

fn waypoints_ok(points: &Vec<Waypoint>) -> (r: bool)
    ensures
        r == (forall|i: int|
            0 <= i < points.deep_view().len() ==> waypoint_wf(#[trigger] points.deep_view()[i])),
{
    let mut i: usize = 0;
    while i < points.len()
        invariant
            0 <= i <= points@.len(),
            points.deep_view().len() == points@.len(),
            forall|k: int| 0 <= k < i ==> waypoint_wf(#[trigger] points.deep_view()[k]),
        decreases points@.len() - i,
    {
        proof {
            assert(points.deep_view()[i as int] == points@[i as int].deep_view());
        }
        if !points[i].is_well_formed() {
            return false;
        }
        i += 1;
    }
    true
}

impl TrackSegment {
    pub fn is_well_formed(&self) -> (r: bool)
        ensures
            r == segment_wf(self.deep_view()),
    {
        proof {
            assert(self.deep_view().points == self.points.deep_view());
        }
        waypoints_ok(&self.points)
    }
}

impl Track {
    pub fn is_well_formed(&self) -> (r: bool)
        ensures
            r == track_wf(self.deep_view()),
    {
        let mut i: usize = 0;
        while i < self.segments.len()
            invariant
                0 <= i <= self.segments@.len(),
                self.segments.deep_view().len() == self.segments@.len(),
                forall|k: int|
                    0 <= k < i ==> segment_wf(#[trigger] self.segments.deep_view()[k]),
            decreases self.segments@.len() - i,
        {
            proof {
                assert(self.segments.deep_view()[i as int] == self.segments@[
                    i as int].deep_view());
            }
            if !self.segments[i].is_well_formed() {
                proof {
                    assert(self.deep_view().segments == self.segments.deep_view());
                }
                return false;
            }
            i += 1;
        }
        proof {
            assert(self.deep_view().segments == self.segments.deep_view());
            assert forall|k: int|
                0 <= k < self.deep_view().segments.len() implies segment_wf(
                #[trigger] self.deep_view().segments[k],
            ) by {
                assert(self.deep_view().segments[k] == self.segments.deep_view()[k]);
            }
        }
        true
    }
}

impl Route {
    pub fn is_well_formed(&self) -> (r: bool)
        ensures
            r == route_wf(self.deep_view()),
    {
        proof {
            assert(self.deep_view().points == self.points.deep_view());
        }
        waypoints_ok(&self.points)
    }
}

impl Metadata {
    pub fn is_well_formed(&self) -> (r: bool)
        ensures
            r == metadata_wf(self.deep_view()),
    {
        let time_ok = match &self.time {
            Some(t) => t.is_well_formed(),
            None => true,
        };
        let bounds_ok = match &self.bounds {
            Some(b) => b.is_well_formed(),
            None => true,
        };
        time_ok && bounds_ok
    }
}

impl Gpx {
    /// Whether the document is within the writer's model: every decimal
    /// in normal form and every instant within its calendar ranges.
    pub fn is_well_formed(&self) -> (r: bool)
        ensures
            r == gpx_wf(self.deep_view()),
    {
        proof {
            assert(self.deep_view().waypoints == self.waypoints.deep_view());
            assert(self.deep_view().tracks == self.tracks.deep_view());
            assert(self.deep_view().routes == self.routes.deep_view());
        }
        let md_ok = match &self.metadata {
            Some(m) => {
                proof {
                    assert(self.deep_view().metadata == Some(m.deep_view()));
                }
                m.is_well_formed()
            },
            None => true,
        };
        if !md_ok {
            return false;
        }
        if !waypoints_ok(&self.waypoints) {
            return false;
        }
        let mut i: usize = 0;
        while i < self.tracks.len()
            invariant
                0 <= i <= self.tracks@.len(),
                self.tracks.deep_view().len() == self.tracks@.len(),
                forall|k: int| 0 <= k < i ==> track_wf(#[trigger] self.tracks.deep_view()[k]),
            decreases self.tracks@.len() - i,
        {
            proof {
                assert(self.tracks.deep_view()[i as int] == self.tracks@[i as int].deep_view());
            }
            if !self.tracks[i].is_well_formed() {
                proof {
                    assert(self.deep_view().tracks[i as int] == self.tracks.deep_view()[i as int]);
                }
                return false;
            }
            i += 1;
        }
        proof {
            assert forall|k: int|
                0 <= k < self.deep_view().tracks.len() implies track_wf(
                #[trigger] self.deep_view().tracks[k],
            ) by {
                assert(self.deep_view().tracks[k] == self.tracks.deep_view()[k]);
            }
        }
        let mut j: usize = 0;
        while j < self.routes.len()
            invariant
                0 <= j <= self.routes@.len(),
                self.routes.deep_view().len() == self.routes@.len(),
                forall|k: int| 0 <= k < j ==> route_wf(#[trigger] self.routes.deep_view()[k]),
            decreases self.routes@.len() - j,
        {
            proof {
                assert(self.routes.deep_view()[j as int] == self.routes@[j as int].deep_view());
            }
            if !self.routes[j].is_well_formed() {
                proof {
                    assert(self.deep_view().routes[j as int] == self.routes.deep_view()[j as int]);
                }
                return false;
            }
            j += 1;
        }
        proof {
            assert forall|k: int|
                0 <= k < self.deep_view().routes.len() implies route_wf(
                #[trigger] self.deep_view().routes[k],
            ) by {
                assert(self.deep_view().routes[k] == self.routes.deep_view()[k]);
            }
            assert forall|k: int|
                0 <= k < self.deep_view().waypoints.len() implies waypoint_wf(
                #[trigger] self.deep_view().waypoints[k],
            ) by {
                assert(self.deep_view().waypoints[k] == self.waypoints.deep_view()[k]);
            }
        }
        true
    }
}

} // verus!
