// Tests for waypoints, tracks, routes and whole documents.

use gpx::decimal::Decimal;
use gpx::errors::GpxError;
use gpx::parser::time::Time;
use gpx::parser::{create_context, gpx as gpx_root, route, track, waypoint, Context};
use gpx::{Fix, GpxVersion, Point};

fn ctx(xml: &str, version: GpxVersion) -> Context {
    create_context(xml.as_bytes(), version)
}

fn dec(s: &str) -> Decimal {
    Decimal::parse(s).unwrap()
}

fn pt(x: &str, y: &str) -> Point {
    Point::new(dec(x), dec(y))
}

#[test]
fn consume_waypoint() {
    let mut c = ctx(
        "
            <wpt lon=\"-77.0365\" lat=\"38.8977\">
                <name>The White House</name>
                <cmt>This is a comment about the white house.</cmt>
                <desc>The white house is very nice!</desc>
                <src>Garmin eTrex</src>
                <type>waypoint classification</type>
                <ele>4608.12</ele>
                <fix>dgps</fix>
                <sat>4</sat>
                <hdop>6.058</hdop>
                <speed>0.0000</speed>
            </wpt>
            ",
        GpxVersion::Gpx10,
    );
    let waypoint = waypoint::consume(&mut c, "wpt");
    assert!(waypoint.is_ok());
    let waypoint = waypoint.unwrap();
    assert_eq!(waypoint.point(), pt("-77.0365", "38.8977"));
    assert_eq!(waypoint.name.unwrap(), "The White House");
    assert_eq!(
        waypoint.comment.unwrap(),
        "This is a comment about the white house."
    );
    assert_eq!(waypoint.description.unwrap(), "The white house is very nice!");
    assert_eq!(waypoint.source.unwrap(), "Garmin eTrex");
    assert_eq!(waypoint._type.unwrap(), "waypoint classification");
    assert_eq!(waypoint.elevation.unwrap(), dec("4608.12"));
    assert_eq!(waypoint.fix.unwrap(), Fix::DGPS);
    assert_eq!(waypoint.sat.unwrap(), 4);
    assert_eq!(waypoint.hdop.unwrap(), dec("6.058"));
}

#[test]
fn waypoint_consume_empty() {
    let mut c = ctx("<trkpt lat=\"2.345\" lon=\"1.234\"></trkpt>", GpxVersion::Gpx11);
    let waypoint = waypoint::consume(&mut c, "trkpt");
    assert!(waypoint.is_ok());
    let waypoint = waypoint.unwrap();
    assert_eq!(waypoint.point(), pt("1.234", "2.345"));
    assert_eq!(waypoint.point().x(), dec("1.234"));
    assert_eq!(waypoint.point().y(), dec("2.345"));
}

#[test]
fn consume_empty_waypoint_name() {
    let mut c = ctx(
        "<trkpt lat=\"2.345\" lon=\"1.234\">
                <name><![CDATA[]]></name>
            </trkpt>",
        GpxVersion::Gpx11,
    );
    let waypoint = waypoint::consume(&mut c, "trkpt");
    assert!(waypoint.is_ok());
    let waypoint = waypoint.unwrap();
    assert_eq!(waypoint.point(), pt("1.234", "2.345"));
}

#[test]
fn consume_bad_waypoint() {
    let mut c = ctx("<wpt lat=\"32.4\" lon=\"notanumber\"></wpt>", GpxVersion::Gpx11);
    assert!(waypoint::consume(&mut c, "wpt").is_err());
}

#[test]
fn consume_bad_latitude_1() {
    let mut c = ctx("<trkpt lat=\"-90.1\" lon=\"1.234\"></trkpt>", GpxVersion::Gpx11);
    assert!(waypoint::consume(&mut c, "trkpt").is_err());
}

#[test]
fn consume_bad_latitude_2() {
    let mut c = ctx("<trkpt lat=\"90.1\" lon=\"1.234\"></trkpt>", GpxVersion::Gpx11);
    assert!(waypoint::consume(&mut c, "trkpt").is_err());
}

#[test]
fn consume_bad_longitude_1() {
    let mut c = ctx("<trkpt lat=\"-32.4\" lon=\"-180.1\"></trkpt>", GpxVersion::Gpx11);
    assert!(waypoint::consume(&mut c, "trkpt").is_err());
}

#[test]
fn consume_bad_longitude_2() {
    let mut c = ctx("<trkpt lat=\"32.4\" lon=\"180.0\"></trkpt>", GpxVersion::Gpx11);
    assert!(waypoint::consume(&mut c, "trkpt").is_err());
}

#[test]
fn lat_lon_edge_values() {
    // inclusive latitude bounds, half-open longitude bounds
    let mut c = ctx("<wpt lat=\"90.0\" lon=\"1.0\"></wpt>", GpxVersion::Gpx11);
    assert!(waypoint::consume(&mut c, "wpt").is_ok());
    let mut c = ctx("<wpt lat=\"-90.0\" lon=\"1.0\"></wpt>", GpxVersion::Gpx11);
    assert!(waypoint::consume(&mut c, "wpt").is_ok());
    let mut c = ctx("<wpt lat=\"1.0\" lon=\"-180.0\"></wpt>", GpxVersion::Gpx11);
    assert!(waypoint::consume(&mut c, "wpt").is_ok());
    let mut c = ctx("<wpt lat=\"1.0\" lon=\"179.999\"></wpt>", GpxVersion::Gpx11);
    assert!(waypoint::consume(&mut c, "wpt").is_ok());
}

#[test]
fn consume_full_track() {
    let mut c = ctx(
        "
            <trk>
                <name>track name</name>
                <cmt>track comment</cmt>
                <desc>track description</desc>
                <src>track source</src>
                <type>track type</type>
            </trk>
            ",
        GpxVersion::Gpx11,
    );
    let track = track::consume(&mut c);
    assert!(track.is_ok());
    let track = track.unwrap();
    assert_eq!(track.name.unwrap(), "track name");
    assert_eq!(track.comment.unwrap(), "track comment");
    assert_eq!(track.description.unwrap(), "track description");
    assert_eq!(track.source.unwrap(), "track source");
    assert_eq!(track._type.unwrap(), "track type");
}

#[test]
fn track_consume_empty() {
    let mut c = ctx("<trk></trk>", GpxVersion::Gpx11);
    assert!(track::consume(&mut c).is_ok());
}

#[test]
fn consume_full_route() {
    let mut c = ctx(
        "
            <rte>
                <name>route name</name>
                <cmt>route comment</cmt>
                <desc>route description</desc>
                <src>route source</src>
                <number>66</number>
                <type>route type</type>
            </rte>
            ",
        GpxVersion::Gpx11,
    );
    let route = route::consume(&mut c);
    assert!(route.is_ok());
    let route = route.unwrap();
    assert_eq!(route.name.unwrap(), "route name");
    assert_eq!(route.comment.unwrap(), "route comment");
    assert_eq!(route.description.unwrap(), "route description");
    assert_eq!(route.source.unwrap(), "route source");
    assert_eq!(route.number.unwrap(), 66);
    assert_eq!(route._type.unwrap(), "route type");
}

#[test]
fn route_consume_empty() {
    let mut c = ctx("<rte></rte>", GpxVersion::Gpx11);
    assert!(route::consume(&mut c).is_ok());
}

#[test]
fn consume_gpx() {
    let mut c = ctx("<gpx version=\"1.1\"></gpx>", GpxVersion::Unknown);
    assert!(gpx_root::consume(&mut c).is_ok());
}

#[test]
fn consume_gpx_no_version() {
    let mut c = ctx("<gpx></gpx>", GpxVersion::Unknown);
    assert!(gpx_root::consume(&mut c).is_err());
}

#[test]
fn consume_gpx_version_error() {
    let mut c = ctx("<gpx version=\"1.2\"></gpx>", GpxVersion::Unknown);
    assert!(gpx_root::consume(&mut c).is_err());
}

#[test]
fn consume_gpx_creator() {
    let mut c = ctx(
        "<gpx version=\"1.1\" creator=\"unit test\"></gpx>",
        GpxVersion::Unknown,
    );
    let gpx = gpx_root::consume(&mut c);
    assert!(gpx.is_ok());
    assert_eq!(gpx.unwrap().creator, Some("unit test".into()));
}

#[test]
fn consume_gpx_full() {
    let mut c = ctx(
        "
            <gpx version=\"1.0\" xmlns:locus=\"http://www.locusmap.eu\" xmlns:ql=\"http://www.qlandkarte.org/xmlschemas/v1.1\">
                <time>2016-03-27T18:57:55Z</time>
                <bounds minlat=\"45.487064362\" minlon=\"-74.031837463\" maxlat=\"45.701225281\" maxlon=\"-73.586273193\"></bounds>
                <trk>
                  <extensions>
                    <line xmlns=\"http://www.topografix.com/GPX/gpx_style/0/2\">
                      <color>00D7D7</color>
                      <opacity>0.59</opacity>
                      <width>6.0</width>
                      <extensions>
                        <locus:lsColorBase>#9600D7D7</locus:lsColorBase>
                        <locus:lsWidth>6.0</locus:lsWidth>
                        <locus:lsUnits>PIXELS</locus:lsUnits>
                      </extensions>
                    </line>
                    <locus:activity>cycling</locus:activity>
                    <locus:rteComputeType>9</locus:rteComputeType>
                  </extensions>
                  <trkseg>
                    <trkpt lat=\"2.00742\" lon=\"2.286288\">
                      <ele>1375.85</ele>
                    </trkpt>
                  </trkseg>
                </trk>
                <wpt lat=\"1.23\" lon=\"2.34\"></wpt>
                <wpt lon=\"10.256\" lat=\"-81.324\">
                    <time>2001-10-26T19:32:52+00:00</time>
                </wpt>
                <rte></rte>
                <extensions>
                    <ql:key>715595d89a4f0d1145703cb1c227bd15</ql:key>
                </extensions>
            </gpx>
            ",
        GpxVersion::Unknown,
    );
    let gpx = gpx_root::consume(&mut c);
    assert!(gpx.is_ok());
    let gpx = gpx.unwrap();
    assert_eq!(gpx.version, GpxVersion::Gpx10);
    assert_eq!(gpx.tracks.len(), 1);
    assert_eq!(gpx.waypoints.len(), 2);
    let wpt = &gpx.waypoints[1];
    assert_eq!(wpt.point(), pt("10.256", "-81.324"));
}

#[test]
fn error_on_double_closing_tag() {
    let mut c = ctx(
        "
            <gpx version=\"1.0\" xmlns:locus=\"http://www.locusmap.eu\">
                <trk>
                  <extensions>
                    <locus:activity>cycling</locus:activity>
                  </extensions>
                  </extensions>
                  <trkseg>
                  </trkseg>
                </trk>
            </gpx>
            ",
        GpxVersion::Unknown,
    );
    let gpx = gpx_root::consume(&mut c);
    assert!(gpx.is_err());
    // the second closing tag is malformed XML; the track consumer was
    // in the middle of its element when the tokenizer gave up
    if let GpxError::EventParsingError(err) = gpx.unwrap_err() {
        assert_eq!(err, "track event");
    } else {
        panic!("Expected different error.")
    }
}

#[test]
fn fail_on_double_internal_closing_tag() {
    let mut c = ctx(
        "
            <gpx version=\"1.0\" xmlns:locus=\"http://www.locusmap.eu\">
                <trk>
                  <extensions>
                    <a></extensions><b cond=\"no\"><c>derp</c></b></a>
                  </extensions>
                </trk>
            </gpx>
            ",
        GpxVersion::Unknown,
    );
    let gpx = gpx_root::consume(&mut c);
    assert!(gpx.is_err());
    // the stray closing tag is malformed XML inside the extensions
    // pass-through, which reports the tokenizer's failure
    assert!(matches!(gpx.unwrap_err(), GpxError::XmlParseError));
}

#[test]
fn two_waypoints_with_utc_time() {
    let xml = "<gpx version=\"1.1\"><wpt lat=\"1.23\" lon=\"2.34\"></wpt><wpt lon=\"10.256\" lat=\"-81.324\"><time>2001-10-26T19:32:52+00:00</time></wpt></gpx>";
    let doc = gpx::read(xml.as_bytes()).unwrap();
    assert_eq!(doc.waypoints.len(), 2);
    let second = &doc.waypoints[1];
    assert_eq!(second.point(), pt("10.256", "-81.324"));
    let expect = Time::from_parts(2001, 10, 26, 19, 32, 52, 0).unwrap();
    assert_eq!(second.time.unwrap(), expect);
}

#[test]
fn version_gating_flat_and_nested_metadata_agree() {
    let flat = "<gpx version=\"1.0\"><author>Jane</author><bounds minlat=\"1.0\" maxlat=\"2.0\" minlon=\"3.0\" maxlon=\"4.0\"/></gpx>";
    let nested = "<gpx version=\"1.1\"><metadata><author><name>Jane</name></author><bounds minlat=\"1.0\" maxlat=\"2.0\" minlon=\"3.0\" maxlon=\"4.0\"/></metadata></gpx>";
    let d10 = gpx::read(flat.as_bytes()).unwrap();
    let d11 = gpx::read(nested.as_bytes()).unwrap();
    let m10 = d10.metadata.unwrap();
    let m11 = d11.metadata.unwrap();
    assert_eq!(m10.author.as_ref().unwrap().name, Some("Jane".to_owned()));
    assert_eq!(m10.author, m11.author);
    assert_eq!(m10.bounds, m11.bounds);
}

#[test]
fn normalizes_offset_to_utc() {
    let mut c = ctx("<time>1996-12-19T16:39:57-08:00</time>", GpxVersion::Gpx11);
    let t = gpx::parser::time::consume(&mut c).unwrap();
    // the following civil day in UTC
    assert_eq!(t, Time::from_parts(1996, 12, 20, 0, 39, 57, 0).unwrap());
}
