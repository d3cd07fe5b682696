// Tests for the per-element consumers, each reading one element from a
// small event stream.

use gpx::decimal::Decimal;
use gpx::errors::GpxError;
use gpx::parser::time::Time;
use gpx::parser::{bounds, copyright, email, extensions, fix, link, person, string, time, tracksegment, create_context, Context};
use gpx::{Fix, GpxVersion};

fn ctx(xml: &str, version: GpxVersion) -> Context {
    create_context(xml.as_bytes(), version)
}

fn dec(s: &str) -> Decimal {
    Decimal::parse(s).unwrap()
}

#[test]
fn consume_bounds() {
    let mut c = ctx(
        "
<bounds minlat=\"45.487064362\" minlon=\"-74.031837463\" maxlat=\"45.701225281\" maxlon=\"-73.586273193\"/>
            ",
        GpxVersion::Gpx11,
    );
    let bounds = bounds::consume(&mut c);
    assert!(bounds.is_ok());
    let bounds = bounds.unwrap();
    assert_eq!(bounds.min().x, dec("-74.031837463"));
    assert_eq!(bounds.min().y, dec("45.487064362"));
    assert_eq!(bounds.max().x, dec("-73.586273193"));
    assert_eq!(bounds.max().y, dec("45.701225281"));
}

#[test]
fn consume_bad_bounds() {
    let mut c = ctx(
        "<bounds minlat=\"32.4\" minlon=\"notanumber\"></wpt>",
        GpxVersion::Gpx11,
    );
    let bounds = bounds::consume(&mut c);
    assert!(bounds.is_err());
}

#[test]
fn consume_simple_copyright() {
    let mut c = ctx(
        "<copyright author='OpenStreetMap contributors'><year>2020</year><license>https://www.openstreetmap.org/copyright</license></copyright>",
        GpxVersion::Gpx11,
    );
    let copyright = copyright::consume(&mut c);
    assert!(copyright.is_ok());
    let copyright = copyright.unwrap();
    assert!(copyright.author.is_some());
    assert_eq!(copyright.author.unwrap(), "OpenStreetMap contributors");
    assert!(copyright.year.is_some());
    assert_eq!(copyright.year.unwrap(), 2020);
    assert!(copyright.license.is_some());
    assert_eq!(
        copyright.license.unwrap(),
        "https://www.openstreetmap.org/copyright"
    );
}

#[test]
fn copyright_consume_barebones() {
    let mut c = ctx("<copyright author='pelmers'></copyright>", GpxVersion::Gpx11);
    let copyright = copyright::consume(&mut c);
    assert!(copyright.is_ok());
    let copyright = copyright.unwrap();
    assert_eq!(copyright.author.unwrap(), "pelmers");
}

#[test]
fn consume_simple_email() {
    let mut c = ctx("<email id=\"me\" domain=\"example.com\" />", GpxVersion::Gpx11);
    let email = email::consume(&mut c);
    assert!(email.is_ok());
    let email = email.unwrap();
    assert_eq!(email, "me@example.com");
}

#[test]
fn consume_attrs_reversed() {
    let mut c = ctx("<email domain=\"example.com\" id=\"me\" />", GpxVersion::Gpx11);
    let email = email::consume(&mut c);
    assert!(email.is_ok());
    let email = email.unwrap();
    assert_eq!(email, "me@example.com");
}

#[test]
fn consume_err_no_id() {
    let mut c = ctx("<email domain='example.com'/>", GpxVersion::Gpx11);
    let err = email::consume(&mut c).unwrap_err();
    assert_eq!(
        err.message(),
        "invalid element, `email` lacks required attribute `id`"
    );
}

#[test]
fn consume_err_no_domain() {
    let mut c = ctx("<email id=\"gpx\" />", GpxVersion::Gpx11);
    let err = email::consume(&mut c).unwrap_err();
    assert_eq!(
        err.message(),
        "invalid element, `email` lacks required attribute `domain`"
    );
}

#[test]
fn consume_err_invalid_child_element() {
    let mut c = ctx(
        "<email id=\"id\" domain=\"domain\"><child /></email>",
        GpxVersion::Gpx11,
    );
    let err = email::consume(&mut c).unwrap_err();
    assert_eq!(err.message(), "invalid child element `child` in `email`");
}

#[test]
fn consume_err_no_ending_tag() {
    let mut c = ctx("<email id=\"id\" domain=\"domain\">", GpxVersion::Gpx11);
    let err = email::consume(&mut c).unwrap_err();
    assert_eq!(err.message(), "error while parsing XML");
}

#[test]
fn consume_arbitrary_extensions() {
    let mut c = ctx(
        "<extensions>
                hello world
                <a><b cond=\"no\"><c>derp</c></b></a>
                <tag>yadda yadda we dont care</tag>
            </extensions>",
        GpxVersion::Gpx11,
    );
    let result = extensions::consume(&mut c);
    assert!(result.is_ok());
}

#[test]
fn consume_arbitrary_nested_extensions() {
    let mut c = ctx(
        "<extensions>
                hello world
                <a><b cond=\"no\"><c>derp</c></b></a>
                <tag>yadda yadda we dont care</tag>
                <extensions>
                    hello world
                    <a><b cond=\"no\"><c>derp</c></b></a>
                    <tag>yadda yadda we dont care</tag>
                </extensions>
            </extensions>",
        GpxVersion::Gpx11,
    );
    let result = extensions::consume(&mut c);
    assert!(result.is_ok());
}

#[test]
fn consume_fix() {
    let mut c = ctx("<fix>dgps</fix>", GpxVersion::Gpx11);
    let result = fix::consume(&mut c);
    assert!(result.is_ok());

    let mut c = ctx("<fix>none</fix>", GpxVersion::Gpx11);
    assert_eq!(fix::consume(&mut c).unwrap(), Fix::NoFix);

    let mut c = ctx("<fix>2d</fix>", GpxVersion::Gpx11);
    assert_eq!(fix::consume(&mut c).unwrap(), Fix::TwoDimensional);

    let mut c = ctx("<fix>3d</fix>", GpxVersion::Gpx11);
    assert_eq!(fix::consume(&mut c).unwrap(), Fix::ThreeDimensional);

    let mut c = ctx("<fix>dgps</fix>", GpxVersion::Gpx11);
    assert_eq!(fix::consume(&mut c).unwrap(), Fix::DGPS);

    let mut c = ctx("<fix>pps</fix>", GpxVersion::Gpx11);
    assert_eq!(fix::consume(&mut c).unwrap(), Fix::PPS);

    // Not in the specification
    let mut c = ctx("<fix>KF_4SV_OR_MORE</fix>", GpxVersion::Gpx11);
    assert_eq!(
        fix::consume(&mut c).unwrap(),
        Fix::Other("KF_4SV_OR_MORE".to_owned())
    );
}

#[test]
fn consume_simple_link() {
    let mut c = ctx(
        "<link href='http://example.com'><text>hello</text><type>world</type></link>",
        GpxVersion::Gpx11,
    );
    let link = link::consume(&mut c);
    assert!(link.is_ok());
    let link = link.unwrap();
    assert_eq!(link.href, "http://example.com");
    assert!(link.text.is_some());
    assert_eq!(link.text.unwrap(), "hello");
    assert!(link._type.is_some());
    assert_eq!(link._type.unwrap(), "world");
}

#[test]
fn link_consume_barebones() {
    let mut c = ctx("<link href='http://topografix.com'></link>", GpxVersion::Gpx11);
    let link = link::consume(&mut c);
    assert!(link.is_ok());
    let link = link.unwrap();
    assert_eq!(link.href, "http://topografix.com");
    assert!(link.text.is_none());
    assert!(link._type.is_none());
}

#[test]
fn consume_no_href() {
    let mut c = ctx("<link></link>", GpxVersion::Gpx11);
    let link = link::consume(&mut c);
    assert!(link.is_err());
}

#[test]
fn consume_whole_person() {
    let mut c = ctx(
        "
                <person>
                    <name>John Doe</name>
                    <email id=\"john.doe\" domain=\"example.com\" />
                    <link href=\"example.com\">
                        <text>hello world</text>
                        <type>some type</type>
                    </link>
                </person>
            ",
        GpxVersion::Gpx11,
    );
    let result = person::consume(&mut c, "person");
    assert!(result.is_ok());
}

#[test]
fn consume_simple_string() {
    let mut c = ctx("<string>hello world</string>", GpxVersion::Gpx11);
    let result = string::consume(&mut c, "string", false);
    assert!(result.is_ok());
    assert_eq!(result.unwrap(), "hello world");
}

#[test]
fn consume_new_tag() {
    // cannot start new tag inside string
    let mut c = ctx("<foo>bar<baz></baz></foo>", GpxVersion::Gpx11);
    let result = string::consume(&mut c, "foo", false);
    assert!(result.is_err());
}

#[test]
fn consume_start_tag() {
    // must have starting tag
    let mut c = ctx("bar</foo>", GpxVersion::Gpx11);
    let result = string::consume(&mut c, "foo", false);
    assert!(result.is_err());
}

#[test]
fn consume_end_tag() {
    // must have ending tag
    let mut c = ctx("<foo>bar", GpxVersion::Gpx11);
    let result = string::consume(&mut c, "foo", false);
    assert!(result.is_err());
}

#[test]
fn consume_no_body() {
    // must have string content
    let mut c = ctx("<foo></foo>", GpxVersion::Gpx11);
    let result = string::consume(&mut c, "foo", false);
    assert!(result.is_err());
}

#[test]
fn consume_different_ending_tag() {
    // this is just illegal
    let mut c = ctx("<foo></foobar>", GpxVersion::Gpx11);
    let result = string::consume(&mut c, "foo", false);
    assert!(result.is_err());
}

#[test]
fn consume_time() {
    let mut c = ctx("<time>1996-12-19T16:39:57-08:00</time>", GpxVersion::Gpx11);
    assert!(time::consume(&mut c).is_ok());

    // The following examples are taken from the xsd:dateTime examples.
    let mut c = ctx("<time>2001-10-26T21:32:52</time>", GpxVersion::Gpx11);
    assert!(time::consume(&mut c).is_ok());

    let mut c = ctx("<time>2001-10-26T21:32:52+02:00</time>", GpxVersion::Gpx11);
    assert!(time::consume(&mut c).is_ok());

    let mut c = ctx("<time>2001-10-26T19:32:52Z</time>", GpxVersion::Gpx11);
    assert!(time::consume(&mut c).is_ok());

    let mut c = ctx("<time>2001-10-26T19:32:52+00:00</time>", GpxVersion::Gpx11);
    assert!(time::consume(&mut c).is_ok());

    let mut c = ctx("<time>2001-10-26T21:32:52.12679</time>", GpxVersion::Gpx11);
    assert!(time::consume(&mut c).is_ok());

    let mut c = ctx("<time>2001-10-26T21:32</time>", GpxVersion::Gpx11);
    assert!(time::consume(&mut c).is_ok());

    // These are invalid, again, from xsd:dateTime examples.
    let mut c = ctx("<time>2001-10-26</time>", GpxVersion::Gpx11);
    assert!(time::consume(&mut c).is_err());

    let mut c = ctx("<time>2001-10-26T25:32:52+02:00</time>", GpxVersion::Gpx11);
    assert!(time::consume(&mut c).is_err());

    let mut c = ctx("<time>01-10-26T21:32</time>", GpxVersion::Gpx11);
    assert!(time::consume(&mut c).is_err());

    let mut c = ctx("<time>-2001-10-26T21:32:52</time>", GpxVersion::Gpx11);
    assert!(time::consume(&mut c).is_err());

    let mut c = ctx("<time>2021-10-10T09:55:20.952</time>", GpxVersion::Gpx11);
    assert!(time::consume(&mut c).is_ok());
}

#[test]
fn consume_full_trkseg() {
    let mut c = ctx(
        "
            <trkseg>
                <trkpt lon=\"-77.0365\" lat=\"38.8977\">
                    <name>The White House</name>
                </trkpt>
                <trkpt lon=\"-71.063611\" lat=\"42.358056\">
                    <name>Boston, Massachusetts</name>
                </trkpt>
                <trkpt lon=\"-69.7832\" lat=\"44.31055\">
                    <name>Augusta, Maine</name>
                </trkpt>
            </trkseg>",
        GpxVersion::Gpx11,
    );
    let segment = tracksegment::consume(&mut c);
    assert!(segment.is_ok());
    let segment = segment.unwrap();
    assert_eq!(segment.points.len(), 3);

    // the length of the straight-line path through the points
    let mut length: f64 = 0.0;
    for i in 1..segment.points.len() {
        let a = segment.points[i - 1].point();
        let b = segment.points[i].point();
        let ax: f64 = a.x().to_text().parse().unwrap();
        let ay: f64 = a.y().to_text().parse().unwrap();
        let bx: f64 = b.x().to_text().parse().unwrap();
        let by: f64 = b.y().to_text().parse().unwrap();
        length += ((bx - ax) * (bx - ax) + (by - ay) * (by - ay)).sqrt();
    }
    assert!((length - 9.2377437).abs() < 1e-6);
}

#[test]
fn tracksegment_consume_empty() {
    let mut c = ctx("<trkseg></trkseg>", GpxVersion::Gpx11);
    let segment = tracksegment::consume(&mut c);
    assert!(segment.is_ok());
    let segment = segment.unwrap();
    assert_eq!(segment.points.len(), 0);
}

#[test]
fn consume_metadata() {
    let mut c = ctx(
        "
            <metadata>
                <link href=\"example.com\" />
                <name>xxname</name>
                <desc>xxdescription</desc>
                <author>
                    <name>John Doe</name>
                    <email id=\"john.doe\" domain=\"example.com\" />
                    <link href=\"example.com\">
                        <text>hello world</text>
                        <type>some type</type>
                    </link>
                </author>
                <keywords>some keywords here</keywords>
                <time>2017-08-16T04:03:33.735Z</time>
            </metadata>
            ",
        GpxVersion::Gpx11,
    );
    let result = gpx::parser::metadata::consume(&mut c);
    assert!(result.is_ok());
    let result = result.unwrap();
    assert!(result.name.is_some());
    assert_eq!(result.name.unwrap(), "xxname");
    assert!(result.description.is_some());
    assert_eq!(result.description.unwrap(), "xxdescription");
    assert!(result.author.is_some());
    let author = result.author.unwrap();
    assert_eq!(author.name.unwrap(), "John Doe");
    assert_eq!(author.email.unwrap(), "john.doe@example.com");
    assert_eq!(author.link.unwrap().href, "example.com");
    assert!(result.keywords.is_some());
    assert_eq!(result.keywords.unwrap(), "some keywords here");
    assert!(result.time.is_some());
    let expect = Time::from_parts(2017, 8, 16, 4, 3, 33, 735_000_000).unwrap();
    assert_eq!(result.time.unwrap(), expect);
    assert_eq!(result.links.len(), 1);
}

#[test]
fn metadata_consume_empty() {
    let mut c = ctx("<metadata></metadata>", GpxVersion::Gpx11);
    let result = gpx::parser::metadata::consume(&mut c);
    assert!(result.is_ok());
    let result = result.unwrap();
    assert!(result.name.is_none());
    assert!(result.description.is_none());
    assert!(result.author.is_none());
    assert!(result.keywords.is_none());
    assert!(result.time.is_none());
}

#[test]
fn unknown_fix_round_trips_unchanged() {
    let mut c = ctx("<fix>KF_4SV_OR_MORE</fix>", GpxVersion::Gpx11);
    let parsed = fix::consume(&mut c).unwrap();
    assert_eq!(parsed, Fix::Other("KF_4SV_OR_MORE".to_owned()));
    let xml = "<gpx version=\"1.1\"><wpt lat=\"1\" lon=\"2\"><fix>KF_4SV_OR_MORE</fix></wpt></gpx>";
    let doc = gpx::read(xml.as_bytes()).unwrap();
    let bytes = gpx::writer::write(&doc).unwrap();
    let text = String::from_utf8(bytes).unwrap();
    assert!(text.contains("KF_4SV_OR_MORE"));
    let again = gpx::read(text.as_bytes()).unwrap();
    assert_eq!(again.waypoints[0].fix, doc.waypoints[0].fix);
}

#[test]
fn bounds_reports_missing_attribute_before_values() {
    // presence of the latitude pair is checked before either value is read
    let mut c = ctx("<bounds minlat=\"abc\"/>", GpxVersion::Gpx11);
    let err = bounds::consume(&mut c).unwrap_err();
    assert_eq!(err, GpxError::InvalidElementLacksAttribute("maxlat", "bounds"));
}

#[test]
fn bounds_min_over_max_is_rejected() {
    let mut c = ctx(
        "<bounds minlat=\"45.70\" maxlat=\"45.48\" minlon=\"1.0\" maxlon=\"2.0\"/>",
        GpxVersion::Gpx11,
    );
    let err = bounds::consume(&mut c).unwrap_err();
    assert_eq!(err, GpxError::OutOfBounds("latitude"));
}
