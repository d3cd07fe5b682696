// Tests for the writer: the round trip from a parsed document through
// the writer and back.

use gpx::{Gpx, Link, Waypoint};

#[test]
fn gpx_writer_write_unknown_gpx_version() {
    let gpx: Gpx = Default::default();
    // Should fail with unknown version.
    let result = gpx::writer::write(&gpx);
    assert!(result.is_err());
}

// Representative example documents, embedded as text.
static WIKIPEDIA_STYLE: &str = "<gpx version=\"1.1\" creator=\"unit test\">\
<metadata><name>Example GPX Document</name><link href=\"http://www.garmin.com\"><text>Garmin International</text></link>\
<time>2009-10-17T22:58:43Z</time></metadata>\
<trk><name>Example GPX Document</name><trkseg>\
<trkpt lat=\"47.644548\" lon=\"-122.326897\"><ele>4.46</ele><time>2009-10-17T18:37:26Z</time></trkpt>\
<trkpt lat=\"47.644548\" lon=\"-122.326897\"><ele>4.94</ele><time>2009-10-17T18:37:31Z</time></trkpt>\
<trkpt lat=\"47.644548\" lon=\"-122.326897\"><ele>6.87</ele><time>2009-10-17T18:37:34Z</time></trkpt>\
</trkseg></trk></gpx>";

static ACTIVITY_STYLE: &str = "<gpx version=\"1.1\" creator=\"unit test\">\
<metadata><time>2017-07-29T14:46:35Z</time><link href=\"connect.garmin.com\"><text>Garmin Connect</text></link></metadata>\
<trk><name>casual stroll</name><type>running</type><trkseg>\
<trkpt lat=\"37.24\" lon=\"-121.97\"><ele>95.5</ele><time>2017-07-29T14:46:37Z</time></trkpt>\
<trkpt lat=\"37.2401\" lon=\"-121.9701\"><ele>96.2</ele><time>2017-07-29T14:46:42Z</time></trkpt>\
</trkseg></trk></gpx>";

static ACCURACY_STYLE: &str = "<gpx version=\"1.1\" creator=\"unit test\">\
<metadata><name>20170412_CARDIO.gpx</name></metadata>\
<trk><name>Cycling</name><trkseg>\
<trkpt lat=\"1.0\" lon=\"2.0\"><fix>dgps</fix><sat>4</sat><hdop>5</hdop><vdop>6.2</vdop><pdop>728</pdop><ageofdgpsdata>1</ageofdgpsdata><dgpsid>3</dgpsid></trkpt>\
<trkpt lat=\"1.1\" lon=\"2.1\"><fix>3d</fix><sat>5</sat><hdop>3.6</hdop><vdop>5</vdop><pdop>619.1</pdop><ageofdgpsdata>2.01</ageofdgpsdata><dgpsid>4</dgpsid></trkpt>\
<trkpt lat=\"1.2\" lon=\"2.2\"><fix>something_not_in_the_spec</fix></trkpt>\
</trkseg></trk></gpx>";

#[test]
fn gpx_writer_write_test_wikipedia() {
    check_write_for_example_document(WIKIPEDIA_STYLE);
}

#[test]
fn gpx_writer_write_test_garmin_activity() {
    check_write_for_example_document(ACTIVITY_STYLE);
}

#[test]
fn gpx_writer_write_test_with_accuracy() {
    check_write_for_example_document(ACCURACY_STYLE);
}

fn check_write_for_example_document(xml: &str) {
    let reference_gpx = gpx::read(xml.as_bytes()).unwrap();
    let written_gpx = write_and_reread_gpx(&reference_gpx);

    check_metadata_equal(&reference_gpx, &written_gpx);
    check_points_equal(&reference_gpx, &written_gpx);
}

fn write_and_reread_gpx(reference_gpx: &Gpx) -> Gpx {
    let result = gpx::writer::write(reference_gpx);
    assert!(result.is_ok());
    let buffer = result.unwrap();
    gpx::read(buffer.as_slice()).unwrap()
}

fn check_metadata_equal(reference_gpx: &Gpx, written_gpx: &Gpx) {
    let reference = &reference_gpx.metadata;
    let written = &written_gpx.metadata;
    if reference.is_some() {
        assert!(written.is_some());
    } else {
        assert!(written.is_none());
        return;
    }
    let reference = reference.as_ref().unwrap();
    let written = written.as_ref().unwrap();
    assert_eq!(reference.name, written.name);
    assert_eq!(reference.time, written.time);
    check_links_equal(&reference.links, &written.links);
}

fn check_links_equal(reference: &Vec<Link>, written: &Vec<Link>) {
    assert_eq!(reference.len(), written.len());
    for (r, w) in reference.iter().zip(written) {
        assert_eq!(r.href, w.href);
        assert_eq!(r.text, w.text);
    }
}

fn check_points_equal(reference: &Gpx, written: &Gpx) {
    check_waypoints_equal(&reference.waypoints, &written.waypoints);
    assert_eq!(reference.tracks.len(), written.tracks.len());
    for (r_track, w_track) in reference.tracks.iter().zip(written.tracks.iter()) {
        assert_eq!(r_track.name, w_track.name);
        assert_eq!(r_track.segments.len(), w_track.segments.len());
        for (r_seg, w_seg) in r_track.segments.iter().zip(w_track.segments.iter()) {
            check_waypoints_equal(&r_seg.points, &w_seg.points);
        }
    }
}

fn check_waypoints_equal(reference: &Vec<Waypoint>, written: &Vec<Waypoint>) {
    assert_eq!(reference.len(), written.len());
    for (r_wp, w_wp) in reference.iter().zip(written) {
        assert_eq!(r_wp.point(), w_wp.point());
        assert_eq!(r_wp.elevation, w_wp.elevation);
        assert_eq!(r_wp.speed, w_wp.speed);
        assert_eq!(r_wp.time, w_wp.time);
        assert_eq!(r_wp.geoidheight, w_wp.geoidheight);
        assert_eq!(r_wp.name, w_wp.name);
        assert_eq!(r_wp.comment, w_wp.comment);
        assert_eq!(r_wp.description, w_wp.description);
        assert_eq!(r_wp.source, w_wp.source);
        check_links_equal(&r_wp.links, &w_wp.links);
        assert_eq!(r_wp.symbol, w_wp.symbol);
        assert_eq!(r_wp._type, w_wp._type);
        assert_eq!(r_wp.fix, w_wp.fix);
        assert_eq!(r_wp.sat, w_wp.sat);
        assert_eq!(r_wp.hdop, w_wp.hdop);
        assert_eq!(r_wp.vdop, w_wp.vdop);
        assert_eq!(r_wp.pdop, w_wp.pdop);
        assert_eq!(r_wp.age, w_wp.age);
        assert_eq!(r_wp.dgpsid, w_wp.dgpsid);
    }
}

#[test]
fn default_creator_is_the_library_identifier() {
    let doc = gpx::read("<gpx version=\"1.1\"></gpx>".as_bytes()).unwrap();
    assert!(doc.creator.is_none());
    let bytes = gpx::writer::write(&doc).unwrap();
    let text = String::from_utf8(bytes).unwrap();
    assert!(text.contains("creator=\"https://github.com/georust/gpx\""));
}

#[test]
fn email_round_trip() {
    let xml = "<gpx version=\"1.1\"><metadata><author><email id=\"me\" domain=\"example.com\"/></author></metadata></gpx>";
    let doc = gpx::read(xml.as_bytes()).unwrap();
    let md = doc.metadata.as_ref().unwrap();
    assert_eq!(md.author.as_ref().unwrap().email, Some("me@example.com".to_owned()));
    let bytes = gpx::writer::write(&doc).unwrap();
    let text = String::from_utf8(bytes).unwrap();
    assert!(text.contains("id=\"me\""));
    assert!(text.contains("domain=\"example.com\""));
}

#[test]
fn email_with_two_ats_fails_to_write() {
    let xml = "<gpx version=\"1.1\"><metadata><author><email id=\"a@b\" domain=\"example.com\"/></author></metadata></gpx>";
    let doc = gpx::read(xml.as_bytes()).unwrap();
    let err = gpx::writer::write(&doc).unwrap_err();
    assert!(matches!(err, gpx::errors::GpxError::TooManyAtsError));
}

#[test]
fn mismatched_extensions_inner_tags_fail() {
    let xml = "<gpx version=\"1.1\"><extensions><a></extensions></a></extensions></gpx>";
    assert!(gpx::read(xml.as_bytes()).is_err());
}

#[test]
fn full_document_round_trip_gpx10() {
    let xml = "<gpx version=\"1.0\" creator=\"unit test\">\
<name>doc</name><desc>d</desc><author>Jane</author><email>jane@example.com</email>\
<url>http://example.com</url><urlname>home</urlname><keywords>k</keywords>\
<time>2016-03-27T18:57:55Z</time>\
<bounds minlat=\"1.5\" maxlat=\"2.5\" minlon=\"3.5\" maxlon=\"4.5\"/>\
<wpt lat=\"1.23\" lon=\"2.34\"><speed>4.25</speed></wpt>\
<rte><name>r</name><rtept lat=\"1\" lon=\"2\"/></rte>\
</gpx>";
    let doc = gpx::read(xml.as_bytes()).unwrap();
    let bytes = gpx::writer::write(&doc).unwrap();
    let again = gpx::read(bytes.as_slice()).unwrap();
    assert_eq!(doc, again);
}

#[test]
fn full_document_round_trip_gpx11() {
    let xml = "<gpx version=\"1.1\" creator=\"unit test\">\
<metadata><name>doc</name><desc>d</desc>\
<author><name>Jane</name><email id=\"jane\" domain=\"example.com\"/><link href=\"http://example.com\"><text>home</text></link></author>\
<copyright author=\"someone\"><year>2020</year><license>http://example.com/l</license></copyright>\
<keywords>k</keywords><time>2016-03-27T18:57:55.25Z</time>\
<link href=\"http://example.com/2\"/>\
<bounds minlat=\"1.5\" maxlat=\"2.5\" minlon=\"3.5\" maxlon=\"4.5\"/></metadata>\
<wpt lat=\"1.23\" lon=\"2.34\"><ele>10.5</ele><name>w</name><sym>s</sym><type>t</type>\
<fix>2d</fix><sat>7</sat><hdop>1.1</hdop><vdop>2.2</vdop><pdop>3.3</pdop>\
<ageofdgpsdata>4.5</ageofdgpsdata><dgpsid>9</dgpsid><geoidheight>12</geoidheight></wpt>\
<trk><name>t</name><number>3</number><trkseg><trkpt lat=\"1\" lon=\"2\"/></trkseg></trk>\
<rte><name>r</name><number>4</number><rtept lat=\"1\" lon=\"2\"/></rte>\
</gpx>";
    let doc = gpx::read(xml.as_bytes()).unwrap();
    let bytes = gpx::writer::write(&doc).unwrap();
    let again = gpx::read(bytes.as_slice()).unwrap();
    assert_eq!(doc, again);
}
