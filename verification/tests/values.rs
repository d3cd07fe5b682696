// Tests for the value grammars: decimals, integers, times, messages.

use gpx::decimal::Decimal;
use gpx::errors::GpxError;
use gpx::parser::time::Time;

#[test]
fn decimal_parse_normalizes() {
    assert_eq!(Decimal::parse("1.230").unwrap(), Decimal::parse("1.23").unwrap());
    assert_eq!(Decimal::parse("0045.5").unwrap(), Decimal::parse("45.5").unwrap());
    assert_eq!(Decimal::parse("+7").unwrap(), Decimal::parse("7").unwrap());
    assert_eq!(Decimal::parse("-0.0").unwrap(), Decimal::parse("0").unwrap());
    assert_eq!(Decimal::parse(".5").unwrap(), Decimal::parse("0.5").unwrap());
    assert!(Decimal::parse("").is_none());
    assert!(Decimal::parse(".").is_none());
    assert!(Decimal::parse("1.2.3").is_none());
    assert!(Decimal::parse("abc").is_none());
}

#[test]
fn decimal_text_round_trips() {
    for s in ["0", "1.23", "-74.031837463", "45.7", "180", "-0.001"] {
        let d = Decimal::parse(s).unwrap();
        let t = d.to_text();
        assert_eq!(Decimal::parse(&t).unwrap(), d);
    }
    assert_eq!(Decimal::parse("45.70").unwrap().to_text(), "45.7");
}

#[test]
fn decimal_order() {
    let a = Decimal::parse("-1.5").unwrap();
    let b = Decimal::parse("-1.49").unwrap();
    let c = Decimal::parse("0").unwrap();
    let d = Decimal::parse("90.0").unwrap();
    let e = Decimal::parse("90.1").unwrap();
    assert!(a.lt(&b));
    assert!(b.lt(&c));
    assert!(c.lt(&d));
    assert!(d.lt(&e));
    assert!(!e.lt(&d));
    assert!(d.le(&d));
}

#[test]
fn time_format_round_trips() {
    let t = Time::from_parts(2001, 10, 26, 19, 32, 52, 0).unwrap();
    assert_eq!(t.format().unwrap(), "2001-10-26T19:32:52Z");
    let t2 = Time::from_parts(2017, 8, 16, 4, 3, 33, 735_000_000).unwrap();
    assert_eq!(t2.format().unwrap(), "2017-08-16T04:03:33.735000000Z");
}

#[test]
fn time_rejects_bad_calendar_dates() {
    assert!(Time::from_parts(2001, 2, 29, 0, 0, 0, 0).is_none());
    assert!(Time::from_parts(2000, 2, 29, 0, 0, 0, 0).is_some());
    assert!(Time::from_parts(2001, 13, 1, 0, 0, 0, 0).is_none());
    assert!(Time::from_parts(2001, 1, 1, 24, 0, 0, 0).is_none());
}

#[test]
fn decimal_exponent_forms() {
    assert_eq!(Decimal::parse("1e3").unwrap(), Decimal::parse("1000").unwrap());
    assert_eq!(Decimal::parse("1.5e1").unwrap(), Decimal::parse("15").unwrap());
    assert_eq!(Decimal::parse("5E-1").unwrap(), Decimal::parse("0.5").unwrap());
    assert_eq!(Decimal::parse("-2.5e-2").unwrap(), Decimal::parse("-0.025").unwrap());
    assert_eq!(Decimal::parse("12e0").unwrap(), Decimal::parse("12").unwrap());
    assert_eq!(Decimal::parse("1e+2").unwrap(), Decimal::parse("100").unwrap());
    assert_eq!(Decimal::parse(".5e1").unwrap(), Decimal::parse("5").unwrap());
    assert_eq!(Decimal::parse("120e-1").unwrap(), Decimal::parse("12").unwrap());
    assert!(Decimal::parse("1e").is_none());
    assert!(Decimal::parse("e5").is_none());
    assert!(Decimal::parse("1e2.5").is_none());
    assert!(Decimal::parse("1e2e3").is_none());
    assert!(Decimal::parse("1e1025").is_none());
}

#[test]
fn well_formed_checks() {
    let doc = gpx::read(
        "<gpx version=\"1.1\"><wpt lat=\"1.5\" lon=\"2e1\"><ele>3.25</ele><time>2001-10-26T19:32:52Z</time></wpt></gpx>".as_bytes(),
    )
    .unwrap();
    assert!(doc.is_well_formed());
    let bad = gpx::decimal::Decimal { negative: false, int_digits: vec![0, 1], frac_digits: vec![] };
    assert!(!bad.is_well_formed());
    assert!(Decimal::parse("10").unwrap().is_well_formed());
    assert!(Time::from_parts(2001, 10, 26, 19, 32, 52, 0).unwrap().is_well_formed());
}

#[test]
fn error_messages_name_their_context() {
    assert_eq!(
        GpxError::InvalidChildElement("foo".to_owned(), "gpx").message(),
        "invalid child element `foo` in `gpx`"
    );
    assert_eq!(GpxError::MissingClosingTag("gpx").message(), "missing closing tag in `gpx`");
    assert_eq!(GpxError::NoStringContent.message(), "no string content");
}
