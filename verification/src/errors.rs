//! errors provides the error values the parser and writer report.

use vstd::prelude::*;
use vstd::string::*;

use crate::GpxVersion;

verus! {

pub type GpxResult<T> = Result<T, GpxError>;

/// Errors that can occur when reading or writing GPX documents. Each
/// grammar error names both the offending tag or attribute and the
/// element it appeared in.
#[derive(Clone, Debug, PartialEq)]
pub enum GpxError {
    /// A value did not match the decimal grammar.
    ParseFloatError,
    /// A value did not match the integer grammar.
    ParseIntegerError,
    /// An element held a child tag its grammar does not allow.
    InvalidChildElement(String, &'static str),
    /// A closing tag did not match the element being read.
    InvalidClosingTag(String, &'static str),
    /// The event stream ended inside an element.
    MissingClosingTag(&'static str),
    /// The expected opening tag never arrived.
    MissingOpeningTag(&'static str),
    /// An element lacked a required attribute.
    InvalidElementLacksAttribute(&'static str, &'static str),
    /// A bounds rectangle had a minimum above its maximum.
    OutOfBounds(&'static str),
    /// The tokenizer reported malformed XML.
    XmlParseError,
    /// The `version` attribute was missing a known value.
    UnknownVersionError(GpxVersion),
    /// A tag that may appear once appeared again.
    TagOpenedTwice(&'static str),
    /// A track segment could not be read.
    TrackSegmentError,
    /// An element that requires text content had none.
    NoStringContent,
    /// The event emitter refused the stream.
    XmlWriteError,
    /// An email address to write was missing its id or domain part.
    MissingEmailPartError(&'static str),
    /// An email address to write held more than one `@`.
    TooManyAtsError,
    /// The tokenizer failed in the middle of an element.
    EventParsingError(&'static str),
    /// The tokenizer failed in the middle of the metadata element.
    MetadataParsingError,
    /// A latitude or longitude was outside its range; the last field
    /// holds the value as written.
    LonLatOutOfBoundsError(&'static str, &'static str, String),
    /// Text did not match the date-time grammar.
    Rfc3339Error,
    /// A date-time value could not be rendered.
    Rfc3339ErrorWriting,
}

/// The mathematical model of a `GpxError`.
pub enum ErrS {
    ParseFloatError,
    ParseIntegerError,
    InvalidChildElement(Seq<char>, Seq<char>),
    InvalidClosingTag(Seq<char>, Seq<char>),
    MissingClosingTag(Seq<char>),
    MissingOpeningTag(Seq<char>),
    InvalidElementLacksAttribute(Seq<char>, Seq<char>),
    OutOfBounds(Seq<char>),
    XmlParseError,
    UnknownVersionError(GpxVersion),
    TagOpenedTwice(Seq<char>),
    TrackSegmentError,
    NoStringContent,
    XmlWriteError,
    MissingEmailPartError(Seq<char>),
    TooManyAtsError,
    EventParsingError(Seq<char>),
    MetadataParsingError,
    LonLatOutOfBoundsError(Seq<char>, Seq<char>, Seq<char>),
    Rfc3339Error,
    Rfc3339ErrorWriting,
}

impl DeepView for GpxError {
    type V = ErrS;

    open spec fn deep_view(&self) -> ErrS {
        match self {
            GpxError::ParseFloatError => ErrS::ParseFloatError,
            GpxError::ParseIntegerError => ErrS::ParseIntegerError,
            GpxError::InvalidChildElement(a, b) => ErrS::InvalidChildElement(a@, b@),
            GpxError::InvalidClosingTag(a, b) => ErrS::InvalidClosingTag(a@, b@),
            GpxError::MissingClosingTag(a) => ErrS::MissingClosingTag(a@),
            GpxError::MissingOpeningTag(a) => ErrS::MissingOpeningTag(a@),
            GpxError::InvalidElementLacksAttribute(a, b) => ErrS::InvalidElementLacksAttribute(
                a@,
                b@,
            ),
            GpxError::OutOfBounds(a) => ErrS::OutOfBounds(a@),
            GpxError::XmlParseError => ErrS::XmlParseError,
            GpxError::UnknownVersionError(v) => ErrS::UnknownVersionError(*v),
            GpxError::TagOpenedTwice(a) => ErrS::TagOpenedTwice(a@),
            GpxError::TrackSegmentError => ErrS::TrackSegmentError,
            GpxError::NoStringContent => ErrS::NoStringContent,
            GpxError::XmlWriteError => ErrS::XmlWriteError,
            GpxError::MissingEmailPartError(a) => ErrS::MissingEmailPartError(a@),
            GpxError::TooManyAtsError => ErrS::TooManyAtsError,
            GpxError::EventParsingError(a) => ErrS::EventParsingError(a@),
            GpxError::MetadataParsingError => ErrS::MetadataParsingError,
            GpxError::LonLatOutOfBoundsError(a, b, v) => ErrS::LonLatOutOfBoundsError(a@, b@, v@),
            GpxError::Rfc3339Error => ErrS::Rfc3339Error,
            GpxError::Rfc3339ErrorWriting => ErrS::Rfc3339ErrorWriting,
        }
    }
}

pub open spec fn version_text(v: GpxVersion) -> Seq<char> {
    match v {
        GpxVersion::Unknown => "Unknown"@,
        GpxVersion::Gpx10 => "1.0"@,
        GpxVersion::Gpx11 => "1.1"@,
    }
}

/// The diagnostic line for each error value.
pub open spec fn err_text(e: ErrS) -> Seq<char> {
    match e {
        ErrS::ParseFloatError => "error while casting to f64"@,
        ErrS::ParseIntegerError => "Could not convert value to u32"@,
        ErrS::InvalidChildElement(a, b) => "invalid child element `"@ + a + "` in `"@ + b + "`"@,
        ErrS::InvalidClosingTag(a, b) => "invalid closing tag `"@ + a + "` in `"@ + b + "`"@,
        ErrS::MissingClosingTag(a) => "missing closing tag in `"@ + a + "`"@,
        ErrS::MissingOpeningTag(a) => "missing opening tag in `"@ + a + "`"@,
        ErrS::InvalidElementLacksAttribute(a, b) => "invalid element, `"@ + b
            + "` lacks required attribute `"@ + a + "`"@,
        ErrS::OutOfBounds(a) => "minimum `"@ + a + "` larger than maximum `"@ + a + "`"@,
        ErrS::XmlParseError => "error while parsing XML"@,
        ErrS::UnknownVersionError(v) => "unknown GPX version: `"@ + version_text(v) + "`"@,
        ErrS::TagOpenedTwice(a) => "tag opened twice: `"@ + a + "`"@,
        ErrS::TrackSegmentError => "error while parsing 'track' segment"@,
        ErrS::NoStringContent => "no string content"@,
        ErrS::XmlWriteError => "error while writing XML"@,
        ErrS::MissingEmailPartError(a) => "missing `"@ + a + "` part in email"@,
        ErrS::TooManyAtsError => "email contains multiple `@` symbols"@,
        ErrS::EventParsingError(a) => "error while parsing `"@ + a + "`"@,
        ErrS::MetadataParsingError => "error while parsing metadata"@,
        ErrS::LonLatOutOfBoundsError(a, b, v) => "invalid `"@ + a + "`: must be between `"@ + b
            + "`. Actual value: `"@ + v + "`"@,
        ErrS::Rfc3339Error => "error trying to parse RFC3339 formatted date"@,
        ErrS::Rfc3339ErrorWriting => "error trying to write RFC3339 formatted date"@,
    }
}

impl GpxError {
    /// The diagnostic line for this error.
    pub fn message(&self) -> (r: String)
        ensures
            r@ == err_text(self.deep_view()),
    {
        match self {
            GpxError::ParseFloatError => String::from_str("error while casting to f64"),
            GpxError::ParseIntegerError => String::from_str("Could not convert value to u32"),
            GpxError::InvalidChildElement(a, b) => {
                let mut r = String::from_str("invalid child element `");
                r.append(a.as_str());
                r.append("` in `");
                r.append(b);
                r.append("`");
                r
            },
            GpxError::InvalidClosingTag(a, b) => {
                let mut r = String::from_str("invalid closing tag `");
                r.append(a.as_str());
                r.append("` in `");
                r.append(b);
                r.append("`");
                r
            },
            GpxError::MissingClosingTag(a) => {
                let mut r = String::from_str("missing closing tag in `");
                r.append(a);
                r.append("`");
                r
            },
            GpxError::MissingOpeningTag(a) => {
                let mut r = String::from_str("missing opening tag in `");
                r.append(a);
                r.append("`");
                r
            },
            GpxError::InvalidElementLacksAttribute(a, b) => {
                let mut r = String::from_str("invalid element, `");
                r.append(b);
                r.append("` lacks required attribute `");
                r.append(a);
                r.append("`");
                r
            },
            GpxError::OutOfBounds(a) => {
                let mut r = String::from_str("minimum `");
                r.append(a);
                r.append("` larger than maximum `");
                r.append(a);
                r.append("`");
                r
            },
            GpxError::XmlParseError => String::from_str("error while parsing XML"),
            GpxError::UnknownVersionError(v) => {
                let mut r = String::from_str("unknown GPX version: `");
                match v {
                    GpxVersion::Unknown => r.append("Unknown"),
                    GpxVersion::Gpx10 => r.append("1.0"),
                    GpxVersion::Gpx11 => r.append("1.1"),
                }
                r.append("`");
                r
            },
            GpxError::TagOpenedTwice(a) => {
                let mut r = String::from_str("tag opened twice: `");
                r.append(a);
                r.append("`");
                r
            },
            GpxError::TrackSegmentError => String::from_str("error while parsing 'track' segment"),
            GpxError::NoStringContent => String::from_str("no string content"),
            GpxError::XmlWriteError => String::from_str("error while writing XML"),
            GpxError::MissingEmailPartError(a) => {
                let mut r = String::from_str("missing `");
                r.append(a);
                r.append("` part in email");
                r
            },
            GpxError::TooManyAtsError => String::from_str("email contains multiple `@` symbols"),
            GpxError::EventParsingError(a) => {
                let mut r = String::from_str("error while parsing `");
                r.append(a);
                r.append("`");
                r
            },
            GpxError::MetadataParsingError => String::from_str("error while parsing metadata"),
            GpxError::LonLatOutOfBoundsError(a, b, v) => {
                let mut r = String::from_str("invalid `");
                r.append(a);
                r.append("`: must be between `");
                r.append(b);
                r.append("`. Actual value: `");
                r.append(v.as_str());
                r.append("`");
                r
            },
            GpxError::Rfc3339Error => String::from_str(
                "error trying to parse RFC3339 formatted date",
            ),
            GpxError::Rfc3339ErrorWriting => String::from_str(
                "error trying to write RFC3339 formatted date",
            ),
        }
    }
}

} // verus!
