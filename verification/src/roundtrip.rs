//! Round-trip laws at the event level: an element that the writer
//! emits, read back by that element's consumer, gives the value the
//! writer was handed, at the position just past the element.

use vstd::prelude::*;

use crate::decimal::{
    dec_wf, lemma_dec_le_excludes_gt, lemma_dec_round_trip, DecimalS,
};
use crate::events::{AttrS, EventS};
use crate::parser::bounds::{p_bounds, p_bounds_attrs, p_bounds_body};
use crate::parser::link::{p_link, p_link_body};
use crate::parser::time::{lemma_time_round_trip, p_time, time_wf, Time, time_text};
use crate::parser::copyright::{p_copyright, p_copyright_body};
use crate::parser::email::{p_email, p_email_body};
use crate::parser::fix::{fix_of_text, lemma_fix_round_trip, p_fix};
use crate::parser::person::{p_person, p_person_body};
use crate::parser::string::{p_dec_child, p_string, p_string_body, p_uint_child};
use crate::parser::{find_attr, p_verify_starting_tag, PStep};
use crate::text::{int_text, lemma_signed32_round_trip};
use crate::types::{rect_wf, CopyrightS, FixS, LinkS, PersonS, RectS};
use crate::writer::{email_split, lemma_email_split_rejoin};
use crate::text::{lemma_nat_text_digits, lemma_unsigned_round_trip, nat_text};
use crate::writer::{ev_close, ev_open, ev_text, fix_text, w_bounds, w_string};

verus! {

/// A written string element reads back as its value: the writer's three
/// events for `w_string(key, value)`, standing at `p`, parse to the
/// value and consume exactly those three events.
pub proof fn lemma_string_elem_round_trip(
    evs: Seq<EventS>,
    p: int,
    key: Seq<char>,
    value: Seq<char>,
    allow_empty: bool,
)
    requires
        0 <= p,
        p + 3 <= evs.len(),
        evs[p] == ev_open(key, Seq::<AttrS>::empty()),
        evs[p + 1] == ev_text(value),
        evs[p + 2] == ev_close(key),
        allow_empty || value.len() > 0,
    ensures
        p_string(evs, p, key, allow_empty) == PStep::<Seq<char>>::Took(value, 3),
{
    reveal_with_fuel(p_verify_starting_tag, 1);
    reveal_with_fuel(p_string, 1);
    reveal_with_fuel(p_string_body, 3);
}

/// A written fix element reads back as the same fix: the classified
/// kinds through their tokens, an `Other` value through its own text.
pub proof fn lemma_fix_elem_round_trip(evs: Seq<EventS>, p: int, f: FixS)
    requires
        0 <= p,
        p + 3 <= evs.len(),
        evs[p] == ev_open("fix"@, Seq::<AttrS>::empty()),
        evs[p + 1] == ev_text(fix_text(f)),
        evs[p + 2] == ev_close("fix"@),
        f matches FixS::Other(s) ==> s.len() > 0 && s != "none"@ && s != "2d"@ && s != "3d"@ && s
            != "dgps"@ && s != "pps"@,
    ensures
        p_fix(evs, p) == PStep::<FixS>::Took(f, 3),
{
    reveal_strlit("none");
    reveal_strlit("2d");
    reveal_strlit("3d");
    reveal_strlit("dgps");
    reveal_strlit("pps");
    assert(fix_text(f).len() > 0);
    lemma_string_elem_round_trip(evs, p, "fix"@, fix_text(f), false);
    reveal_with_fuel(p_fix, 1);
    lemma_fix_round_trip(f);
    assert(fix_of_text(fix_text(f)) == f);
}

/// A written time element reads back as the same instant.
pub proof fn lemma_time_elem_round_trip(evs: Seq<EventS>, p: int, t: Time)
    requires
        0 <= p,
        p + 3 <= evs.len(),
        time_wf(t),
        evs[p] == ev_open("time"@, Seq::<AttrS>::empty()),
        evs[p + 1] == ev_text(time_text(t)),
        evs[p + 2] == ev_close("time"@),
    ensures
        p_time(evs, p) == PStep::<Time>::Took(t, 3),
{
    lemma_time_round_trip(t);
    lemma_string_elem_round_trip(evs, p, "time"@, time_text(t), false);
    reveal_with_fuel(p_time, 1);
}

/// A written decimal-valued element reads back as the same decimal.
pub proof fn lemma_dec_elem_round_trip(evs: Seq<EventS>, p: int, key: Seq<char>, d: DecimalS)
    requires
        0 <= p,
        p + 3 <= evs.len(),
        dec_wf(d),
        evs[p] == ev_open(key, Seq::<AttrS>::empty()),
        evs[p + 1] == ev_text(crate::decimal::dec_text(d)),
        evs[p + 2] == ev_close(key),
    ensures
        p_dec_child(evs, p, key) == PStep::<DecimalS>::Took(d, 3),
{
    assert(crate::decimal::dec_text(d).len() > 0);
    lemma_string_elem_round_trip(evs, p, key, crate::decimal::dec_text(d), false);
    reveal_with_fuel(p_dec_child, 1);
    lemma_dec_round_trip(d);
}

/// A written unsigned-valued element reads back as the same number.
pub proof fn lemma_uint_elem_round_trip(evs: Seq<EventS>, p: int, key: Seq<char>, n: u64, max: int)
    requires
        0 <= p,
        p + 3 <= evs.len(),
        n <= max,
        evs[p] == ev_open(key, Seq::<AttrS>::empty()),
        evs[p + 1] == ev_text(nat_text(n as int)),
        evs[p + 2] == ev_close(key),
    ensures
        p_uint_child(evs, p, key, max) == PStep::<u64>::Took(n, 3),
{
    lemma_nat_text_digits(n as int);
    lemma_string_elem_round_trip(evs, p, key, nat_text(n as int), false);
    reveal_with_fuel(p_uint_child, 1);
    lemma_unsigned_round_trip(n as int, max);
}

/// A written email element reads back as the joined address: the two
/// attributes the writer splits an address into parse to that address.
pub proof fn lemma_email_elem_round_trip(evs: Seq<EventS>, p: int, id: Seq<char>, domain: Seq<
    char,
>)
    requires
        0 <= p,
        p + 2 <= evs.len(),
        evs[p] == ev_open(
            "email"@,
            seq![
                AttrS { name: "id"@, value: id },
                AttrS { name: "domain"@, value: domain },
            ],
        ),
        evs[p + 1] == ev_close("email"@),
    ensures
        p_email(evs, p) == PStep::<Seq<char>>::Took(id + "@"@ + domain, 2),
{
    reveal_with_fuel(p_verify_starting_tag, 1);
    reveal_with_fuel(p_email, 1);
    reveal_with_fuel(p_email_body, 1);
    reveal_with_fuel(find_attr, 3);
    reveal_strlit("id");
    reveal_strlit("domain");
    let attrs = seq![
        AttrS { name: "id"@, value: id },
        AttrS { name: "domain"@, value: domain },
    ];
    assert("id"@.len() == 2);
    assert("domain"@.len() == 6);
    assert(find_attr(attrs, "id"@) == Some(id));
    assert(attrs.skip(1) =~= seq![AttrS { name: "domain"@, value: domain }]);
    assert(find_attr(attrs, "domain"@) == Some(domain)) by {
        assert(find_attr(attrs.skip(1), "domain"@) == Some(domain));
    }
}

/// A written bounds element reads back as the same rectangle: the four
/// corner attributes re-parse to the corners, and the ordering checks
/// pass because the rectangle was well formed.
pub proof fn lemma_bounds_elem_round_trip(evs: Seq<EventS>, p: int, r: RectS)
    requires
        0 <= p,
        p + 2 <= evs.len(),
        rect_wf(r),
        evs[p] == w_bounds(r)[0],
        evs[p + 1] == w_bounds(r)[1],
    ensures
        p_bounds(evs, p) == PStep::<RectS>::Took(r, 2),
{
    reveal_with_fuel(p_verify_starting_tag, 1);
    reveal_with_fuel(p_bounds, 1);
    reveal_with_fuel(p_bounds_body, 1);
    reveal_with_fuel(find_attr, 5);
    reveal_with_fuel(crate::writer::w_bounds, 1);
    reveal_strlit("minlat");
    reveal_strlit("maxlat");
    reveal_strlit("minlon");
    reveal_strlit("maxlon");
    assert("minlat"@.len() == 6 && "maxlat"@.len() == 6 && "minlon"@.len() == 6 && "maxlon"@.len()
        == 6);
    assert("minlat"@[1] == 'i' && "maxlat"@[1] == 'a' && "minlon"@[1] == 'i' && "maxlon"@[1]
        == 'a');
    assert("minlat"@[4] == 'a' && "minlon"@[4] == 'o' && "maxlat"@[4] == 'a' && "maxlon"@[4]
        == 'o');
    let attrs = seq![
        AttrS { name: "minlat"@, value: crate::decimal::dec_text(r.min.y) },
        AttrS { name: "maxlat"@, value: crate::decimal::dec_text(r.max.y) },
        AttrS { name: "minlon"@, value: crate::decimal::dec_text(r.min.x) },
        AttrS { name: "maxlon"@, value: crate::decimal::dec_text(r.max.x) },
    ];
    assert(evs[p] == ev_open("bounds"@, attrs));
    assert(attrs.skip(1) =~= seq![
        AttrS { name: "maxlat"@, value: crate::decimal::dec_text(r.max.y) },
        AttrS { name: "minlon"@, value: crate::decimal::dec_text(r.min.x) },
        AttrS { name: "maxlon"@, value: crate::decimal::dec_text(r.max.x) },
    ]);
    assert(attrs.skip(1).skip(1) =~= seq![
        AttrS { name: "minlon"@, value: crate::decimal::dec_text(r.min.x) },
        AttrS { name: "maxlon"@, value: crate::decimal::dec_text(r.max.x) },
    ]);
    assert(attrs.skip(1).skip(1).skip(1) =~= seq![
        AttrS { name: "maxlon"@, value: crate::decimal::dec_text(r.max.x) },
    ]);
    assert(find_attr(attrs, "minlat"@) == Some(crate::decimal::dec_text(r.min.y)));
    assert(find_attr(attrs, "maxlat"@) == Some(crate::decimal::dec_text(r.max.y)));
    assert(find_attr(attrs, "minlon"@) == Some(crate::decimal::dec_text(r.min.x)));
    assert(find_attr(attrs, "maxlon"@) == Some(crate::decimal::dec_text(r.max.x)));
    lemma_dec_round_trip(r.min.y);
    lemma_dec_round_trip(r.max.y);
    lemma_dec_round_trip(r.min.x);
    lemma_dec_round_trip(r.max.x);
    lemma_dec_le_excludes_gt(r.min.x, r.max.x);
    lemma_dec_le_excludes_gt(r.min.y, r.max.y);
    assert(p_bounds_attrs(attrs) == Result::<RectS, crate::errors::ErrS>::Ok(r));
}

/// A written link element reads back as the same link: the `href`
/// attribute, then the optional `text` and `type` children in the
/// writer's order.
pub proof fn lemma_link_elem_round_trip(evs: Seq<EventS>, p: int, l: LinkS)
    requires
        0 <= p,
        p + 2 + text_len(l) + type_len(l) <= evs.len(),
        evs[p] == ev_open("link"@, seq![AttrS { name: "href"@, value: l.href }]),
        l.text matches Some(t) ==> evs[p + 1] == ev_open("text"@, Seq::<AttrS>::empty()) && evs[p
            + 2] == ev_text(t) && evs[p + 3] == ev_close("text"@),
        l._type matches Some(t) ==> evs[p + 1 + text_len(l)] == ev_open(
            "type"@,
            Seq::<AttrS>::empty(),
        ) && evs[p + 2 + text_len(l)] == ev_text(t) && evs[p + 3 + text_len(l)] == ev_close(
            "type"@,
        ),
        evs[p + 1 + text_len(l) + type_len(l)] == ev_close("link"@),
        l.text matches Some(t) ==> t.len() > 0,
        l._type matches Some(t) ==> t.len() > 0,
    ensures
        p_link(evs, p) == PStep::<LinkS>::Took(l, (2 + text_len(l) + type_len(l)) as nat),
{
    reveal_with_fuel(p_verify_starting_tag, 1);
    reveal_with_fuel(p_link, 1);
    reveal_with_fuel(p_link_body, 4);
    reveal_with_fuel(find_attr, 2);
    reveal_strlit("text");
    reveal_strlit("type");
    assert("text"@.len() == 4 && "type"@.len() == 4);
    assert("text"@[1] == 'e' && "type"@[1] == 'y');
    let attrs = seq![AttrS { name: "href"@, value: l.href }];
    assert(find_attr(attrs, "href"@) == Some(l.href));
    let l0 = LinkS { href: l.href, text: None, _type: None };
    match l.text {
        Some(t) => {
            lemma_string_elem_round_trip(evs, p + 1, "text"@, t, false);
            let l1 = LinkS { text: Some(t), ..l0 };
            match l._type {
                Some(ty) => {
                    lemma_string_elem_round_trip(evs, p + 4, "type"@, ty, false);
                    assert(LinkS { _type: Some(ty), ..l1 } == l);
                },
                None => {
                    assert(l1 == l);
                },
            }
        },
        None => {
            match l._type {
                Some(ty) => {
                    lemma_string_elem_round_trip(evs, p + 1, "type"@, ty, false);
                    assert(LinkS { _type: Some(ty), ..l0 } == l);
                },
                None => {
                    assert(l0 == l);
                },
            }
        },
    }
}

/// The written length of a link's optional `text` child.
pub open spec fn text_len(l: LinkS) -> int {
    if l.text is Some {
        3
    } else {
        0
    }
}

/// The written length of a link's optional `type` child.
pub open spec fn type_len(l: LinkS) -> int {
    if l._type is Some {
        3
    } else {
        0
    }
}

/// The written length of a copyright's optional `year` child.
pub open spec fn year_len(c: CopyrightS) -> int {
    if c.year is Some {
        3
    } else {
        0
    }
}

/// The written length of a copyright's optional `license` child.
pub open spec fn license_len(c: CopyrightS) -> int {
    if c.license is Some {
        3
    } else {
        0
    }
}

/// The attribute list a copyright element is written with.
pub open spec fn copyright_attrs(c: CopyrightS) -> Seq<AttrS> {
    match c.author {
        Some(a) => seq![AttrS { name: "author"@, value: a }],
        None => Seq::<AttrS>::empty(),
    }
}

/// A written copyright element reads back as the same copyright: the
/// optional `author` attribute, then the `year` and `license` children
/// in the writer's order.
pub proof fn lemma_copyright_elem_round_trip(evs: Seq<EventS>, p: int, c: CopyrightS)
    requires
        0 <= p,
        p + 2 + year_len(c) + license_len(c) <= evs.len(),
        evs[p] == ev_open("copyright"@, copyright_attrs(c)),
        c.year matches Some(y) ==> evs[p + 1] == ev_open("year"@, Seq::<AttrS>::empty()) && evs[p
            + 2] == ev_text(int_text(y as int)) && evs[p + 3] == ev_close("year"@),
        c.license matches Some(t) ==> evs[p + 1 + year_len(c)] == ev_open(
            "license"@,
            Seq::<AttrS>::empty(),
        ) && evs[p + 2 + year_len(c)] == ev_text(t) && evs[p + 3 + year_len(c)] == ev_close(
            "license"@,
        ),
        evs[p + 1 + year_len(c) + license_len(c)] == ev_close("copyright"@),
        c.license matches Some(t) ==> t.len() > 0,
    ensures
        p_copyright(evs, p) == PStep::<CopyrightS>::Took(c, (2 + year_len(c) + license_len(c)) as nat),
{
    reveal_with_fuel(p_verify_starting_tag, 1);
    reveal_with_fuel(p_copyright, 1);
    reveal_with_fuel(p_copyright_body, 4);
    reveal_with_fuel(find_attr, 2);
    reveal_strlit("author");
    reveal_strlit("year");
    reveal_strlit("license");
    assert("year"@.len() == 4 && "license"@.len() == 7);
    match c.author {
        Some(a) => {
            assert(find_attr(copyright_attrs(c), "author"@) == Some(a));
        },
        None => {
            assert(find_attr(copyright_attrs(c), "author"@) is None);
        },
    }
    let c0 = CopyrightS { author: c.author, year: None, license: None };
    match c.year {
        Some(y) => {
            lemma_signed32_round_trip(y as int);
            assert(int_text(y as int).len() > 0) by {
                crate::text::lemma_nat_text_digits(if y < 0 {
                    -(y as int)
                } else {
                    y as int
                });
            }
            lemma_string_elem_round_trip(evs, p + 1, "year"@, int_text(y as int), false);
            let c1 = CopyrightS { year: Some(y), ..c0 };
            match c.license {
                Some(t) => {
                    lemma_string_elem_round_trip(evs, p + 4, "license"@, t, false);
                    assert(CopyrightS { license: Some(t), ..c1 } == c);
                },
                None => {
                    assert(c1 == c);
                },
            }
        },
        None => {
            match c.license {
                Some(t) => {
                    lemma_string_elem_round_trip(evs, p + 1, "license"@, t, false);
                    assert(CopyrightS { license: Some(t), ..c0 } == c);
                },
                None => {
                    assert(c0 == c);
                },
            }
        },
    }
}

/// The written length of a person's optional `name` child.
pub open spec fn pname_len(pr: PersonS) -> int {
    if pr.name is Some {
        3
    } else {
        0
    }
}

/// The written length of a person's optional email child.
pub open spec fn pemail_len(pr: PersonS) -> int {
    if pr.email is Some {
        2
    } else {
        0
    }
}

/// The written length of a person's optional link child.
pub open spec fn plink_len(pr: PersonS) -> int {
    match pr.link {
        Some(l) => 2 + text_len(l) + type_len(l),
        None => 0,
    }
}

/// A written person element reads back as the same person: the optional
/// `name`, the email split into its two attributes, and the link, in
/// the writer's order.
pub proof fn lemma_person_elem_round_trip(evs: Seq<EventS>, p: int, key: Seq<char>, pr: PersonS)
    requires
        0 <= p,
        p + 2 + pname_len(pr) + pemail_len(pr) + plink_len(pr) <= evs.len(),
        evs[p] == ev_open(key, Seq::<AttrS>::empty()),
        pr.name matches Some(n) ==> n.len() > 0 && evs[p + 1] == ev_open(
            "name"@,
            Seq::<AttrS>::empty(),
        ) && evs[p + 2] == ev_text(n) && evs[p + 3] == ev_close("name"@),
        pr.email matches Some(em) ==> (email_split(em) matches Ok(parts) && evs[p + 1 + pname_len(
            pr,
        )] == ev_open(
            "email"@,
            seq![
                AttrS { name: "id"@, value: parts.0 },
                AttrS { name: "domain"@, value: parts.1 },
            ],
        ) && evs[p + 2 + pname_len(pr)] == ev_close("email"@)),
        pr.link matches Some(l) ==> (evs[p + 1 + pname_len(pr) + pemail_len(pr)] == ev_open(
            "link"@,
            seq![AttrS { name: "href"@, value: l.href }],
        ) && (l.text matches Some(t) ==> t.len() > 0 && evs[p + 2 + pname_len(pr) + pemail_len(
            pr,
        )] == ev_open("text"@, Seq::<AttrS>::empty()) && evs[p + 3 + pname_len(pr) + pemail_len(
            pr,
        )] == ev_text(t) && evs[p + 4 + pname_len(pr) + pemail_len(pr)] == ev_close("text"@)) && (
        l._type matches Some(t) ==> t.len() > 0 && evs[p + 2 + pname_len(pr) + pemail_len(pr)
            + text_len(l)] == ev_open("type"@, Seq::<AttrS>::empty()) && evs[p + 3 + pname_len(pr)
            + pemail_len(pr) + text_len(l)] == ev_text(t) && evs[p + 4 + pname_len(pr)
            + pemail_len(pr) + text_len(l)] == ev_close("type"@)) && evs[p + 2 + pname_len(pr)
            + pemail_len(pr) + text_len(l) + type_len(l)] == ev_close("link"@)),
        evs[p + 1 + pname_len(pr) + pemail_len(pr) + plink_len(pr)] == ev_close(key),
    ensures
        p_person(evs, p, key) == PStep::<PersonS>::Took(
            pr,
            (2 + pname_len(pr) + pemail_len(pr) + plink_len(pr)) as nat,
        ),
{
    reveal_with_fuel(p_verify_starting_tag, 1);
    reveal_with_fuel(p_person, 1);
    reveal_with_fuel(p_person_body, 4);
    reveal_strlit("name");
    reveal_strlit("email");
    reveal_strlit("link");
    assert("name"@.len() == 4 && "email"@.len() == 5 && "link"@.len() == 4);
    assert("name"@[0] == 'n' && "link"@[0] == 'l');
    let p0 = PersonS { name: None, email: None, link: None };
    let o1 = p + 1 + pname_len(pr);
    let o2 = o1 + pemail_len(pr);
    let p1 = PersonS { name: pr.name, email: None, link: None };
    let p2 = PersonS { name: pr.name, email: pr.email, link: None };
    match pr.name {
        Some(n) => {
            lemma_string_elem_round_trip(evs, p + 1, "name"@, n, false);
            assert(PersonS { name: Some(n), ..p0 } == p1);
        },
        None => {
            assert(p0 == p1);
        },
    }
    match pr.email {
        Some(em) => {
            match email_split(em) {
                Ok(parts) => {
                    lemma_email_split_rejoin(em);
                    lemma_email_elem_round_trip(evs, o1, parts.0, parts.1);
                    assert(PersonS { email: Some(parts.0 + "@"@ + parts.1), ..p1 } == p2);
                },
                Err(_) => {
                    assert(false);
                },
            }
        },
        None => {
            assert(p1 == p2);
        },
    }
    match pr.link {
        Some(l) => {
            lemma_link_elem_round_trip(evs, o2, l);
            assert(PersonS { link: Some(l), ..p2 } == pr);
        },
        None => {
            assert(p2 == pr);
        },
    }
}


} // verus!
