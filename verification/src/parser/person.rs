//! person handles parsing of GPX-spec persons: an optional name, email
//! and link, under a caller-chosen tag name (`author` in metadata).

use vstd::prelude::*;
use vstd::string::*;

use crate::errors::{ErrS, GpxError, GpxResult};
use crate::events::EventS;
use crate::parser::email::{lemma_email_step, p_email};
use crate::parser::link::{lemma_link_step, p_link};
use crate::parser::string::{lemma_string_step, p_string};
use crate::parser::{
    consume_post, p_verify_starting_tag, peek_event, verify_starting_tag, Context, PStep, Peeked,
};
use crate::text::str_eq;
use crate::types::{Person, PersonS};

verus! {

/// The children of a person element: `name`, `email` and `link`, each
/// taking the field when read.
#[verifier::opaque]
pub open spec fn p_person_body(evs: Seq<EventS>, p: int, tag: Seq<char>, person: PersonS) -> PStep<
    PersonS,
>
    decreases evs.len() - p,
    via p_person_body_decreases
{
    if p < 0 || p >= evs.len() {
        PStep::Fail(ErrS::MissingClosingTag("person"@))
    } else {
        match evs[p] {
            EventS::Open { name, .. } => {
                if name == "name"@ {
                    match p_string(evs, p, "name"@, false) {
                        PStep::Took(v, used) => {
                            match p_person_body(
                                evs,
                                p + used,
                                tag,
                                PersonS { name: Some(v), ..person },
                            ) {
                                PStep::Took(l, u2) => PStep::Took(l, (used + u2) as nat),
                                PStep::Fail(e) => PStep::Fail(e),
                            }
                        },
                        PStep::Fail(e) => PStep::Fail(e),
                    }
                } else if name == "email"@ {
                    match p_email(evs, p) {
                        PStep::Took(v, used) => {
                            match p_person_body(
                                evs,
                                p + used,
                                tag,
                                PersonS { email: Some(v), ..person },
                            ) {
                                PStep::Took(l, u2) => PStep::Took(l, (used + u2) as nat),
                                PStep::Fail(e) => PStep::Fail(e),
                            }
                        },
                        PStep::Fail(e) => PStep::Fail(e),
                    }
                } else if name == "link"@ {
                    match p_link(evs, p) {
                        PStep::Took(v, used) => {
                            match p_person_body(
                                evs,
                                p + used,
                                tag,
                                PersonS { link: Some(v), ..person },
                            ) {
                                PStep::Took(l, u2) => PStep::Took(l, (used + u2) as nat),
                                PStep::Fail(e) => PStep::Fail(e),
                            }
                        },
                        PStep::Fail(e) => PStep::Fail(e),
                    }
                } else {
                    PStep::Fail(ErrS::InvalidChildElement(name, "person"@))
                }
            },
            EventS::Close { name } => {
                if name != tag {
                    PStep::Fail(ErrS::InvalidClosingTag(name, "person"@))
                } else {
                    PStep::Took(person, 1)
                }
            },
            EventS::Text { .. } => {
                match p_person_body(evs, p + 1, tag, person) {
                    PStep::Took(l, u2) => PStep::Took(l, (u2 + 1) as nat),
                    PStep::Fail(e) => PStep::Fail(e),
                }
            },
            EventS::Failure => PStep::Fail(ErrS::EventParsingError("person"@)),
        }
    }
}

#[via_fn]
proof fn p_person_body_decreases(evs: Seq<EventS>, p: int, tag: Seq<char>, person: PersonS) {
    lemma_string_step(evs, p, "name"@, false);
    lemma_email_step(evs, p);
    lemma_link_step(evs, p);
}

/// One person element under the given tag name.
#[verifier::opaque]
pub open spec fn p_person(evs: Seq<EventS>, p: int, tag: Seq<char>) -> PStep<PersonS> {
    match p_verify_starting_tag(evs, p, tag) {
        PStep::Took(_attrs, used0) => {
            match p_person_body(
                evs,
                p + used0,
                tag,
                PersonS { name: None, email: None, link: None },
            ) {
                PStep::Took(l, used) => PStep::Took(l, (used0 + used) as nat),
                PStep::Fail(e) => PStep::Fail(e),
            }
        },
        PStep::Fail(e) => PStep::Fail(e),
    }
}

/// consume consumes a person element under the given tag name.
pub fn consume(context: &mut Context, tagname: &'static str) -> (r: GpxResult<Person>)
    requires
        old(context).pos <= old(context).events.len(),
    ensures
        consume_post::<Person>(
            p_person(old(context).events.deep_view(), old(context).pos as int, tagname@),
            *old(context),
            *final(context),
            r,
        ),
        r matches Ok(_) ==> final(context).pos > old(context).pos,
{
    proof {
        reveal_with_fuel(p_person, 1);
    }
    match verify_starting_tag(context, tagname) {
        Ok(_) => {},
        Err(e) => {
            return Err(e);
        },
    }
    consume_body(context, tagname, Person { name: None, email: None, link: None })
}

fn consume_body(context: &mut Context, tagname: &'static str, person: Person) -> (r: GpxResult<
    Person,
>)
    requires
        old(context).pos <= old(context).events.len(),
    ensures
        consume_post::<Person>(
            p_person_body(
                old(context).events.deep_view(),
                old(context).pos as int,
                tagname@,
                person.deep_view(),
            ),
            *old(context),
            *final(context),
            r,
        ),
        r matches Ok(_) ==> final(context).pos > old(context).pos,
    decreases context.events.len() - context.pos,
{
    proof {
        reveal_with_fuel(p_person_body, 1);
    }
    let ghost evs = context.events.deep_view();
    let ghost p0 = context.pos as int;
    let pk = match peek_event(context) {
        Some(pk) => pk,
        None => {
            return Err(GpxError::MissingClosingTag("person"));
        },
    };
    match pk {
        Peeked::Open(name) => {
            if str_eq(name.as_str(), "name") {
                match crate::parser::string::consume(context, "name", false) {
                    Ok(v) => {
                        proof {
                            lemma_string_step(evs, p0, "name"@, false);
                        }
                        consume_body(context, tagname, Person { name: Some(v), ..person })
                    },
                    Err(e) => Err(e),
                }
            } else if str_eq(name.as_str(), "email") {
                match crate::parser::email::consume(context) {
                    Ok(v) => {
                        proof {
                            lemma_email_step(evs, p0);
                        }
                        consume_body(context, tagname, Person { email: Some(v), ..person })
                    },
                    Err(e) => Err(e),
                }
            } else if str_eq(name.as_str(), "link") {
                match crate::parser::link::consume(context) {
                    Ok(v) => {
                        proof {
                            lemma_link_step(evs, p0);
                        }
                        consume_body(context, tagname, Person { link: Some(v), ..person })
                    },
                    Err(e) => Err(e),
                }
            } else {
                Err(GpxError::InvalidChildElement(name, "person"))
            }
        },
        Peeked::Close(name) => {
            if !str_eq(name.as_str(), tagname) {
                Err(GpxError::InvalidClosingTag(name, "person"))
            } else {
                context.pos += 1;
                Ok(person)
            }
        },
        Peeked::Text(_) => {
            context.pos += 1;
            consume_body(context, tagname, person)
        },
        Peeked::Failure => Err(GpxError::EventParsingError("person")),
    }
}

} // verus!
