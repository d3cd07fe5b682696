//! extensions handles the schema-escape element: a depth-counting
//! pass-through that swallows an arbitrary subtree, including nested
//! `extensions` blocks, and hands back nothing.

use vstd::prelude::*;
use vstd::string::*;

use crate::errors::{ErrS, GpxError, GpxResult};
use crate::events::EventS;
use crate::parser::{
    consume_post, p_verify_starting_tag, peek_event, verify_starting_tag, Context, PStep, Peeked,
};
use crate::text::str_eq;

verus! {

/// The pass-through: nested `extensions` opens raise the depth, their
/// closes lower it, and depth zero ends the element; everything else is
/// swallowed unseen.
#[verifier::opaque]
pub open spec fn p_extensions_body(evs: Seq<EventS>, p: int, depth: nat) -> PStep<()>
    decreases evs.len() - p,
{
    if p < 0 || p >= evs.len() {
        PStep::Fail(ErrS::MissingClosingTag("extensions"@))
    } else {
        match evs[p] {
            EventS::Open { name, .. } => {
                let d2 = if name == "extensions"@ {
                    depth + 1
                } else {
                    depth
                };
                match p_extensions_body(evs, p + 1, d2) {
                    PStep::Took(v, u) => PStep::Took(v, (u + 1) as nat),
                    PStep::Fail(e) => PStep::Fail(e),
                }
            },
            EventS::Close { name } => {
                if name == "extensions"@ && depth == 1 {
                    PStep::Took((), 1)
                } else {
                    let d2 = if name == "extensions"@ {
                        (depth - 1) as nat
                    } else {
                        depth
                    };
                    match p_extensions_body(evs, p + 1, d2) {
                        PStep::Took(v, u) => PStep::Took(v, (u + 1) as nat),
                        PStep::Fail(e) => PStep::Fail(e),
                    }
                }
            },
            EventS::Text { .. } => {
                match p_extensions_body(evs, p + 1, depth) {
                    PStep::Took(v, u) => PStep::Took(v, (u + 1) as nat),
                    PStep::Fail(e) => PStep::Fail(e),
                }
            },
            EventS::Failure => PStep::Fail(ErrS::XmlParseError),
        }
    }
}

/// One extensions element: its opening tag, then the pass-through from
/// depth one.
#[verifier::opaque]
pub open spec fn p_extensions(evs: Seq<EventS>, p: int) -> PStep<()> {
    match p_verify_starting_tag(evs, p, "extensions"@) {
        PStep::Took(_attrs, used0) => {
            match p_extensions_body(evs, p + used0, 1) {
                PStep::Took(v, used) => PStep::Took(v, (used0 + used) as nat),
                PStep::Fail(e) => PStep::Fail(e),
            }
        },
        PStep::Fail(e) => PStep::Fail(e),
    }
}

/// A successful pass-through step consumes at least one event and stays
/// within the stream.
pub proof fn lemma_extensions_body_step(evs: Seq<EventS>, p: int, depth: nat)
    ensures
        p_extensions_body(evs, p, depth) matches PStep::Took(_, used) ==> 1 <= used && p + used
            <= evs.len(),
    decreases evs.len() - p,
{
    reveal_with_fuel(p_extensions_body, 1);
    if 0 <= p < evs.len() {
        match evs[p] {
            EventS::Open { name, .. } => {
                let d2: nat = if name == "extensions"@ {
                    depth + 1
                } else {
                    depth
                };
                lemma_extensions_body_step(evs, p + 1, d2);
            },
            EventS::Close { name } => {
                let d2: nat = if name == "extensions"@ {
                    (depth - 1) as nat
                } else {
                    depth
                };
                lemma_extensions_body_step(evs, p + 1, d2);
            },
            EventS::Text { .. } => {
                lemma_extensions_body_step(evs, p + 1, depth);
            },
            EventS::Failure => {},
        }
    }
}

/// A successful extensions step consumes at least one event and stays
/// within the stream.
pub proof fn lemma_extensions_step(evs: Seq<EventS>, p: int)
    ensures
        p_extensions(evs, p) matches PStep::Took(_, used) ==> 1 <= used && p + used <= evs.len(),
{
    reveal_with_fuel(p_extensions, 1);
    crate::parser::lemma_vst_step(evs, p, "extensions"@);
    match p_verify_starting_tag(evs, p, "extensions"@) {
        PStep::Took(_, u0) => {
            lemma_extensions_body_step(evs, p + u0, 1);
        },
        PStep::Fail(_) => {},
    }
}

/// consume consumes an extensions element, validating nothing inside it.
pub fn consume(context: &mut Context) -> (r: GpxResult<()>)
    requires
        old(context).pos <= old(context).events.len(),
    ensures
        consume_post::<()>(
            p_extensions(old(context).events.deep_view(), old(context).pos as int),
            *old(context),
            *final(context),
            r,
        ),
        r matches Ok(_) ==> final(context).pos > old(context).pos,
{
    proof {
        reveal_with_fuel(p_extensions, 1);
    }
    match verify_starting_tag(context, "extensions") {
        Ok(_) => {},
        Err(e) => {
            return Err(e);
        },
    }
    proof {
        crate::parser::lemma_vst_step(
            old(context).events.deep_view(),
            old(context).pos as int,
            "extensions"@,
        );
    }
    consume_body(context, 1)
}

fn consume_body(context: &mut Context, depth: usize) -> (r: GpxResult<()>)
    requires
        old(context).pos <= old(context).events.len(),
        1 <= depth <= old(context).pos,
    ensures
        consume_post::<()>(
            p_extensions_body(
                old(context).events.deep_view(),
                old(context).pos as int,
                depth as nat,
            ),
            *old(context),
            *final(context),
            r,
        ),
        r matches Ok(_) ==> final(context).pos > old(context).pos,
    decreases context.events.len() - context.pos,
{
    proof {
        reveal_with_fuel(p_extensions_body, 1);
    }
    let pk = match peek_event(context) {
        Some(pk) => pk,
        None => {
            return Err(GpxError::MissingClosingTag("extensions"));
        },
    };
    match pk {
        Peeked::Open(name) => {
            let d2 = if str_eq(name.as_str(), "extensions") {
                depth + 1
            } else {
                depth
            };
            context.pos += 1;
            consume_body(context, d2)
        },
        Peeked::Close(name) => {
            if str_eq(name.as_str(), "extensions") && depth == 1 {
                context.pos += 1;
                Ok(())
            } else {
                let d2 = if str_eq(name.as_str(), "extensions") {
                    depth - 1
                } else {
                    depth
                };
                context.pos += 1;
                consume_body(context, d2)
            }
        },
        Peeked::Text(_) => {
            context.pos += 1;
            consume_body(context, depth)
        },
        Peeked::Failure => Err(GpxError::XmlParseError),
    }
}

} // verus!
