//! fix handles parsing of xsd:simpleType "fixType".

use vstd::prelude::*;
use vstd::string::*;

use crate::errors::GpxResult;
use crate::events::EventS;
use crate::parser::{consume_post, string, Context, PStep};
use crate::parser::string::p_string;
use crate::text::str_eq;
use crate::types::{Fix, FixS};

verus! {

/// The five classified fix tokens; anything else is carried through as
/// an `Other` value.
pub open spec fn fix_of_text(s: Seq<char>) -> FixS {
    if s == "none"@ {
        FixS::NoFix
    } else if s == "2d"@ {
        FixS::TwoDimensional
    } else if s == "3d"@ {
        FixS::ThreeDimensional
    } else if s == "dgps"@ {
        FixS::DGPS
    } else if s == "pps"@ {
        FixS::PPS
    } else {
        FixS::Other(s)
    }
}

/// A fix value's written form classifies back to the same value: the
/// five classified kinds round-trip through their tokens, and an
/// `Other` value that is none of the tokens comes back unchanged.
pub proof fn lemma_fix_round_trip(f: FixS)
    requires
        f matches FixS::Other(s) ==> s != "none"@ && s != "2d"@ && s != "3d"@ && s != "dgps"@
            && s != "pps"@,
    ensures
        fix_of_text(crate::writer::fix_text(f)) == f,
{
    reveal_strlit("none");
    reveal_strlit("2d");
    reveal_strlit("3d");
    reveal_strlit("dgps");
    reveal_strlit("pps");
    assert("none"@.len() == 4);
    assert("2d"@.len() == 2);
    assert("3d"@.len() == 2);
    assert("dgps"@.len() == 4);
    assert("pps"@.len() == 3);
    assert("2d"@[0] == '2');
    assert("3d"@[0] == '3');
    assert("none"@[0] == 'n');
    assert("dgps"@[0] == 'd');
}

/// One fix element: the text of a `fix` string element, classified.
#[verifier::opaque]
pub open spec fn p_fix(evs: Seq<EventS>, p: int) -> PStep<FixS> {
    match p_string(evs, p, "fix"@, false) {
        PStep::Took(s, used) => PStep::Took(fix_of_text(s), used),
        PStep::Fail(e) => PStep::Fail(e),
    }
}

/// A successful fix step consumes at least one event and stays within
/// the stream.
pub proof fn lemma_fix_step(evs: Seq<EventS>, p: int)
    ensures
        p_fix(evs, p) matches PStep::Took(_, used) ==> 1 <= used && p + used <= evs.len(),
{
    reveal_with_fuel(p_fix, 1);
    crate::parser::string::lemma_string_step(evs, p, "fix"@, false);
}

/// consume consumes an element as a fix.
pub fn consume(context: &mut Context) -> (r: GpxResult<Fix>)
    requires
        old(context).pos <= old(context).events.len(),
    ensures
        consume_post::<Fix>(
            p_fix(old(context).events.deep_view(), old(context).pos as int),
            *old(context),
            *final(context),
            r,
        ),
        r matches Ok(_) ==> final(context).pos > old(context).pos,
{
    proof {
        reveal_with_fuel(p_fix, 1);
    }
    let fix_string = match string::consume(context, "fix", false) {
        Ok(s) => s,
        Err(e) => {
            return Err(e);
        },
    };
    let fix = if str_eq(fix_string.as_str(), "none") {
        Fix::NoFix
    } else if str_eq(fix_string.as_str(), "2d") {
        Fix::TwoDimensional
    } else if str_eq(fix_string.as_str(), "3d") {
        Fix::ThreeDimensional
    } else if str_eq(fix_string.as_str(), "dgps") {
        Fix::DGPS
    } else if str_eq(fix_string.as_str(), "pps") {
        Fix::PPS
    } else {
        Fix::Other(fix_string)
    };
    Ok(fix)
}

} // verus!
