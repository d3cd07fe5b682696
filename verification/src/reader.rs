//! Reads a whole document from GPX-format bytes.

use vstd::prelude::*;

use crate::errors::GpxResult;
use crate::events::tokens_of;
use crate::parser::gpx::p_gpx;
use crate::parser::{create_context, PStep};
use crate::types::{Gpx, GpxVersion};

verus! {

/// Reads a document in GPX format from its bytes: the tokenizer's
/// events, read by the root grammar.
pub fn read(data: &[u8]) -> (r: GpxResult<Gpx>)
    ensures
        match p_gpx(tokens_of(data@), 0) {
            PStep::Took(g, _) => r matches Ok(x) && x.deep_view() == g,
            PStep::Fail(e) => r matches Err(x) && x.deep_view() == e,
        },
{
    let mut context = create_context(data, GpxVersion::Unknown);
    crate::parser::gpx::consume(&mut context)
}

} // verus!
