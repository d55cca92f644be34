//! What the harness callbacks produce.
use vstd::prelude::*;
use vstd::string::StringExecFns;
use crate::text::{escape, push_escaped};

verus! {

/// The body shown when the run ends: the stringified result, escaped so that
/// it shows verbatim, in a preformatted block.
pub fn finish_markup(result_text: &str) -> (r: String)
    ensures
        r@ == "<pre>"@ + escape(result_text@) + "</pre>"@,
{
    let mut html = String::from_str("<pre>");
    push_escaped(&mut html, result_text);
    html.append("</pre>");
    html
}

} // verus!
