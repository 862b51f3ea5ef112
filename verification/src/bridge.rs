//! What the conversion bridge says about a paper.
use vstd::prelude::*;

use crate::json::{flag, flag_in, raw_text, text, text_in, Value};
use crate::model::{Conversion, ConversionView};
use crate::text::{clean, cleaned, same_text};

verus! {

/// The states that the bridge can report.
pub open spec fn is_state(state: Seq<char>) -> bool {
    ||| state == "missing_pdf"@
    ||| state == "queued"@
    ||| state == "running"@
    ||| state == "ready"@
    ||| state == "failed"@
}

/// The text of a member on one line, if it is there.
pub open spec fn line_in(value: Option<&Value>, maximum: nat) -> Option<Seq<char>> {
    match raw_text(value) {
        Some(text) => Some(cleaned(text, maximum)),
        None => None,
    }
}

/// The conversion that the bridge reports, if its state is known.
pub open spec fn conversion_in(root: &Value) -> Option<ConversionView> {
    let state = text_in(root.field("state"@), 32);
    if is_state(state) {
        Some(
            ConversionView {
                state,
                document_version: line_in(root.field("document_version"@), 64),
                truncated: flag_in(root.field("truncated"@)),
                message: line_in(root.field("message"@), 512),
            },
        )
    } else {
        None
    }
}

/// Reads a text on one line, if it is there.
fn line(value: Option<&Value>, maximum: usize) -> (read: Option<String>)
    ensures
        crate::text::maybe(read) == line_in(value, maximum as nat),
{
    match value {
        Some(Value::Text(text)) => Some(clean(text, maximum)),
        _ => None,
    }
}

/// Reads the state of a conversion.
pub fn conversion(root: &Value) -> (read: Option<Conversion>)
    ensures
        match read {
            Some(read) => conversion_in(root) == Some(read@),
            None => conversion_in(root) is None,
        },
{
    let state = text(root.get("state"), 32);
    if !(same_text(&state, "missing_pdf") || same_text(&state, "queued") || same_text(
        &state,
        "running",
    ) || same_text(&state, "ready") || same_text(&state, "failed")) {
        return None;
    }
    Some(
        Conversion {
            state,
            document_version: line(root.get("document_version"), 64),
            truncated: flag(root.get("truncated")),
            message: line(root.get("message"), 512),
        },
    )
}

} // verus!
