//! Reading what the accessibility tree told of the focused element.

use crate::selector::{answer_view, Answer, ExtractionError, ExtractionErrorView, Reading};
use vstd::prelude::*;

verus! {

/// What the accessibility tree answers.
pub open spec fn accessibility_answer(focused: Option<Option<String>>) -> Answer {
    match focused {
        Some(Some(text)) => Ok(text@),
        _ => Err(ExtractionErrorView::NotFound),
    }
}

/// Turns what the accessibility tree told into the answer of a method.
///
/// `focused` is `None` where no element has the focus, and holds `None`
/// where the focused element does not tell its selected text. Both are
/// `NotFound`; the selected text, be it empty, is the answer.
pub fn accessibility_reading(focused: Option<Option<String>>) -> (reading: Reading)
    ensures
        answer_view(reading) == accessibility_answer(focused),
{
    match focused {
        Some(Some(text)) => Ok(text),
        _ => Err(ExtractionError::NotFound),
    }
}

} // verus!
