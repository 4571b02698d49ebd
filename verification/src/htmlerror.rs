use vstd::prelude::*;

verus! {

/// What is shown in place of a page that could not be made: two lines of text.
#[derive(Debug, Default)]
pub struct HtmlError {
    pub message_1: String,
    pub message_2: String,
}

} // verus!
