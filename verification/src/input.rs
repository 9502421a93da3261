//! The fiction-id input overlay: the text being typed into the prompt, and
//! the widget that draws it.

use vstd::prelude::*;

verus! {

/// The widget that draws the input overlay; rendering happens outside the library.
pub struct FictionInWidget {
    pub margin: (u16, u16),
}

/// The text of the input overlay.
#[derive(Debug)]
pub struct FictionInState {
    pub text: String,
}

impl FictionInState {
    /// A new input state holding the given text.
    pub fn new(text: String) -> (r: FictionInState)
        ensures
            r.text == text,
    {
        Self { text }
    }
}

impl FictionInWidget {
    /// A new input widget with the given (column, row) margin.
    pub fn new(margin: (u16, u16)) -> (r: FictionInWidget)
        ensures
            r.margin == margin,
    {
        Self { margin }
    }
}

} // verus!
