//! The text of a forecast file.

use vstd::prelude::*;

verus! {

/// The data of one site for one model run: the text of its file in the archive,
/// as it was delivered. What the text says is for the reader of forecasts to find.
#[derive(Debug)]
pub struct NBMData {
    text: String,
}

impl View for NBMData {
    type V = Seq<char>;

    closed spec fn view(&self) -> Seq<char> {
        self.text@
    }
}

impl NBMData {
    /// The data whose text is `text`.
    pub fn new(text: String) -> (r: Self)
        ensures
            r@ == text@,
    {
        NBMData { text }
    }

    /// The text of the file.
    pub fn text(&self) -> (r: &str)
        ensures
            r@ == self@,
    {
        self.text.as_str()
    }

    /// The text of the file, taken out of `self`.
    pub fn into_text(self) -> (r: String)
        ensures
            r@ == self@,
    {
        self.text
    }
}

} // verus!
