//! Read access to a decoded text, whatever buffer holds it.

use vstd::prelude::*;

verus! {

/// A buffer that holds decoded text.
pub trait Output {
    /// The text the buffer holds.
    spec fn text(&self) -> Seq<char>;

    /// The held text as a string slice.
    fn as_str(&self) -> (r: &str)
        ensures
            r@ == self.text(),
    ;
}

impl Output for String {
    open spec fn text(&self) -> Seq<char> {
        self@
    }

    fn as_str(&self) -> (r: &str) {
        String::as_str(self)
    }
}

} // verus!
