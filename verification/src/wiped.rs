//! Strings that are overwritten when they are dropped.

use vstd::prelude::*;
use zeroize::Zeroizing;

verus! {

/// A string that is overwritten when it is dropped: a `Zeroizing<String>` of the crate `zeroize`.
#[verifier::external_body]
pub struct WipedText {
    text: Zeroizing<String>,
}

/// The text that a wiped-on-drop string holds.
pub uninterp spec fn kept_text(secret: WipedText) -> Seq<char>;

impl View for WipedText {
    type V = Seq<char>;

    open spec fn view(&self) -> Seq<char> {
        kept_text(*self)
    }
}

/// `Zeroizing::new` takes the string over as it is.
#[verifier::external_body]
fn keep_text(text: String) -> (r: WipedText)
    ensures
        kept_text(r) == text@,
{
    WipedText { text: Zeroizing::new(text) }
}

/// `Zeroizing` derefs to the string that it keeps.
#[verifier::external_body]
fn read_text(secret: &WipedText) -> (r: &str)
    ensures
        r@ == kept_text(*secret),
{
    secret.text.as_str()
}

impl WipedText {
    pub fn new(text: String) -> (r: Self)
        ensures
            r@ == text@,
    {
        keep_text(text)
    }

    pub fn expose(&self) -> (r: &str)
        ensures
            r@ == self@,
    {
        read_text(self)
    }
}

} // verus!
