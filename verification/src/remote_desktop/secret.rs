//! Secrets that are wiped when they are dropped and never shown.

use crate::wiped::WipedText;
use vstd::prelude::*;

verus! {

/// A password or key of a remote desktop session.
pub struct RemoteDesktopSecret {
    value: WipedText,
}

impl View for RemoteDesktopSecret {
    type V = Seq<char>;

    closed spec fn view(&self) -> Seq<char> {
        self.value@
    }
}

impl vstd::std_specs::convert::FromSpecImpl<WipedText> for RemoteDesktopSecret {
    open spec fn obeys_from_spec() -> bool {
        true
    }

    closed spec fn from_spec(value: WipedText) -> Self {
        RemoteDesktopSecret { value }
    }
}

/// A secret that is held already is taken over as it is, without another copy of its text.
impl From<WipedText> for RemoteDesktopSecret {
    fn from(value: WipedText) -> (r: Self)
        ensures
            r@ == value@,
    {
        RemoteDesktopSecret { value }
    }
}

impl RemoteDesktopSecret {
    pub fn new(value: String) -> (r: Self)
        ensures
            r@ == value@,
    {
        RemoteDesktopSecret { value: WipedText::new(value) }
    }

    pub fn expose_secret(&self) -> (r: &str)
        ensures
            r@ == self@,
    {
        self.value.expose()
    }

    pub fn is_empty(&self) -> (r: bool)
        ensures
            r == (self@.len() == 0),
    {
        self.value.expose().is_empty()
    }

    /// A second copy, wiped on drop like the first, for a reconnect that crosses a fresh
    /// certificate boundary.
    pub fn duplicate_for_reauthentication(&self) -> (r: Self)
        ensures
            r@ == self@,
    {
        RemoteDesktopSecret { value: WipedText::new(self.value.expose().to_owned()) }
    }

    /// What is shown of a secret: the same for all secrets.
    pub fn debug_text(&self) -> (r: String)
        ensures
            r@ == "[redacted remote desktop secret]"@,
    {
        "[redacted remote desktop secret]".to_owned()
    }
}

} // verus!
