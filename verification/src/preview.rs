//! Rendering of previews.

use vstd::prelude::*;

verus! {

/// Turns the state of a preview session into something that can be shown.
pub trait PreviewRenderer {
    type State;

    type Output;

    fn render_preview(&self, state: &Self::State) -> Self::Output;
}

} // verus!
