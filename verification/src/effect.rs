//! What a step of the machine asks of the one who runs it.

use crate::display::{span_views, Span, SpanView};
use vstd::prelude::*;

verus! {

/// The effect of a step, as a mathematical value.
pub enum EffectView {
    /// Nothing.
    Quiet,
    /// The display went dark: clear the screen.
    Cleared,
    /// The display changed: show these spans.
    Drawn(Seq<SpanView>),
    /// The machine waits for a key: hand it the next input byte.
    AwaitKey,
}

/// The effect of a step.
#[derive(Debug, PartialEq, Eq)]
pub enum Effect {
    /// Nothing.
    Quiet,
    /// The display went dark: clear the screen.
    Cleared,
    /// The display changed: show these spans.
    Drawn(Vec<Span>),
    /// The machine waits for a key: hand it the next input byte.
    AwaitKey,
}

impl View for Effect {
    type V = EffectView;

    open spec fn view(&self) -> EffectView {
        match self {
            Effect::Quiet => EffectView::Quiet,
            Effect::Cleared => EffectView::Cleared,
            Effect::Drawn(spans) => EffectView::Drawn(span_views(spans@)),
            Effect::AwaitKey => EffectView::AwaitKey,
        }
    }
}

} // verus!
