use vstd::prelude::*;

use embedded_graphics::mono_font::MonoFont;

verus! {

/// The colours, border width and font that widgets are drawn with.
pub struct Style<C> {
    /// Screen/canvas fill colour.
    pub screen_bg: C,
    /// Default widget background fill.
    pub bg_color: C,
    /// Widget background when pressed / checked / active.
    pub active_color: C,
    /// Widget background when hovered.
    pub hover_color: C,
    /// Widget border / outline colour.
    pub border_color: C,
    /// Colour used for all rendered text.
    pub text_color: C,
    /// Colour used for the focus border.
    pub focus_color: C,
    /// Stroke width in pixels for widget outlines.
    pub border_width: u32,
    /// A font that the style offers; each widget draws its text in the
    /// font it was built with.
    pub font: &'static MonoFont<'static>,
}

} // verus!
