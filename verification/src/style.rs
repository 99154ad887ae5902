use vstd::prelude::*;

verus! {

/// The terminal colour enum of the `ansi_term` crate, declared so that
/// contracts can name its variants. All of its variants are public.
#[verifier::external_type_specification]
pub struct ExColour(ansi_term::Colour);

/// The terminal style struct of the `ansi_term` crate, declared so that
/// contracts can speak of its fields. All of its fields are public.
#[verifier::external_type_specification]
pub struct ExStyle(ansi_term::Style);

/// The fixed style of this module's rendered segments: a bold foreground
/// in the given colour, every other property switched off.
pub open spec fn spec_bold_style(colour: ansi_term::Colour) -> ansi_term::Style {
    ansi_term::Style {
        foreground: Some(colour),
        background: None,
        is_bold: true,
        is_dimmed: false,
        is_italic: false,
        is_underline: false,
        is_blink: false,
        is_reverse: false,
        is_hidden: false,
        is_strikethrough: false,
    }
}

/// Relies on ansi_term::Colour::bold: it returns a default style with the
/// foreground set to the colour and the bold property set.
#[verifier::external_body]
pub(crate) fn bold_style(colour: ansi_term::Colour) -> (r: ansi_term::Style)
    ensures
        r == spec_bold_style(colour),
{
    colour.bold()
}

} // verus!
