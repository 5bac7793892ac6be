use vstd::prelude::*;

verus! {

/// The vector image that the diagram renderer draws from a text.
pub uninterp spec fn svg_of(text: Seq<char>) -> Seq<char>;

/// Relies on `svgbob::to_svg_string_pretty`: a pure function of the text it is given.
#[verifier::external_body]
pub(crate) fn render_svg(text: &str) -> (r: String)
    ensures
        r@ == svg_of(text@),
{
    svgbob::to_svg_string_pretty(text)
}

} // verus!
