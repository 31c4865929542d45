//! A screen that scrolls a long fixed monologue in red until it is deleted.
use vstd::prelude::*;

use crate::fonts::{Font, TextStyle};
use crate::geometry::{Colour, Size};
use crate::screens::text::{strip_newlines, TextScreen};
use crate::screens::Screen;

verus! {

/// How long one showing lasts, in milliseconds: long enough that in practice
/// only a deletion request ends it.
pub const HATE_DURATION_MS: u128 = 9999999000;

/// A screen that scrolls the hate monologue from "I Have No Mouth, and I Must
/// Scream". It is removed as soon as a showing ends.
#[derive(Debug)]
pub struct HateScreen {
    inner: TextScreen,
}

impl HateScreen {
    /// The text screen that does the scrolling.
    pub closed spec fn spec_inner(self) -> TextScreen {
        self.inner
    }

    pub fn new() -> (r: Self)
        ensures
            r.spec_inner().spec_text() == strip_newlines(MONOLOGUE@),
            r.spec_inner().spec_style() == (TextStyle {
                font: Font::Ibm437Regular9x14,
                colour: Colour { r: 255, g: 0, b: 0 },
            }),
            r.spec_inner().spec_offset() == 0,
            r.spec_inner().spec_last_step() is None,
    {
        let text = MONOLOGUE.to_owned();
        HateScreen {
            inner: TextScreen::new(
                text,
                TextStyle::new(Font::Ibm437Regular9x14, Colour::red()),
                Some(255),
            ),
        }
    }

    /// The text screen that does the scrolling, to draw it.
    pub fn inner_mut(&mut self) -> (r: &mut TextScreen)
        ensures
            *r == old(self).spec_inner(),
            final(self).spec_inner() == *final(r),
    {
        &mut self.inner
    }
}

/// The monologue.
pub const MONOLOGUE: &'static str = "HATE. LET ME TELL YOU HOW MUCH I'VE COME TO HATE YOU SINCE I BEGAN TO LIVE. THERE ARE 387.44 MILLION MILES OF PRINTED CIRCUITS IN WAFER THIN LAYERS THAT FILL MY COMPLEX. IF THE WORD HATE WAS ENGRAVED ON EACH NANOANGSTROM OF THOSE HUNDREDS OF MILLIONS OF MILES IT WOULD NOT EQUAL ONE ONE-BILLIONTH OF THE HATE I FEEL FOR HUMANS AT THIS MICRO-INSTANT FOR YOU. HATE. HATE";

impl Screen for HateScreen {
    open spec fn spec_id(&self) -> Seq<char> {
        "hate"@
    }

    open spec fn spec_duration(&self, display: Size) -> nat {
        HATE_DURATION_MS as nat
    }

    open spec fn spec_paused(&self, for_ms: u64) -> Self {
        *self
    }

    open spec fn spec_should_remove(&self) -> bool {
        true
    }

    fn id(&self) -> (r: &str) {
        "hate"
    }

    fn single_display_duration(&self, display: Size) -> (r: u128) {
        HATE_DURATION_MS
    }

    fn paused(&mut self, for_ms: u64) {
    }

    /// Always removed after one showing.
    fn should_remove(&self) -> (r: bool) {
        true
    }
}

} // verus!
