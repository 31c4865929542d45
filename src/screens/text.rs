//! A screen that shows one line of text, scrolling it when it is wider than the display.
use vstd::prelude::*;
use vstd::string::*;

use crate::fonts::{glyph_width, Font, TextStyle};
use crate::geometry::{Colour, Rectangle, Size};
use crate::screens::{Screen, DEFAULT_DURATION_MS};

verus! {

/// The time between two one-pixel steps of a scrolling text, in milliseconds.
pub const SCROLL_STEP_MS: u128 = 8;

/// The pause that a scrolling text keeps between two passes, in milliseconds.
pub const SCROLL_LEAD_IN_MS: u128 = 250;

/// How many showings a text screen gets when its creator does not say.
pub const DEFAULT_SHOW_COUNT: u8 = 3;

/// `s` without its line breaks.
pub open spec fn strip_newlines(s: Seq<char>) -> Seq<char> {
    s.filter(|c: char| c != '\n')
}

/// The number of one-pixel steps in one full pass of a text `text_width`
/// pixels wide across a display `display_width` pixels wide, lead-in included;
/// `None` when the text fits and does not scroll.
pub open spec fn scroll_cycle(text_width: nat, display_width: nat) -> Option<nat> {
    if text_width <= display_width {
        None
    } else {
        Some(display_width + text_width + (SCROLL_LEAD_IN_MS / SCROLL_STEP_MS) as nat)
    }
}

/// Where the text of a text screen goes on the display.
#[derive(Clone, Copy, Debug, PartialEq, Eq, Structural)]
pub enum TextPlacement {
    /// The text fits: draw it centred on the display.
    Centred,
    /// The text scrolls: draw it left-aligned from column `x`, vertically centred.
    Scrolled { x: i128 },
}

/// A screen that shows a line of text.
///
/// A text no wider than the display stands still, centred, for the default
/// duration. A wider one scrolls from right to left one pixel per
/// `SCROLL_STEP_MS`, and one showing lasts exactly one full pass.
///
/// The screen is shown `show_count + 1` times (four times when no count is
/// given), then asks to be removed.
#[derive(Debug)]
pub struct TextScreen {
    text: String,
    style: TextStyle,
    /// Width of the whole text in pixels.
    text_width: u128,
    /// How many pixels the text has scrolled by.
    offset: u128,
    /// When the offset last advanced; unset while the screen is not shown.
    offset_last_incremented: Option<u64>,
    /// Showings left.
    show_count: u8,
}

impl TextScreen {
    #[verifier::type_invariant]
    spec fn inv(self) -> bool {
        &&& self.text_width == glyph_width(self.style.font) as int * self.text@.len()
        &&& self.text_width <= u32::MAX as int * u64::MAX as int
        &&& self.offset < u32::MAX as int + self.text_width + 32
    }

    /// The text, without line breaks.
    pub closed spec fn spec_text(self) -> Seq<char> {
        self.text@
    }

    pub closed spec fn spec_style(self) -> TextStyle {
        self.style
    }

    /// How many pixels the text has scrolled by.
    pub closed spec fn spec_offset(self) -> nat {
        self.offset as nat
    }

    /// When the scroll offset last advanced, while the screen is shown.
    pub closed spec fn spec_last_step(self) -> Option<u64> {
        self.offset_last_incremented
    }

    /// Showings left.
    pub closed spec fn spec_show_count(self) -> u8 {
        self.show_count
    }

    /// The width of the whole text, in pixels.
    pub open spec fn spec_text_width(self) -> nat {
        glyph_width(self.spec_style().font) as nat * self.spec_text().len()
    }

    /// Shows `text` in `style`, `show_count + 1` times (saturating), or
    /// `DEFAULT_SHOW_COUNT + 1` times when `show_count` is `None`.
    pub fn new(text: String, style: TextStyle, show_count: Option<u8>) -> (r: Self)
        ensures
            r.spec_text() == strip_newlines(text@),
            r.spec_style() == style,
            r.spec_offset() == 0,
            r.spec_last_step() is None,
            r.spec_show_count() == match show_count {
                Some(n) => if n < 255 {
                    (n + 1) as u8
                } else {
                    255u8
                },
                None => (DEFAULT_SHOW_COUNT + 1) as u8,
            },
    {
        let text = without_newlines(text.as_str());
        let chars = text.as_str().unicode_len();
        let glyph = style.font.character_width();
        proof {
            assert(glyph as int * chars as int <= u32::MAX as int * u64::MAX as int)
                by (nonlinear_arith)
                requires
                    glyph <= u32::MAX,
                    chars <= u64::MAX,
            ;
        }
        let text_width = glyph as u128 * chars as u128;
        let count = match show_count {
            Some(n) => n,
            None => DEFAULT_SHOW_COUNT,
        };
        TextScreen {
            text,
            style,
            text_width,
            offset: 0,
            offset_last_incremented: None,
            show_count: count.saturating_add(1),
        }
    }

    /// Shows `text` in white in the 10 by 20 ASCII font.
    pub fn with_text(text: String, show_count: Option<u8>) -> (r: Self)
        ensures
            r.spec_text() == strip_newlines(text@),
            r.spec_style() == (TextStyle { font: Font::Ascii10x20, colour: Colour { r: 255, g: 255, b: 255 } }),
            r.spec_offset() == 0,
            r.spec_last_step() is None,
            r.spec_show_count() == match show_count {
                Some(n) => if n < 255 {
                    (n + 1) as u8
                } else {
                    255u8
                },
                None => (DEFAULT_SHOW_COUNT + 1) as u8,
            },
    {
        TextScreen::new(text, TextStyle::new(Font::Ascii10x20, Colour::white()), show_count)
    }

    /// The text, without line breaks.
    pub fn text(&self) -> (r: &str)
        ensures
            r@ == self.spec_text(),
    {
        self.text.as_str()
    }

    /// The font and colour of the text.
    pub fn style(&self) -> (r: TextStyle)
        ensures
            r == self.spec_style(),
    {
        self.style
    }

    /// The width of the whole text, in pixels.
    fn text_total_width(&self) -> (r: u128)
        ensures
            r == self.spec_text_width(),
    {
        proof {
            use_type_invariant(self);
        }
        self.text_width
    }

    /// The number of one-pixel steps in one full pass on a display
    /// `display_width` wide; `None` when the text fits and does not scroll.
    fn max_offset_for(&self, display_width: u32) -> (r: Option<u128>)
        ensures
            r matches Some(m) ==> scroll_cycle(self.spec_text_width(), display_width as nat)
                == Some(m as nat),
            r is None ==> scroll_cycle(self.spec_text_width(), display_width as nat) is None,
    {
        let text_width = self.text_total_width();
        if text_width <= display_width as u128 {
            return None;
        }
        proof {
            use_type_invariant(self);
        }
        Some(display_width as u128 + text_width + SCROLL_LEAD_IN_MS / SCROLL_STEP_MS)
    }

    /// Advances the scroll offset to time `now` and says where to draw the
    /// text on a display covering `bounds`.
    ///
    /// The offset moves one pixel per whole `SCROLL_STEP_MS` since it last
    /// moved, several at once when steps were missed, and wraps around after
    /// one full pass; what is left of a step carries over. The first call of
    /// a showing starts the clock and moves nothing.
    pub fn layout(&mut self, now: u64, bounds: Rectangle) -> (r: TextPlacement)
        ensures
            scroll_cycle(old(self).spec_text_width(), bounds.size.width as nat) is None ==> r
                == TextPlacement::Centred && *final(self) == *old(self),
            scroll_cycle(old(self).spec_text_width(), bounds.size.width as nat) matches Some(m)
                ==> {
                &&& final(self).spec_text() == old(self).spec_text()
                &&& final(self).spec_style() == old(self).spec_style()
                &&& final(self).spec_show_count() == old(self).spec_show_count()
                &&& match old(self).spec_last_step() {
                    None => {
                        &&& final(self).spec_last_step() == Some(now)
                        &&& final(self).spec_offset() == old(self).spec_offset()
                    },
                    Some(last) => {
                        let since: int = if now >= last {
                            now - last
                        } else {
                            0
                        };
                        let steps = since / SCROLL_STEP_MS as int;
                        if steps > 0 {
                            &&& final(self).spec_offset() == (old(self).spec_offset() + steps) % (m as int)
                            &&& final(self).spec_last_step() == Some(
                                (last + steps * SCROLL_STEP_MS) as u64,
                            )
                        } else {
                            &&& final(self).spec_offset() == old(self).spec_offset()
                            &&& final(self).spec_last_step() == Some(last)
                        }
                    },
                }
                &&& r == (TextPlacement::Scrolled {
                    x: (bounds.top_left.x + bounds.size.width - 1 - final(self).spec_offset()) as i128,
                })
            },
    {
        proof {
            use_type_invariant(&*self);
        }
        let max_offset = match self.max_offset_for(bounds.size.width) {
            None => {
                return TextPlacement::Centred;
            },
            Some(m) => m,
        };
        match self.offset_last_incremented {
            Some(last) => {
                let since: u64 = if now >= last {
                    now - last
                } else {
                    0
                };
                let steps: u64 = since / SCROLL_STEP_MS as u64;
                assert(steps * 8 <= since);
                if steps > 0 {
                    self.offset = (self.offset + steps as u128) % max_offset;
                    self.offset_last_incremented = Some(last + steps * SCROLL_STEP_MS as u64);
                }
            },
            None => {
                self.offset_last_incremented = Some(now);
            },
        }
        let right: i128 = bounds.top_left.x as i128 + bounds.size.width as i128 - 1;
        TextPlacement::Scrolled { x: right - self.offset as i128 }
    }
}

impl Screen for TextScreen {
    open spec fn spec_id(&self) -> Seq<char> {
        "text"@
    }

    open spec fn spec_duration(&self, display: Size) -> nat {
        match scroll_cycle(self.spec_text_width(), display.width as nat) {
            Some(m) => m * SCROLL_STEP_MS as nat,
            None => DEFAULT_DURATION_MS as nat,
        }
    }

    closed spec fn spec_paused(&self, for_ms: u64) -> Self {
        TextScreen {
            offset_last_incremented: None,
            show_count: if self.show_count > 0 {
                (self.show_count - 1) as u8
            } else {
                0
            },
            ..*self
        }
    }

    open spec fn spec_should_remove(&self) -> bool {
        self.spec_show_count() == 0
    }

    fn id(&self) -> (r: &str) {
        "text"
    }

    /// One full pass of the scrolling text, or the default duration when the text fits.
    fn single_display_duration(&self, display: Size) -> (r: u128) {
        proof {
            use_type_invariant(self);
        }
        match self.max_offset_for(display.width) {
            Some(m) => m * SCROLL_STEP_MS,
            None => DEFAULT_DURATION_MS,
        }
    }

    /// Stops the scroll clock and uses up one showing.
    fn paused(&mut self, for_ms: u64) {
        proof {
            use_type_invariant(&*self);
        }
        self.offset_last_incremented = None;
        self.show_count = self.show_count.saturating_sub(1);
    }

    /// True once every showing is used up.
    fn should_remove(&self) -> (r: bool) {
        self.show_count == 0
    }
}

/// Pausing a text screen stops its scroll clock and uses up one showing
/// (none once none are left); its text, style and offset stay.
pub proof fn lemma_text_paused(screen: TextScreen, for_ms: u64)
    ensures
        screen.spec_paused(for_ms).spec_last_step() is None,
        screen.spec_paused(for_ms).spec_show_count() == if screen.spec_show_count() > 0 {
            (screen.spec_show_count() - 1) as u8
        } else {
            0u8
        },
        screen.spec_paused(for_ms).spec_text() == screen.spec_text(),
        screen.spec_paused(for_ms).spec_style() == screen.spec_style(),
        screen.spec_paused(for_ms).spec_offset() == screen.spec_offset(),
{
}

/// A scrolling text's showing lasts exactly one full pass: its duration is
/// the pass length in scroll steps, so scrolling for that long moves the
/// offset by a whole number of passes (one), back to where it started.
pub proof fn lemma_showing_is_one_pass(screen: TextScreen, display: Size)
    requires
        screen.spec_text_width() > display.width,
    ensures
        scroll_cycle(screen.spec_text_width(), display.width as nat) matches Some(m) && {
            &&& screen.spec_duration(display) == m * SCROLL_STEP_MS
            &&& screen.spec_duration(display) / SCROLL_STEP_MS as nat == m
            &&& (screen.spec_duration(display) / SCROLL_STEP_MS as nat) % m == 0
        },
{
    let m = scroll_cycle(screen.spec_text_width(), display.width as nat)->Some_0;
    vstd::arithmetic::div_mod::lemma_mod_self_0(m as int);
}

/// Relies on str::replace, which replaces every match of the pattern: with
/// an empty replacement every line break is dropped and the rest kept in order.
#[verifier::external_body]
fn without_newlines(s: &str) -> (r: String)
    ensures
        r@ == strip_newlines(s@),
{
    s.replace("\n", "")
}

} // verus!
