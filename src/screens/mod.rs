//! The screens that the display rotates through.
use vstd::prelude::*;

use crate::geometry::{Colour, Point, Rectangle, Size};

pub mod text;
pub use text::{TextPlacement, TextScreen};

pub mod environment;
pub use environment::EnvironmentScreen;

pub mod hate;
pub use hate::HateScreen;

verus! {

/// How long a screen is shown for unless it asks otherwise, in milliseconds.
pub const DEFAULT_DURATION_MS: u128 = 5000;

/// A screen that can be displayed.
///
/// Times are in milliseconds. The spec functions describe what the methods
/// return, so that the scheduler's contracts can speak of any screen.
pub trait Screen: Sized {
    /// The identifier that deletion requests are matched against.
    spec fn spec_id(&self) -> Seq<char>;

    /// How long one continuous showing lasts on a display of size `display`.
    spec fn spec_duration(&self, display: Size) -> nat;

    /// The screen after it stopped being shown, having been shown for `for_ms`.
    spec fn spec_paused(&self, for_ms: u64) -> Self;

    /// Whether the screen wants to leave the rotation.
    spec fn spec_should_remove(&self) -> bool;

    /// Returns an identifier for the screen, used to delete it on request.
    fn id(&self) -> (r: &str)
        ensures
            r@ == self.spec_id(),
    ;

    /// Returns the desired duration of a single continuous showing. The screen
    /// is shown at least this long unless it is deleted.
    fn single_display_duration(&self, display: Size) -> (r: u128)
        ensures
            r == self.spec_duration(display),
    ;

    /// Called after the screen stops being shown, with how long it was shown.
    /// `should_remove` is asked after this.
    fn paused(&mut self, for_ms: u64)
        ensures
            *final(self) == old(self).spec_paused(for_ms),
    ;

    /// Returns true if the screen wants to be removed from the rotation.
    fn should_remove(&self) -> (r: bool)
        ensures
            r == self.spec_should_remove(),
    ;
}

/// The palette of the test screen, left to right.
pub open spec fn test_palette(i: int) -> Colour {
    if i == 0 {
        Colour { r: 255, g: 0, b: 0 }
    } else if i == 1 {
        Colour { r: 255, g: 165, b: 0 }
    } else if i == 2 {
        Colour { r: 255, g: 255, b: 0 }
    } else if i == 3 {
        Colour { r: 0, g: 255, b: 0 }
    } else if i == 4 {
        Colour { r: 0, g: 0, b: 255 }
    } else {
        Colour { r: 238, g: 130, b: 238 }
    }
}

/// The number of bands that the test screen draws.
pub const TEST_BANDS: usize = 6;

/// The `i`th band of the test screen over the display area `bounds`.
pub open spec fn test_band(bounds: Rectangle, i: int) -> (Rectangle, Colour) {
    let w = bounds.size.width / 6;
    (
        Rectangle {
            top_left: Point { x: (bounds.top_left.x + i * w) as i32, y: bounds.top_left.y },
            size: Size { width: w as u32, height: bounds.size.height },
        },
        test_palette(i),
    )
}

/// A test screen that shows a band of each colour of a fixed palette, once.
#[derive(Clone, Copy, Debug, PartialEq, Eq, Structural)]
pub struct TestScreen;

impl TestScreen {
    /// The coloured bands to fill, left to right: six of equal width, or none
    /// on a display narrower than six pixels.
    pub fn bands(&self, bounds: Rectangle) -> (r: Vec<(Rectangle, Colour)>)
        requires
            bounds.top_left.x + bounds.size.width <= i32::MAX,
        ensures
            bounds.size.width < 6 ==> r@.len() == 0,
            bounds.size.width >= 6 ==> r@ == Seq::new(6, |i: int| test_band(bounds, i)),
    {
        let mut r: Vec<(Rectangle, Colour)> = Vec::new();
        let w: u32 = bounds.size.width / 6;
        if w == 0 {
            return r;
        }
        let mut i: usize = 0;
        while i < TEST_BANDS
            invariant
                0 <= i <= 6,
                w == bounds.size.width / 6,
                w > 0,
                bounds.top_left.x + bounds.size.width <= i32::MAX,
                r@ == Seq::new(i as nat, |j: int| test_band(bounds, j)),
            decreases 6 - i,
        {
            proof {
                assert(i * w <= 5 * w) by (nonlinear_arith)
                    requires
                        i <= 5,
                        w >= 0,
                ;
                assert(5 * w <= bounds.size.width);
            }
            let x: i32 = (bounds.top_left.x as i64 + (i as u32 * w) as i64) as i32;
            let band = Rectangle::new(Point::new(x, bounds.top_left.y), Size::new(w, bounds.size.height));
            r.push((band, palette_colour(i)));
            i = i + 1;
            proof {
                assert(r@ =~= Seq::new(i as nat, |j: int| test_band(bounds, j)));
            }
        }
        r
    }
}

/// The `i`th colour of the test screen's palette.
fn palette_colour(i: usize) -> (r: Colour)
    ensures
        r == test_palette(i as int),
{
    if i == 0 {
        Colour::red()
    } else if i == 1 {
        Colour::orange()
    } else if i == 2 {
        Colour::yellow()
    } else if i == 3 {
        Colour::green()
    } else if i == 4 {
        Colour::blue()
    } else {
        Colour::violet()
    }
}

impl Screen for TestScreen {
    open spec fn spec_id(&self) -> Seq<char> {
        "test"@
    }

    open spec fn spec_duration(&self, display: Size) -> nat {
        DEFAULT_DURATION_MS as nat
    }

    open spec fn spec_paused(&self, for_ms: u64) -> Self {
        *self
    }

    open spec fn spec_should_remove(&self) -> bool {
        true
    }

    fn id(&self) -> (r: &str) {
        "test"
    }

    fn single_display_duration(&self, display: Size) -> (r: u128) {
        DEFAULT_DURATION_MS
    }

    fn paused(&mut self, for_ms: u64) {
    }

    /// Always removed after one showing.
    fn should_remove(&self) -> (r: bool) {
        true
    }
}

/// Any of the screens of this library, so that one rotation can hold them all.
#[derive(Debug)]
pub enum AnyScreen {
    Test(TestScreen),
    Text(TextScreen),
    Environment(EnvironmentScreen),
    Hate(HateScreen),
}

impl Screen for AnyScreen {
    open spec fn spec_id(&self) -> Seq<char> {
        match self {
            AnyScreen::Test(s) => s.spec_id(),
            AnyScreen::Text(s) => s.spec_id(),
            AnyScreen::Environment(s) => s.spec_id(),
            AnyScreen::Hate(s) => s.spec_id(),
        }
    }

    open spec fn spec_duration(&self, display: Size) -> nat {
        match self {
            AnyScreen::Test(s) => s.spec_duration(display),
            AnyScreen::Text(s) => s.spec_duration(display),
            AnyScreen::Environment(s) => s.spec_duration(display),
            AnyScreen::Hate(s) => s.spec_duration(display),
        }
    }

    open spec fn spec_paused(&self, for_ms: u64) -> Self {
        match self {
            AnyScreen::Test(s) => AnyScreen::Test(s.spec_paused(for_ms)),
            AnyScreen::Text(s) => AnyScreen::Text(s.spec_paused(for_ms)),
            AnyScreen::Environment(s) => AnyScreen::Environment(s.spec_paused(for_ms)),
            AnyScreen::Hate(s) => AnyScreen::Hate(s.spec_paused(for_ms)),
        }
    }

    open spec fn spec_should_remove(&self) -> bool {
        match self {
            AnyScreen::Test(s) => s.spec_should_remove(),
            AnyScreen::Text(s) => s.spec_should_remove(),
            AnyScreen::Environment(s) => s.spec_should_remove(),
            AnyScreen::Hate(s) => s.spec_should_remove(),
        }
    }

    fn id(&self) -> (r: &str) {
        match self {
            AnyScreen::Test(s) => s.id(),
            AnyScreen::Text(s) => s.id(),
            AnyScreen::Environment(s) => s.id(),
            AnyScreen::Hate(s) => s.id(),
        }
    }

    fn single_display_duration(&self, display: Size) -> (r: u128) {
        match self {
            AnyScreen::Test(s) => s.single_display_duration(display),
            AnyScreen::Text(s) => s.single_display_duration(display),
            AnyScreen::Environment(s) => s.single_display_duration(display),
            AnyScreen::Hate(s) => s.single_display_duration(display),
        }
    }

    fn paused(&mut self, for_ms: u64) {
        match self {
            AnyScreen::Test(s) => s.paused(for_ms),
            AnyScreen::Text(s) => s.paused(for_ms),
            AnyScreen::Environment(s) => s.paused(for_ms),
            AnyScreen::Hate(s) => s.paused(for_ms),
        }
    }

    fn should_remove(&self) -> (r: bool) {
        match self {
            AnyScreen::Test(s) => s.should_remove(),
            AnyScreen::Text(s) => s.should_remove(),
            AnyScreen::Environment(s) => s.should_remove(),
            AnyScreen::Hate(s) => s.should_remove(),
        }
    }
}

} // verus!
