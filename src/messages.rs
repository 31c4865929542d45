//! Decisions taken on messages from the message bus: which screens to add or
//! replace, and when the display goes to sleep.
//!
//! The bus client itself lives outside the library; it hands each message's
//! topic and payload here and carries out the reaction.
use vstd::prelude::*;
use vstd::string::*;

use crate::fonts::{Font, TextStyle};
use crate::geometry::Colour;
use crate::screens::{EnvironmentScreen, TextScreen};

verus! {

/// Payload "r,g,b": the colour of the next text.
pub const TEXT_COLOUR_TOPIC: &'static str = "display/g1/windowled/colour";

/// Payload: a text to show.
pub const TEXT_TOPIC: &'static str = "display/g1/windowled/text";

/// Payload: a temperature reading.
pub const TEMP_TOPIC: &'static str = "sensor/g1/temperature";

/// Payload: a CO2 reading in ppm.
pub const CO2_TOPIC: &'static str = "environment/g1/elsys/co2";

/// Payload "empty" when nobody is around, which puts the display to sleep.
pub const GLOBAL_PRESENCE_TOPIC: &'static str = "sensor/global/presence";

/// The payload of the presence topic that means nobody is around.
pub const EMPTY_PRESENCE: &'static str = "empty";

/// The position of the first comma in `s`, or its length when it has none.
pub open spec fn first_comma(s: Seq<u8>) -> nat
    decreases s.len(),
{
    if s.len() == 0 || s[0] == 44u8 {
        0
    } else {
        1 + first_comma(s.drop_first())
    }
}

/// The comma-separated fields of `s`, in order; at least one.
pub open spec fn split_commas(s: Seq<u8>) -> Seq<Seq<u8>>
    decreases s.len(),
{
    let i = first_comma(s) as int;
    if i >= s.len() {
        seq![s]
    } else {
        seq![s.take(i)] + split_commas(s.skip(i + 1))
    }
}

/// Whether every byte of `s` is an ASCII digit.
pub open spec fn all_digits(s: Seq<u8>) -> bool {
    forall|i: int| 0 <= i < s.len() ==> 48u8 <= #[trigger] s[i] <= 57u8
}

/// The number that the ASCII digits `s` spell, most significant first.
pub open spec fn digits_value(s: Seq<u8>) -> nat
    decreases s.len(),
{
    if s.len() == 0 {
        0
    } else {
        10 * digits_value(s.drop_last()) + (s.last() - 48) as nat
    }
}

/// The number that `s` writes in decimal, with an optional leading `+`, as
/// the standard library reads unsigned integers; `None` when `s` is no such
/// number or the number exceeds `max`.
pub open spec fn decimal_value(s: Seq<u8>, max: nat) -> Option<nat> {
    let digits = if s.len() > 0 && s[0] == 43u8 {
        s.drop_first()
    } else {
        s
    };
    if digits.len() > 0 && all_digits(digits) && digits_value(digits) <= max {
        Some(digits_value(digits))
    } else {
        None
    }
}

/// The colour that a payload "r,g,b" names: the first three comma-separated
/// fields as bytes in decimal; further fields are ignored.
pub open spec fn colour_payload(s: Seq<u8>) -> Option<Colour> {
    let f = split_commas(s);
    if f.len() >= 3 && decimal_value(f[0], 255) is Some && decimal_value(f[1], 255) is Some
        && decimal_value(f[2], 255) is Some {
        Some(
            Colour {
                r: decimal_value(f[0], 255)->Some_0 as u8,
                g: decimal_value(f[1], 255)->Some_0 as u8,
                b: decimal_value(f[2], 255)->Some_0 as u8,
            },
        )
    } else {
        None
    }
}

/// The number that `bytes[start..end]` writes in decimal, if it is at most `max`.
fn parse_decimal(bytes: &[u8], start: usize, end: usize, max: u64) -> (r: Option<u64>)
    requires
        start <= end <= bytes@.len(),
        max < u64::MAX,
    ensures
        r == match decimal_value(bytes@.subrange(start as int, end as int), max as nat) {
            Some(v) => Some(v as u64),
            None => None::<u64>,
        },
{
    let ghost s = bytes@.subrange(start as int, end as int);
    let mut i = start;
    if i < end && bytes[i] == 43u8 {
        i = i + 1;
    }
    let ghost digits = if s.len() > 0 && s[0] == 43u8 {
        s.drop_first()
    } else {
        s
    };
    assert(digits =~= bytes@.subrange(i as int, end as int));
    if i == end {
        return None;
    }
    let first = i;
    let mut value: u64 = 0;
    while i < end
        invariant
            first <= i <= end <= bytes@.len(),
            max < u64::MAX,
            digits == bytes@.subrange(first as int, end as int),
            s == bytes@.subrange(start as int, end as int),
            digits == if s.len() > 0 && s[0] == 43u8 {
                s.drop_first()
            } else {
                s
            },
            all_digits(bytes@.subrange(first as int, i as int)),
            value as nat == if digits_value(bytes@.subrange(first as int, i as int)) <= max {
                digits_value(bytes@.subrange(first as int, i as int))
            } else {
                (max + 1) as nat
            },
        decreases end - i,
    {
        let c = bytes[i];
        if c < 48u8 || c > 57u8 {
            proof {
                assert(digits[i - first] == c);
                assert(!all_digits(digits));
            }
            return None;
        }
        let d: u64 = (c - 48u8) as u64;
        let ghost before = digits_value(bytes@.subrange(first as int, i as int));
        proof {
            let next = bytes@.subrange(first as int, i + 1);
            assert(next.drop_last() =~= bytes@.subrange(first as int, i as int));
            assert(digits_value(next) == 10 * before + d);
        }
        if value > max {
            proof {
                assert(10 * before + d > max) by (nonlinear_arith)
                    requires
                        before > max,
                        d >= 0,
                ;
            }
        } else if d > max || value > (max - d) / 10 {
            proof {
                assert(10 * before + d > max) by (nonlinear_arith)
                    requires
                        value == before,
                        d > max || value > (max - d) / 10,
                        d <= max ==> (max - d) / 10 * 10 + 10 > max - d,
                ;
            }
            value = max + 1;
        } else {
            proof {
                assert(10 * value + d <= max) by (nonlinear_arith)
                    requires
                        d <= max,
                        value <= (max - d) / 10,
                        (max - d) / 10 * 10 <= max - d,
                ;
            }
            value = value * 10 + d;
        }
        i = i + 1;
        proof {
            assert forall|k: int| 0 <= k < bytes@.subrange(first as int, i as int).len() implies 48u8
                <= #[trigger] bytes@.subrange(first as int, i as int)[k] <= 57u8 by {
                if k < i - 1 - first {
                    assert(bytes@.subrange(first as int, i as int)[k] == bytes@.subrange(
                        first as int,
                        i - 1,
                    )[k]);
                }
            }
        }
    }
    if value > max {
        None
    } else {
        Some(value)
    }
}

/// The position of the first comma in `bytes` at or after `from`, or the length.
fn find_comma(bytes: &[u8], from: usize) -> (r: usize)
    requires
        from <= bytes@.len(),
    ensures
        r == from + first_comma(bytes@.skip(from as int)),
        r <= bytes@.len(),
{
    let mut j = from;
    while j < bytes.len() && bytes[j] != 44u8
        invariant
            from <= j <= bytes@.len(),
            first_comma(bytes@.skip(from as int)) == (j - from) + first_comma(bytes@.skip(j as int)),
        decreases bytes@.len() - j,
    {
        proof {
            assert(bytes@.skip(j as int).drop_first() =~= bytes@.skip(j + 1));
        }
        j = j + 1;
    }
    proof {
        if j < bytes@.len() {
            assert(bytes@.skip(j as int)[0] == bytes@[j as int]);
        }
    }
    j
}

/// The colour that a payload "r,g,b" names, if it names one.
pub fn parse_colour(payload: &str) -> (r: Option<Colour>)
    ensures
        r == colour_payload(payload.spec_bytes()),
{
    let bytes = payload.as_bytes();
    let ghost s = bytes@;
    let n = bytes.len();
    let e1 = find_comma(bytes, 0);
    proof {
        assert(s.skip(0) =~= s);
        lemma_split_step(s, 0);
    }
    if e1 == n {
        return None;
    }
    let e2 = find_comma(bytes, e1 + 1);
    proof {
        lemma_split_step(s, e1 + 1);
    }
    if e2 == n {
        return None;
    }
    let e3 = find_comma(bytes, e2 + 1);
    proof {
        lemma_split_step(s, e2 + 1);
        let f = split_commas(s);
        assert(f[0] =~= s.subrange(0, e1 as int));
        assert(f[1] =~= s.subrange(e1 + 1, e2 as int));
        assert(f[2] =~= s.subrange(e2 + 1, e3 as int));
    }
    let r = parse_decimal(bytes, 0, e1, 255);
    let g = parse_decimal(bytes, e1 + 1, e2, 255);
    let b = parse_decimal(bytes, e2 + 1, e3, 255);
    match (r, g, b) {
        (Some(r), Some(g), Some(b)) => Some(Colour::new(r as u8, g as u8, b as u8)),
        _ => None,
    }
}

/// How the fields of `s` from position `from` on begin.
proof fn lemma_split_step(s: Seq<u8>, from: int)
    requires
        0 <= from <= s.len(),
    ensures
        ({
            let i = from + first_comma(s.skip(from));
            &&& i <= s.len()
            &&& split_commas(s.skip(from))[0] == s.subrange(from, i)
            &&& i < s.len() ==> split_commas(s.skip(from)) == seq![s.subrange(from, i)]
                + split_commas(s.skip(i + 1))
            &&& i == s.len() ==> split_commas(s.skip(from)).len() == 1
        }),
{
    let t = s.skip(from);
    lemma_first_comma_bound(t);
    let i = from + first_comma(t);
    assert(t.take(first_comma(t) as int) =~= s.subrange(from, i));
    if first_comma(t) < t.len() {
        assert(t.skip(first_comma(t) as int + 1) =~= s.skip(i + 1));
    } else {
        assert(t =~= s.subrange(from, i));
    }
}

proof fn lemma_first_comma_bound(s: Seq<u8>)
    ensures
        first_comma(s) <= s.len(),
    decreases s.len(),
{
    if s.len() > 0 && s[0] != 44u8 {
        lemma_first_comma_bound(s.drop_first());
    }
}

/// What to do about one message.
#[derive(Debug)]
pub enum Reaction {
    /// Nothing: the topic is unknown, the payload unreadable, or the display asleep.
    Dropped,
    /// The display is to sleep (`true`) or to wake up (`false`).
    Sleep(bool),
    /// The colour of the next text has changed.
    ColourSet,
    /// Add this text screen to the rotation.
    ShowText(TextScreen),
    /// Delete the screens with this screen's identifier, then add it.
    ReplaceEnvironment(EnvironmentScreen),
}

/// The state kept between messages: the colour for the next text, the latest
/// readings, and whether the display sleeps.
pub struct MessageHandler {
    next_colour: Colour,
    last_co2: Option<u32>,
    last_temp: Option<String>,
    asleep: bool,
}

impl MessageHandler {
    pub closed spec fn spec_next_colour(self) -> Colour {
        self.next_colour
    }

    pub closed spec fn spec_last_co2(self) -> Option<u32> {
        self.last_co2
    }

    pub closed spec fn spec_last_temp(self) -> Option<Seq<char>> {
        match self.last_temp {
            Some(t) => Some(t@),
            None => None,
        }
    }

    pub closed spec fn spec_asleep(self) -> bool {
        self.asleep
    }

    /// Awake, with magenta for the next text and no readings yet.
    pub fn new() -> (r: Self)
        ensures
            r.spec_next_colour() == (Colour { r: 255, g: 0, b: 255 }),
            r.spec_last_co2() is None,
            r.spec_last_temp() is None,
            !r.spec_asleep(),
    {
        MessageHandler { next_colour: Colour::magenta(), last_co2: None, last_temp: None, asleep: false }
    }

    /// Whether the display sleeps.
    pub fn asleep(&self) -> (r: bool)
        ensures
            r == self.spec_asleep(),
    {
        self.asleep
    }

    /// Decides what a message with `topic` and `payload` calls for.
    /// `temperature` is the payload read as a temperature and written back
    /// as it is to be shown, or `None` when the payload is no temperature.
    ///
    /// A presence message sets whether the display sleeps; while it sleeps
    /// every other message is dropped. A colour message sets the colour of
    /// the next text; a text message makes a text screen in that colour; a
    /// reading replaces the environment screen with one showing the latest
    /// readings. Unreadable payloads and unknown topics are dropped.
    pub fn attempt_handle_message(
        &mut self,
        topic: &str,
        payload: &str,
        temperature: Option<String>,
    ) -> (r: Reaction)
        ensures
            topic@ == GLOBAL_PRESENCE_TOPIC@ ==> {
                &&& final(self).spec_asleep() == (payload@ == EMPTY_PRESENCE@)
                &&& r matches Reaction::Sleep(s) && s == (payload@ == EMPTY_PRESENCE@)
                &&& final(self).spec_next_colour() == old(self).spec_next_colour()
                &&& final(self).spec_last_co2() == old(self).spec_last_co2()
                &&& final(self).spec_last_temp() == old(self).spec_last_temp()
            },
            topic@ != GLOBAL_PRESENCE_TOPIC@ && old(self).spec_asleep() ==> r is Dropped
                && *final(self) == *old(self),
            topic@ != GLOBAL_PRESENCE_TOPIC@ && !old(self).spec_asleep() ==> {
                if topic@ == TEXT_COLOUR_TOPIC@ {
                    match colour_payload(payload.spec_bytes()) {
                        Some(c) => r is ColourSet && final(self).spec_next_colour() == c
                            && final(self).spec_last_co2() == old(self).spec_last_co2()
                            && final(self).spec_last_temp() == old(self).spec_last_temp()
                            && !final(self).spec_asleep(),
                        None => r is Dropped && *final(self) == *old(self),
                    }
                } else if topic@ == TEXT_TOPIC@ {
                    &&& *final(self) == *old(self)
                    &&& r matches Reaction::ShowText(t) && {
                        &&& t.spec_text() == crate::screens::text::strip_newlines(payload@)
                        &&& t.spec_style() == (TextStyle {
                            font: Font::Latin10x20,
                            colour: old(self).spec_next_colour(),
                        })
                        &&& t.spec_show_count() == (crate::screens::text::DEFAULT_SHOW_COUNT + 1) as u8
                    }
                } else if topic@ == TEMP_TOPIC@ {
                    match temperature {
                        Some(t) => {
                            &&& final(self).spec_last_temp() == Some(t@)
                            &&& final(self).spec_last_co2() == old(self).spec_last_co2()
                            &&& final(self).spec_next_colour() == old(self).spec_next_colour()
                            &&& !final(self).spec_asleep()
                            &&& r matches Reaction::ReplaceEnvironment(e) && e.spec_temperature()
                                == Some(t@) && e.spec_co2() == old(self).spec_last_co2()
                        },
                        None => r is Dropped && *final(self) == *old(self),
                    }
                } else if topic@ == CO2_TOPIC@ {
                    match decimal_value(payload.spec_bytes(), u32::MAX as nat) {
                        Some(v) => {
                            &&& final(self).spec_last_co2() == Some(v as u32)
                            &&& final(self).spec_last_temp() == old(self).spec_last_temp()
                            &&& final(self).spec_next_colour() == old(self).spec_next_colour()
                            &&& !final(self).spec_asleep()
                            &&& r matches Reaction::ReplaceEnvironment(e) && e.spec_co2() == Some(
                                v as u32,
                            ) && e.spec_temperature() == old(self).spec_last_temp()
                        },
                        None => r is Dropped && *final(self) == *old(self),
                    }
                } else {
                    r is Dropped && *final(self) == *old(self)
                }
            },
    {
        if same_text(topic, GLOBAL_PRESENCE_TOPIC) {
            let sleep = same_text(payload, EMPTY_PRESENCE);
            self.asleep = sleep;
            return Reaction::Sleep(sleep);
        }
        if self.asleep {
            return Reaction::Dropped;
        }
        if same_text(topic, TEXT_COLOUR_TOPIC) {
            match parse_colour(payload) {
                Some(c) => {
                    self.next_colour = c;
                    Reaction::ColourSet
                },
                None => Reaction::Dropped,
            }
        } else if same_text(topic, TEXT_TOPIC) {
            Reaction::ShowText(
                TextScreen::new(
                    payload.to_owned(),
                    TextStyle::new(Font::Latin10x20, self.next_colour),
                    None,
                ),
            )
        } else if same_text(topic, TEMP_TOPIC) {
            match temperature {
                Some(t) => {
                    let shown = t.clone();
                    self.last_temp = Some(t);
                    Reaction::ReplaceEnvironment(EnvironmentScreen::new(Some(shown), self.last_co2))
                },
                None => Reaction::Dropped,
            }
        } else if same_text(topic, CO2_TOPIC) {
            let bytes = payload.as_bytes();
            proof {
                assert(bytes@.subrange(0, bytes@.len() as int) =~= bytes@);
            }
            match parse_decimal(bytes, 0, bytes.len(), 4294967295u64) {
                Some(v) => {
                    self.last_co2 = Some(v as u32);
                    Reaction::ReplaceEnvironment(
                        EnvironmentScreen::new(self.last_temp.clone(), self.last_co2),
                    )
                },
                None => Reaction::Dropped,
            }
        } else {
            Reaction::Dropped
        }
    }
}

/// Whether `a` and `b` hold the same text.
fn same_text(a: &str, b: &str) -> (r: bool)
    ensures
        r == (a@ == b@),
{
    a.to_owned() == b.to_owned()
}

} // verus!
