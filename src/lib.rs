//! Scheduling and rendering logic for a small LED matrix display.
//!
//! The display shows one screen at a time out of a rotation that other
//! parts of the program may grow or shrink while it runs.
use vstd::prelude::*;

use geometry::Size;

pub mod fonts;
pub mod geometry;
pub mod messages;
pub mod recolour_image;
pub mod screens;

use screens::Screen;

verus! {

/// What the display is to show after one step of the scheduler.
#[derive(Clone, Copy, Debug, PartialEq, Eq, Structural)]
pub enum Frame {
    /// Clear the display to black and draw nothing else.
    Blank,
    /// Draw the screen at the front of the rotation; clear the display to
    /// black first when `clear_first` is set (the front has just changed).
    Front { clear_first: bool },
}

/// Whether `id` is among the identifiers in `ids`.
pub open spec fn listed(ids: Seq<String>, id: Seq<char>) -> bool {
    exists|j: int| 0 <= j < ids.len() && ids[j]@ == id
}

/// `queue` without the screens whose identifier is in `ids`, the rest in order.
pub open spec fn without_listed<S: Screen>(queue: Seq<S>, ids: Seq<String>) -> Seq<S> {
    queue.filter(|s: S| !listed(ids, s.spec_id()))
}

/// The rotation once pending deletions and then pending additions are applied.
pub open spec fn with_pending<S: Screen>(queue: Seq<S>, ids: Seq<String>, added: Seq<S>) -> Seq<S> {
    without_listed(queue, ids) + added
}

/// The rotation after its front screen has been shown for `for_ms`: the front
/// screen is paused, then dropped if it asks to be removed, else moved to the back.
pub open spec fn advanced<S: Screen>(queue: Seq<S>, for_ms: u64) -> Seq<S> {
    if queue.len() == 0 {
        queue
    } else {
        let front = queue[0].spec_paused(for_ms);
        if front.spec_should_remove() {
            queue.drop_first()
        } else {
            queue.drop_first().push(front)
        }
    }
}

/// The rotation after its front screen's showing has ended once for each
/// entry of `shown`, which says how long each of those showings lasted.
pub open spec fn advanced_times<S: Screen>(queue: Seq<S>, shown: Seq<u64>) -> Seq<S>
    decreases shown.len(),
{
    if shown.len() == 0 {
        queue
    } else {
        advanced_times(advanced(queue, shown[0]), shown.drop_first())
    }
}

/// Rotation keeps the order: when none of the `n` screens of a rotation asks
/// to be removed at the end of its showing, `n` showings ending in a row bring
/// the screen that was in front back to the front and every other screen back to
/// its place, each paused once.
pub proof fn lemma_full_rotation_restores_order<S: Screen>(queue: Seq<S>, shown: Seq<u64>)
    requires
        shown.len() == queue.len(),
        forall|i: int| 0 <= i < queue.len() ==> !(#[trigger] queue[i].spec_paused(shown[i])).spec_should_remove(),
    ensures
        advanced_times(queue, shown) == Seq::new(queue.len(), |i: int| queue[i].spec_paused(shown[i])),
{
    lemma_advanced_times_split(queue, Seq::empty(), shown);
    assert(queue + Seq::<S>::empty() =~= queue);
    assert(queue.skip(shown.len() as int) + Seq::<S>::empty() + Seq::new(
        shown.len(),
        |i: int| queue[i].spec_paused(shown[i]),
    ) =~= Seq::new(queue.len(), |i: int| queue[i].spec_paused(shown[i])));
}

/// After `shown.len()` showings end in a rotation `rest + done`, the first
/// screens of `rest` have moved, paused, behind `done`.
proof fn lemma_advanced_times_split<S: Screen>(rest: Seq<S>, done: Seq<S>, shown: Seq<u64>)
    requires
        shown.len() <= rest.len(),
        forall|i: int| 0 <= i < shown.len() ==> !(#[trigger] rest[i].spec_paused(shown[i])).spec_should_remove(),
    ensures
        advanced_times(rest + done, shown) == rest.skip(shown.len() as int) + done + Seq::new(
            shown.len(),
            |i: int| rest[i].spec_paused(shown[i]),
        ),
    decreases shown.len(),
{
    let n = shown.len();
    if n == 0 {
        assert(rest.skip(0) + done + Seq::new(0, |i: int| rest[i].spec_paused(shown[i])) =~= rest
            + done);
    } else {
        let front = rest[0].spec_paused(shown[0]);
        assert(!rest[0].spec_paused(shown[0]).spec_should_remove());
        assert(advanced(rest + done, shown[0]) =~= rest.drop_first() + done.push(front));
        assert forall|i: int| 0 <= i < shown.drop_first().len() implies !(
        #[trigger] rest.drop_first()[i].spec_paused(shown.drop_first()[i])).spec_should_remove() by {
            assert(rest.drop_first()[i] == rest[i + 1]);
            assert(shown.drop_first()[i] == shown[i + 1]);
            assert(!rest[i + 1].spec_paused(shown[i + 1]).spec_should_remove());
        }
        lemma_advanced_times_split(rest.drop_first(), done.push(front), shown.drop_first());
        assert(rest.drop_first().skip(n - 1) =~= rest.skip(n as int));
        assert(done.push(front) + Seq::new(
            (n - 1) as nat,
            |i: int| rest.drop_first()[i].spec_paused(shown.drop_first()[i]),
        ) =~= done + Seq::new(n, |i: int| rest[i].spec_paused(shown[i])));
        assert(rest.skip(n as int) + done.push(front) + Seq::new(
            (n - 1) as nat,
            |i: int| rest.drop_first()[i].spec_paused(shown.drop_first()[i]),
        ) =~= rest.skip(n as int) + done + Seq::new(n, |i: int| rest[i].spec_paused(shown[i])));
    }
}

/// A deletion request removes every screen whose identifier it names, the
/// front screen included, keeps every other screen, and keeps their order:
/// what is left of the rotation is what is left of any first part of it
/// followed by what is left of the rest.
pub proof fn lemma_deletion_removes_every_match<S: Screen>(queue: Seq<S>, ids: Seq<String>)
    ensures
        forall|i: int|
            0 <= i < without_listed(queue, ids).len() ==> !listed(
                ids,
                (#[trigger] without_listed(queue, ids)[i]).spec_id(),
            ),
        forall|i: int|
            0 <= i < queue.len() && !listed(ids, (#[trigger] queue[i]).spec_id())
                ==> without_listed(queue, ids).contains(queue[i]),
        forall|k: int|
            0 <= k <= queue.len() ==> without_listed(queue, ids) == without_listed(
                #[trigger] queue.take(k),
                ids,
            ) + without_listed(queue.skip(k), ids),
{
    let pred = |s: S| !listed(ids, s.spec_id());
    assert forall|i: int| 0 <= i < without_listed(queue, ids).len() implies !listed(
        ids,
        (#[trigger] without_listed(queue, ids)[i]).spec_id(),
    ) by {
        queue.lemma_filter_pred(pred, i);
    }
    assert forall|i: int|
        0 <= i < queue.len() && !listed(ids, (#[trigger] queue[i]).spec_id()) implies without_listed(
        queue,
        ids,
    ).contains(queue[i]) by {
        queue.lemma_filter_contains(pred, i);
    }
    assert forall|k: int| 0 <= k <= queue.len() implies without_listed(queue, ids)
        == without_listed(#[trigger] queue.take(k), ids) + without_listed(queue.skip(k), ids) by {
        assert(queue =~= queue.take(k) + queue.skip(k));
        Seq::filter_distributes_over_add(queue.take(k), queue.skip(k), pred);
    }
}

/// Whether the deletion requests `ids` remove the front screen of `queue`.
pub open spec fn front_deleted<S: Screen>(queue: Seq<S>, ids: Seq<String>) -> bool {
    queue.len() > 0 && listed(ids, queue[0].spec_id())
}

/// Requests that name no screen of the rotation leave it as it is.
pub proof fn lemma_unlisted_rotation_unchanged<S: Screen>(queue: Seq<S>, ids: Seq<String>)
    requires
        forall|i: int| 0 <= i < queue.len() ==> !listed(ids, (#[trigger] queue[i]).spec_id()),
    ensures
        without_listed(queue, ids) == queue,
    decreases queue.len(),
{
    reveal(Seq::filter);
    if queue.len() > 0 {
        let rest = queue.drop_last();
        assert forall|i: int| 0 <= i < rest.len() implies !listed(
            ids,
            (#[trigger] rest[i]).spec_id(),
        ) by {
            assert(rest[i] == queue[i]);
        }
        lemma_unlisted_rotation_unchanged(rest, ids);
        assert(!listed(ids, queue[queue.len() - 1].spec_id()));
        assert(rest.push(queue.last()) =~= queue);
    }
}

/// When the current front screen began its showing, given the recorded time.
pub open spec fn shown_since(last_change: Option<u64>, now: u64) -> u64 {
    match last_change {
        Some(t) => t,
        None => now,
    }
}

/// How long the front screen has been shown at `now`; a clock that appears
/// to run backwards counts as no time.
pub open spec fn shown_for(last_change: Option<u64>, now: u64) -> u64 {
    let since = shown_since(last_change, now);
    if now >= since {
        (now - since) as u64
    } else {
        0
    }
}

/// Multiplexes the display between screens: owns the rotation, decides which
/// screen is current, advances or evicts it as time passes, and says what to draw.
///
/// Times are in milliseconds of a monotonic clock.
pub struct DisplayLogic<S> {
    curr_screens: Vec<S>,
    last_screen_change: Option<u64>,
}

impl<S: Screen> DisplayLogic<S> {
    /// The rotation, front first.
    pub closed spec fn spec_screens(self) -> Seq<S> {
        self.curr_screens@
    }

    /// When the front screen began its current showing; `None` before the
    /// first step that saw a screen, and whenever the rotation is empty.
    pub closed spec fn spec_last_change(self) -> Option<u64> {
        self.last_screen_change
    }

    /// The recorded time is unset whenever the rotation is empty.
    pub open spec fn wf(self) -> bool {
        self.spec_screens().len() == 0 ==> self.spec_last_change() is None
    }

    /// An empty rotation.
    pub fn new() -> (r: Self)
        ensures
            r.wf(),
            r.spec_screens().len() == 0,
            r.spec_last_change() is None,
    {
        DisplayLogic { curr_screens: Vec::new(), last_screen_change: None }
    }

    /// Adds `screen` at the back of the rotation.
    pub fn add(&mut self, screen: S)
        ensures
            final(self).spec_screens() == old(self).spec_screens().push(screen),
            final(self).spec_last_change() == old(self).spec_last_change(),
            old(self).wf() ==> final(self).wf(),
    {
        self.curr_screens.push(screen);
    }

    /// The number of screens in the rotation.
    pub fn len(&self) -> (r: usize)
        ensures
            r == self.spec_screens().len(),
    {
        self.curr_screens.len()
    }

    /// The screen at position `i` of the rotation (the front is 0), if there is one.
    pub fn get(&self, i: usize) -> (r: Option<&S>)
        ensures
            i < self.spec_screens().len() ==> r == Some(&self.spec_screens()[i as int]),
            i >= self.spec_screens().len() ==> r is None,
    {
        if i < self.curr_screens.len() {
            Some(&self.curr_screens[i])
        } else {
            None
        }
    }

    /// The screen at the front of the rotation, to draw it.
    pub fn front_mut(&mut self) -> (r: &mut S)
        requires
            old(self).spec_screens().len() > 0,
        ensures
            *r == old(self).spec_screens()[0],
            final(self).spec_screens() == old(self).spec_screens().update(0, *final(r)),
            final(self).spec_last_change() == old(self).spec_last_change(),
    {
        &mut self.curr_screens[0]
    }

    /// Removes every screen whose identifier is in `ids`, keeping the order of the rest.
    fn delete_listed(&mut self, ids: &Vec<String>)
        ensures
            final(self).spec_screens() == without_listed(old(self).spec_screens(), ids@),
            final(self).spec_last_change() == old(self).spec_last_change(),
    {
        let ghost queue = self.curr_screens@;
        let n = self.curr_screens.len();
        let mut rest: Vec<S> = Vec::new();
        std::mem::swap(&mut rest, &mut self.curr_screens);
        let ghost pred = |s: S| !listed(ids@, s.spec_id());
        let mut i: usize = 0;
        while i < n
            invariant
                rest@ == queue.skip(i as int),
                i <= n,
                n == queue.len(),
                self.curr_screens@ == queue.take(i as int).filter(pred),
                self.last_screen_change == old(self).last_screen_change,
                pred == (|s: S| !listed(ids@, s.spec_id())),
            decreases n - i,
        {
            let screen = rest.remove(0);
            proof {
                assert(queue.take(i + 1).drop_last() =~= queue.take(i as int));
                assert(queue.take(i + 1).last() == screen);
                reveal(Seq::filter);
            }
            let keep = !id_listed(ids, screen.id());
            if keep {
                self.curr_screens.push(screen);
            }
            i = i + 1;
            proof {
                assert(rest@ =~= queue.skip(i as int));
            }
        }
        proof {
            assert(queue.take(i as int) =~= queue);
        }
    }

    /// Runs one step of the rotation at time `now` on a display of size
    /// `display`, and says what to draw.
    ///
    /// While `asleep` nothing changes and the display is blanked; `deleted`
    /// and `added` are not applied then, so a caller keeps them queued until
    /// the display wakes. Otherwise
    /// the screens whose identifier is in `deleted` are removed, `added` is
    /// appended (when the front screen was deleted, the next one starts a
    /// fresh showing and the display is cleared before it is drawn), and once the front screen has been shown for its duration it
    /// is paused and then dropped or moved to the back; the front screen after
    /// that is drawn, or the display blanked if none is left.
    pub fn draw(
        &mut self,
        asleep: bool,
        deleted: &Vec<String>,
        added: Vec<S>,
        now: u64,
        display: Size,
    ) -> (r: Frame)
        ensures
            asleep ==> *final(self) == *old(self) && r == Frame::Blank,
            !asleep ==> {
                let pending = with_pending(old(self).spec_screens(), deleted@, added@);
                let restarted = front_deleted(old(self).spec_screens(), deleted@);
                let last_change = if restarted {
                    None
                } else {
                    old(self).spec_last_change()
                };
                let elapsed = shown_for(last_change, now);
                if pending.len() == 0 {
                    &&& final(self).spec_screens() == pending
                    &&& final(self).spec_last_change() is None
                    &&& r == Frame::Blank
                } else if elapsed < pending[0].spec_duration(display) {
                    &&& final(self).spec_screens() == pending
                    &&& final(self).spec_last_change() == Some(shown_since(last_change, now))
                    &&& r == (Frame::Front { clear_first: restarted })
                } else {
                    let next = advanced(pending, elapsed);
                    &&& final(self).spec_screens() == next
                    &&& next.len() == 0 ==> final(self).spec_last_change() is None && r
                        == Frame::Blank
                    &&& next.len() > 0 ==> final(self).spec_last_change() == Some(now) && r
                        == (Frame::Front { clear_first: true })
                }
            },
            // Exactly the front screen is drawn unless the step left no screen.
            !asleep && with_pending(old(self).spec_screens(), deleted@, added@).len() > 0 ==> (
            r is Front <==> final(self).spec_screens().len() > 0),
            old(self).wf() ==> final(self).wf(),
    {
        if asleep {
            return Frame::Blank;
        }
        let restarted = self.curr_screens.len() > 0 && id_listed(deleted, self.curr_screens[0].id());
        self.delete_listed(deleted);
        if restarted {
            self.last_screen_change = None;
        }
        let mut added = added;
        self.curr_screens.append(&mut added);
        if self.curr_screens.len() == 0 {
            self.last_screen_change = None;
            return Frame::Blank;
        }
        let since: u64 = match self.last_screen_change {
            Some(t) => t,
            None => now,
        };
        self.last_screen_change = Some(since);
        let elapsed: u64 = if now >= since {
            now - since
        } else {
            0
        };
        let duration = self.curr_screens[0].single_display_duration(display);
        let mut clear_first = restarted;
        if elapsed as u128 >= duration {
            let mut front = self.curr_screens.remove(0);
            front.paused(elapsed);
            if !front.should_remove() {
                self.curr_screens.push(front);
            }
            self.last_screen_change = Some(now);
            clear_first = true;
        }
        if self.curr_screens.len() == 0 {
            self.last_screen_change = None;
            return Frame::Blank;
        }
        Frame::Front { clear_first }
    }
}

/// Whether `id` is among `ids`.
fn id_listed(ids: &Vec<String>, id: &str) -> (r: bool)
    ensures
        r == listed(ids@, id@),
{
    let wanted = id.to_owned();
    let mut j: usize = 0;
    while j < ids.len()
        invariant
            j <= ids@.len(),
            wanted@ == id@,
            forall|k: int| 0 <= k < j ==> ids@[k]@ != id@,
        decreases ids.len() - j,
    {
        if ids[j] == wanted {
            return true;
        }
        j = j + 1;
    }
    false
}

} // verus!
