//! The clock that plays the frames of a timeline.
use crate::frames::FrameClip;
use crate::ids::FrameId;
use crate::time;
use crate::time::DurationUs;
use crate::value;
use vstd::prelude::*;

verus! {

/// How long a frame is shown, in nanoseconds.
pub open spec fn shown_for(frame: FrameClip) -> int {
    frame.duration@ * 1_000
}

/// The frame that is reached after `steps` others, where the first follows the last.
pub open spec fn turn(count: int, current: int, steps: int) -> int {
    if current + steps < count {
        current + steps
    } else {
        current + steps - count
    }
}

/// How long the first `steps` frames from the current one are shown.
pub open spec fn passed(frames: Seq<FrameClip>, current: int, steps: int) -> int
    decreases steps,
{
    if steps <= 0 {
        0
    } else {
        passed(frames, current, steps - 1) + shown_for(frames[turn(frames.len() as int, current, steps - 1)])
    }
}

/// How many frames are shown before playing ends or starts over.
pub open spec fn round(count: int, current: int, repeat: bool) -> int {
    if repeat {
        count
    } else {
        count - current
    }
}

/// The time since a moment, and zero where it is yet to come.
pub open spec fn since(now: int, moment: int) -> int {
    if now > moment {
        now - moment
    } else {
        0
    }
}

/// The time into the round that counts: whole rounds are left out where playing repeats.
pub open spec fn into_round(frames: Seq<FrameClip>, current: int, elapsed: int, repeat: bool) -> int {
    if repeat {
        elapsed % passed(frames, current, frames.len() as int)
    } else {
        elapsed
    }
}

/// Whether the frame after `steps` others is on show at a time into the round.
pub open spec fn on_show(frames: Seq<FrameClip>, current: int, steps: int, at: int) -> bool {
    passed(frames, current, steps) <= at < passed(frames, current, steps + 1)
}

proof fn lemma_passed_grows(frames: Seq<FrameClip>, current: int, less: int, more: int)
    requires
        0 <= less <= more,
    ensures
        0 <= passed(frames, current, less) <= passed(frames, current, more),
    decreases more,
{
    broadcast use time::lemma_duration_range;

    if more > 0 {
        if less < more {
            lemma_passed_grows(frames, current, less, more - 1);
        } else {
            lemma_passed_grows(frames, current, less - 1, more - 1);
        }
    }
}

/// At most one frame is on show at a time.
pub proof fn law_one_frame_is_on_show(frames: Seq<FrameClip>, current: int, one: int, other: int, at: int)
    requires
        0 <= one,
        0 <= other,
        on_show(frames, current, one, at),
        on_show(frames, current, other, at),
    ensures
        one == other,
{
    if one < other {
        lemma_passed_grows(frames, current, one + 1, other);
    } else if other < one {
        lemma_passed_grows(frames, current, other + 1, one);
    }
}

/// When the frame on show came up and how long it stays, in nanoseconds of a clock that only
/// goes forward.
#[derive(Clone, Copy, Debug, PartialEq, Eq, Structural)]
pub struct PlaybackClock {
    /// The frame.
    pub id: FrameId,
    /// When it came up.
    pub started_at: u128,
    /// How long it stays.
    pub duration: u128,
}

/// The frame to show, and the clock to go on with unless playing ends there.
pub type Advance = (FrameId, Option<PlaybackClock>);

/// Whether an outcome of advancing is the frame on show.
pub open spec fn advanced(
    frames: Seq<FrameClip>,
    current: int,
    elapsed: int,
    now: int,
    repeat: bool,
    outcome: Advance,
) -> bool {
    let count = frames.len() as int;
    let steps = round(count, current, repeat);
    let at = into_round(frames, current, elapsed, repeat);
    if at < passed(frames, current, steps) {
        exists|k: int|
            0 <= k < steps && #[trigger] on_show(frames, current, k, at) && comes_up(
                frames[turn(count, current, k)],
                at - passed(frames, current, k),
                now,
                outcome,
            )
    } else {
        outcome == (frames.last().id, None::<PlaybackClock>)
    }
}

/// Whether an outcome shows a frame that came up some time ago.
pub open spec fn comes_up(frame: FrameClip, age: int, now: int, outcome: Advance) -> bool {
    &&& outcome.0 == frame.id
    &&& outcome.1 matches Some(clock) && clock.id == frame.id && clock.started_at == now - age
        && clock.duration == shown_for(frame)
}

impl PlaybackClock {
    /// The clock of a frame that came up at a moment.
    pub fn new(frame_id: FrameId, frame_started_at: u128, duration: DurationUs) -> (clock: PlaybackClock)
        ensures
            clock.id == frame_id,
            clock.started_at == frame_started_at,
            clock.duration == duration@ * 1_000,
    {
        broadcast use time::lemma_duration_range;

        PlaybackClock { id: frame_id, started_at: frame_started_at, duration: (duration.get() as u128) * 1_000 }
    }

    /// Whether the frame's time is over.
    pub fn is_due(self, now: u128) -> (due: bool)
        ensures
            due == (since(now as int, self.started_at as int) >= self.duration),
    {
        now.saturating_sub(self.started_at) >= self.duration
    }

    /// How much of the frame's time is left.
    pub fn remaining(self, now: u128) -> (left: u128)
        ensures
            left == since(self.duration as int, since(now as int, self.started_at as int)),
    {
        self.duration.saturating_sub(now.saturating_sub(self.started_at))
    }

    /// The frame that is on show now, however many others were missed.
    pub fn advance(self, frames: &[FrameClip], current_index: usize, now: u128, repeat: bool) -> (outcome:
        Option<Advance>)
        ensures
            outcome is Some == (current_index < frames@.len()),
            outcome is Some ==> advanced(
                frames@,
                current_index as int,
                since(now as int, self.started_at as int),
                now as int,
                repeat,
                outcome->Some_0,
            ),
    {
        broadcast use time::lemma_duration_range;

        let count: usize = frames.len();
        if current_index >= count {
            return None;
        }
        let steps: usize = if repeat {
            count
        } else {
            count - current_index
        };
        let elapsed: u128 = now.saturating_sub(self.started_at);
        match scan(frames, current_index, steps, elapsed, now) {
            Scan::OnShow(outcome) => {
                proof {
                    let k = choose|k: int|
                        0 <= k < steps && #[trigger] on_show(frames@, current_index as int, k, elapsed as int)
                            && comes_up(
                            frames@[turn(count as int, current_index as int, k)],
                            elapsed - passed(frames@, current_index as int, k),
                            now as int,
                            outcome,
                        );
                    lemma_passed_grows(frames@, current_index as int, k + 1, steps as int);
                    lemma_passed_grows(frames@, current_index as int, 0, steps as int);
                    if repeat {
                        vstd::arithmetic::div_mod::lemma_small_mod(
                            elapsed as nat,
                            passed(frames@, current_index as int, count as int) as nat,
                        );
                    }
                }
                Some(outcome)
            },
            Scan::Past(total) => {
                if !repeat {
                    return Some((frames[count - 1].id, None));
                }
                let rest: u128 = elapsed % total;
                match scan(frames, current_index, steps, rest, now) {
                    Scan::OnShow(outcome) => Some(outcome),
                    Scan::Past(_) => None,
                }
            },
        }
    }
}

/// What a walk over one round finds.
enum Scan {
    /// The frame on show.
    OnShow(Advance),
    /// Nothing: the round is shorter, by its length here.
    Past(u128),
}

/// Looks for the frame on show at a time into the round.
fn scan(frames: &[FrameClip], current: usize, steps: usize, at: u128, now: u128) -> (found: Scan)
    requires
        current < frames@.len(),
        steps <= frames@.len(),
        at <= now,
    ensures
        match found {
            Scan::OnShow(outcome) => exists|k: int|
                0 <= k < steps && #[trigger] on_show(frames@, current as int, k, at as int) && comes_up(
                    frames@[turn(frames@.len() as int, current as int, k)],
                    at - passed(frames@, current as int, k),
                    now as int,
                    outcome,
                ),
            Scan::Past(total) => total == passed(frames@, current as int, steps as int) && total <= at
                && (steps > 0 ==> total > 0),
        },
{
    broadcast use time::lemma_duration_range;

    let count: usize = frames.len();
    let mut step: usize = 0;
    let mut total: u128 = 0;
    while step < steps
        invariant
            step <= steps <= count,
            count == frames@.len(),
            current < count,
            total == passed(frames@, current as int, step as int),
            total <= at <= now,
            step > 0 ==> total > 0,
        decreases steps - step,
    {
        let index: usize = if step < count - current {
            current + step
        } else {
            step - (count - current)
        };
        let frame = &frames[index];
        let duration: u128 = (frame.duration.get() as u128) * 1_000;
        proof {
            assert(index == turn(count as int, current as int, step as int));
            assert(passed(frames@, current as int, step + 1) == total + duration);
        }
        let age: u128 = at - total;
        if age < duration {
            assert(on_show(frames@, current as int, step as int, at as int));
            return Scan::OnShow((frame.id, Some(PlaybackClock::new(frame.id, now - age, frame.duration))));
        }
        total = total + duration;
        step = step + 1;
    }
    Scan::Past(total)
}

/// The time before a frame, counted from the first.
pub open spec fn before(frames: Seq<FrameClip>, index: int) -> int {
    passed(frames, 0, index)
}

/// The time that one round takes.
pub open spec fn round_time(frames: Seq<FrameClip>) -> int {
    passed(frames, 0, frames.len() as int)
}

/// The frames from any one on take as long as their times say.
proof fn lemma_passed_by_times(frames: Seq<FrameClip>, current: int, steps: int)
    requires
        0 <= current < frames.len(),
        0 <= steps <= frames.len(),
    ensures
        passed(frames, current, steps) == (if current + steps <= frames.len() {
            before(frames, current + steps) - before(frames, current)
        } else {
            round_time(frames) - before(frames, current) + before(frames, current + steps - frames.len())
        }),
    decreases steps,
{
    if steps > 0 {
        lemma_passed_by_times(frames, current, steps - 1);
        let count = frames.len() as int;
        let last = turn(count, current, steps - 1);
        assert(turn(count, 0, last) == last);
        assert(before(frames, last + 1) == before(frames, last) + shown_for(frames[last]));
    }
}

/// Every frame takes one round to come up again.
proof fn lemma_rounds_take_the_same_time(frames: Seq<FrameClip>, current: int)
    requires
        0 <= current < frames.len(),
    ensures
        passed(frames, current, frames.len() as int) == round_time(frames),
{
    lemma_passed_by_times(frames, current, frames.len() as int);
}

/// Where in the round a frame is that is on show.
proof fn lemma_place_in_round(frames: Seq<FrameClip>, current: int, steps: int, at: int)
    requires
        0 <= current < frames.len(),
        0 <= steps < frames.len(),
        on_show(frames, current, steps, at),
    ensures
        ({
            let shown = turn(frames.len() as int, current, steps);
            let place = before(frames, shown) + at - passed(frames, current, steps);
            &&& 0 <= shown < frames.len()
            &&& before(frames, shown) <= place < before(frames, shown + 1)
            &&& (at + before(frames, current)) % round_time(frames) == place
            &&& round_time(frames) > 0
        }),
{
    let count = frames.len() as int;
    let shown = turn(count, current, steps);
    let total = round_time(frames);
    let place = before(frames, shown) + at - passed(frames, current, steps);
    lemma_passed_by_times(frames, current, steps);
    lemma_passed_by_times(frames, current, steps + 1);
    assert(turn(count, 0, shown) == shown);
    assert(before(frames, shown + 1) == before(frames, shown) + shown_for(frames[shown]));
    lemma_passed_grows(frames, 0, shown + 1, count);
    lemma_passed_grows(frames, 0, 0, shown);
    lemma_passed_grows(frames, 0, 0, current);
    assert(0 <= place < total);
    if current + steps < count {
        assert(at + before(frames, current) == place);
        vstd::arithmetic::div_mod::lemma_small_mod(place as nat, total as nat);
    } else {
        assert(before(frames, 0) == 0);
        assert(at + before(frames, current) == total + place);
        vstd::arithmetic::div_mod::lemma_mod_add_multiples_vanish(place, total);
        vstd::arithmetic::div_mod::lemma_small_mod(place as nat, total as nat);
    }
}

/// How often the clock was looked at makes no difference: going on from the frame that was on show
/// at some moment leads to the same frame, at the same age, as going there in one step.
///
/// `first` and `direct` are the steps to the frames on show after the two times, and `onward` those
/// from the first of these frames on.
pub proof fn law_missed_steps_change_nothing(
    frames: Seq<FrameClip>,
    current: int,
    first: int,
    direct: int,
    onward: int,
    earlier: int,
    later: int,
)
    requires
        0 <= current < frames.len(),
        0 <= first < frames.len(),
        0 <= direct < frames.len(),
        0 <= onward < frames.len(),
        0 <= earlier <= later,
        on_show(frames, current, first, into_round(frames, current, earlier, true)),
        on_show(frames, current, direct, into_round(frames, current, later, true)),
        ({
            let middle = turn(frames.len() as int, current, first);
            let age = into_round(frames, current, earlier, true) - passed(frames, current, first);
            on_show(frames, middle, onward, into_round(frames, middle, later - earlier + age, true))
        }),
    ensures
        ({
            let count = frames.len() as int;
            let middle = turn(count, current, first);
            let age = into_round(frames, current, earlier, true) - passed(frames, current, first);
            &&& turn(count, middle, onward) == turn(count, current, direct)
            &&& into_round(frames, middle, later - earlier + age, true) - passed(frames, middle, onward)
                == into_round(frames, current, later, true) - passed(frames, current, direct)
        }),
{
    let count = frames.len() as int;
    let total = round_time(frames);
    let middle = turn(count, current, first);
    let at_first = into_round(frames, current, earlier, true);
    let age = at_first - passed(frames, current, first);
    let at_direct = into_round(frames, current, later, true);
    let since_middle = later - earlier + age;
    let at_onward = into_round(frames, middle, since_middle, true);
    lemma_rounds_take_the_same_time(frames, current);
    lemma_place_in_round(frames, current, first, at_first);
    lemma_rounds_take_the_same_time(frames, middle);
    lemma_place_in_round(frames, current, direct, at_direct);
    lemma_place_in_round(frames, middle, onward, at_onward);
    let from_current = before(frames, current);
    let from_middle = before(frames, middle);
    let place = (at_direct + from_current) % total;
    assert(place == (at_onward + from_middle) % total) by {
        vstd::arithmetic::div_mod::lemma_add_mod_noop(later, from_current, total);
        vstd::arithmetic::div_mod::lemma_add_mod_noop(at_direct, from_current, total);
        vstd::arithmetic::div_mod::lemma_mod_twice(later, total);
        vstd::arithmetic::div_mod::lemma_add_mod_noop(since_middle, from_middle, total);
        vstd::arithmetic::div_mod::lemma_add_mod_noop(at_onward, from_middle, total);
        vstd::arithmetic::div_mod::lemma_mod_twice(since_middle, total);
        vstd::arithmetic::div_mod::lemma_add_mod_noop(earlier, from_current, total);
        vstd::arithmetic::div_mod::lemma_add_mod_noop(at_first, from_current, total);
        vstd::arithmetic::div_mod::lemma_mod_twice(earlier, total);
        assert((at_first + from_current) % total == (earlier + from_current) % total);
        assert(age + from_middle == (earlier + from_current) % total);
        vstd::arithmetic::div_mod::lemma_add_mod_noop(later - earlier, age + from_middle, total);
        vstd::arithmetic::div_mod::lemma_add_mod_noop(later - earlier, earlier + from_current, total);
        vstd::arithmetic::div_mod::lemma_mod_twice(earlier + from_current, total);
        assert(since_middle + from_middle == (later - earlier) + (age + from_middle));
        assert(later + from_current == (later - earlier) + (earlier + from_current));
    }
    let one = turn(count, current, direct);
    let other = turn(count, middle, onward);
    if one < other {
        lemma_passed_grows(frames, 0, one + 1, other);
    } else if other < one {
        lemma_passed_grows(frames, 0, other + 1, one);
    }
}

proof fn lemma_before_is_the_clock(frames: Seq<FrameClip>, count: int)
    requires
        0 <= count <= frames.len(),
    ensures
        before(frames, count) == 1_000 * crate::frames::clock(value::views(frames), count),
    decreases count,
{
    if count > 0 {
        lemma_before_is_the_clock(frames, count - 1);
        assert(turn(frames.len() as int, 0, count - 1) == count - 1);
        assert(value::views(frames)[count - 1] == frames[count - 1]@);
    }
}

/// Playback shows the frame in whose time the moment lies. With `elapsed` nanoseconds gone since the
/// current frame came up, the moment is that much after the begin of this frame on the clock of the
/// timeline; where playback repeats it begins anew after the last frame, and otherwise it stops there.
pub proof fn law_playback_follows_the_clock(
    frames: Seq<FrameClip>,
    current: int,
    elapsed: int,
    now: int,
    repeat: bool,
    outcome: Advance,
)
    requires
        0 <= current < frames.len(),
        0 <= elapsed,
        1_000 * crate::frames::clock(value::views(frames), frames.len() as int) > 0,
        advanced(frames, current, elapsed, now, repeat, outcome),
    ensures
        ({
            let views = value::views(frames);
            let whole = 1_000 * crate::frames::clock(views, frames.len() as int);
            let reached = 1_000 * crate::frames::clock(views, current) + elapsed;
            let moment = if repeat {
                reached % whole
            } else {
                reached
            };
            if moment < whole {
                exists|shown: int|
                    {
                        &&& 0 <= shown < frames.len()
                        &&& 1_000 * crate::frames::clock(views, shown) <= moment
                        &&& moment < 1_000 * crate::frames::clock(views, shown + 1)
                        &&& outcome.0 == (#[trigger] frames[shown]).id
                        &&& outcome.1 matches Some(clock) && clock.id == frames[shown].id && clock.started_at == now - (
                        moment - 1_000 * crate::frames::clock(views, shown)) && clock.duration == 1_000
                            * frames[shown].duration@
                    }
            } else {
                outcome.0 == frames[frames.len() - 1].id && outcome.1 is None
            }
        }),
{
    let count = frames.len() as int;
    let views = value::views(frames);
    let steps = round(count, current, repeat);
    let at = into_round(frames, current, elapsed, repeat);
    let whole = round_time(frames);
    lemma_before_is_the_clock(frames, count);
    lemma_before_is_the_clock(frames, current);
    lemma_rounds_take_the_same_time(frames, current);
    lemma_passed_by_times(frames, current, steps);
    lemma_passed_grows(frames, 0, 0, current);
    let reached = before(frames, current) + elapsed;
    assert(before(frames, count) == whole);
    if repeat {
        vstd::arithmetic::div_mod::lemma_mod_bound(elapsed, whole);
        vstd::arithmetic::div_mod::lemma_add_mod_noop_right(before(frames, current), elapsed, whole);
        assert((before(frames, current) + elapsed % whole) % whole == reached % whole);
        vstd::arithmetic::div_mod::lemma_mod_bound(reached, whole);
        assert(at < passed(frames, current, steps));
    }
    if at < passed(frames, current, steps) {
        let k = choose|k: int|
            0 <= k < steps && #[trigger] on_show(frames, current, k, at) && comes_up(
                frames[turn(count, current, k)],
                at - passed(frames, current, k),
                now,
                outcome,
            );
        lemma_place_in_round(frames, current, k, at);
        let shown = turn(count, current, k);
        lemma_before_is_the_clock(frames, shown);
        lemma_before_is_the_clock(frames, shown + 1);
        if repeat {
            assert(at + before(frames, current) == before(frames, current) + elapsed % whole);
        } else {
            lemma_passed_by_times(frames, current, k);
            assert(shown == current + k);
        }
        assert(frames[shown].id == outcome.0);
    } else {
        assert(!repeat);
    }
}

/// The time since a moment is what has gone by, and nothing before it.
pub proof fn law_no_time_has_gone_before_a_moment(now: int, moment: int)
    ensures
        now >= moment ==> moment + since(now, moment) == now,
        now <= moment ==> since(now, moment) == 0,
{
}

/// A turn goes on one frame after another and begins anew after the last one.
pub proof fn law_a_turn_goes_round(count: int, current: int, steps: int)
    requires
        0 <= current < count,
        0 <= steps <= count,
    ensures
        0 <= turn(count, current, steps) < count,
        turn(count, current, 0) == current,
        turn(count, current, count) == current,
        steps < count ==> turn(count, current, steps + 1) == (if turn(count, current, steps) == count - 1 {
            0
        } else {
            turn(count, current, steps) + 1
        }),
{
}

} // verus!
