//! Microsecond clock values and half-open spans on the project timeline.
use vstd::prelude::*;

verus! {

/// A position on the timeline, in microseconds.
#[derive(Clone, Copy, Debug, PartialEq, Eq, PartialOrd, Ord, Hash, Structural)]
pub struct TimeUs {
    /// Microseconds since the start of the timeline.
    pub us: u64,
}

impl TimeUs {
    /// The start of the timeline.
    pub fn zero() -> (time: TimeUs)
        ensures
            time.us == 0,
    {
        TimeUs { us: 0 }
    }

    /// The position `us` microseconds into the timeline.
    pub fn new(us: u64) -> (time: TimeUs)
        ensures
            time.us == us,
    {
        TimeUs { us }
    }

    /// The position in microseconds.
    pub fn get(self) -> (us: u64)
        ensures
            us == self.us,
    {
        self.us
    }

    /// The position `duration` later, where it can be represented.
    pub fn checked_add_duration(self, duration: DurationUs) -> (later: Option<TimeUs>)
        ensures
            match later {
                Some(time) => time.us == self.us + duration@,
                None => self.us + duration@ > u64::MAX,
            },
    {
        match self.us.checked_add(duration.get()) {
            Some(us) => Some(TimeUs { us }),
            None => None,
        }
    }
}

/// A length of time that is never zero, in microseconds.
#[derive(Clone, Copy, Debug, PartialEq, Eq, PartialOrd, Ord, Hash, Structural)]
pub struct DurationUs {
    us: u64,
}

impl View for DurationUs {
    type V = int;

    closed spec fn view(&self) -> int {
        self.us as int
    }
}

impl DurationUs {
    #[verifier::type_invariant]
    spec fn nonzero(self) -> bool {
        self.us > 0
    }

    /// The duration of `us` microseconds, unless `us` is zero.
    pub fn new(us: u64) -> (duration: Option<DurationUs>)
        ensures
            match duration {
                Some(value) => us > 0 && value@ == us,
                None => us == 0,
            },
    {
        if us == 0 {
            None
        } else {
            Some(DurationUs { us })
        }
    }

    /// The length in microseconds, which is positive.
    pub fn get(self) -> (us: u64)
        ensures
            us == self@,
            us > 0,
    {
        proof {
            use_type_invariant(&self);
        }
        self.us
    }
}

/// Durations of the same length are the same.
pub broadcast proof fn lemma_duration_by_view(left: DurationUs, right: DurationUs)
    requires
        #[trigger] left@ == #[trigger] right@,
    ensures
        left == right,
{
}

/// A duration lies between zero and the largest number of microseconds.
pub broadcast proof fn lemma_duration_range(duration: DurationUs)
    ensures
        0 <= #[trigger] duration@ <= u64::MAX,
{
}

/// A half-open interval of the timeline.
#[derive(Clone, Copy, Debug, PartialEq, Eq, Hash, Structural)]
pub struct TimelineSpan {
    /// First microsecond of the span.
    pub start: TimeUs,
    /// Length of the span.
    pub duration: DurationUs,
}

impl TimelineSpan {
    /// First microsecond of the span.
    pub open spec fn lo(self) -> int {
        self.start.us as int
    }

    /// First microsecond after the span.
    pub open spec fn hi(self) -> int {
        self.start.us + self.duration@
    }

    /// Whether the microsecond `at` lies in the span.
    pub open spec fn covers(self, at: int) -> bool {
        self.lo() <= at < self.hi()
    }

    /// First microsecond after the span, where it can be represented.
    pub fn end(self) -> (end: Option<TimeUs>)
        ensures
            self.lo() < self.hi(),
            match end {
                Some(time) => time.us == self.hi(),
                None => self.hi() > u64::MAX,
            },
    {
        let _ = self.duration.get();
        self.start.checked_add_duration(self.duration)
    }

    /// The span from `lo` up to `hi`.
    pub closed spec fn from_bounds(lo: int, hi: int) -> TimelineSpan {
        TimelineSpan {
            start: TimeUs { us: lo as u64 },
            duration: DurationUs { us: (hi - lo) as u64 },
        }
    }

    /// The span from `lo` up to `hi`.
    pub fn between(lo: u64, hi: u64) -> (span: TimelineSpan)
        requires
            lo < hi,
        ensures
            span.lo() == lo,
            span.hi() == hi,
            span == TimelineSpan::from_bounds(lo as int, hi as int),
    {
        match DurationUs::new(hi - lo) {
            Some(duration) => TimelineSpan { start: TimeUs::new(lo), duration },
            None => {
                assert(false);
                TimelineSpan { start: TimeUs::new(lo), duration: DurationUs { us: 1 } }
            },
        }
    }
}

/// The bounds of a span that was made from them.
pub broadcast proof fn lemma_span_bounds(lo: int, hi: int)
    requires
        0 <= lo <= u64::MAX,
        0 <= hi - lo <= u64::MAX,
    ensures
        (#[trigger] TimelineSpan::from_bounds(lo, hi)).lo() == lo,
        TimelineSpan::from_bounds(lo, hi).hi() == hi,
{
}

/// A span is the one made from its bounds.
pub proof fn lemma_span_by_bounds(span: TimelineSpan)
    ensures
        span == TimelineSpan::from_bounds(span.lo(), span.hi()),
{
}

/// A span covers the time from its start for its duration, and no more.
pub proof fn law_a_span_covers_its_duration(span: TimelineSpan, after: int)
    ensures
        span.covers(span.start.us + after) <==> 0 <= after < span.duration@,
        span.hi() - span.lo() == span.duration@,
        span.lo() == span.start.us,
{
}

} // verus!
