//! How much of the exporter's own reporting reaches stderr.

use vstd::prelude::*;

use crate::allow::Level;
use crate::text::starts_with;

verus! {

/// What the targets of the exporter's own reporting start with.
pub const EXPORTER_PREFIX: &'static str = "opentelemetry";

/// How many seconds lie between two lines of the exporter's own reporting.
pub const QUIET_SECONDS: u64 = 60;

/// The text of [`EXPORTER_PREFIX`].
pub open spec fn exporter_prefix() -> Seq<char> {
    EXPORTER_PREFIX@
}

/// `target` belongs to the exporter.
pub open spec fn from_exporter(target: Seq<char>) -> bool {
    exporter_prefix().is_prefix_of(target)
}

/// An event as the filter sees it: its target, its level, and the whole seconds
/// since the filter was made.
pub struct Event {
    pub target: Seq<char>,
    pub level: Level,
    pub now: u64,
}

/// A rate limiter over the exporter's own reporting.
pub struct ExporterNoise {
    last: Option<u64>,
}

impl ExporterNoise {
    /// When the last exporter line was admitted, if any was.
    pub closed spec fn last_admitted(&self) -> Option<u64> {
        self.last
    }

    /// A limiter that has admitted nothing.
    pub fn new() -> (noise: Self)
        ensures
            noise.last_admitted() is None,
    {
        ExporterNoise { last: None }
    }

    /// Anything but the exporter passes untouched. The exporter's own debug lines
    /// carry the collector's response body, which may echo a token back, so nothing
    /// below INFO gets through; what is left is worth one line a minute, not one
    /// per dropped event.
    ///
    /// `now` is the whole seconds since the limiter was made.
    pub fn admits(&mut self, target: &str, level: Level, now: u64) -> (yes: bool)
        ensures
            yes == passes(
                old(self).last_admitted(),
                Event { target: target@, level, now },
            ),
            final(self).last_admitted() == after(
                old(self).last_admitted(),
                Event { target: target@, level, now },
            ),
            !"opentelemetry"@.is_prefix_of(target@) ==> yes && *final(self) == *old(self),
            !yes ==> *final(self) == *old(self),
    {
        if !starts_with(target, EXPORTER_PREFIX) {
            return true;
        }
        if !level.at_least_info() {
            return false;
        }
        let due: bool = match self.last {
            None => true,
            Some(previous) => now.saturating_sub(previous) >= QUIET_SECONDS,
        };
        if due {
            self.last = Some(now);
        }
        due
    }
}

/// Whether an event of the exporter is due, given when the last one was admitted.
pub open spec fn due(last: Option<u64>, now: u64) -> bool {
    match last {
        None => true,
        Some(previous) => now - previous >= QUIET_SECONDS,
    }
}

/// Whether `event` passes.
pub open spec fn passes(last: Option<u64>, event: Event) -> bool {
    from_exporter(event.target) ==> {
        &&& event.level.verbosity() <= Level::Info.verbosity()
        &&& due(last, event.now)
    }
}

/// An event of the exporter that passes.
pub open spec fn admitted_line(last: Option<u64>, event: Event) -> bool {
    from_exporter(event.target) && passes(last, event)
}

/// When the last exporter line was admitted, once `event` has been seen: only an
/// admitted line of the exporter moves it.
pub open spec fn after(last: Option<u64>, event: Event) -> Option<u64> {
    if admitted_line(last, event) {
        Some(event.now)
    } else {
        last
    }
}

/// When the last exporter line was admitted, once all of `events` have been seen.
pub open spec fn after_all(last: Option<u64>, events: Seq<Event>) -> Option<u64>
    decreases events.len(),
{
    if events.len() == 0 {
        last
    } else {
        after(after_all(last, events.drop_last()), events.last())
    }
}

/// Whether event number `i` of a run is an admitted line of the exporter.
pub open spec fn admitted_at(last: Option<u64>, events: Seq<Event>, i: int) -> bool {
    admitted_line(after_all(last, events.take(i)), events[i])
}

/// The clock of a run does not go back.
pub open spec fn in_order(events: Seq<Event>) -> bool {
    forall|i: int, j: int|
        0 <= i <= j < events.len() ==> (#[trigger] events[i]).now <= (#[trigger] events[j]).now
}

/// Once event `i` was an admitted line, the time of the last admitted line is at
/// least that of event `i`, and not later than the last event's.
proof fn last_is_no_earlier(last: Option<u64>, events: Seq<Event>, i: int)
    requires
        0 <= i < events.len(),
        in_order(events),
        admitted_at(last, events, i),
    ensures
        after_all(last, events) matches Some(t) && events[i].now <= t <= events.last().now,
    decreases events.len(),
{
    let front = events.drop_last();
    if i == events.len() - 1 {
        assert(events.take(i) =~= front);
    } else {
        assert(front.take(i) =~= events.take(i));
        assert(in_order(front)) by {
            assert forall|a: int, b: int| 0 <= a <= b < front.len() implies (
            #[trigger] front[a]).now <= (#[trigger] front[b]).now by {
                assert(front[a] == events[a] && front[b] == events[b]);
            }
        }
        last_is_no_earlier(last, front, i);
        assert(front.last() == events[events.len() - 2]);
        assert(events[events.len() - 2].now <= events[events.len() - 1].now);
    }
}

/// In any run of events whose clock does not go back, two admitted lines of the
/// exporter are at least a minute apart: one line a minute, however many events.
pub proof fn one_line_a_minute(last: Option<u64>, events: Seq<Event>, i: int, j: int)
    requires
        in_order(events),
        0 <= i < j < events.len(),
        admitted_at(last, events, i),
        admitted_at(last, events, j),
    ensures
        events[j].now - events[i].now >= QUIET_SECONDS,
{
    let front = events.take(j);
    assert(front.take(i) =~= events.take(i));
    assert(in_order(front)) by {
        assert forall|a: int, b: int| 0 <= a <= b < front.len() implies (
        #[trigger] front[a]).now <= (#[trigger] front[b]).now by {
            assert(front[a] == events[a] && front[b] == events[b]);
        }
    }
    last_is_no_earlier(last, front, i);
}

/// A line of the exporter that comes a minute or more after the last one that was
/// admitted is admitted, as long as it is not below INFO: none is held back for
/// longer.
pub proof fn a_line_is_due_after_a_minute(last: Option<u64>, event: Event)
    requires
        from_exporter(event.target),
        event.level.verbosity() <= Level::Info.verbosity(),
        last matches Some(previous) ==> event.now >= previous + QUIET_SECONDS,
    ensures
        admitted_line(last, event),
{
}

/// Anything but the exporter passes untouched: at every level, at every time and
/// whatever was admitted before, and it leaves no trace.
pub proof fn what_is_not_the_exporters_passes_untouched(last: Option<u64>, event: Event)
    requires
        !"opentelemetry"@.is_prefix_of(event.target),
    ensures
        passes(last, event),
        after(last, event) == last,
{
}

/// A line of the exporter below INFO never passes, whenever it comes, and does not put
/// off the next one.
pub proof fn the_exporter_says_nothing_below_information(last: Option<u64>, event: Event)
    requires
        "opentelemetry"@.is_prefix_of(event.target),
        event.level is Debug || event.level is Trace,
    ensures
        !passes(last, event),
        after(last, event) == last,
{
}

/// Of the exporter's other lines the first passes, and a later one exactly where sixty
/// seconds have gone by since the last that passed. Only one that passes starts the
/// next sixty seconds, and it starts them at its own time.
pub proof fn the_exporter_waits_sixty_seconds(last: Option<u64>, event: Event)
    requires
        "opentelemetry"@.is_prefix_of(event.target),
        event.level is Error || event.level is Warn || event.level is Info,
    ensures
        last is None ==> passes(last, event),
        last matches Some(previous) ==> (passes(last, event) <==> event.now >= previous + 60),
        passes(last, event) ==> after(last, event) == Some(event.now),
        !passes(last, event) ==> after(last, event) == last,
{
}

/// Other targets' events have no bearing on the exporter's: a run in which they are
/// left out ends as the run with them does.
pub proof fn other_targets_have_no_bearing(last: Option<u64>, events: Seq<Event>)
    ensures
        after_all(last, events) == after_all(
            last,
            events.filter(|event: Event| "opentelemetry"@.is_prefix_of(event.target)),
        ),
    decreases events.len(),
{
    reveal(Seq::filter);
    let own = |event: Event| "opentelemetry"@.is_prefix_of(event.target);
    if events.len() > 0 {
        let front = events.drop_last();
        other_targets_have_no_bearing(last, front);
        if own(events.last()) {
            assert(events.filter(own) == front.filter(own).push(events.last()));
            assert(events.filter(own).drop_last() =~= front.filter(own));
        } else {
            assert(events.filter(own) == front.filter(own));
        }
    }
}

} // verus!
