use vstd::prelude::*;
use vstd::arithmetic::div_mod::lemma_div_of0;

use crate::errors::StatsError;

verus! {

/// The result of one sampling step. Speeds are instantaneous rates in
/// thousandths of a byte per second, so that a rate of 50 bytes per second
/// reads 50_000; totals are cumulative since the monitor was created.
#[derive(Debug, Clone, Copy, PartialEq, Eq, Structural)]
pub struct NetworkStats {
    pub bytes_up: u64,
    pub bytes_down: u64,
    pub speed_up_millibytes: u64,
    pub speed_down_millibytes: u64,
    pub total_up: u64,
    pub total_down: u64,
}

/// The mutable state of one interface monitor: the last raw sample seen,
/// as (sent bytes, received bytes, timestamp in milliseconds), or `None`
/// before the first sample, and the running totals.
#[derive(Debug, Clone, Copy)]
pub struct MonitorState {
    pub last_stats: Option<(u64, u64, u64)>,
    pub total_up: u64,
    pub total_down: u64,
}

/// How much a cumulative counter has grown: a drop below the previous
/// reading counts as a reset and contributes nothing.
pub open spec fn counter_diff(current: u64, previous: u64) -> int {
    if current >= previous {
        current - previous
    } else {
        0
    }
}

/// Addition pinned at the largest representable total.
pub open spec fn saturating_total(total: u64, diff: int) -> int {
    if total + diff > u64::MAX {
        u64::MAX as int
    } else {
        total + diff
    }
}

/// Instantaneous rate in thousandths of a byte per second, defined as 0
/// when no time has passed, and pinned at the largest representable value.
pub open spec fn speed_millibytes(diff: int, elapsed_millis: int) -> int {
    if elapsed_millis <= 0 {
        0
    } else if diff * 1_000_000 / elapsed_millis > u64::MAX {
        u64::MAX as int
    } else {
        diff * 1_000_000 / elapsed_millis
    }
}

/// The state of a freshly created monitor.
pub open spec fn fresh_state() -> MonitorState {
    MonitorState { last_stats: None, total_up: 0, total_down: 0 }
}

/// The byte diff one raw reading contributes in the upload direction.
pub open spec fn spec_up_diff(state: MonitorState, bytes_up: u64) -> int {
    match state.last_stats {
        Some(last) => counter_diff(bytes_up, last.0),
        None => 0,
    }
}

/// The byte diff one raw reading contributes in the download direction.
pub open spec fn spec_down_diff(state: MonitorState, bytes_down: u64) -> int {
    match state.last_stats {
        Some(last) => counter_diff(bytes_down, last.1),
        None => 0,
    }
}

/// Milliseconds since the previous sample; 0 on the first sample or when
/// the clock did not move forward.
pub open spec fn spec_elapsed(state: MonitorState, now_millis: u64) -> int {
    match state.last_stats {
        Some(last) => counter_diff(now_millis, last.2),
        None => 0,
    }
}

/// The monitor state after recording one raw reading.
pub open spec fn spec_step_state(
    state: MonitorState,
    bytes_up: u64,
    bytes_down: u64,
    now_millis: u64,
) -> MonitorState {
    MonitorState {
        last_stats: Some((bytes_up, bytes_down, now_millis)),
        total_up: saturating_total(state.total_up, spec_up_diff(state, bytes_up)) as u64,
        total_down: saturating_total(state.total_down, spec_down_diff(state, bytes_down)) as u64,
    }
}

/// The stats emitted for one raw reading.
pub open spec fn spec_step_stats(
    state: MonitorState,
    bytes_up: u64,
    bytes_down: u64,
    now_millis: u64,
) -> NetworkStats {
    NetworkStats {
        bytes_up,
        bytes_down,
        speed_up_millibytes: speed_millibytes(
            spec_up_diff(state, bytes_up),
            spec_elapsed(state, now_millis),
        ) as u64,
        speed_down_millibytes: speed_millibytes(
            spec_down_diff(state, bytes_down),
            spec_elapsed(state, now_millis),
        ) as u64,
        total_up: spec_step_state(state, bytes_up, bytes_down, now_millis).total_up,
        total_down: spec_step_state(state, bytes_up, bytes_down, now_millis).total_down,
    }
}

/// Instantaneous rate in thousandths of a byte per second.
pub fn compute_speed(diff: u64, elapsed_millis: u64) -> (r: u64)
    ensures
        r == speed_millibytes(diff as int, elapsed_millis as int),
{
    if elapsed_millis == 0 {
        0
    } else {
        let scaled: u128 = (diff as u128) * 1_000_000;
        let q: u128 = scaled / (elapsed_millis as u128);
        if q > u64::MAX as u128 {
            u64::MAX
        } else {
            q as u64
        }
    }
}

/// The state reached by recording a sequence of raw readings
/// (sent bytes, received bytes, timestamp in milliseconds) in order.
pub open spec fn run_samples(state: MonitorState, samples: Seq<(u64, u64, u64)>) -> MonitorState
    decreases samples.len(),
{
    if samples.len() == 0 {
        state
    } else {
        run_samples(
            spec_step_state(state, samples[0].0, samples[0].1, samples[0].2),
            samples.drop_first(),
        )
    }
}

/// The sum of the successive non-negative upload diffs of a sample sequence.
pub open spec fn sum_up_diffs(samples: Seq<(u64, u64, u64)>) -> int
    decreases samples.len(),
{
    if samples.len() <= 1 {
        0
    } else {
        counter_diff(samples[1].0, samples[0].0) + sum_up_diffs(samples.drop_first())
    }
}

/// The sum of the successive non-negative download diffs of a sample sequence.
pub open spec fn sum_down_diffs(samples: Seq<(u64, u64, u64)>) -> int
    decreases samples.len(),
{
    if samples.len() <= 1 {
        0
    } else {
        counter_diff(samples[1].1, samples[0].1) + sum_down_diffs(samples.drop_first())
    }
}

/// Recording samples never shrinks the running totals, whatever the
/// starting state and whatever the readings.
pub proof fn lemma_totals_monotonic(state: MonitorState, samples: Seq<(u64, u64, u64)>)
    ensures
        run_samples(state, samples).total_up >= state.total_up,
        run_samples(state, samples).total_down >= state.total_down,
    decreases samples.len(),
{
    if samples.len() > 0 {
        lemma_totals_monotonic(
            spec_step_state(state, samples[0].0, samples[0].1, samples[0].2),
            samples.drop_first(),
        );
    }
}

proof fn lemma_run_from_reference(state: MonitorState, samples: Seq<(u64, u64, u64)>)
    requires
        state.last_stats is Some,
        samples.len() > 0 ==> state.last_stats->Some_0.0 <= samples[0].0
            && state.last_stats->Some_0.1 <= samples[0].1,
        forall|i: int, j: int|
            0 <= i < j < samples.len() ==> samples[i].0 <= samples[j].0 && samples[i].1
                <= samples[j].1,
        samples.len() > 0 ==> state.total_up + samples.last().0 - state.last_stats->Some_0.0
            <= u64::MAX,
        samples.len() > 0 ==> state.total_down + samples.last().1 - state.last_stats->Some_0.1
            <= u64::MAX,
    ensures
        samples.len() > 0 ==> run_samples(state, samples).total_up == state.total_up
            + samples.last().0 - state.last_stats->Some_0.0,
        samples.len() > 0 ==> run_samples(state, samples).total_down == state.total_down
            + samples.last().1 - state.last_stats->Some_0.1,
    decreases samples.len(),
{
    if samples.len() > 0 {
        let next = spec_step_state(state, samples[0].0, samples[0].1, samples[0].2);
        let rest = samples.drop_first();
        assert(samples.last().0 >= samples[0].0 && samples.last().1 >= samples[0].1);
        assert(forall|i: int, j: int|
            0 <= i < j < rest.len() ==> rest[i].0 <= rest[j].0 && rest[i].1 <= rest[j].1) by {
            assert(forall|i: int, j: int|
                0 <= i < j < rest.len() ==> rest[i] == samples[i + 1] && rest[j] == samples[j + 1]);
        }
        if rest.len() > 0 {
            assert(rest.last() == samples.last());
        }
        lemma_run_from_reference(next, rest);
    }
}

proof fn lemma_sum_diffs_telescope(samples: Seq<(u64, u64, u64)>)
    requires
        samples.len() > 0,
        forall|i: int, j: int|
            0 <= i < j < samples.len() ==> samples[i].0 <= samples[j].0 && samples[i].1
                <= samples[j].1,
    ensures
        sum_up_diffs(samples) == samples.last().0 - samples.first().0,
        sum_down_diffs(samples) == samples.last().1 - samples.first().1,
    decreases samples.len(),
{
    if samples.len() > 1 {
        let rest = samples.drop_first();
        assert(forall|i: int, j: int|
            0 <= i < j < rest.len() ==> rest[i].0 <= rest[j].0 && rest[i].1 <= rest[j].1) by {
            assert(forall|i: int, j: int|
                0 <= i < j < rest.len() ==> rest[i] == samples[i + 1] && rest[j] == samples[j + 1]);
        }
        assert(rest.last() == samples.last());
        lemma_sum_diffs_telescope(rest);
    }
}

/// Law of the running totals: over any sample sequence with strictly
/// increasing timestamps and non-decreasing counters, the totals computed
/// from a fresh monitor equal the sum of the successive non-negative
/// diffs, and recording never shrinks them.
pub proof fn lemma_totals_are_sum_of_diffs(samples: Seq<(u64, u64, u64)>)
    requires
        samples.len() > 0,
        forall|i: int, j: int| 0 <= i < j < samples.len() ==> samples[i].2 < samples[j].2,
        forall|i: int, j: int|
            0 <= i < j < samples.len() ==> samples[i].0 <= samples[j].0 && samples[i].1
                <= samples[j].1,
    ensures
        run_samples(fresh_state(), samples).total_up == sum_up_diffs(samples),
        run_samples(fresh_state(), samples).total_down == sum_down_diffs(samples),
        run_samples(fresh_state(), samples).total_up >= fresh_state().total_up,
        run_samples(fresh_state(), samples).total_down >= fresh_state().total_down,
{
    lemma_sum_diffs_telescope(samples);
    lemma_totals_monotonic(fresh_state(), samples);
    let first = spec_step_state(fresh_state(), samples[0].0, samples[0].1, samples[0].2);
    let rest = samples.drop_first();
    assert(first.total_up == 0 && first.total_down == 0);
    assert(forall|i: int, j: int|
        0 <= i < j < rest.len() ==> rest[i].0 <= rest[j].0 && rest[i].1 <= rest[j].1) by {
        assert(forall|i: int, j: int|
            0 <= i < j < rest.len() ==> rest[i] == samples[i + 1] && rest[j] == samples[j + 1]);
    }
    if rest.len() > 0 {
        assert(rest.last() == samples.last());
        assert(rest[0] == samples[1]);
    }
    lemma_run_from_reference(first, rest);
}

/// Law of the first sample: a freshly created monitor reports zero speed
/// in both directions and totals of zero, whatever the first reading.
pub proof fn lemma_first_sample_idle(bytes_up: u64, bytes_down: u64, now_millis: u64)
    ensures
        spec_step_stats(fresh_state(), bytes_up, bytes_down, now_millis).speed_up_millibytes == 0,
        spec_step_stats(fresh_state(), bytes_up, bytes_down, now_millis).speed_down_millibytes
            == 0,
        spec_step_stats(fresh_state(), bytes_up, bytes_down, now_millis).total_up == 0,
        spec_step_stats(fresh_state(), bytes_up, bytes_down, now_millis).total_down == 0,
{
}

impl MonitorState {
    /// A monitor state with no previous sample and zero totals.
    pub fn new() -> (s: MonitorState)
        ensures
            s == fresh_state(),
    {
        MonitorState { last_stats: None, total_up: 0, total_down: 0 }
    }

    /// Records one raw counter reading: speeds come from the growth since
    /// the previous sample over the elapsed time, totals grow by the same
    /// diffs, and the reading becomes the new reference point.
    ///
    /// A counter below its previous reading counts as a reset and
    /// contributes no diff; a clock that did not move forward yields zero
    /// speeds; the first reading yields zero speeds and leaves the totals
    /// at zero.
    pub fn record_sample(&mut self, bytes_up: u64, bytes_down: u64, now_millis: u64) -> (r:
        NetworkStats)
        ensures
            *final(self) == spec_step_state(*old(self), bytes_up, bytes_down, now_millis),
            r == spec_step_stats(*old(self), bytes_up, bytes_down, now_millis),
            final(self).total_up >= old(self).total_up,
            final(self).total_down >= old(self).total_down,
            old(self).last_stats is None ==> r.speed_up_millibytes == 0
                && r.speed_down_millibytes == 0 && r.total_up == old(self).total_up
                && r.total_down == old(self).total_down,
            (match old(self).last_stats {
                Some(last) => {
                    &&& bytes_up < last.0 ==> final(self).total_up == old(self).total_up
                        && r.speed_up_millibytes == 0
                    &&& bytes_down < last.1 ==> final(self).total_down == old(self).total_down
                        && r.speed_down_millibytes == 0
                    &&& now_millis <= last.2 ==> r.speed_up_millibytes == 0
                        && r.speed_down_millibytes == 0
                },
                None => true,
            }),
    {
        let (up_diff, down_diff, elapsed): (u64, u64, u64) = match self.last_stats {
            Some((last_up, last_down, last_time)) => (
                if bytes_up >= last_up {
                    bytes_up - last_up
                } else {
                    0
                },
                if bytes_down >= last_down {
                    bytes_down - last_down
                } else {
                    0
                },
                if now_millis >= last_time {
                    now_millis - last_time
                } else {
                    0
                },
            ),
            None => (0, 0, 0),
        };

        let speed_up = compute_speed(up_diff, elapsed);
        let speed_down = compute_speed(down_diff, elapsed);

        proof {
            if up_diff == 0 && elapsed > 0 {
                lemma_div_of0(elapsed as int);
            }
            if down_diff == 0 && elapsed > 0 {
                lemma_div_of0(elapsed as int);
            }
        }

        self.last_stats = Some((bytes_up, bytes_down, now_millis));
        self.total_up = self.total_up.saturating_add(up_diff);
        self.total_down = self.total_down.saturating_add(down_diff);

        NetworkStats {
            bytes_up,
            bytes_down,
            speed_up_millibytes: speed_up,
            speed_down_millibytes: speed_down,
            total_up: self.total_up,
            total_down: self.total_down,
        }
    }
}

/// Whether one of the listed names is exactly the given name.
pub open spec fn interface_listed(names: Seq<Seq<char>>, name: Seq<char>) -> bool {
    exists|i: int| 0 <= i < names.len() && names[i] == name
}

/// Decides monitor creation from the host's interface enumeration: a
/// failed enumeration is a validation error, a name missing from a
/// successful enumeration is an invalid name, and a listed name passes.
pub fn validate_interface(interface: &str, names: &Result<Vec<String>, ()>) -> (r: Result<
    (),
    StatsError,
>)
    ensures
        names is Err <==> r == Result::<(), StatsError>::Err(StatsError::InterfaceValidationError),
        (match names {
            Ok(list) => {
                &&& (r is Ok <==> interface_listed(list.deep_view(), interface@))
                &&& (r is Err ==> r->Err_0 == StatsError::InvalidInterfaceName)
            },
            Err(_) => true,
        }),
{
    match names {
        Err(_) => Err(StatsError::InterfaceValidationError),
        Ok(list) => {
            let mut i: usize = 0;
            let mut found: bool = false;
            while i < list.len()
                invariant
                    i <= list.len(),
                    found ==> interface_listed(list.deep_view(), interface@),
                    !found ==> forall|k: int| 0 <= k < i ==> list.deep_view()[k] != interface@,
                decreases list.len() - i,
            {
                proof {
                    assert(list.deep_view()[i as int] == list@[i as int]@);
                }
                if crate::text::str_eq(list[i].as_str(), interface) {
                    found = true;
                }
                i += 1;
            }
            if found {
                Ok(())
            } else {
                Err(StatsError::InvalidInterfaceName)
            }
        },
    }
}

/// A monitor bound to one host interface: it validates the name once at
/// creation and then turns repeated raw counter readings into stats.
pub struct NetworkMonitor {
    sys: systemstat::System,
    interface: String,
    state: MonitorState,
}

impl NetworkMonitor {
    /// The interface name this monitor samples.
    pub closed spec fn spec_interface(&self) -> Seq<char> {
        self.interface@
    }

    /// The sampling state this monitor has reached.
    pub closed spec fn spec_state(&self) -> MonitorState {
        self.state
    }

    /// The sampling state this monitor has reached.
    pub fn state(&self) -> (s: MonitorState)
        ensures
            s == self.spec_state(),
    {
        self.state
    }

    /// Creates a monitor for the named interface, after checking the name
    /// against the host's reported interface set.
    pub fn new(interface: &str) -> (r: Result<NetworkMonitor, StatsError>)
        ensures
            (match r {
                Ok(monitor) => monitor.spec_interface() == interface@ && monitor.spec_state()
                    == fresh_state(),
                Err(e) => e == StatsError::InterfaceValidationError || e
                    == StatsError::InvalidInterfaceName,
            }),
    {
        let sys = crate::sys::system_new();
        let names = crate::sys::host_interface_names(&sys);
        match validate_interface(interface, &names) {
            Ok(_) => Ok(
                NetworkMonitor {
                    sys,
                    interface: interface.to_owned(),
                    state: MonitorState::new(),
                },
            ),
            Err(e) => Err(e),
        }
    }

    /// Reads the interface's raw counters once and records them. A failed
    /// host read yields `None` and leaves the state untouched; a
    /// successful one advances the state by exactly one recording step.
    pub fn get_stats(&mut self) -> (r: Option<NetworkStats>)
        ensures
            final(self).spec_interface() == old(self).spec_interface(),
            r is None ==> final(self).spec_state() == old(self).spec_state(),
            (match r {
                Some(stats) => exists|bytes_up: u64, bytes_down: u64, now_millis: u64|
                    final(self).spec_state() == spec_step_state(
                        old(self).spec_state(),
                        bytes_up,
                        bytes_down,
                        now_millis,
                    ) && stats == spec_step_stats(
                        old(self).spec_state(),
                        bytes_up,
                        bytes_down,
                        now_millis,
                    ),
                None => true,
            }),
            final(self).spec_state().total_up >= old(self).spec_state().total_up,
            final(self).spec_state().total_down >= old(self).spec_state().total_down,
    {
        let counters = crate::sys::host_interface_counters(&self.sys, self.interface.as_str());
        match counters {
            Some((bytes_up, bytes_down)) => {
                let wide_now = crate::sys::clock_millis();
                let now_millis: u64 = if wide_now > u64::MAX as u128 {
                    u64::MAX
                } else {
                    wide_now as u64
                };
                let ghost start = self.state;
                let stats = self.state.record_sample(bytes_up, bytes_down, now_millis);
                proof {
                    assert(self.state == spec_step_state(start, bytes_up, bytes_down, now_millis)
                        && stats == spec_step_stats(start, bytes_up, bytes_down, now_millis));
                }
                Some(stats)
            },
            None => None,
        }
    }
}

/// Creates a monitor for the named interface and takes a single sample:
/// creation failures are fatal, a failed host read is the empty option,
/// and a successful first sample always reports zero speeds and totals.
pub fn network_stats_onetime(interface_name: &str) -> (r: Result<Option<NetworkStats>, StatsError>)
    ensures
        (match r {
            Ok(taken) => (match taken {
                Some(stats) => stats.speed_up_millibytes == 0 && stats.speed_down_millibytes == 0
                    && stats.total_up == 0 && stats.total_down == 0,
                None => true,
            }),
            Err(e) => e == StatsError::InterfaceValidationError || e
                == StatsError::InvalidInterfaceName,
        }),
{
    let mut monitor = match NetworkMonitor::new(interface_name) {
        Ok(m) => m,
        Err(e) => return Err(e),
    };
    let taken = monitor.get_stats();
    proof {
        if taken is Some {
            let stats = taken->Some_0;
            let (bytes_up, bytes_down, now_millis): (u64, u64, u64) = choose|
                bytes_up: u64,
                bytes_down: u64,
                now_millis: u64,
            |
                monitor.spec_state() == spec_step_state(
                    fresh_state(),
                    bytes_up,
                    bytes_down,
                    now_millis,
                ) && stats == spec_step_stats(fresh_state(), bytes_up, bytes_down, now_millis);
            lemma_first_sample_idle(bytes_up, bytes_down, now_millis);
        }
    }
    Ok(taken)
}

} // verus!
