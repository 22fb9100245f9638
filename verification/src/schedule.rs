//! When the collection stops: the configured local stop time, read in a
//! fixed time zone, and the decision taken at each round.

use vstd::prelude::*;

verus! {

/// The local time at which collection stops.
pub const STOP_TIME: &'static str = "2025-04-12 22:07:15";

/// The layout of `STOP_TIME`.
pub const STOP_TIME_FORMAT: &'static str = "%Y-%m-%d %H:%M:%S";

/// How far west of UTC the stop time's zone lies, in seconds (six hours).
pub const ZONE_WEST_SECS: i32 = 21600;

/// Seconds to wait between two collections.
pub const COLLECTION_INTERVAL_SECS: u64 = 600;

/// The UNIX time of the earliest instant that chrono represents, the start
/// of its earliest date.
pub const EARLIEST_TIMESTAMP: i64 = -8334601228800;

/// The UNIX time of the last whole second that chrono represents, the end
/// of its latest date.
pub const LATEST_TIMESTAMP: i64 = 8210266876799;

/// The instant that chrono's `NaiveDateTime::parse_from_str(text, fmt)`
/// reads, counting the parsed wall-clock time as if it were UTC: whole
/// seconds since the UNIX epoch and the nanoseconds past that second (a
/// leap second, written as second 60, shows as 10^9 nanoseconds or more);
/// `None` when chrono rejects the text.
pub uninterp spec fn naive_instant(text: Seq<char>, fmt: Seq<char>) -> Option<(i64, u32)>;

/// Reads a wall-clock time.
///
/// Trusted: calls `chrono::NaiveDateTime::parse_from_str(text, fmt)` and
/// turns the parsed value into its seconds and sub-second nanoseconds with
/// `.and_utc().timestamp()` and `.and_utc().timestamp_subsec_nanos()`. The
/// contract names the result and states that the seconds lie within
/// chrono's representable range, which every `NaiveDateTime` does.
#[verifier::external_body]
fn parse_naive_instant(text: &str, fmt: &str) -> (r: Option<(i64, u32)>)
    ensures
        r == naive_instant(text@, fmt@),
        r matches Some(t) ==> EARLIEST_TIMESTAMP <= t.0 <= LATEST_TIMESTAMP,
{
    match chrono::NaiveDateTime::parse_from_str(text, fmt) {
        Ok(d) => Some((d.and_utc().timestamp(), d.and_utc().timestamp_subsec_nanos())),
        Err(_) => None,
    }
}

/// The offset of a zone west of UTC.
///
/// Trusted: calls `chrono::FixedOffset::west_opt(secs)` and reads the
/// offset's `local_minus_utc()`. chrono accepts `secs` strictly between
/// -86400 and 86400 and then stores `-secs`; otherwise it returns `None`.
#[verifier::external_body]
fn west_offset(secs: i32) -> (r: Option<i32>)
    ensures
        r.is_some() == (-86400 < secs && secs < 86400),
        r.is_some() ==> r.unwrap() == -secs,
{
    match chrono::FixedOffset::west_opt(secs) {
        Some(o) => Some(o.local_minus_utc()),
        None => None,
    }
}

/// Why the stop time cannot be used.
#[derive(Debug, Clone, Copy, PartialEq, Eq, Structural)]
pub enum StopTimeError {
    /// The text does not match the format.
    Unparsable,
    /// Moving the time to UTC leaves the range of instants that chrono
    /// represents.
    OutOfRange,
}

/// An instant in UTC: whole seconds since the UNIX epoch (rounded down)
/// and the nanoseconds past that second, which reach 10^9 or more during a
/// leap second.
#[derive(Debug, Clone, Copy, PartialEq, Eq, Structural)]
pub struct UtcInstant {
    pub secs: i64,
    pub nanos: u32,
}

/// Whether a UTC instant, in seconds, lies in chrono's range.
pub open spec fn representable(t: int) -> bool {
    EARLIEST_TIMESTAMP <= t <= LATEST_TIMESTAMP
}

/// The UTC instant of a local wall-clock time, both in seconds, in a zone
/// whose local time runs `local_minus_utc` seconds ahead of UTC.
pub fn local_to_utc(local_secs: i64, local_minus_utc: i32) -> (r: i64)
    requires
        representable(local_secs - local_minus_utc),
    ensures
        r == local_secs - local_minus_utc,
{
    local_secs - local_minus_utc as i64
}

/// The stop instant for a wall-clock time that chrono reads as `local`
/// (seconds and nanoseconds), in the zone `ZONE_WEST_SECS` seconds west of
/// UTC: the seconds move by the zone's offset, the nanoseconds stay.
pub open spec fn stop_instant_of(local: Option<(i64, u32)>) -> Result<UtcInstant, StopTimeError> {
    match local {
        None => Err(StopTimeError::Unparsable),
        Some(l) => if representable(l.0 + ZONE_WEST_SECS) {
            Ok(UtcInstant { secs: (l.0 + ZONE_WEST_SECS) as i64, nanos: l.1 })
        } else {
            Err(StopTimeError::OutOfRange)
        },
    }
}

/// Places a parsed wall-clock time, `local` as chrono reads it (seconds and
/// nanoseconds), in the zone `ZONE_WEST_SECS` seconds west of UTC: the UTC
/// instant, or why there is none.
pub fn stop_instant_from_local(local: Option<(i64, u32)>) -> (r: Result<UtcInstant, StopTimeError>)
    ensures
        r == stop_instant_of(local),
{
    let (local_secs, nanos) = match local {
        Some(l) => l,
        None => {
            return Err(StopTimeError::Unparsable);
        },
    };
    let offset = match west_offset(ZONE_WEST_SECS) {
        Some(o) => o,
        None => {
            return Err(StopTimeError::OutOfRange);
        },
    };
    if local_secs > LATEST_TIMESTAMP + offset as i64 || local_secs < EARLIEST_TIMESTAMP
        + offset as i64 {
        return Err(StopTimeError::OutOfRange);
    }
    Ok(UtcInstant { secs: local_to_utc(local_secs, offset), nanos })
}

/// Reads `text`, a wall-clock time in the layout `STOP_TIME_FORMAT`, in the
/// zone `ZONE_WEST_SECS` seconds west of UTC, and gives the UTC instant.
pub fn stop_instant(text: &str) -> (r: Result<UtcInstant, StopTimeError>)
    ensures
        r == stop_instant_of(naive_instant(text@, STOP_TIME_FORMAT@)),
{
    stop_instant_from_local(parse_naive_instant(text, STOP_TIME_FORMAT))
}

/// The configured stop instant, `STOP_TIME` read in its zone.
pub fn stop_time() -> (r: Result<UtcInstant, StopTimeError>)
    ensures
        r == stop_instant_of(naive_instant(STOP_TIME@, STOP_TIME_FORMAT@)),
{
    stop_instant(STOP_TIME)
}

/// What the monitor does in a round.
#[derive(Debug, Clone, Copy, PartialEq, Eq, Structural)]
pub enum MonitorStep {
    /// Gather and store another set of metrics.
    Collect,
    /// Stop collecting and hand over to the chart script.
    Finish,
}

/// Whether the instant `now` (seconds, nanoseconds) is at or after `stop`:
/// seconds first, then nanoseconds, as chrono orders instants.
pub open spec fn reached(now_secs: int, now_nanos: int, stop: UtcInstant) -> bool {
    now_secs > stop.secs || (now_secs == stop.secs && now_nanos >= stop.nanos)
}

/// The step taken at `now` for the stop instant `stop`: finish once `now`
/// has reached `stop`.
pub open spec fn step_at(now_secs: int, now_nanos: int, stop: UtcInstant) -> MonitorStep {
    if reached(now_secs, now_nanos, stop) {
        MonitorStep::Finish
    } else {
        MonitorStep::Collect
    }
}

/// Decides the round at the UTC instant `now_secs` (whole seconds since the
/// UNIX epoch, rounded down) plus `now_nanos` nanoseconds, for the stop
/// instant `stop`.
pub fn next_step(now_secs: i64, now_nanos: u32, stop: UtcInstant) -> (r: MonitorStep)
    ensures
        r == step_at(now_secs as int, now_nanos as int, stop),
{
    if now_secs > stop.secs || (now_secs == stop.secs && now_nanos >= stop.nanos) {
        MonitorStep::Finish
    } else {
        MonitorStep::Collect
    }
}

/// The monitor keeps collecting at every instant before the stop instant
/// and finishes at the stop instant itself.
pub proof fn lemma_finish_exactly_from_stop(now_secs: int, now_nanos: int, stop: UtcInstant)
    ensures
        step_at(stop.secs as int, stop.nanos as int, stop) == MonitorStep::Finish,
        now_secs < stop.secs || (now_secs == stop.secs && now_nanos < stop.nanos) ==> step_at(
            now_secs,
            now_nanos,
            stop,
        ) == MonitorStep::Collect,
        now_secs > stop.secs || (now_secs == stop.secs && now_nanos >= stop.nanos) ==> step_at(
            now_secs,
            now_nanos,
            stop,
        ) == MonitorStep::Finish,
{
}

/// The stop instant lies six hours after the wall-clock reading taken as
/// UTC (the zone is six hours west of UTC), with the same sub-second part.
pub proof fn lemma_stop_is_six_hours_after_local(local_secs: i64, local_nanos: u32)
    ensures
        stop_instant_of(Some((local_secs, local_nanos))) matches Ok(u) ==> u.secs == local_secs
            + 6 * 3600 && u.nanos == local_nanos,
        EARLIEST_TIMESTAMP <= local_secs + 6 * 3600 <= LATEST_TIMESTAMP ==> stop_instant_of(
            Some((local_secs, local_nanos)),
        ) is Ok,
{
}

/// Once the monitor has decided to finish, it decides so at every later
/// instant too.
pub proof fn lemma_finish_is_final(
    now_secs: int,
    now_nanos: int,
    later_secs: int,
    later_nanos: int,
    stop: UtcInstant,
)
    requires
        now_secs < later_secs || (now_secs == later_secs && now_nanos <= later_nanos),
        step_at(now_secs, now_nanos, stop) == MonitorStep::Finish,
    ensures
        step_at(later_secs, later_nanos, stop) == MonitorStep::Finish,
{
}

} // verus!
