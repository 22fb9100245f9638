use system_monitor::schedule::{
    next_step, stop_instant, stop_instant_from_local, stop_time, MonitorStep, StopTimeError, COLLECTION_INTERVAL_SECS,
    EARLIEST_TIMESTAMP, LATEST_TIMESTAMP, STOP_TIME, STOP_TIME_FORMAT, ZONE_WEST_SECS, UtcInstant,
};
use system_monitor::script::script_python;

fn at(secs: i64) -> UtcInstant {
    UtcInstant { secs, nanos: 0 }
}

#[test]
fn configured_stop_time_in_utc() {
    // 2025-04-12 22:07:15 six hours west of UTC is 2025-04-13 04:07:15 UTC.
    assert_eq!(stop_time(), Ok(at(1744517235)));
    assert_eq!(stop_instant(STOP_TIME), Ok(at(1744517235)));
    assert_eq!(STOP_TIME_FORMAT, "%Y-%m-%d %H:%M:%S");
    assert_eq!(ZONE_WEST_SECS, 6 * 3600);
    assert_eq!(COLLECTION_INTERVAL_SECS, 600);
}

#[test]
fn stop_time_epoch() {
    assert_eq!(stop_instant("1970-01-01 00:00:00"), Ok(at(21600)));
    assert_eq!(stop_instant("1969-12-31 18:00:00"), Ok(at(0)));
}

#[test]
fn stop_time_unparsable() {
    assert_eq!(stop_instant("2025-04-12"), Err(StopTimeError::Unparsable));
    assert_eq!(stop_instant("2025-13-01 00:00:00"), Err(StopTimeError::Unparsable));
    assert_eq!(stop_instant("tomorrow"), Err(StopTimeError::Unparsable));
}

#[test]
fn stop_time_beyond_range() {
    assert_eq!(stop_instant("+262142-12-31 23:00:00"), Err(StopTimeError::OutOfRange));
    assert!(stop_instant("+262142-12-31 17:00:00").is_ok());
}

#[test]
fn stop_instant_from_parsed_local_time() {
    assert_eq!(stop_instant_from_local(None), Err(StopTimeError::Unparsable));
    assert_eq!(stop_instant_from_local(Some((0, 0))), Ok(at(21600)));
    assert_eq!(stop_instant_from_local(Some((-21600, 0))), Ok(at(0)));
    assert_eq!(stop_instant_from_local(Some((LATEST_TIMESTAMP - 21600, 7))), Ok(UtcInstant { secs: LATEST_TIMESTAMP, nanos: 7 }));
    assert_eq!(stop_instant_from_local(Some((LATEST_TIMESTAMP - 21599, 0))), Err(StopTimeError::OutOfRange));
    assert_eq!(stop_instant_from_local(Some((EARLIEST_TIMESTAMP - 21600, 0))), Ok(at(EARLIEST_TIMESTAMP)));
    assert_eq!(stop_instant_from_local(Some((EARLIEST_TIMESTAMP - 21601, 0))), Err(StopTimeError::OutOfRange));
    assert_eq!(stop_instant_from_local(Some((i64::MAX, 0))), Err(StopTimeError::OutOfRange));
    assert_eq!(stop_instant_from_local(Some((i64::MIN, 0))), Err(StopTimeError::OutOfRange));
}

#[test]
fn leap_second_stop_time_is_kept_until_it_ends() {
    // 2016-12-31 23:59:60 local is the leap second after 23:59:59, six
    // hours west of UTC: 2017-01-01 05:59:59 UTC plus one full second.
    let stop = stop_instant("2016-12-31 23:59:60").unwrap();
    assert_eq!(stop, UtcInstant { secs: 1483250399, nanos: 1_000_000_000 });
    assert_eq!(next_step(1483250399, 500_000_000, stop), MonitorStep::Collect);
    assert_eq!(next_step(1483250400, 0, stop), MonitorStep::Finish);
    // The same comparison as chrono makes between the two instants.
    let stop_dt = chrono::DateTime::from_timestamp(stop.secs, stop.nanos).unwrap();
    let during = chrono::DateTime::from_timestamp(1483250399, 500_000_000).unwrap();
    let after = chrono::DateTime::from_timestamp(1483250400, 0).unwrap();
    assert!(during < stop_dt);
    assert!(after >= stop_dt);
}

#[test]
fn timestamp_range_matches_chrono() {
    assert_eq!(chrono::NaiveDateTime::MAX.and_utc().timestamp(), LATEST_TIMESTAMP);
    assert_eq!(chrono::NaiveDateTime::MIN.and_utc().timestamp(), EARLIEST_TIMESTAMP);
}

#[test]
fn next_step_finishes_at_stop() {
    assert_eq!(next_step(99, 999_999_999, at(100)), MonitorStep::Collect);
    assert_eq!(next_step(100, 0, at(100)), MonitorStep::Finish);
    assert_eq!(next_step(101, 0, at(100)), MonitorStep::Finish);
    assert_eq!(next_step(i64::MIN, 0, at(i64::MAX)), MonitorStep::Collect);
    let half = UtcInstant { secs: 100, nanos: 500_000_000 };
    assert_eq!(next_step(100, 499_999_999, half), MonitorStep::Collect);
    assert_eq!(next_step(100, 500_000_000, half), MonitorStep::Finish);
}

#[test]
fn finish_is_final() {
    let stop = at(1744517235);
    let mut finished = false;
    for now in (stop.secs - 5)..(stop.secs + 5) {
        let step = next_step(now, 0, stop);
        if finished {
            assert_eq!(step, MonitorStep::Finish);
        }
        finished = step == MonitorStep::Finish;
    }
    assert!(finished);
}

#[test]
fn script_success_gives_stdout() {
    assert_eq!(script_python(true, b"charts written\n", b"warn"), Ok("charts written\n".to_string()));
}

#[test]
fn script_failure_gives_stderr() {
    assert_eq!(
        script_python(false, b"partial", b"Traceback: boom"),
        Err("Traceback: boom".to_string())
    );
}

#[test]
fn script_output_invalid_utf8_is_replaced() {
    assert_eq!(script_python(true, b"ok \xff!", b""), Ok("ok \u{fffd}!".to_string()));
    assert_eq!(script_python(false, b"", b"\xc3"), Err("\u{fffd}".to_string()));
}
