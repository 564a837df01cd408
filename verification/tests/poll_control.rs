use fx_event_bus::backoff::ExponentialBackoff;
use fx_event_bus::listener::{PollControlStream, PollStep, UpstreamPoll};
use fx_event_bus::time::{Duration, Timestamp};

fn ms(n: i64) -> Timestamp {
    Timestamp::from_micros(n * 1_000)
}

fn stream_at(backoff: ExponentialBackoff, now: Timestamp) -> PollControlStream {
    let mut stream = PollControlStream::new(backoff);
    stream.reference_time = now;
    stream
}

#[test]
fn test_backoff() {
    let duration = Duration::from_millis(5);

    let mut stream = stream_at(ExponentialBackoff::new(2, duration), ms(0));

    let iterations = 3;
    // Iteration 0: immediate (poll=true)
    // Iteration 1: wait 5ms (attempt 1: base_delay * 2^0 = 5ms)
    // Iteration 2: wait 10ms (attempt 2: base_delay * 2^1 = 10ms)
    let mut n = 0;
    let start = ms(0);
    let mut now = start;
    loop {
        assert!(stream.can_poll());
        match stream.poll_next(now) {
            PollStep::Emit => {
                // increment the failed count on each iteration
                stream.increment_failed_attempts();
                if n == iterations - 1 {
                    break;
                }
                n += 1;
            }
            PollStep::WakeIn(delay) => {
                now = now.plus(delay);
            }
            step => panic!("unexpected step {:?}", step),
        }
    }

    let elapsed = now.saturating_duration_since(start);
    // First poll: immediate (poll=true), then wait 5ms, then wait 10ms
    // Total expected: ~0ms + 5ms + 10ms = 15ms
    let expected_minimum = Duration::from_millis(15);
    assert!(
        elapsed >= expected_minimum,
        "Expected elapsed {:?} to be >= {:?} for exponential backoff",
        elapsed,
        expected_minimum
    );
    assert_eq!(elapsed, expected_minimum);
}

#[test]
fn test_poll_duration_override() {
    let duration = Duration::from_millis(5);

    let mut stream = stream_at(ExponentialBackoff::new(2, duration), ms(0));

    stream.set_poll();

    let now = ms(1);

    let step = stream.poll_next(now);

    assert_eq!(step, PollStep::Emit, "Expected elapsed to be smaller than duration");
    assert!(!stream.poll);
    assert_eq!(stream.reference_time, now);
}

#[test]
fn a_new_stream_emits_at_once_and_then_keeps_the_interval() {
    let mut stream = PollControlStream::new(ExponentialBackoff::new(2, Duration::from_millis(5)));
    assert!(stream.poll);
    assert_eq!(stream.failed_attempts, 0);
    assert!(!stream.has_pg_stream);
    let started = chrono::Utc::now().timestamp_micros();
    assert!((stream.reference_time.as_micros() - started).abs() < 60_000_000);

    assert_eq!(stream.poll_next(ms(100)), PollStep::Emit);
    assert_eq!(stream.reference_time, ms(100));
    assert_eq!(stream.poll_next(ms(100)), PollStep::WakeIn(Duration::from_millis(5)));
    assert_eq!(stream.poll_next(ms(103)), PollStep::WakeIn(Duration::from_millis(2)));
    assert_eq!(stream.reference_time, ms(100));
    assert_eq!(stream.poll_next(ms(105)), PollStep::Emit);
    assert_eq!(stream.reference_time, ms(105));
    assert_eq!(stream.poll_next(ms(200)), PollStep::Emit);
    assert_eq!(stream.reference_time, ms(200));
}

#[test]
fn failed_polls_come_before_everything_else() {
    let mut stream = stream_at(ExponentialBackoff::new(2, Duration::from_millis(5)), ms(0));
    stream.with_pg_stream();
    assert!(stream.has_pg_stream);
    stream.increment_failed_attempts();
    stream.increment_failed_attempts();
    stream.increment_failed_attempts();
    assert_eq!(stream.failed_attempts, 3);
    // the forced poll of a new stream and the upstream wait: 5ms * 2^2
    assert_eq!(stream.poll_next(ms(1)), PollStep::WakeIn(Duration::from_millis(19)));
    assert!(stream.poll);
    assert_eq!(stream.poll_next(ms(20)), PollStep::Emit);
    assert!(stream.poll);
    assert_eq!(stream.reference_time, ms(20));
    stream.reset_failed_attempts();
    assert_eq!(stream.failed_attempts, 0);
    // now the forced poll is used
    assert_eq!(stream.poll_next(ms(21)), PollStep::Emit);
    assert!(!stream.poll);
    // and then the upstream is asked
    assert_eq!(stream.poll_next(ms(22)), PollStep::AskUpstream);
    assert_eq!(stream.reference_time, ms(21));
}

#[test]
fn the_upstream_decides_when_it_is_asked() {
    let mut stream = stream_at(ExponentialBackoff::new(2, Duration::from_millis(5)), ms(0));
    stream.with_pg_stream();
    assert_eq!(stream.poll_next(ms(0)), PollStep::Emit);
    assert_eq!(stream.poll_next(ms(1)), PollStep::AskUpstream);
    assert_eq!(stream.resume_poll(ms(1), UpstreamPoll::Notification), PollStep::Emit);
    assert_eq!(stream.reference_time, ms(1));
    assert_eq!(stream.resume_poll(ms(2), UpstreamPoll::Error), PollStep::ForwardError);
    assert_eq!(stream.reference_time, ms(1));
    // the stream goes on after an error
    assert_eq!(
        stream.resume_poll(ms(2), UpstreamPoll::Pending),
        PollStep::WakeIn(Duration::from_millis(4))
    );
    assert_eq!(
        stream.resume_poll(ms(3), UpstreamPoll::Ended),
        PollStep::WakeIn(Duration::from_millis(3))
    );
    assert_eq!(stream.resume_poll(ms(6), UpstreamPoll::Pending), PollStep::Emit);
    assert_eq!(stream.reference_time, ms(6));
    assert_eq!(stream.resume_poll(ms(11), UpstreamPoll::Ended), PollStep::Emit);
    assert_eq!(stream.reference_time, ms(11));
}

#[test]
fn the_backoff_is_consulted_for_the_attempts_given() {
    let mut stream = stream_at(ExponentialBackoff::new(3, Duration::from_millis(2)), ms(10));
    assert_eq!(stream.handle_backoff_timing(ms(10), 0), PollStep::Emit);
    assert_eq!(
        stream.handle_backoff_timing(ms(10), 3),
        PollStep::WakeIn(Duration::from_millis(18))
    );
    assert_eq!(stream.reference_time, ms(10));
    assert_eq!(stream.handle_backoff_timing(ms(28), 3), PollStep::Emit);
    assert_eq!(stream.reference_time, ms(28));
}

#[test]
fn deadlines_beyond_the_calendar_are_reported() {
    let mut stream = stream_at(ExponentialBackoff::new(2, Duration::from_millis(5)), ms(0));
    stream.poll = false;
    assert!(stream.can_poll());
    stream.failed_attempts = 70;
    assert!(!stream.can_poll());
    stream.failed_attempts = 0;
    stream.reference_time = Timestamp::from_micros(i64::MAX);
    assert!(!stream.can_poll());
    assert!(!stream.can_resume(UpstreamPoll::Pending));
    assert!(!stream.can_resume(UpstreamPoll::Ended));
    assert!(stream.can_resume(UpstreamPoll::Notification));
    assert!(stream.can_resume(UpstreamPoll::Error));
}

#[test]
fn a_poll_that_consults_no_deadline_needs_none() {
    // a base delay that no deadline can hold
    let backoff = ExponentialBackoff::new(2, Duration::from_micros(u64::MAX));
    let mut stream = stream_at(backoff, ms(0));
    assert!(stream.poll);
    assert!(stream.can_poll());
    assert_eq!(stream.poll_next(ms(7)), PollStep::Emit);
    assert_eq!(stream.reference_time, ms(7));
    // the regular interval would need its deadline
    assert!(!stream.can_poll());
    // the upstream does not
    stream.with_pg_stream();
    assert!(stream.can_poll());
    assert_eq!(stream.poll_next(ms(8)), PollStep::AskUpstream);
    assert!(stream.can_resume(UpstreamPoll::Notification));
    assert_eq!(stream.resume_poll(ms(8), UpstreamPoll::Notification), PollStep::Emit);
    assert!(stream.can_resume(UpstreamPoll::Error));
    assert_eq!(stream.resume_poll(ms(9), UpstreamPoll::Error), PollStep::ForwardError);
    assert!(!stream.can_resume(UpstreamPoll::Pending));
    // failed polls need their own deadline only
    stream.set_poll();
    stream.increment_failed_attempts();
    assert!(!stream.can_poll());
}
