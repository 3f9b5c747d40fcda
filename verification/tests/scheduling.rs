use papertrail_archive::config::{
    default_concurrency, mode_of, ConfigError, Mode, RunConfig, DEFAULT_THROTTLE_MS,
    FALLBACK_CONCURRENCY,
};
use papertrail_archive::run::{begin, config_error_message, RunError};
use papertrail_archive::scheduler::{Action, Scheduler};

fn config(concurrency: usize, throttle_ms: u64) -> RunConfig {
    RunConfig::new(concurrency, throttle_ms, false, false).unwrap()
}

#[test]
fn settings_are_checked() {
    let c = RunConfig::new(3, 250, true, true).unwrap();
    assert_eq!(c.concurrency(), 3);
    assert_eq!(c.throttle_ms(), 250);
    assert_eq!(c.mode(), Mode::Transcoded);
    assert_eq!(RunConfig::new(1, 0, true, false).unwrap().mode(), Mode::RawDecompressed);
    assert_eq!(RunConfig::new(1, 0, false, false).unwrap().mode(), Mode::RawCompressed);
    assert_eq!(
        RunConfig::new(1, 0, false, true).unwrap_err(),
        ConfigError::TranscodeWithoutDecompress
    );
    assert_eq!(RunConfig::new(0, 0, true, true).unwrap_err(), ConfigError::ZeroConcurrency);
    // The switches are judged before the number.
    assert_eq!(
        RunConfig::new(0, 0, false, true).unwrap_err(),
        ConfigError::TranscodeWithoutDecompress
    );
}

#[test]
fn mode_follows_the_switches() {
    assert_eq!(mode_of(false, false), Ok(Mode::RawCompressed));
    assert_eq!(mode_of(true, false), Ok(Mode::RawDecompressed));
    assert_eq!(mode_of(true, true), Ok(Mode::Transcoded));
    assert_eq!(mode_of(false, true), Err(ConfigError::TranscodeWithoutDecompress));
}

#[test]
fn defaults_are_as_documented() {
    assert_eq!(default_concurrency(Some(12)), 12);
    assert_eq!(default_concurrency(None), 4);
    assert_eq!(FALLBACK_CONCURRENCY, 4);
    assert_eq!(DEFAULT_THROTTLE_MS, 200);
}

#[test]
fn refused_settings_have_words() {
    assert_eq!(
        config_error_message(ConfigError::TranscodeWithoutDecompress),
        "comma-delimited output needs decompression"
    );
    assert_eq!(
        config_error_message(ConfigError::ZeroConcurrency),
        "concurrency must be at least 1"
    );
}

#[test]
fn empty_input_finishes_at_once() {
    let mut s = Scheduler::new(0, &config(4, 200));
    assert!(s.is_finished());
    assert_eq!(s.poll(0), Action::Finished);
    assert_eq!(s.poll(1_000_000), Action::Finished);
    assert_eq!(s.dispatched(), 0);
    assert_eq!(s.in_flight(), 0);
    assert_eq!(s.total(), 0);
}

#[test]
fn missing_directory_starts_nothing() {
    let c = config(4, 200);
    let err = begin(&c, "/no/such/place", false, 3).unwrap_err();
    assert_eq!(err, RunError::MissingDirectory { dir: String::from("/no/such/place") });
    assert_eq!(err.message(), "Couldn't find directory: /no/such/place");
    // With the directory there the run starts, with nothing dispatched yet.
    let s = begin(&c, "out", true, 3).unwrap();
    assert_eq!(s.total(), 3);
    assert_eq!(s.dispatched(), 0);
    assert_eq!(s.in_flight(), 0);
    assert!(begin(&c, "out", true, 0).unwrap().is_finished());
}

#[test]
fn first_key_starts_at_once_and_the_next_after_the_throttle() {
    let mut s = Scheduler::new(3, &config(8, 200));
    assert_eq!(s.poll(1000), Action::Dispatch { index: 0 });
    assert_eq!(s.poll(1000), Action::Wait { millis: 200 });
    assert_eq!(s.poll(1050), Action::Wait { millis: 150 });
    assert_eq!(s.poll(1199), Action::Wait { millis: 1 });
    assert_eq!(s.poll(1200), Action::Dispatch { index: 1 });
    assert_eq!(s.poll(1300), Action::Wait { millis: 100 });
    // The end of a download does not move the throttle.
    assert!(s.job_finished());
    assert_eq!(s.poll(1399), Action::Wait { millis: 1 });
    assert_eq!(s.poll(5000), Action::Dispatch { index: 2 });
    assert_eq!(s.poll(5000), Action::AwaitJob);
    assert!(s.job_finished());
    assert_eq!(s.poll(5001), Action::AwaitJob);
    assert!(s.job_finished());
    assert_eq!(s.poll(5002), Action::Finished);
    assert!(s.is_finished());
}

#[test]
fn cap_holds_dispatches_back() {
    let mut s = Scheduler::new(5, &config(2, 0));
    assert_eq!(s.poll(0), Action::Dispatch { index: 0 });
    assert_eq!(s.poll(0), Action::Dispatch { index: 1 });
    assert_eq!(s.poll(0), Action::AwaitJob);
    assert_eq!(s.poll(99), Action::AwaitJob);
    assert_eq!(s.in_flight(), 2);
    assert!(s.job_finished());
    assert_eq!(s.in_flight(), 1);
    assert_eq!(s.poll(99), Action::Dispatch { index: 2 });
    assert_eq!(s.poll(99), Action::AwaitJob);
    assert!(s.job_finished());
    assert!(s.job_finished());
    assert!(!s.job_finished());
    assert_eq!(s.in_flight(), 0);
    assert_eq!(s.poll(100), Action::Dispatch { index: 3 });
    assert_eq!(s.poll(100), Action::Dispatch { index: 4 });
    assert_eq!(s.poll(100), Action::AwaitJob);
    assert_eq!(s.dispatched(), 5);
    assert!(!s.is_finished());
    assert!(s.job_finished());
    assert!(s.job_finished());
    assert_eq!(s.poll(100), Action::Finished);
}

#[test]
fn both_gates_hold_through_a_long_run() {
    // A run in which the clock and the ends of downloads come as a fixed
    // pseudo-random sequence dictates.
    for (cap, throttle, total) in [(1, 5, 40), (3, 7, 60), (4, 0, 50), (2, 1000, 10)] {
        let mut s = Scheduler::new(total, &config(cap, throttle));
        let mut now: u64 = 0;
        let mut seed: u64 = 0x2545_f491_4f6c_dd1d;
        let mut starts: Vec<u64> = Vec::new();
        let mut order: Vec<usize> = Vec::new();
        let mut steps = 0;
        loop {
            steps += 1;
            assert!(steps < 1_000_000);
            seed ^= seed << 13;
            seed ^= seed >> 7;
            seed ^= seed << 17;
            match s.poll(now) {
                Action::Dispatch { index } => {
                    starts.push(now);
                    order.push(index);
                }
                Action::Wait { millis } => {
                    assert!(millis > 0 && millis <= throttle);
                    if seed % 3 == 0 && s.in_flight() > 0 {
                        assert!(s.job_finished());
                    }
                    now += 1 + seed % millis;
                }
                Action::AwaitJob => {
                    assert!(s.in_flight() > 0);
                    now += seed % 4;
                    assert!(s.job_finished());
                }
                Action::Finished => break,
            }
            assert!(s.in_flight() <= cap);
            assert!(s.in_flight() <= s.dispatched());
        }
        assert_eq!(order, (0..total).collect::<Vec<usize>>());
        assert_eq!(starts.len(), total);
        for pair in starts.windows(2) {
            assert!(pair[1] - pair[0] >= throttle);
        }
        assert_eq!(s.in_flight(), 0);
        assert!(!s.job_finished());
    }
}

#[test]
fn wait_is_counted_from_the_last_start_even_when_the_clock_goes_back() {
    let mut s = Scheduler::new(2, &config(2, 100));
    assert_eq!(s.poll(500), Action::Dispatch { index: 0 });
    assert_eq!(s.poll(100), Action::Wait { millis: 500 });
    assert_eq!(s.poll(600), Action::Dispatch { index: 1 });
}

#[test]
fn wait_never_exceeds_what_the_clock_can_count() {
    let mut s = Scheduler::new(2, &config(2, u64::MAX));
    assert_eq!(s.poll(u64::MAX), Action::Dispatch { index: 0 });
    assert_eq!(s.poll(0), Action::Wait { millis: u64::MAX });
    assert_eq!(s.poll(u64::MAX), Action::Wait { millis: u64::MAX });
    let mut t = Scheduler::new(2, &config(2, u64::MAX));
    assert_eq!(t.poll(0), Action::Dispatch { index: 0 });
    assert_eq!(t.poll(1), Action::Wait { millis: u64::MAX - 1 });
    assert_eq!(t.poll(u64::MAX), Action::Dispatch { index: 1 });
}
