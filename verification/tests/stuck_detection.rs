use cowclaw_swarm::worker::stuck::{StuckDetector, StuckSignal};

#[test]
fn same_error_threshold_triggers() {
    let mut d = StuckDetector::new(3);
    let err = "tool call failed: status=500 body=rate_limited";
    assert_eq!(d.observe(err), StuckSignal::NoSignal);
    assert_eq!(d.observe(err), StuckSignal::NoSignal);
    assert_eq!(d.observe(err), StuckSignal::SameErrorRepeated);
    assert_eq!(d.observe(err), StuckSignal::SameErrorRepeated);
    assert_eq!(d.observe("other error"), StuckSignal::NoSignal);
}

#[test]
fn chunk_timeout_signal() {
    let mut d = StuckDetector::new(3);
    assert_eq!(d.observe_chunk_timeout(), StuckSignal::ChunkTimeout);
}

#[test]
fn errors_differing_only_in_digits_count_as_the_same() {
    let mut d = StuckDetector::new(2);
    assert_eq!(d.observe("timeout after 30s on attempt 1"), StuckSignal::NoSignal);
    assert_eq!(d.observe("timeout after 45s on attempt 2"), StuckSignal::SameErrorRepeated);
}

#[test]
fn fingerprint_drops_digits_and_keeps_eight_words() {
    let fp: String = StuckDetector::fingerprint("e1 a  b c d e f g h i j 42").into_iter().collect();
    assert_eq!(fp, "e a b c d e f g");
}

#[test]
fn signal_follows_the_last_run_of_the_history() {
    let mut d = StuckDetector::new(3);
    let history = [
        ("timeout at line 10", StuckSignal::NoSignal),
        ("parse error near x", StuckSignal::NoSignal),
        ("timeout at line 22", StuckSignal::NoSignal),
        ("timeout at line 31", StuckSignal::NoSignal),
        ("timeout at line 40", StuckSignal::SameErrorRepeated),
        ("timeout at line 51", StuckSignal::SameErrorRepeated),
        ("parse error near x", StuckSignal::NoSignal),
    ];
    for (i, (err, expected)) in history.iter().enumerate() {
        if i == 3 {
            assert_eq!(d.observe_chunk_timeout(), StuckSignal::ChunkTimeout);
        }
        assert_eq!(d.observe(err), *expected);
    }
    let mut one = StuckDetector::new(1);
    assert_eq!(one.observe("anything"), StuckSignal::SameErrorRepeated);
}
