use meshcore::ping_tracker::PingTracker;
use meshcore::ping_tracker::PingTrackerError;
use meshcore::ping_tracker::Pong;
use meshcore::ping_tracker::MAX_INSTANT_US;
use meshcore::ping_tracker::MIN_PING_SPACING_US;

#[test]
fn published_mean_updates() {
    let mut pt = PingTracker::new(0);
    let mut rtt_obs = pt.new_round_trip_time_observer();
    assert_eq!(pt.poll_send_ping_pong(0), (Some(1), None));
    assert_eq!(rtt_obs.next(&pt), Some(None));
    // One second passes before the pong arrives.
    pt.got_pong(Pong { id: 1, queue_time: 100 }, 1_000_000).unwrap();
    let next = rtt_obs.next(&pt);
    assert_ne!(next, None);
    assert_ne!(next, Some(None));
}

#[test]
fn round_trip_time_reflects_elapsed_minus_queue_time() {
    let mut pt = PingTracker::new(0);
    assert_eq!(pt.round_trip_time(), None);
    assert_eq!(pt.poll_send_ping_pong(0), (Some(1), None));
    pt.got_pong(Pong { id: 1, queue_time: 100 }, 1_000_000).unwrap();
    // 1 000 000 µs elapsed minus the 100 µs the remote spent queueing.
    assert_eq!(pt.round_trip_time(), Some(999_900));
}

#[test]
fn unknown_pong_id_is_ignored_without_error() {
    let mut pt = PingTracker::new(0);
    assert_eq!(pt.poll_send_ping_pong(0), (Some(1), None));
    pt.got_pong(Pong { id: 1, queue_time: 0 }, 1000).unwrap();
    let samples_before = pt.retained_samples();
    let rtt_before = pt.round_trip_time();
    // Id 42 was never sent: no sample is recorded and no error raised.
    pt.got_pong(Pong { id: 42, queue_time: 0 }, 2000).unwrap();
    assert_eq!(pt.retained_samples(), samples_before);
    assert_eq!(pt.round_trip_time(), rtt_before);
}

#[test]
fn pong_with_excessive_queue_time_records_no_sample() {
    let mut pt = PingTracker::new(0);
    assert_eq!(pt.poll_send_ping_pong(0), (Some(1), None));
    // The self-reported queue delay exceeds the elapsed time.
    pt.got_pong(Pong { id: 1, queue_time: 5000 }, 1000).unwrap();
    assert_eq!(pt.retained_samples(), 0);
    assert_eq!(pt.round_trip_time(), None);
}

#[test]
fn got_ping_produces_pong_with_queue_time() {
    let mut pt = PingTracker::new(0);
    let (_ping, pong) = pt.poll_send_ping_pong(0);
    assert_eq!(pong, None);
    pt.got_ping(7, 1000);
    let (_ping, pong) = pt.poll_send_ping_pong(1250);
    assert_eq!(pong, Some(Pong { id: 7, queue_time: 250 }));
}

#[test]
fn ping_ids_strictly_increase() {
    let mut pt = PingTracker::new(0);
    let (ping1, _) = pt.poll_send_ping_pong(0);
    assert_eq!(ping1, Some(1));
    // The tracker asks for the next ping only after its timer fires.
    let deadline = pt.next_timeout().expect("timer armed after first ping");
    assert_eq!(deadline, MIN_PING_SPACING_US);
    pt.run(deadline).unwrap();
    let (ping2, _) = pt.poll_send_ping_pong(deadline);
    assert_eq!(ping2, Some(2));
}

#[test]
fn published_rtt_changes_only_beyond_ten_percent() {
    let mut pt = PingTracker::new(0);
    let mut obs = pt.new_round_trip_time_observer();
    assert_eq!(obs.next(&pt), Some(None));

    assert_eq!(pt.poll_send_ping_pong(0), (Some(1), None));
    pt.got_pong(Pong { id: 1, queue_time: 0 }, 100).unwrap();
    assert_eq!(pt.round_trip_time(), Some(100));
    assert_eq!(obs.next(&pt), Some(Some(100)));

    // Second sample: the mean moves to 103, within a tenth of 100, so the
    // published value stays.
    let t1 = pt.next_timeout().unwrap();
    pt.run(t1).unwrap();
    assert_eq!(pt.poll_send_ping_pong(t1), (Some(2), None));
    pt.got_pong(Pong { id: 2, queue_time: 0 }, t1 + 106).unwrap();
    assert_eq!(pt.round_trip_time(), Some(100));
    assert_eq!(obs.next(&pt), None);

    // Third sample: the mean jumps far beyond a tenth and is published.
    let t2 = pt.next_timeout().unwrap();
    pt.run(t2).unwrap();
    assert_eq!(pt.poll_send_ping_pong(t2), (Some(3), None));
    pt.got_pong(Pong { id: 3, queue_time: 0 }, t2 + 1000).unwrap();
    let mean = (100 + 106 + 1000) / 3;
    assert_eq!(pt.round_trip_time(), Some(mean));
    assert_eq!(obs.next(&pt), Some(Some(mean)));
}

#[test]
fn spacing_backs_off_when_variance_decreases() {
    let mut pt = PingTracker::new(0);
    assert_eq!(pt.poll_send_ping_pong(0), (Some(1), None));
    pt.got_pong(Pong { id: 1, queue_time: 0 }, 100).unwrap();
    // One sample: the variance stays zero and the spacing stays at its
    // minimum of 100 ms.
    assert_eq!(pt.next_timeout(), Some(100_000));
    pt.run(100_000).unwrap();
    assert_eq!(pt.poll_send_ping_pong(100_000), (Some(2), None));
    pt.got_pong(Pong { id: 2, queue_time: 0 }, 100_106).unwrap();
    // The variance grew; halving is clamped at the minimum spacing.
    assert_eq!(pt.next_timeout(), Some(200_000));
    pt.run(200_000).unwrap();
    assert_eq!(pt.poll_send_ping_pong(200_000), (Some(3), None));
    pt.got_pong(Pong { id: 3, queue_time: 0 }, 200_103).unwrap();
    // The third sample sits on the mean: the variance shrank, so the
    // spacing grows by a quarter, to 125 ms.
    assert_eq!(pt.next_timeout(), Some(325_000));
}

#[test]
fn garbage_collection_keeps_sample_and_ping_floors() {
    let mut pt = PingTracker::new(0);
    // Five ping/pong rounds close together.
    let mut now = 0u64;
    for i in 1..=5u64 {
        let (ping, _) = pt.poll_send_ping_pong(now);
        assert_eq!(ping, Some(i));
        pt.got_pong(Pong { id: i, queue_time: 0 }, now + 50).unwrap();
        let t = pt.next_timeout().unwrap();
        pt.run(t).unwrap();
        now = t;
    }
    assert_eq!(pt.retained_samples(), 5);
    // Far in the future every sample and ping record is over age, yet at
    // least three samples and one record survive collection.
    let far = 10_000_000_000u64;
    let (_p, _q) = pt.poll_send_ping_pong(far);
    let t = pt.next_timeout().unwrap();
    pt.run(t).unwrap();
    assert_eq!(pt.retained_samples(), 3);
    assert_eq!(pt.outstanding_pings(), 1);
}

#[test]
fn mean_overflow_closes_the_tracker() {
    let late = MAX_INSTANT_US;
    let mut pt = PingTracker::new(0);
    // Three pings go out back to back, none answered yet.
    assert_eq!(pt.poll_send_ping_pong(0), (Some(1), None));
    let t1 = pt.next_timeout().unwrap();
    pt.run(t1).unwrap();
    assert_eq!(pt.poll_send_ping_pong(t1), (Some(2), None));
    let t2 = pt.next_timeout().unwrap();
    pt.run(t2).unwrap();
    assert_eq!(pt.poll_send_ping_pong(t2), (Some(3), None));
    // All three pongs arrive at the last accepted instant: each sample is
    // enormous, and the third pushes the sum past the i64 range — a hard
    // failure that closes the tracker.
    pt.got_pong(Pong { id: 1, queue_time: 0 }, late).unwrap();
    pt.got_pong(Pong { id: 2, queue_time: 0 }, late).unwrap();
    let r = pt.got_pong(Pong { id: 3, queue_time: 0 }, late);
    assert_eq!(r, Err(PingTrackerError::MeanOverflow));
    // Closed: further events are ignored without error.
    assert_eq!(pt.poll_send_ping_pong(late), (None, None));
    pt.got_pong(Pong { id: 3, queue_time: 0 }, late).unwrap();
}

#[test]
fn variance_overflow_closes_the_tracker() {
    let mut pt = PingTracker::new(0);
    assert_eq!(pt.poll_send_ping_pong(0), (Some(1), None));
    pt.got_pong(Pong { id: 1, queue_time: 0 }, 0).unwrap();
    let t = pt.next_timeout().unwrap();
    pt.run(t).unwrap();
    assert_eq!(pt.poll_send_ping_pong(t), (Some(2), None));
    // Samples 0 and 8e9 µs: the squared deviation from the mean exceeds
    // the i64 range while the sum still fits.
    let r = pt.got_pong(Pong { id: 2, queue_time: 0 }, t + 8_000_000_000);
    assert_eq!(r, Err(PingTrackerError::VarianceOverflow));
}

#[test]
fn close_stops_the_tracker() {
    let mut pt = PingTracker::new(0);
    pt.close();
    assert_eq!(pt.poll_send_ping_pong(0), (None, None));
    assert!(pt.run(0).is_ok());
}
