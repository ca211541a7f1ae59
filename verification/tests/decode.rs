use frame_seek::decode::{
    Action, DecodeForward, DecodeOutcome, Event, PacketInfo, Phase, RecordedPacket,
};
use frame_seek::error::ExtractionError;

const VIDEO: usize = 0;
const AUDIO: usize = 1;

fn packet(stream_index: usize, dts: i64) -> Event {
    Event::Packet(PacketInfo { stream_index, dts })
}

fn recorded(stream_index: usize, dts: i64, outcome: DecodeOutcome) -> RecordedPacket {
    RecordedPacket { packet: PacketInfo { stream_index, dts }, outcome }
}

/// A fresh engine after it has run over `source`.
fn replay(target: i64, stream_index: usize, source: &Vec<RecordedPacket>) -> DecodeForward {
    let mut engine = DecodeForward::new(target, stream_index);
    engine.run(source);
    engine
}

fn frames(timestamps: &[i64]) -> Vec<RecordedPacket> {
    timestamps.iter().map(|dts| recorded(VIDEO, *dts, DecodeOutcome::Frame)).collect()
}

#[test]
fn engine_starts_scanning_with_nothing_retained() {
    let engine = DecodeForward::new(100, VIDEO);
    assert_eq!(engine.target, 100);
    assert_eq!(engine.stream_index, VIDEO);
    assert_eq!(engine.phase, Phase::Scanning);
    assert_eq!(engine.retained, None);
    assert!(!engine.finished());
    assert_eq!(engine.verdict(), Err(ExtractionError::NoFrameProduced));
}

#[test]
fn packets_of_other_streams_are_skipped() {
    let mut engine = DecodeForward::new(100, VIDEO);
    // Far past the target, but not of the selected stream.
    assert_eq!(engine.step(packet(AUDIO, 5000)), Action::ReadPacket);
    assert_eq!(engine, DecodeForward::new(100, VIDEO));
}

#[test]
fn packet_at_or_before_the_target_is_fed() {
    let mut engine = DecodeForward::new(100, VIDEO);
    assert_eq!(engine.step(packet(VIDEO, 40)), Action::Feed);
    assert_eq!(engine.phase, Phase::Feeding { dts: 40 });

    let mut engine = DecodeForward::new(100, VIDEO);
    assert_eq!(engine.step(packet(VIDEO, 100)), Action::Feed);
    assert_eq!(engine.phase, Phase::Feeding { dts: 100 });
}

#[test]
fn packet_one_unit_past_the_target_is_still_fed() {
    // A target of 66.66 that was rounded down to 66 still takes the packet at 67.
    let mut engine = DecodeForward::new(66, VIDEO);
    assert_eq!(engine.step(packet(VIDEO, 67)), Action::Feed);
    assert_eq!(engine.phase, Phase::Feeding { dts: 67 });
}

#[test]
fn packet_two_units_past_the_target_overshoots() {
    let mut engine = DecodeForward::new(66, VIDEO);
    assert_eq!(engine.step(packet(VIDEO, 68)), Action::Stop);
    assert_eq!(engine.phase, Phase::Overshot);
    assert!(engine.finished());
    assert_eq!(engine.verdict(), Err(ExtractionError::NoFrameProduced));
}

#[test]
fn decoded_frame_is_retained() {
    let mut engine = DecodeForward::new(100, VIDEO);
    engine.step(packet(VIDEO, 40));
    assert_eq!(engine.step(Event::Decoded(DecodeOutcome::Frame)), Action::Retain);
    assert_eq!(engine.phase, Phase::Scanning);
    assert_eq!(engine.retained, Some(40));
    // Not ended yet: the frame counts only once the engine is done.
    assert_eq!(engine.verdict(), Err(ExtractionError::NoFrameProduced));
}

#[test]
fn try_again_reads_on_silently() {
    let mut engine = DecodeForward::new(100, VIDEO);
    engine.step(packet(VIDEO, 40));
    assert_eq!(engine.step(Event::Decoded(DecodeOutcome::TryAgain)), Action::ReadPacket);
    assert_eq!(engine.phase, Phase::Scanning);
    assert_eq!(engine.retained, None);
}

#[test]
fn decoder_error_is_reported_and_the_loop_goes_on() {
    let mut engine = DecodeForward::new(100, VIDEO);
    engine.step(packet(VIDEO, 40));
    assert_eq!(engine.step(Event::Decoded(DecodeOutcome::Failed)), Action::Report);
    assert_eq!(engine.phase, Phase::Scanning);
    assert_eq!(engine.retained, None);
    assert_eq!(engine.step(packet(VIDEO, 50)), Action::Feed);
}

#[test]
fn failed_attempt_keeps_the_frame_retained_before() {
    let mut engine = DecodeForward::new(100, VIDEO);
    engine.step(packet(VIDEO, 40));
    engine.step(Event::Decoded(DecodeOutcome::Frame));
    engine.step(packet(VIDEO, 50));
    engine.step(Event::Decoded(DecodeOutcome::Failed));
    assert_eq!(engine.retained, Some(40));
    engine.step(packet(VIDEO, 60));
    engine.step(Event::Decoded(DecodeOutcome::TryAgain));
    assert_eq!(engine.retained, Some(40));
}

#[test]
fn later_frame_replaces_the_retained_one() {
    let mut engine = DecodeForward::new(100, VIDEO);
    engine.step(packet(VIDEO, 40));
    engine.step(Event::Decoded(DecodeOutcome::Frame));
    engine.step(packet(VIDEO, 80));
    assert_eq!(engine.step(Event::Decoded(DecodeOutcome::Frame)), Action::Retain);
    assert_eq!(engine.retained, Some(80));
}

#[test]
fn overshoot_after_a_frame_is_done() {
    let mut engine = DecodeForward::new(100, VIDEO);
    engine.step(packet(VIDEO, 80));
    engine.step(Event::Decoded(DecodeOutcome::Frame));
    assert_eq!(engine.step(packet(VIDEO, 120)), Action::Stop);
    assert_eq!(engine.phase, Phase::Done);
    assert_eq!(engine.verdict(), Ok(80));
}

#[test]
fn end_of_stream_after_a_frame_is_done() {
    let mut engine = DecodeForward::new(100, VIDEO);
    engine.step(packet(VIDEO, 80));
    engine.step(Event::Decoded(DecodeOutcome::Frame));
    assert_eq!(engine.step(Event::EndOfStream), Action::Stop);
    assert_eq!(engine.phase, Phase::Done);
    assert_eq!(engine.verdict(), Ok(80));
}

#[test]
fn end_of_stream_without_a_frame_is_exhausted() {
    let mut engine = DecodeForward::new(100, VIDEO);
    engine.step(packet(AUDIO, 10));
    engine.step(packet(VIDEO, 80));
    engine.step(Event::Decoded(DecodeOutcome::TryAgain));
    assert_eq!(engine.step(Event::EndOfStream), Action::Stop);
    assert_eq!(engine.phase, Phase::Exhausted);
    assert_eq!(engine.verdict(), Err(ExtractionError::NoFrameProduced));
}

#[test]
fn ended_engine_takes_no_more_events() {
    for last in [packet(VIDEO, 500), Event::EndOfStream] {
        let mut engine = DecodeForward::new(100, VIDEO);
        engine.step(packet(VIDEO, 80));
        engine.step(Event::Decoded(DecodeOutcome::Frame));
        engine.step(last);
        let ended = engine;
        for event in [
            packet(VIDEO, 90),
            packet(AUDIO, 90),
            Event::EndOfStream,
            Event::Decoded(DecodeOutcome::Frame),
            Event::Decoded(DecodeOutcome::TryAgain),
            Event::Decoded(DecodeOutcome::Failed),
        ] {
            assert_eq!(engine.step(event), Action::Stop);
            assert_eq!(engine, ended);
        }
    }
}

#[test]
fn decoder_answer_nobody_asked_for_changes_nothing() {
    let mut engine = DecodeForward::new(100, VIDEO);
    for outcome in [DecodeOutcome::Frame, DecodeOutcome::TryAgain, DecodeOutcome::Failed] {
        assert_eq!(engine.step(Event::Decoded(outcome)), Action::ReadPacket);
        assert_eq!(engine, DecodeForward::new(100, VIDEO));
    }
}

#[test]
fn packet_while_the_decoder_is_busy_changes_nothing() {
    let mut engine = DecodeForward::new(100, VIDEO);
    engine.step(packet(VIDEO, 40));
    let busy = engine;
    assert_eq!(engine.step(packet(VIDEO, 50)), Action::Feed);
    assert_eq!(engine, busy);
    assert_eq!(engine.step(packet(VIDEO, 5000)), Action::Feed);
    assert_eq!(engine, busy);
    assert_eq!(engine.step(Event::EndOfStream), Action::Feed);
    assert_eq!(engine, busy);
    assert!(!engine.finished());
}

#[test]
fn timestamps_at_the_ends_of_the_range() {
    // The least timestamp never overshoots, not even the least target.
    let mut engine = DecodeForward::new(i64::MIN, VIDEO);
    assert_eq!(engine.step(packet(VIDEO, i64::MIN)), Action::Feed);
    // One unit past the least target is within the tolerance, two are not.
    let mut engine = DecodeForward::new(i64::MIN, VIDEO);
    assert_eq!(engine.step(packet(VIDEO, i64::MIN + 1)), Action::Feed);
    let mut engine = DecodeForward::new(i64::MIN, VIDEO);
    assert_eq!(engine.step(packet(VIDEO, i64::MIN + 2)), Action::Stop);
    // Nothing overshoots the greatest target.
    let mut engine = DecodeForward::new(i64::MAX, VIDEO);
    assert_eq!(engine.step(packet(VIDEO, i64::MAX)), Action::Feed);
    let mut engine = DecodeForward::new(i64::MAX - 1, VIDEO);
    assert_eq!(engine.step(packet(VIDEO, i64::MAX)), Action::Feed);
    let mut engine = DecodeForward::new(i64::MAX - 2, VIDEO);
    assert_eq!(engine.step(packet(VIDEO, i64::MAX)), Action::Stop);
}

#[test]
fn replay_of_an_empty_source_is_exhausted() {
    // A request beyond the end of the stream finds no packet after the seek point.
    let engine = replay(1_000_000, VIDEO, &Vec::new());
    assert_eq!(engine.phase, Phase::Exhausted);
    assert_eq!(engine.retained, None);
    assert_eq!(engine.verdict(), Err(ExtractionError::NoFrameProduced));
}

#[test]
fn replay_retains_the_last_frame_before_the_overshoot() {
    let source = frames(&[0, 10, 20, 30, 40, 50]);
    let engine = replay(25, VIDEO, &source);
    assert_eq!(engine.phase, Phase::Done);
    assert_eq!(engine.verdict(), Ok(20));
}

#[test]
fn replay_takes_the_whole_source_when_nothing_overshoots() {
    let source = frames(&[0, 10, 20, 30, 40, 50]);
    let engine = replay(500, VIDEO, &source);
    assert_eq!(engine.phase, Phase::Done);
    assert_eq!(engine.verdict(), Ok(50));
}

#[test]
fn replay_stops_reading_at_the_first_overshoot() {
    // The frame at 15 comes after a packet that overshoots: it is never fed.
    let source = frames(&[0, 10, 40, 15]);
    let engine = replay(20, VIDEO, &source);
    assert_eq!(engine.verdict(), Ok(10));
}

#[test]
fn replay_ignores_the_timestamps_of_other_streams() {
    let source = vec![
        recorded(VIDEO, 0, DecodeOutcome::Frame),
        recorded(AUDIO, 900, DecodeOutcome::Frame),
        recorded(VIDEO, 10, DecodeOutcome::Frame),
        recorded(AUDIO, 901, DecodeOutcome::Frame),
        recorded(VIDEO, 20, DecodeOutcome::Frame),
    ];
    let engine = replay(15, VIDEO, &source);
    assert_eq!(engine.verdict(), Ok(10));
    let engine = replay(15, AUDIO, &source);
    assert_eq!(engine.phase, Phase::Overshot);
    assert_eq!(engine.verdict(), Err(ExtractionError::NoFrameProduced));
}

#[test]
fn replay_feeds_on_while_the_decoder_asks_for_more() {
    let source = vec![
        recorded(VIDEO, 0, DecodeOutcome::TryAgain),
        recorded(VIDEO, 10, DecodeOutcome::TryAgain),
        recorded(VIDEO, 20, DecodeOutcome::Frame),
        recorded(VIDEO, 30, DecodeOutcome::TryAgain),
        recorded(VIDEO, 90, DecodeOutcome::Frame),
    ];
    let engine = replay(40, VIDEO, &source);
    assert_eq!(engine.verdict(), Ok(20));
}

#[test]
fn decoder_errors_up_to_the_end_produce_no_frame() {
    let source = vec![
        recorded(VIDEO, 0, DecodeOutcome::Failed),
        recorded(VIDEO, 10, DecodeOutcome::Failed),
        recorded(VIDEO, 20, DecodeOutcome::Failed),
    ];
    let engine = replay(40, VIDEO, &source);
    assert_eq!(engine.phase, Phase::Exhausted);
    assert_eq!(engine.verdict(), Err(ExtractionError::NoFrameProduced));
}

#[test]
fn target_between_two_frames_takes_the_earlier() {
    let source = frames(&[60, 70]);
    for target in 60..69 {
        assert_eq!(replay(target, VIDEO, &source).verdict(), Ok(60));
    }
}

#[test]
fn target_one_unit_before_a_frame_takes_that_frame() {
    // Between 66 and 68 lies 67, and 68 is within one unit of it.
    let source = frames(&[66, 68]);
    assert_eq!(replay(66, VIDEO, &source).verdict(), Ok(66));
    assert_eq!(replay(67, VIDEO, &source).verdict(), Ok(68));
    let source = frames(&[60, 70]);
    assert_eq!(replay(69, VIDEO, &source).verdict(), Ok(70));
}

#[test]
fn retained_frame_is_never_past_the_tolerance() {
    let source = frames(&[0, 3, 6, 9, 12, 15, 18, 21]);
    for target in -5..30 {
        match replay(target, VIDEO, &source).verdict() {
            Ok(dts) => assert!(dts - 1 <= target),
            Err(e) => {
                assert_eq!(e, ExtractionError::NoFrameProduced);
                assert!(target < -1);
            }
        }
    }
}

#[test]
fn later_targets_never_give_earlier_frames() {
    let source = vec![
        recorded(VIDEO, 0, DecodeOutcome::Frame),
        recorded(AUDIO, 3, DecodeOutcome::Frame),
        recorded(VIDEO, 10, DecodeOutcome::TryAgain),
        recorded(VIDEO, 20, DecodeOutcome::Frame),
        recorded(VIDEO, 20, DecodeOutcome::Failed),
        recorded(VIDEO, 35, DecodeOutcome::Frame),
        recorded(AUDIO, 36, DecodeOutcome::Frame),
        recorded(VIDEO, 50, DecodeOutcome::Frame),
    ];
    let mut previous: Option<i64> = None;
    for target in -3..60 {
        let found = replay(target, VIDEO, &source).verdict().ok();
        if let Some(before) = previous {
            assert!(found.is_some());
            assert!(before <= found.unwrap());
        }
        previous = found;
    }
    assert_eq!(previous, Some(50));
}

#[test]
fn packets_out_of_decode_order_can_give_an_earlier_frame() {
    // With timestamps that go back, a later target may end on an earlier one.
    let source = frames(&[5, 9, 4]);
    assert_eq!(replay(4, VIDEO, &source).verdict(), Ok(5));
    assert_eq!(replay(8, VIDEO, &source).verdict(), Ok(4));
}

#[test]
fn run_goes_on_from_where_the_engine_stands() {
    let source = frames(&[0, 10, 20, 30, 40, 50]);
    let mut engine = DecodeForward::new(35, VIDEO);
    engine.run(&source[..2].to_vec());
    // The first part has run out: the engine holds its last frame and is done.
    assert_eq!(engine.verdict(), Ok(10));
    let ended = engine;
    engine.run(&source[2..].to_vec());
    assert_eq!(engine, ended);

    // Stepped by hand through the first part, run through the rest.
    let mut engine = DecodeForward::new(35, VIDEO);
    for item in &source[..2] {
        engine.step(Event::Packet(item.packet));
        engine.step(Event::Decoded(item.outcome));
    }
    engine.run(&source[2..].to_vec());
    assert_eq!(engine, replay(35, VIDEO, &source));
    assert_eq!(engine.verdict(), Ok(30));
}

#[test]
fn replay_agrees_with_stepping_by_hand() {
    let source = vec![
        recorded(AUDIO, 0, DecodeOutcome::Frame),
        recorded(VIDEO, 0, DecodeOutcome::TryAgain),
        recorded(VIDEO, 10, DecodeOutcome::Frame),
        recorded(VIDEO, 20, DecodeOutcome::Failed),
        recorded(VIDEO, 30, DecodeOutcome::Frame),
        recorded(VIDEO, 40, DecodeOutcome::Frame),
    ];
    for target in -2..45 {
        let mut engine = DecodeForward::new(target, VIDEO);
        let mut reports = 0;
        let mut ended = false;
        for item in &source {
            match engine.step(Event::Packet(item.packet)) {
                Action::Feed => match engine.step(Event::Decoded(item.outcome)) {
                    Action::Report => reports += 1,
                    Action::Retain | Action::ReadPacket => {}
                    other => panic!("unexpected action {:?}", other),
                },
                Action::ReadPacket => {}
                Action::Stop => {
                    ended = true;
                    break;
                }
                other => panic!("unexpected action {:?}", other),
            }
        }
        if !ended {
            assert_eq!(engine.step(Event::EndOfStream), Action::Stop);
        }
        assert_eq!(engine, replay(target, VIDEO, &source));
        assert!(reports <= 1);
    }
}
