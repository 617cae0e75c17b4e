use scrcpy_custom::sync::{SyncAction, SyncEngine, SyncStats};

#[test]
fn test_sync_engine() {
    let mut engine: SyncEngine<f32> = SyncEngine::new(50, 16, 64);

    // Add frames with same PTS - should be in sync
    engine.add_video_frame(0, vec![0; 100], 640, 480);
    engine.add_audio_samples(0, vec![0.0; 1000]);

    assert_eq!(engine.sync(), SyncAction::Continue);

    // The frame is played out; the audio chunk is still at the head.
    assert_eq!(engine.pop_video_frame().unwrap().pts, 0);

    // Add video ahead of audio by 100ms - should drop video
    engine.add_video_frame(100_000, vec![0; 100], 640, 480);
    assert_eq!(engine.sync(), SyncAction::DropVideoFrame);
}

#[test]
fn test_buffer_overflow() {
    let mut engine: SyncEngine<f32> = SyncEngine::new(50, 2, 4);

    // Fill buffer
    engine.add_video_frame(0, vec![0; 100], 640, 480);
    engine.add_video_frame(1000, vec![0; 100], 640, 480);

    // Should be full
    assert_eq!(engine.video_buffer_level().0, 2);

    // Add one more - oldest should be dropped
    engine.add_video_frame(2000, vec![0; 100], 640, 480);
    assert_eq!(engine.video_buffer_level().0, 2);
    assert_eq!(engine.stats().video_frames_dropped, 1);
    assert_eq!(engine.pop_video_frame().unwrap().pts, 1000);
    assert_eq!(engine.pop_video_frame().unwrap().pts, 2000);
    assert!(engine.pop_video_frame().is_none());
}

#[test]
fn audio_overflow_counts_each_dropped_chunk() {
    let mut engine: SyncEngine<i16> = SyncEngine::new(50, 2, 3);
    for i in 0..5 {
        engine.add_audio_samples(i * 10, vec![i as i16; 4]);
    }
    assert_eq!(engine.audio_buffer_level(), (3, 3));
    assert_eq!(engine.stats().audio_samples_skipped, 2);
    let head = engine.pop_audio_samples().unwrap();
    assert_eq!(head.pts, 20);
    assert_eq!(head.samples, vec![2i16; 4]);
}

#[test]
fn waits_for_the_empty_stream() {
    let mut engine: SyncEngine<f32> = SyncEngine::new(50, 16, 64);
    assert_eq!(engine.sync(), SyncAction::WaitForVideo);
    engine.add_audio_samples(0, vec![0.0; 10]);
    assert_eq!(engine.sync(), SyncAction::WaitForVideo);
    engine.add_video_frame(0, vec![], 1, 1);
    engine.drop_audio_samples();
    assert_eq!(engine.sync(), SyncAction::WaitForAudio);
    assert_eq!(engine.stats(), SyncStats {
        video_frames_dropped: 0,
        audio_samples_skipped: 0,
        sync_corrections: 0,
        current_drift_ms: 0,
        avg_drift_centi_ms: 0,
    });
}

#[test]
fn drift_correction_scenario() {
    let mut engine: SyncEngine<f32> = SyncEngine::new(50, 16, 64);
    engine.add_video_frame(0, vec![1], 640, 480);
    engine.add_audio_samples(0, vec![0.0; 480]);
    assert_eq!(engine.sync(), SyncAction::Continue);
    assert_eq!(engine.stats().current_drift_ms, 0);
    engine.drop_video_frame();

    engine.add_video_frame(100_000, vec![2], 640, 480);
    assert_eq!(engine.sync(), SyncAction::DropVideoFrame);
    let stats = engine.stats();
    assert_eq!(stats.current_drift_ms, 100);
    assert_eq!(stats.avg_drift_centi_ms, 1000);
    assert_eq!(stats.sync_corrections, 1);
    assert_eq!(stats.video_frames_dropped, 1);
    engine.drop_video_frame();
    assert_eq!(engine.sync(), SyncAction::WaitForVideo);

    engine.add_video_frame(0, vec![3], 640, 480);
    assert_eq!(engine.sync(), SyncAction::Continue);
    assert_eq!(engine.stats().avg_drift_centi_ms, 900);
}

#[test]
fn audio_ahead_is_skipped() {
    let mut engine: SyncEngine<f32> = SyncEngine::new(50, 16, 64);
    engine.add_video_frame(0, vec![], 1, 1);
    engine.add_audio_samples(50_999, vec![0.0]);
    // 50.999 ms rounds towards zero: within the threshold.
    assert_eq!(engine.sync(), SyncAction::Continue);
    assert_eq!(engine.stats().current_drift_ms, -50);
    engine.drop_audio_samples();
    engine.add_audio_samples(51_000, vec![0.0]);
    assert_eq!(engine.sync(), SyncAction::SkipAudioSamples);
    let stats = engine.stats();
    assert_eq!(stats.current_drift_ms, -51);
    assert_eq!(stats.audio_samples_skipped, 1);
    assert_eq!(stats.sync_corrections, 1);
    assert_eq!(stats.avg_drift_centi_ms, (9 * -500 + 100 * -51) / 10);
}

#[test]
fn extreme_timestamps_do_not_overflow() {
    let mut engine: SyncEngine<u8> = SyncEngine::new(50, 4, 4);
    engine.add_video_frame(i64::MAX, vec![], 1, 1);
    engine.add_audio_samples(i64::MIN, vec![]);
    assert_eq!(engine.sync(), SyncAction::DropVideoFrame);
    assert_eq!(engine.stats().current_drift_ms, 18_446_744_073_709_551);
    engine.reset();
    engine.add_video_frame(i64::MIN, vec![], 1, 1);
    engine.add_audio_samples(i64::MAX, vec![]);
    assert_eq!(engine.sync(), SyncAction::SkipAudioSamples);
    assert_eq!(engine.stats().current_drift_ms, -18_446_744_073_709_551);
}

#[test]
fn settle_repeats_the_step_until_aligned_or_dry() {
    let mut engine: SyncEngine<f32> = SyncEngine::new(50, 16, 64);
    engine.add_video_frame(190_000, vec![], 1, 1);
    engine.add_audio_samples(300_000, vec![]);
    engine.add_audio_samples(400_000, vec![]);
    engine.add_audio_samples(195_000, vec![]);
    // Two chunks are ahead of the frame by more than the threshold.
    assert_eq!(engine.settle(), SyncAction::Continue);
    assert_eq!(engine.audio_buffer_level().0, 1);
    assert_eq!(engine.video_buffer_level().0, 1);
    assert_eq!(engine.stats().audio_samples_skipped, 2);
    assert_eq!(engine.stats().sync_corrections, 2);
    assert_eq!(engine.stats().current_drift_ms, -5);

    // Video far ahead of all audio: every frame is dropped, then it waits.
    let mut engine: SyncEngine<f32> = SyncEngine::new(50, 16, 64);
    engine.add_video_frame(100_000, vec![], 1, 1);
    engine.add_video_frame(200_000, vec![], 1, 1);
    engine.add_audio_samples(0, vec![]);
    assert_eq!(engine.settle(), SyncAction::WaitForVideo);
    assert_eq!(engine.video_buffer_level().0, 0);
    assert_eq!(engine.audio_buffer_level().0, 1);
    assert_eq!(engine.stats().video_frames_dropped, 2);
}

#[test]
fn reset_empties_everything() {
    let mut engine: SyncEngine<f32> = SyncEngine::new(10, 1, 1);
    engine.add_video_frame(0, vec![], 1, 1);
    engine.add_video_frame(1, vec![], 1, 1);
    engine.add_audio_samples(0, vec![]);
    assert_eq!(engine.stats().video_frames_dropped, 1);
    engine.reset();
    assert_eq!(engine.video_buffer_level(), (0, 1));
    assert_eq!(engine.audio_buffer_level(), (0, 1));
    assert_eq!(engine.stats().video_frames_dropped, 0);
    assert_eq!(engine.sync(), SyncAction::WaitForVideo);
}
