use waveplayer::display::{handle_pointer, CanvasReply, Pointer};
use waveplayer::playback::{
    sink_adjustment, sink_wait_over, DecodeGate, DecoderStep, PlaybackState, SeekOutcome,
    SinkCommand,
};
use waveplayer::player::{Effect, PlayerEvent, PlayerState};
use waveplayer::waveform::{bucket_bounds, bucket_size, WAVEFORM_BARS};

type Player = PlayerState<&'static str, f32, (f32, f32, f32)>;
type Event = PlayerEvent<&'static str, f32, (f32, f32, f32)>;

#[test]
fn load_starts_a_fresh_paused_decoder() {
    let mut s = PlaybackState::new(0.0f64);
    s.play();
    s.halt();
    assert!(!s.is_current(0));
    let g = s.load(0.0);
    assert_eq!(g, 1);
    assert!(s.is_current(1));
    assert!(!s.is_current(0));
    assert!(!s.is_playing());
    assert_eq!(s.position(), 0.0);
    let g2 = s.restart(12.5, true);
    assert_eq!(g2, 2);
    assert!(!s.is_current(1));
    assert!(s.is_playing());
    assert_eq!(s.position(), 12.5);
}

#[test]
fn generation_wraps_around() {
    let mut s = PlaybackState::new(0.0f64);
    s.generation = u64::MAX;
    assert_eq!(s.load(0.0), 0);
}

#[test]
fn end_of_track_is_reported_once() {
    let mut s = PlaybackState::new(0.0f64);
    let g = s.load(0.0);
    s.play();
    s.set_position(30.0);
    assert!(!s.take_ended());
    assert!(s.finish_track(g, 0.0));
    assert!(!s.is_playing());
    assert_eq!(s.position(), 0.0);
    assert!(s.take_ended());
    assert!(!s.take_ended());
    // the queued rewind reaches the decoder
    assert_eq!(s.decoder_step(g), DecoderStep::Seek(0.0));
}

#[test]
fn stale_decoder_is_inert() {
    let mut s = PlaybackState::new(0.0f64);
    let old = s.load(0.0);
    let _new = s.load(0.0);
    s.play();
    assert!(!s.finish_track(old, 0.0));
    assert!(s.is_playing());
    assert_eq!(s.decoder_step(old), DecoderStep::Exit);
    assert_eq!(s.decode_gate(old), DecodeGate::Exit);
    assert!(!s.keep_buffering(old, 100));
    assert!(!s.keep_draining(old, 3));
}

#[test]
fn toggle_and_sink_commands() {
    let mut s = PlaybackState::new(0.0f64);
    let g = s.load(0.0);
    assert_eq!(s.toggle_play_pause(), SinkCommand::Play);
    assert!(s.is_playing());
    assert_eq!(s.toggle_play_pause(), SinkCommand::Pause);
    assert!(!s.is_playing());
    // after the end, play/pause plays again
    s.play();
    assert!(s.finish_track(g, 0.0));
    assert_eq!(s.toggle_play_pause(), SinkCommand::Play);
    assert!(s.is_playing());
    assert!(!s.ended);
}

#[test]
fn seek_queues_or_restarts() {
    let mut s = PlaybackState::new(0.0f64);
    let g = s.load(0.0);
    assert_eq!(s.seek(42.0), SeekOutcome::Queued);
    assert_eq!(s.position(), 42.0);
    assert!(s.seek_pending());
    assert!(!s.keep_buffering(g, 100));
    assert_eq!(s.decode_gate(g), DecodeGate::Retry);
    assert_eq!(s.decoder_step(g), DecoderStep::Seek(42.0));
    assert_eq!(s.decoder_step(g), DecoderStep::Run { playing: false });
    assert_eq!(s.decode_gate(g), DecodeGate::Decode);
    assert!(s.keep_buffering(g, 8));
    assert!(!s.keep_buffering(g, 7));
    s.play();
    assert!(s.finish_track(g, 0.0));
    assert_eq!(s.seek(10.0), SeekOutcome::Restart(g + 1));
    assert!(s.is_current(g + 1));
    assert!(!s.is_playing());
    assert_eq!(s.position(), 10.0);
    assert!(!s.seek_pending());
}

#[test]
fn stop_and_rewind() {
    let mut s = PlaybackState::new(0.0f64);
    let g = s.load(0.0);
    s.play();
    s.set_position(5.0);
    s.stop(0.0);
    assert!(!s.is_current(g));
    assert!(!s.is_playing());
    assert_eq!(s.position(), 0.0);
    let mut t = PlaybackState::new(0.0f64);
    let g = t.load(0.0);
    t.play();
    t.finish_track(g, 0.0);
    assert!(t.take_ended());
    t.rewind(0.0);
    assert!(!t.ended && !t.end_notified && !t.is_playing());
}

#[test]
fn sink_decisions() {
    assert_eq!(sink_adjustment(true, true), Some(SinkCommand::Play));
    assert_eq!(sink_adjustment(false, false), Some(SinkCommand::Pause));
    assert_eq!(sink_adjustment(true, false), None);
    assert_eq!(sink_adjustment(false, true), None);
    assert!(sink_wait_over(true, 0));
    assert!(!sink_wait_over(false, 50));
    assert!(sink_wait_over(false, 51));
    let s = PlaybackState::new(0.0f64);
    assert!(s.keep_draining(0, 1));
    assert!(!s.keep_draining(0, 0));
}

#[test]
fn player_start_up() {
    let (s, e): (Player, Vec<Effect>) = PlayerState::new(true, Some("a.mp3".to_string()), 0.8, (1.0, 0.42, 0.0), false);
    assert_eq!(e, vec![Effect::LoadWaveform]);
    assert!(s.autoplay);
    assert_eq!(s.file_name, Some("a.mp3".to_string()));
    let (s, e): (Player, Vec<Effect>) = PlayerState::new(false, None, 0.8, (1.0, 0.42, 0.0), true);
    assert_eq!(e, vec![]);
    assert!(!s.autoplay && s.full_width && s.waveform.is_none());
}

#[test]
fn player_handover_autoplays_dialog_does_not() {
    let (mut s, _): (Player, Vec<Effect>) = PlayerState::new(false, None, 0.5, (1.0, 0.42, 0.0), false);
    let e = s.update(Event::IncomingFile { name: Some("b.flac".to_string()) });
    assert_eq!(e, vec![Effect::LoadWaveform]);
    let e = s.update(Event::WaveformReady { name: Some("b.flac".to_string()), waveform: "wave" });
    assert_eq!(e, vec![Effect::LoadTrack, Effect::ApplyVolume, Effect::StartPlayback]);
    assert_eq!(s.waveform, Some("wave"));
    assert_eq!(s.update(Event::OpenFile), vec![Effect::PickFile]);
    let e = s.update(Event::FileChosen { name: Some("c.ogg".to_string()) });
    assert_eq!(e, vec![Effect::LoadWaveform]);
    assert!(s.waveform.is_none());
    assert_eq!(s.update(Event::Seek), vec![]);
    let e = s.update(Event::WaveformReady { name: Some("c.ogg".to_string()), waveform: "w2" });
    assert_eq!(e, vec![Effect::LoadTrack, Effect::ApplyVolume]);
    assert_eq!(s.update(Event::Seek), vec![Effect::SeekTrack]);
    assert_eq!(s.file_name, Some("c.ogg".to_string()));
}

#[test]
fn player_settings() {
    let (mut s, _): (Player, Vec<Effect>) = PlayerState::new(false, None, 0.5, (1.0, 0.42, 0.0), false);
    assert_eq!(s.update(Event::VolumeChanged { volume: 0.3 }), vec![Effect::ApplyVolume, Effect::SaveConfig]);
    assert_eq!(s.volume, 0.3);
    assert_eq!(s.update(Event::ToggleFullWidth), vec![Effect::SaveConfig, Effect::ResizeWindow]);
    assert!(s.full_width);
    assert_eq!(s.update(Event::ToggleSettings), vec![]);
    assert!(s.show_settings);
    assert_eq!(s.update(Event::ToggleSettings), vec![]);
    assert!(!s.show_settings);
    assert_eq!(s.update(Event::AccentKde { color: None }), vec![Effect::ReportKdeAccentMissing]);
    assert_eq!(s.accent, (1.0, 0.42, 0.0));
    assert_eq!(s.update(Event::AccentCosmic { color: Some((0.1, 0.2, 0.3)) }), vec![Effect::SaveConfig]);
    assert_eq!(s.accent, (0.1, 0.2, 0.3));
    assert_eq!(s.update(Event::AccentCosmic { color: None }), vec![Effect::ReportCosmicAccentMissing]);
    assert_eq!(s.update(Event::AccentKde { color: Some((0.5, 0.5, 0.5)) }), vec![Effect::SaveConfig]);
    assert_eq!(s.update(Event::AccentDefault { color: (1.0, 0.42, 0.0) }), vec![Effect::SaveConfig]);
    assert_eq!(s.accent, (1.0, 0.42, 0.0));
}

#[test]
fn player_playback_events() {
    let (mut s, _): (Player, Vec<Effect>) = PlayerState::new(false, None, 0.5, (1.0, 0.42, 0.0), false);
    assert_eq!(s.update(Event::PlayPause), vec![Effect::TogglePlayback]);
    assert_eq!(s.update(Event::KeyPressed { space: true }), vec![Effect::TogglePlayback]);
    assert_eq!(s.update(Event::KeyPressed { space: false }), vec![]);
    assert_eq!(s.update(Event::Tick { track_ended: true }), vec![Effect::RewindTrack]);
    assert_eq!(s.update(Event::Tick { track_ended: false }), vec![Effect::PollIpc]);
    assert_eq!(s.update(Event::EndOfStream), vec![Effect::RewindTrack]);
    assert_eq!(s.update(Event::WaveformFailed), vec![Effect::ReportLoadError]);
    assert_eq!(s.update(Event::DialogCancelled), vec![]);
    assert_eq!(s.update(Event::ResizeWindow), vec![]);
}

#[test]
fn pointer_drag_and_click() {
    let mut d = false;
    assert_eq!(handle_pointer(&mut d, true, Pointer::Moved), CanvasReply::Ignored);
    assert_eq!(handle_pointer(&mut d, true, Pointer::LeftPressed), CanvasReply::Seek);
    assert!(d);
    assert_eq!(handle_pointer(&mut d, true, Pointer::Moved), CanvasReply::Seek);
    assert_eq!(handle_pointer(&mut d, false, Pointer::Moved), CanvasReply::Ignored);
    assert!(d);
    assert_eq!(handle_pointer(&mut d, false, Pointer::LeftReleased), CanvasReply::Ignored);
    assert!(!d);
    assert_eq!(handle_pointer(&mut d, true, Pointer::Moved), CanvasReply::Ignored);
    assert_eq!(handle_pointer(&mut d, true, Pointer::LeftPressed), CanvasReply::Seek);
    assert_eq!(handle_pointer(&mut d, true, Pointer::LeftReleased), CanvasReply::Seek);
    assert!(!d);
    assert_eq!(handle_pointer(&mut d, true, Pointer::RightPressed), CanvasReply::OpenFile);
    assert_eq!(handle_pointer(&mut d, true, Pointer::Other), CanvasReply::Ignored);
}

#[test]
fn bucket_layout() {
    assert_eq!(bucket_size(0), 1);
    assert_eq!(bucket_size(100), 1);
    assert_eq!(bucket_size(2048), 1);
    assert_eq!(bucket_size(44100 * 3), 64);
    assert_eq!(bucket_bounds(0), vec![]);
    assert_eq!(bucket_bounds(3), vec![(0, 1), (1, 2), (2, 3)]);
    let b = bucket_bounds(4097);
    assert_eq!(b.len(), WAVEFORM_BARS);
    assert_eq!(b[0], (0, 2));
    assert_eq!(b[WAVEFORM_BARS - 1], (4094, 4096));
    let b = bucket_bounds(2049);
    assert_eq!(b.len(), WAVEFORM_BARS);
    assert_eq!(b[WAVEFORM_BARS - 1], (2047, 2048));
    let total = 1_000_003;
    let b = bucket_bounds(total);
    assert_eq!(b.len(), WAVEFORM_BARS);
    for i in 1..b.len() {
        assert_eq!(b[i].0, b[i - 1].1);
        assert_eq!(b[i].1 - b[i].0, bucket_size(total));
    }
    assert!(total - b[WAVEFORM_BARS - 1].1 < WAVEFORM_BARS);
    // the same as slicing by chunks
    let samples: Vec<u32> = (0..5000).collect();
    let chunks: Vec<(usize, usize)> = samples
        .chunks(bucket_size(5000))
        .take(WAVEFORM_BARS)
        .map(|c| (c[0] as usize, c[c.len() - 1] as usize + 1))
        .collect();
    assert_eq!(bucket_bounds(5000), chunks);
}
