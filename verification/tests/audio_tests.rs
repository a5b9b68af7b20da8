use khushu::audio::{
    builtin_audio_key, builtin_resource_path, playback_source, AudioEvent, AudioPhase,
    AudioPlayer, PlaybackSource,
};

#[test]
fn builtin_keys() {
    assert_eq!(builtin_audio_key("assets/audio/Makkah.mp3"), "Makkah.mp3");
    assert_eq!(builtin_audio_key("assets/Makkah.mp3"), "Makkah.mp3");
    assert_eq!(builtin_audio_key("assets/audio/assets/audio/x.mp3"), "x.mp3");
    assert_eq!(builtin_audio_key("Madinah.mp3"), "Madinah.mp3");
    assert_eq!(builtin_resource_path("audio/Madinah.mp3"), "/io/github/sniper1720/khushu/audio/Madinah.mp3");
}

#[test]
fn sources() {
    assert_eq!(playback_source("assets/audio/Madinah.mp3"), PlaybackSource::Builtin("Madinah.mp3".into()));
    assert_eq!(playback_source("/home/u/adhan.ogg"), PlaybackSource::Custom("/home/u/adhan.ogg".into()));
}

#[test]
fn play_success_then_finish() {
    let mut p = AudioPlayer::new();
    let s = p.step(AudioEvent::Play("assets/audio/Makkah.mp3".into()));
    assert_eq!(s.notify, Some(true));
    assert_eq!(s.attempt, Some(PlaybackSource::Builtin("Makkah.mp3".into())));
    assert!(p.playing);
    let s = p.step(AudioEvent::Attempt(true));
    assert_eq!(s.notify, None);
    assert!(p.playing && p.sink_active && p.phase == AudioPhase::Idle);
    let s = p.step(AudioEvent::Tick { sink_empty: false });
    assert_eq!(s.notify, None);
    assert!(p.playing);
    let s = p.step(AudioEvent::Tick { sink_empty: true });
    assert_eq!(s.notify, Some(false));
    assert!(!p.playing);
}

#[test]
fn play_falls_back_then_gives_up() {
    let mut p = AudioPlayer::new();
    p.step(AudioEvent::Play("/missing.mp3".into()));
    let s = p.step(AudioEvent::Attempt(false));
    assert_eq!(s.attempt, Some(PlaybackSource::Builtin("Madinah.mp3".into())));
    assert!(p.playing);
    let s = p.step(AudioEvent::Attempt(false));
    assert_eq!(s.notify, Some(false));
    assert!(!p.playing);
    assert_eq!(p.phase, AudioPhase::Idle);
}

#[test]
fn stop_and_disconnect() {
    let mut p = AudioPlayer::new();
    p.step(AudioEvent::Play("assets/audio/Makkah.mp3".into()));
    p.step(AudioEvent::Attempt(true));
    let s = p.step(AudioEvent::Stop);
    assert_eq!(s.notify, Some(false));
    assert!(!p.playing && !p.sink_active);
    let s = p.step(AudioEvent::Disconnected);
    assert!(s.exit);
}
