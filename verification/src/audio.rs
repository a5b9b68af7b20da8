//! Adhan playback decisions. The audio thread receives commands and, every
//! 200 ms without one, checks whether the current sound has finished; this
//! module decides, for each such event, what to play, when playback counts
//! as started or stopped, and when to fall back to the built-in recording.
use vstd::prelude::*;
use crate::text::{append_str, has_prefix, owned, starts_with, strip_prefixes, trim_start_matches};

verus! {

/// The built-in recording played when the requested one cannot be played.
pub open spec fn fallback_key() -> Seq<char> {
    "Madinah.mp3"@
}

/// Where a sound comes from.
#[derive(Debug, PartialEq, Eq)]
pub enum PlaybackSource {
    /// One of the recordings bundled in the application resources, by file name.
    Builtin(String),
    /// A file chosen by the user.
    Custom(String),
}

pub enum SourceView {
    Builtin(Seq<char>),
    Custom(Seq<char>),
}

impl View for PlaybackSource {
    type V = SourceView;

    open spec fn view(&self) -> SourceView {
        match self {
            PlaybackSource::Builtin(k) => SourceView::Builtin(k@),
            PlaybackSource::Custom(p) => SourceView::Custom(p@),
        }
    }
}

/// The resource key of a bundled sound path (`assets/audio/Makkah.mp3`
/// gives `Makkah.mp3`).
pub open spec fn builtin_key_spec(path: Seq<char>) -> Seq<char> {
    strip_prefixes(strip_prefixes(path, "assets/audio/"@), "assets/"@)
}

pub fn builtin_audio_key(path: &str) -> (k: String)
    ensures
        k@ == builtin_key_spec(path@),
{
    let a = trim_start_matches(path, "assets/audio/");
    trim_start_matches(a.as_str(), "assets/")
}

/// Sound paths under `assets/` name bundled recordings.
pub open spec fn source_spec(path: Seq<char>) -> SourceView {
    if has_prefix(path, "assets/"@) {
        SourceView::Builtin(builtin_key_spec(path))
    } else {
        SourceView::Custom(path)
    }
}

pub fn playback_source(path: &str) -> (s: PlaybackSource)
    ensures
        s@ == source_spec(path@),
{
    if starts_with(path, "assets/") {
        PlaybackSource::Builtin(builtin_audio_key(path))
    } else {
        PlaybackSource::Custom(owned(path))
    }
}

/// The application resource holding a bundled recording.
pub fn builtin_resource_path(resource: &str) -> (r: String)
    ensures
        r@ == "/io/github/sniper1720/khushu/"@ + resource@,
{
    let mut r = owned("/io/github/sniper1720/khushu/");
    append_str(&mut r, resource);
    r
}

/// What the audio thread is doing.
#[derive(Clone, Copy, Debug, PartialEq, Eq, Structural)]
pub enum AudioPhase {
    /// Waiting for a command.
    Idle,
    /// Trying the requested sound.
    TryingRequested,
    /// The requested sound failed; trying the built-in one.
    TryingFallback,
}

#[derive(Clone, Copy, Debug, PartialEq, Eq, Structural)]
pub struct AudioPlayer {
    /// What `is_playing` reports.
    pub playing: bool,
    /// A sound is loaded in the output.
    pub sink_active: bool,
    pub phase: AudioPhase,
}

#[derive(Debug, PartialEq, Eq)]
pub enum AudioEvent {
    Play(String),
    Stop,
    /// The last attempt to load a sound succeeded or not.
    Attempt(bool),
    /// No command for 200 ms; whether the loaded sound has finished.
    Tick { sink_empty: bool },
    /// The command channel closed.
    Disconnected,
}

/// What to do after an event.
#[derive(Debug, PartialEq, Eq)]
pub struct AudioStep {
    /// Tell the interface that playback started (`true`) or stopped (`false`).
    pub notify: Option<bool>,
    /// Load this sound next, then report with `Attempt`.
    pub attempt: Option<PlaybackSource>,
    /// Stop the audio thread.
    pub exit: bool,
}

pub struct StepView {
    pub notify: Option<bool>,
    pub attempt: Option<SourceView>,
    pub exit: bool,
}

impl View for AudioStep {
    type V = StepView;

    open spec fn view(&self) -> StepView {
        StepView {
            notify: self.notify,
            attempt: match self.attempt {
                Some(s) => Some(s@),
                None => None,
            },
            exit: self.exit,
        }
    }
}

impl AudioPlayer {
    /// Nothing playing, waiting for a command.
    pub fn new() -> (p: AudioPlayer)
        ensures
            p == (AudioPlayer { playing: false, sink_active: false, phase: AudioPhase::Idle }),
    {
        AudioPlayer { playing: false, sink_active: false, phase: AudioPhase::Idle }
    }

    /// While an attempt runs playback counts as started and nothing is
    /// loaded; when idle, a loaded sound counts as playing.
    pub open spec fn wf(&self) -> bool {
        if self.phase == AudioPhase::Idle {
            self.sink_active ==> self.playing
        } else {
            self.playing && !self.sink_active
        }
    }
}

pub open spec fn accepts(p: AudioPlayer, e: AudioEvent) -> bool {
    match e {
        AudioEvent::Attempt(_) => p.phase != AudioPhase::Idle,
        _ => p.phase == AudioPhase::Idle,
    }
}

pub open spec fn no_step() -> StepView {
    StepView { notify: None, attempt: None, exit: false }
}

pub open spec fn audio_step_spec(p: AudioPlayer, e: AudioEvent) -> (AudioPlayer, StepView) {
    match e {
        AudioEvent::Play(path) => (
            AudioPlayer { playing: true, sink_active: false, phase: AudioPhase::TryingRequested },
            StepView { notify: Some(true), attempt: Some(source_spec(path@)), exit: false },
        ),
        AudioEvent::Stop => (
            AudioPlayer { playing: false, sink_active: false, phase: AudioPhase::Idle },
            StepView { notify: Some(false), attempt: None, exit: false },
        ),
        AudioEvent::Attempt(ok) => if ok {
            (AudioPlayer { playing: true, sink_active: true, phase: AudioPhase::Idle }, no_step())
        } else if p.phase == AudioPhase::TryingRequested {
            (
                AudioPlayer { phase: AudioPhase::TryingFallback, ..p },
                StepView {
                    notify: None,
                    attempt: Some(SourceView::Builtin(fallback_key())),
                    exit: false,
                },
            )
        } else {
            (
                AudioPlayer { playing: false, sink_active: false, phase: AudioPhase::Idle },
                StepView { notify: Some(false), attempt: None, exit: false },
            )
        },
        AudioEvent::Tick { sink_empty } => if p.sink_active && sink_empty {
            (
                AudioPlayer { playing: false, sink_active: false, phase: AudioPhase::Idle },
                StepView { notify: Some(false), attempt: None, exit: false },
            )
        } else {
            (p, no_step())
        },
        AudioEvent::Disconnected => (p, StepView { notify: None, attempt: None, exit: true }),
    }
}

impl AudioPlayer {
    /// Handles one event of the audio thread.
    pub fn step(&mut self, event: AudioEvent) -> (s: AudioStep)
        requires
            accepts(*old(self), event),
        ensures
            (*final(self), s@) == audio_step_spec(*old(self), event),
    {
        match event {
            AudioEvent::Play(path) => {
                self.playing = true;
                self.sink_active = false;
                self.phase = AudioPhase::TryingRequested;
                AudioStep {
                    notify: Some(true),
                    attempt: Some(playback_source(path.as_str())),
                    exit: false,
                }
            },
            AudioEvent::Stop => {
                self.playing = false;
                self.sink_active = false;
                self.phase = AudioPhase::Idle;
                AudioStep { notify: Some(false), attempt: None, exit: false }
            },
            AudioEvent::Attempt(ok) => {
                if ok {
                    self.playing = true;
                    self.sink_active = true;
                    self.phase = AudioPhase::Idle;
                    AudioStep { notify: None, attempt: None, exit: false }
                } else if self.phase == AudioPhase::TryingRequested {
                    self.phase = AudioPhase::TryingFallback;
                    let key = owned("Madinah.mp3");
                    AudioStep {
                        notify: None,
                        attempt: Some(PlaybackSource::Builtin(key)),
                        exit: false,
                    }
                } else {
                    self.playing = false;
                    self.sink_active = false;
                    self.phase = AudioPhase::Idle;
                    AudioStep { notify: Some(false), attempt: None, exit: false }
                }
            },
            AudioEvent::Tick { sink_empty } => {
                if self.sink_active && sink_empty {
                    self.playing = false;
                    self.sink_active = false;
                    self.phase = AudioPhase::Idle;
                    AudioStep { notify: Some(false), attempt: None, exit: false }
                } else {
                    AudioStep { notify: None, attempt: None, exit: false }
                }
            },
            AudioEvent::Disconnected => AudioStep { notify: None, attempt: None, exit: true },
        }
    }
}

// ------------------------------------------------------------ laws
/// Every step keeps the player consistent: a loaded sound always counts as
/// playing, and an attempt in progress counts as playing with nothing loaded.
pub proof fn lemma_step_keeps_player_consistent(p: AudioPlayer, e: AudioEvent)
    requires
        p.wf(),
        accepts(p, e),
    ensures
        audio_step_spec(p, e).0.wf(),
{
}

/// Stopping always ends playback and tells the interface so.
pub proof fn lemma_stop_ends_playback(p: AudioPlayer)
    requires
        accepts(p, AudioEvent::Stop),
    ensures
        !audio_step_spec(p, AudioEvent::Stop).0.playing,
        audio_step_spec(p, AudioEvent::Stop).1.notify == Some(false),
{
}

/// A play request that fails twice (the requested sound, then the built-in
/// one) ends with nothing playing and the interface told so; the second
/// attempt is always the built-in recording.
pub proof fn lemma_failed_play_falls_back_then_stops(p: AudioPlayer, path: String)
    requires
        p.phase == AudioPhase::Idle,
    ensures
        ({
            let (p1, s1) = audio_step_spec(p, AudioEvent::Play(path));
            let (p2, s2) = audio_step_spec(p1, AudioEvent::Attempt(false));
            let (p3, s3) = audio_step_spec(p2, AudioEvent::Attempt(false));
            &&& s1.notify == Some(true)
            &&& s2.attempt == Some(SourceView::Builtin(fallback_key()))
            &&& !p3.playing && p3.phase == AudioPhase::Idle
            &&& s3.notify == Some(false)
        }),
{
}

/// A sound that has finished ends playback at the next check.
pub proof fn lemma_finished_sound_stops(p: AudioPlayer)
    requires
        p.phase == AudioPhase::Idle,
        p.sink_active,
    ensures
        !audio_step_spec(p, AudioEvent::Tick { sink_empty: true }).0.playing,
        audio_step_spec(p, AudioEvent::Tick { sink_empty: true }).1.notify == Some(false),
{
}

} // verus!
