//! The window's state and how it answers each event: the decisions of the
//! player, apart from the work (dialogs, decoding, audio, files) that the
//! application performs for each effect returned.
//!
//! The waveform, the volume and the accent colour are carried as values of
//! type parameters: the decisions move them and never compute with them.

use vstd::prelude::*;

verus! {

/// What happened.
pub enum PlayerEvent<W, V, C> {
    /// The user asked for the file dialog.
    OpenFile,
    /// The dialog returned a file, whose file name is `name`.
    FileChosen { name: Option<String> },
    /// The dialog was closed without a file.
    DialogCancelled,
    /// The waveform of the file being opened was decoded; `name` is the file
    /// name of its path.
    WaveformReady { name: Option<String>, waveform: W },
    /// The file being opened could not be decoded.
    WaveformFailed,
    PlayPause,
    /// A click or drag on the waveform.
    Seek,
    VolumeChanged { volume: V },
    /// The periodic tick; `track_ended` is what the engine's `take_ended`
    /// answered.
    Tick { track_ended: bool },
    /// A key press; `space` tells whether it was the space bar.
    KeyPressed { space: bool },
    /// Another instance handed over a file, whose file name is `name`.
    IncomingFile { name: Option<String> },
    EndOfStream,
    ToggleSettings,
    ToggleFullWidth,
    ResizeWindow,
    /// The desktop's KDE accent colour, if it could be read.
    AccentKde { color: Option<C> },
    /// The desktop's COSMIC accent colour, if it could be read.
    AccentCosmic { color: Option<C> },
    /// The built-in accent colour.
    AccentDefault { color: C },
}

/// Work for the application, in the order given.
#[derive(Clone, Copy, Debug, PartialEq, Eq, Structural)]
pub enum Effect {
    /// Show the file dialog.
    PickFile,
    /// Decode the waveform of the file of the event.
    LoadWaveform,
    ReportLoadError,
    /// Load the track of the stored waveform into the audio engine.
    LoadTrack,
    /// Give the stored volume to the audio engine.
    ApplyVolume,
    StartPlayback,
    TogglePlayback,
    /// Seek to the clicked fraction of the stored waveform's duration.
    SeekTrack,
    /// Write the stored settings to the configuration file.
    SaveConfig,
    RewindTrack,
    /// Look for a file handed over by another instance.
    PollIpc,
    /// Give the window the width that `full_width` asks for.
    ResizeWindow,
    ReportKdeAccentMissing,
    ReportCosmicAccentMissing,
}

pub struct PlayerState<W, V, C> {
    pub waveform: Option<W>,
    pub file_name: Option<String>,
    pub volume: V,
    /// Start playback as soon as the waveform of the file being opened is
    /// ready.
    pub autoplay: bool,
    pub show_settings: bool,
    pub full_width: bool,
    pub accent: C,
}

impl<W, V, C> PlayerState<W, V, C> {
    /// The state at start-up: `opened` tells whether a file was given on the
    /// command line, `name` is its file name.
    pub open spec fn initial(opened: bool, name: Option<String>, volume: V, accent: C, full_width: bool) -> (
        Self,
        Seq<Effect>,
    ) {
        (
            PlayerState {
                waveform: None,
                file_name: name,
                volume,
                autoplay: opened,
                show_settings: false,
                full_width,
                accent,
            },
            if opened {
                seq![Effect::LoadWaveform]
            } else {
                seq![]
            },
        )
    }

    /// The next state and the work to do, for each event.
    pub open spec fn step(self, event: PlayerEvent<W, V, C>) -> (Self, Seq<Effect>) {
        match event {
            PlayerEvent::OpenFile => (self, seq![Effect::PickFile]),
            PlayerEvent::FileChosen { name } => (
                PlayerState { autoplay: false, waveform: None, file_name: name, ..self },
                seq![Effect::LoadWaveform],
            ),
            PlayerEvent::DialogCancelled => (self, seq![]),
            PlayerEvent::WaveformReady { name, waveform } => (
                PlayerState { file_name: name, waveform: Some(waveform), autoplay: false, ..self },
                if self.autoplay {
                    seq![Effect::LoadTrack, Effect::ApplyVolume, Effect::StartPlayback]
                } else {
                    seq![Effect::LoadTrack, Effect::ApplyVolume]
                },
            ),
            PlayerEvent::WaveformFailed => (self, seq![Effect::ReportLoadError]),
            PlayerEvent::PlayPause => (self, seq![Effect::TogglePlayback]),
            PlayerEvent::Seek => (
                self,
                if self.waveform is Some {
                    seq![Effect::SeekTrack]
                } else {
                    seq![]
                },
            ),
            PlayerEvent::VolumeChanged { volume } => (
                PlayerState { volume, ..self },
                seq![Effect::ApplyVolume, Effect::SaveConfig],
            ),
            PlayerEvent::Tick { track_ended } => (
                self,
                if track_ended {
                    seq![Effect::RewindTrack]
                } else {
                    seq![Effect::PollIpc]
                },
            ),
            PlayerEvent::KeyPressed { space } => (
                self,
                if space {
                    seq![Effect::TogglePlayback]
                } else {
                    seq![]
                },
            ),
            PlayerEvent::IncomingFile { name } => (
                PlayerState { autoplay: true, waveform: None, file_name: name, ..self },
                seq![Effect::LoadWaveform],
            ),
            PlayerEvent::EndOfStream => (self, seq![Effect::RewindTrack]),
            PlayerEvent::ToggleSettings => (
                PlayerState { show_settings: !self.show_settings, ..self },
                seq![],
            ),
            PlayerEvent::ToggleFullWidth => (
                PlayerState { full_width: !self.full_width, ..self },
                seq![Effect::SaveConfig, Effect::ResizeWindow],
            ),
            PlayerEvent::ResizeWindow => (self, seq![]),
            PlayerEvent::AccentKde { color } => match color {
                Some(c) => (PlayerState { accent: c, ..self }, seq![Effect::SaveConfig]),
                None => (self, seq![Effect::ReportKdeAccentMissing]),
            },
            PlayerEvent::AccentCosmic { color } => match color {
                Some(c) => (PlayerState { accent: c, ..self }, seq![Effect::SaveConfig]),
                None => (self, seq![Effect::ReportCosmicAccentMissing]),
            },
            PlayerEvent::AccentDefault { color } => (
                PlayerState { accent: color, ..self },
                seq![Effect::SaveConfig],
            ),
        }
    }

    /// The state at start-up and the work to do first: decode the file given
    /// on the command line, if any.
    pub fn new(opened: bool, name: Option<String>, volume: V, accent: C, full_width: bool) -> (r: (
        Self,
        Vec<Effect>,
    ))
        ensures
            (r.0, r.1@) == Self::initial(opened, name, volume, accent, full_width),
    {
        let effects = if opened {
            vec![Effect::LoadWaveform]
        } else {
            vec![]
        };
        (
            PlayerState {
                waveform: None,
                file_name: name,
                volume,
                autoplay: opened,
                show_settings: false,
                full_width,
                accent,
            },
            effects,
        )
    }

    /// Answers `event`: updates the state and returns the work to do.
    pub fn update(&mut self, event: PlayerEvent<W, V, C>) -> (effects: Vec<Effect>)
        ensures
            (*final(self), effects@) == old(self).step(event),
    {
        match event {
            PlayerEvent::OpenFile => vec![Effect::PickFile],
            PlayerEvent::FileChosen { name } => {
                self.autoplay = false;
                self.waveform = None;
                self.file_name = name;
                vec![Effect::LoadWaveform]
            },
            PlayerEvent::DialogCancelled => vec![],
            PlayerEvent::WaveformReady { name, waveform } => {
                self.file_name = name;
                self.waveform = Some(waveform);
                if self.autoplay {
                    self.autoplay = false;
                    vec![Effect::LoadTrack, Effect::ApplyVolume, Effect::StartPlayback]
                } else {
                    vec![Effect::LoadTrack, Effect::ApplyVolume]
                }
            },
            PlayerEvent::WaveformFailed => vec![Effect::ReportLoadError],
            PlayerEvent::PlayPause => vec![Effect::TogglePlayback],
            PlayerEvent::Seek => {
                if self.waveform.is_some() {
                    vec![Effect::SeekTrack]
                } else {
                    vec![]
                }
            },
            PlayerEvent::VolumeChanged { volume } => {
                self.volume = volume;
                vec![Effect::ApplyVolume, Effect::SaveConfig]
            },
            PlayerEvent::Tick { track_ended } => {
                if track_ended {
                    vec![Effect::RewindTrack]
                } else {
                    vec![Effect::PollIpc]
                }
            },
            PlayerEvent::KeyPressed { space } => {
                if space {
                    vec![Effect::TogglePlayback]
                } else {
                    vec![]
                }
            },
            PlayerEvent::IncomingFile { name } => {
                self.autoplay = true;
                self.waveform = None;
                self.file_name = name;
                vec![Effect::LoadWaveform]
            },
            PlayerEvent::EndOfStream => vec![Effect::RewindTrack],
            PlayerEvent::ToggleSettings => {
                self.show_settings = !self.show_settings;
                vec![]
            },
            PlayerEvent::ToggleFullWidth => {
                self.full_width = !self.full_width;
                vec![Effect::SaveConfig, Effect::ResizeWindow]
            },
            PlayerEvent::ResizeWindow => vec![],
            PlayerEvent::AccentKde { color } => match color {
                Some(c) => {
                    self.accent = c;
                    vec![Effect::SaveConfig]
                },
                None => vec![Effect::ReportKdeAccentMissing],
            },
            PlayerEvent::AccentCosmic { color } => match color {
                Some(c) => {
                    self.accent = c;
                    vec![Effect::SaveConfig]
                },
                None => vec![Effect::ReportCosmicAccentMissing],
            },
            PlayerEvent::AccentDefault { color } => {
                self.accent = color;
                vec![Effect::SaveConfig]
            },
        }
    }
}


// ---- laws ------------------------------------------------------------------

/// A file handed over by another instance (from the file manager) starts
/// playing as soon as its waveform is ready, once.
pub proof fn lemma_incoming_file_autoplays<W, V, C>(
    s: PlayerState<W, V, C>,
    name: Option<String>,
    ready_name: Option<String>,
    waveform: W,
)
    ensures
        ({
            let (t, e1) = s.step(PlayerEvent::IncomingFile { name });
            let (u, e2) = t.step(PlayerEvent::WaveformReady { name: ready_name, waveform });
            &&& e1 == seq![Effect::LoadWaveform]
            &&& t.waveform is None
            &&& e2 == seq![Effect::LoadTrack, Effect::ApplyVolume, Effect::StartPlayback]
            &&& u.waveform == Some(waveform)
            &&& !u.autoplay
        }),
{
}

/// A file picked in the dialog is loaded paused.
pub proof fn lemma_chosen_file_loads_paused<W, V, C>(
    s: PlayerState<W, V, C>,
    name: Option<String>,
    ready_name: Option<String>,
    waveform: W,
)
    ensures
        ({
            let (t, _) = s.step(PlayerEvent::FileChosen { name });
            let (_, e2) = t.step(PlayerEvent::WaveformReady { name: ready_name, waveform });
            e2 == seq![Effect::LoadTrack, Effect::ApplyVolume]
        }),
{
}

/// A file given on the command line plays as soon as its waveform is ready;
/// without one, nothing is loaded.
pub proof fn lemma_command_line_file_autoplays<W, V, C>(
    name: Option<String>,
    volume: V,
    accent: C,
    full_width: bool,
    ready_name: Option<String>,
    waveform: W,
)
    ensures
        ({
            let (s, e0) = PlayerState::<W, V, C>::initial(true, name, volume, accent, full_width);
            let (_, e1) = s.step(PlayerEvent::WaveformReady { name: ready_name, waveform });
            &&& e0 == seq![Effect::LoadWaveform]
            &&& e1 == seq![Effect::LoadTrack, Effect::ApplyVolume, Effect::StartPlayback]
        }),
        PlayerState::<W, V, C>::initial(false, name, volume, accent, full_width).1 == Seq::<
            Effect,
        >::empty(),
{
}

/// The space bar and the play button both toggle playback; other keys do
/// nothing.
pub proof fn lemma_space_toggles<W, V, C>(s: PlayerState<W, V, C>)
    ensures
        s.step(PlayerEvent::KeyPressed { space: true }) == (s, seq![Effect::TogglePlayback]),
        s.step(PlayerEvent::PlayPause) == (s, seq![Effect::TogglePlayback]),
        s.step(PlayerEvent::KeyPressed { space: false }) == (s, Seq::<Effect>::empty()),
{
}

/// Without a waveform, clicks on the waveform seek nowhere.
pub proof fn lemma_seek_needs_waveform<W, V, C>(s: PlayerState<W, V, C>)
    ensures
        s.step(PlayerEvent::Seek).1 == (if s.waveform is Some {
            seq![Effect::SeekTrack]
        } else {
            Seq::<Effect>::empty()
        }),
{
}

/// Every change of a saved setting (volume, full width, accent colour) is
/// written out, and nothing else writes the configuration.
pub proof fn lemma_settings_saved_on_change<W, V, C>(
    s: PlayerState<W, V, C>,
    e: PlayerEvent<W, V, C>,
)
    ensures
        ({
            let (t, effects) = s.step(e);
            (t.volume != s.volume || t.full_width != s.full_width || t.accent != s.accent)
                ==> effects.contains(Effect::SaveConfig)
        }),
        s.step(e).1.contains(Effect::SaveConfig) ==> (e is VolumeChanged || e is ToggleFullWidth
            || e is AccentKde || e is AccentCosmic || e is AccentDefault),
{
    let (t, effects) = s.step(e);
    match e {
        PlayerEvent::VolumeChanged { .. } => {
            assert(effects[1] == Effect::SaveConfig);
        },
        PlayerEvent::ToggleFullWidth => {
            assert(effects[0] == Effect::SaveConfig);
        },
        PlayerEvent::AccentKde { color } => {
            if color is Some {
                assert(effects[0] == Effect::SaveConfig);
            } else {
                assert(effects[0] != Effect::SaveConfig);
            }
        },
        PlayerEvent::AccentCosmic { color } => {
            if color is Some {
                assert(effects[0] == Effect::SaveConfig);
            } else {
                assert(effects[0] != Effect::SaveConfig);
            }
        },
        PlayerEvent::AccentDefault { .. } => {
            assert(effects[0] == Effect::SaveConfig);
        },
        PlayerEvent::WaveformReady { .. } => {
            if s.autoplay {
                assert(effects[0] != Effect::SaveConfig);
                assert(effects[1] != Effect::SaveConfig);
                assert(effects[2] != Effect::SaveConfig);
            } else {
                assert(effects[0] != Effect::SaveConfig);
                assert(effects[1] != Effect::SaveConfig);
            }
        },
        _ => {
            if effects.len() > 0 {
                assert(effects[0] != Effect::SaveConfig);
            }
        },
    }
}

/// Opening the settings panel twice closes it again.
pub proof fn lemma_settings_panel_toggles<W, V, C>(s: PlayerState<W, V, C>)
    ensures
        s.step(PlayerEvent::ToggleSettings).0.step(PlayerEvent::ToggleSettings).0 == s,
{
}

/// The end of the track, seen on a tick, rewinds it; otherwise the tick
/// looks for a handed-over file. Neither changes the window's state.
pub proof fn lemma_tick<W, V, C>(s: PlayerState<W, V, C>, ended: bool)
    ensures
        s.step(PlayerEvent::Tick { track_ended: ended }).0 == s,
        s.step(PlayerEvent::Tick { track_ended: true }).1 == s.step(PlayerEvent::EndOfStream).1,
        s.step(PlayerEvent::Tick { track_ended: false }).1 == seq![Effect::PollIpc],
{
}

/// The switches flip: full-width mode and the settings panel each turn to
/// the other state (so toggling twice restores them), and nothing else
/// changes.
pub proof fn lemma_toggles_flip<W, V, C>(s: PlayerState<W, V, C>)
    ensures
        ({
            let t = s.step(PlayerEvent::ToggleFullWidth).0;
            &&& t.full_width == !s.full_width
            &&& t.show_settings == s.show_settings && t.autoplay == s.autoplay
            &&& t.volume == s.volume && t.accent == s.accent && t.waveform == s.waveform
            &&& t.file_name == s.file_name
        }),
        ({
            let t = s.step(PlayerEvent::ToggleSettings).0;
            &&& t.show_settings == !s.show_settings
            &&& t.full_width == s.full_width && t.autoplay == s.autoplay
            &&& t.volume == s.volume && t.accent == s.accent && t.waveform == s.waveform
            &&& t.file_name == s.file_name
        }),
        s.step(PlayerEvent::ToggleFullWidth).0.step(PlayerEvent::ToggleFullWidth).0 == s,
{
}

/// What each event changes in the window's state; every event not listed
/// leaves it as it was.
pub proof fn lemma_event_state_changes<W, V, C>(
    s: PlayerState<W, V, C>,
    name: Option<String>,
    w: W,
    v: V,
    c: C,
    e: PlayerEvent<W, V, C>,
)
    ensures
        ({
            let t = s.step(PlayerEvent::FileChosen { name });
            &&& !t.0.autoplay && t.0.waveform is None && t.0.file_name == name
            &&& t.0.volume == s.volume && t.0.accent == s.accent && t.0.full_width == s.full_width
                && t.0.show_settings == s.show_settings
        }),
        ({
            let t = s.step(PlayerEvent::IncomingFile { name });
            &&& t.0.autoplay && t.0.waveform is None && t.0.file_name == name
            &&& t.0.volume == s.volume && t.0.accent == s.accent && t.0.full_width == s.full_width
                && t.0.show_settings == s.show_settings
        }),
        ({
            let (t, effects) = s.step(PlayerEvent::WaveformReady { name, waveform: w });
            &&& t.waveform == Some(w) && t.file_name == name && !t.autoplay
            &&& effects.contains(Effect::StartPlayback) == s.autoplay
            &&& effects[0] == Effect::LoadTrack
            &&& t.volume == s.volume && t.accent == s.accent && t.full_width == s.full_width
                && t.show_settings == s.show_settings
        }),
        ({
            let t = s.step(PlayerEvent::VolumeChanged { volume: v }).0;
            &&& t.volume == v
            &&& t.accent == s.accent && t.full_width == s.full_width && t.autoplay == s.autoplay
                && t.waveform == s.waveform && t.file_name == s.file_name && t.show_settings
                == s.show_settings
        }),
        s.step(PlayerEvent::AccentKde { color: Some(c) }).0.accent == c,
        s.step(PlayerEvent::AccentCosmic { color: Some(c) }).0.accent == c,
        s.step(PlayerEvent::AccentDefault { color: c }).0.accent == c,
        s.step(PlayerEvent::AccentKde { color: None }).0 == s,
        s.step(PlayerEvent::AccentCosmic { color: None }).0 == s,
        (e is OpenFile || e is DialogCancelled || e is WaveformFailed || e is PlayPause || e is Seek
            || e is Tick || e is KeyPressed || e is EndOfStream || e is ResizeWindow) ==> s.step(
            e,
        ).0 == s,
{
    let (t, effects) = s.step(PlayerEvent::WaveformReady { name, waveform: w });
    if s.autoplay {
        assert(effects[2] == Effect::StartPlayback);
    } else {
        assert(effects[0] != Effect::StartPlayback);
        assert(effects[1] != Effect::StartPlayback);
    }
}

} // verus!
