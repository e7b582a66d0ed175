//! The playback state that the audio engine shares with its decoding
//! thread, and every decision taken on it.
//!
//! Positions are held as values of a type parameter `P`: the state moves
//! them from one field to another and never computes with them, so any
//! representation of a time (seconds as a float, for the engine) fits.

use vstd::prelude::*;

verus! {

/// How many times `play` and `toggle_play_pause` look for the decoder's
/// sink before they give up waiting for it.
pub const MAX_SINK_WAIT_ATTEMPTS: u32 = 50;

/// The decoder keeps at most this many buffers queued ahead of playback.
pub const MAX_QUEUED_BUFFERS: usize = 8;

/// What to tell the audio sink.
#[derive(Clone, Copy, Debug, PartialEq, Eq, Structural)]
pub enum SinkCommand {
    Play,
    Pause,
}

/// What the decoding thread of a given generation does next.
#[derive(Clone, Copy, Debug, PartialEq, Eq)]
pub enum DecoderStep<P> {
    /// The thread belongs to an older track, or playback was stopped.
    Exit,
    /// Seek to this position (the request has been taken).
    Seek(P),
    /// Keep the sink in the given playing state; decode only when playing.
    Run { playing: bool },
}

/// What the decoding thread does once its queue has room.
#[derive(Clone, Copy, Debug, PartialEq, Eq, Structural)]
pub enum DecodeGate {
    Exit,
    /// A seek came in meanwhile: go back to the top of the loop.
    Retry,
    Decode,
}

/// What a seek request turned into.
#[derive(Clone, Copy, Debug, PartialEq, Eq, Structural)]
pub enum SeekOutcome {
    /// The running decoder will perform it.
    Queued,
    /// The track had ended: a new decoder of this generation must be started
    /// at the requested position (paused).
    Restart(u64),
}

/// The shared playback state of the engine.
#[derive(Clone, Copy, Debug)]
pub struct PlaybackState<P> {
    pub position: P,
    pub is_playing: bool,
    /// A seek that the decoding thread has not performed yet.
    pub seek_target: Option<P>,
    /// The track played to its end.
    pub ended: bool,
    /// The end was already reported by `take_ended`.
    pub end_notified: bool,
    /// Bumped each time a new decoding thread is started; a thread works only
    /// while the generation is still its own.
    pub generation: u64,
    /// Set while playback is being torn down; no thread works meanwhile.
    pub stopped: bool,
}

/// The generation after `g` (the counter wraps around).
pub open spec fn next_generation(g: u64) -> u64 {
    if g == u64::MAX {
        0
    } else {
        (g + 1) as u64
    }
}

pub open spec fn sink_adjustment_spec(is_playing: bool, sink_paused: bool) -> Option<SinkCommand> {
    if is_playing && sink_paused {
        Some(SinkCommand::Play)
    } else if !is_playing && !sink_paused {
        Some(SinkCommand::Pause)
    } else {
        None
    }
}

/// The command that brings a sink that is `sink_paused` in line with
/// `is_playing`, if one is needed.
pub fn sink_adjustment(is_playing: bool, sink_paused: bool) -> (r: Option<SinkCommand>)
    ensures
        r == sink_adjustment_spec(is_playing, sink_paused),
{
    if is_playing && sink_paused {
        Some(SinkCommand::Play)
    } else if !is_playing && !sink_paused {
        Some(SinkCommand::Pause)
    } else {
        None
    }
}

/// Whether to stop waiting for the sink: it is there, or the attempts ran
/// out.
pub fn sink_wait_over(sink_ready: bool, attempts: u32) -> (r: bool)
    ensures
        r == (sink_ready || attempts > MAX_SINK_WAIT_ATTEMPTS),
{
    sink_ready || attempts > MAX_SINK_WAIT_ATTEMPTS
}

impl<P> PlaybackState<P> {
    // ---- the transitions, as spec functions --------------------------------

    pub open spec fn initial(zero: P) -> Self {
        PlaybackState {
            position: zero,
            is_playing: false,
            seek_target: None,
            ended: false,
            end_notified: false,
            generation: 0,
            stopped: false,
        }
    }

    /// The end is reported only after the track ended.
    pub open spec fn wf(self) -> bool {
        self.end_notified ==> self.ended
    }

    pub open spec fn current_for(self, generation: u64) -> bool {
        self.generation == generation && !self.stopped
    }

    pub open spec fn halted(self) -> Self {
        PlaybackState { stopped: true, ..self }
    }

    pub open spec fn loaded(self, zero: P) -> Self {
        PlaybackState {
            position: zero,
            is_playing: false,
            seek_target: None,
            ended: false,
            end_notified: false,
            generation: next_generation(self.generation),
            stopped: false,
        }
    }

    pub open spec fn stopped_at(self, zero: P) -> Self {
        PlaybackState {
            stopped: true,
            is_playing: false,
            position: zero,
            ended: false,
            end_notified: false,
            ..self
        }
    }

    pub open spec fn rewound(self, zero: P) -> Self {
        PlaybackState { ended: false, end_notified: false, is_playing: false, position: zero, ..self }
    }

    pub open spec fn restarted(self, start: P, play: bool) -> Self {
        PlaybackState {
            ended: false,
            end_notified: false,
            seek_target: None,
            position: start,
            is_playing: play,
            generation: next_generation(self.generation),
            stopped: false,
        }
    }

    pub open spec fn played(self) -> Self {
        PlaybackState { is_playing: true, ..self }
    }

    pub open spec fn toggled(self) -> (Self, SinkCommand) {
        if self.ended {
            (
                PlaybackState { ended: false, end_notified: false, is_playing: true, ..self },
                SinkCommand::Play,
            )
        } else {
            (
                PlaybackState { is_playing: !self.is_playing, ..self },
                if !self.is_playing {
                    SinkCommand::Play
                } else {
                    SinkCommand::Pause
                },
            )
        }
    }

    pub open spec fn sought(self, target: P) -> (Self, SeekOutcome) {
        if self.ended {
            (
                self.restarted(target, false),
                SeekOutcome::Restart(next_generation(self.generation)),
            )
        } else {
            (PlaybackState { seek_target: Some(target), position: target, ..self }, SeekOutcome::Queued)
        }
    }

    pub open spec fn end_taken(self) -> (Self, bool) {
        if self.ended && !self.end_notified {
            (PlaybackState { end_notified: true, is_playing: false, ..self }, true)
        } else {
            (self, false)
        }
    }

    pub open spec fn stepped(self, generation: u64) -> (Self, DecoderStep<P>) {
        if !self.current_for(generation) {
            (self, DecoderStep::Exit)
        } else {
            match self.seek_target {
                Some(t) => (PlaybackState { seek_target: None, ..self }, DecoderStep::Seek(t)),
                None => (self, DecoderStep::Run { playing: self.is_playing }),
            }
        }
    }

    pub open spec fn gate(self, generation: u64) -> DecodeGate {
        if !self.current_for(generation) {
            DecodeGate::Exit
        } else if self.seek_target is Some {
            DecodeGate::Retry
        } else {
            DecodeGate::Decode
        }
    }

    pub open spec fn finished(self, generation: u64, zero: P) -> (Self, bool) {
        if self.current_for(generation) {
            (
                PlaybackState {
                    is_playing: false,
                    ended: true,
                    end_notified: false,
                    seek_target: Some(zero),
                    position: zero,
                    ..self
                },
                true,
            )
        } else {
            (self, false)
        }
    }
}

fn next_gen(g: u64) -> (r: u64)
    ensures
        r == next_generation(g),
{
    if g == u64::MAX {
        0
    } else {
        g + 1
    }
}

impl<P: Copy> PlaybackState<P> {
    /// Nothing loaded, not playing, at position `zero`.
    pub fn new(zero: P) -> (s: Self)
        ensures
            s == Self::initial(zero),
    {
        PlaybackState {
            position: zero,
            is_playing: false,
            seek_target: None,
            ended: false,
            end_notified: false,
            generation: 0,
            stopped: false,
        }
    }

    pub fn is_playing(&self) -> (b: bool)
        ensures
            b == self.is_playing,
    {
        self.is_playing
    }

    pub fn position(&self) -> (p: P)
        ensures
            p == self.position,
    {
        self.position
    }

    /// Whether a thread started for `generation` may still work.
    pub fn is_current(&self, generation: u64) -> (b: bool)
        ensures
            b == self.current_for(generation),
    {
        self.generation == generation && !self.stopped
    }

    /// Tells every decoding thread to stand still while the sink is torn
    /// down.
    pub fn halt(&mut self)
        ensures
            *final(self) == old(self).halted(),
    {
        self.stopped = true;
    }

    /// A new track: reset to `zero`, paused, and return the generation of
    /// the decoding thread to start for it.
    pub fn load(&mut self, zero: P) -> (generation: u64)
        ensures
            *final(self) == old(self).loaded(zero),
            generation == final(self).generation,
    {
        let g = next_gen(self.generation);
        *self = PlaybackState {
            position: zero,
            is_playing: false,
            seek_target: None,
            ended: false,
            end_notified: false,
            generation: g,
            stopped: false,
        };
        g
    }

    /// Stops playback and returns to `zero`; no thread stays current.
    pub fn stop(&mut self, zero: P)
        ensures
            *final(self) == old(self).stopped_at(zero),
    {
        self.stopped = true;
        self.is_playing = false;
        self.position = zero;
        self.ended = false;
        self.end_notified = false;
    }

    /// Back to `zero`, paused, after the end of the track was reported.
    pub fn rewind(&mut self, zero: P)
        ensures
            *final(self) == old(self).rewound(zero),
    {
        self.ended = false;
        self.end_notified = false;
        self.is_playing = false;
        self.position = zero;
    }

    /// Starts over from `start`: returns the generation of the decoding
    /// thread to start there (if a track is loaded).
    pub fn restart(&mut self, start: P, play: bool) -> (generation: u64)
        ensures
            *final(self) == old(self).restarted(start, play),
            generation == final(self).generation,
    {
        let g = next_gen(self.generation);
        *self = PlaybackState {
            ended: false,
            end_notified: false,
            seek_target: None,
            position: start,
            is_playing: play,
            generation: g,
            stopped: false,
        };
        g
    }

    pub fn play(&mut self)
        ensures
            *final(self) == old(self).played(),
    {
        self.is_playing = true;
    }

    /// Flips between playing and paused; after the end of the track, plays
    /// again. Returns what the sink must do.
    pub fn toggle_play_pause(&mut self) -> (cmd: SinkCommand)
        ensures
            (*final(self), cmd) == old(self).toggled(),
    {
        if self.ended {
            self.ended = false;
            self.end_notified = false;
            self.is_playing = true;
            SinkCommand::Play
        } else {
            self.is_playing = !self.is_playing;
            if self.is_playing {
                SinkCommand::Play
            } else {
                SinkCommand::Pause
            }
        }
    }

    /// Asks for playback to continue from `target`.
    pub fn seek(&mut self, target: P) -> (outcome: SeekOutcome)
        ensures
            (*final(self), outcome) == old(self).sought(target),
    {
        if self.ended {
            let g = self.restart(target, false);
            SeekOutcome::Restart(g)
        } else {
            self.seek_target = Some(target);
            self.position = target;
            SeekOutcome::Queued
        }
    }

    /// Reports the end of the track once: true the first time after the
    /// track ended, and playback is then paused.
    pub fn take_ended(&mut self) -> (ended: bool)
        ensures
            (*final(self), ended) == old(self).end_taken(),
    {
        if self.ended && !self.end_notified {
            self.end_notified = true;
            self.is_playing = false;
            true
        } else {
            false
        }
    }

    /// The next step of the decoding thread of `generation`.
    pub fn decoder_step(&mut self, generation: u64) -> (step: DecoderStep<P>)
        ensures
            (*final(self), step) == old(self).stepped(generation),
    {
        if !(self.generation == generation && !self.stopped) {
            return DecoderStep::Exit;
        }
        match self.seek_target.take() {
            Some(t) => DecoderStep::Seek(t),
            None => DecoderStep::Run { playing: self.is_playing },
        }
    }

    /// Records where the decoder is.
    pub fn set_position(&mut self, position: P)
        ensures
            *final(self) == (PlaybackState { position, ..*old(self) }),
    {
        self.position = position;
    }

    pub fn seek_pending(&self) -> (b: bool)
        ensures
            b == self.seek_target is Some,
    {
        self.seek_target.is_some()
    }

    /// Whether the decoder of `generation` keeps waiting while `queued`
    /// buffers are ahead of playback.
    pub fn keep_buffering(&self, generation: u64, queued: usize) -> (b: bool)
        ensures
            b == (self.current_for(generation) && self.seek_target is None && queued
                >= MAX_QUEUED_BUFFERS),
    {
        self.is_current(generation) && self.seek_target.is_none() && queued >= MAX_QUEUED_BUFFERS
    }

    /// Whether the decoder of `generation` decodes the next packet.
    pub fn decode_gate(&self, generation: u64) -> (g: DecodeGate)
        ensures
            g == self.gate(generation),
    {
        if !self.is_current(generation) {
            DecodeGate::Exit
        } else if self.seek_target.is_some() {
            DecodeGate::Retry
        } else {
            DecodeGate::Decode
        }
    }

    /// Whether the decoder of `generation`, at the end of the stream, keeps
    /// waiting for the `queued` buffers to play out.
    pub fn keep_draining(&self, generation: u64, queued: usize) -> (b: bool)
        ensures
            b == (self.current_for(generation) && queued != 0),
    {
        self.is_current(generation) && queued != 0
    }

    /// The decoder of `generation` played the whole track: if it is still
    /// current, mark the end and queue a rewind to `zero`.
    pub fn finish_track(&mut self, generation: u64, zero: P) -> (marked: bool)
        ensures
            (*final(self), marked) == old(self).finished(generation, zero),
    {
        if self.is_current(generation) {
            self.is_playing = false;
            self.ended = true;
            self.end_notified = false;
            self.seek_target = Some(zero);
            self.position = zero;
            true
        } else {
            false
        }
    }
}


// ---- laws ------------------------------------------------------------------

/// Every operation keeps the end reported only after the track ended.
pub proof fn lemma_operations_keep_wf<P>(s: PlaybackState<P>, zero: P, target: P, play: bool, g: u64)
    requires
        s.wf(),
    ensures
        PlaybackState::<P>::initial(zero).wf(),
        s.halted().wf(),
        s.loaded(zero).wf(),
        s.stopped_at(zero).wf(),
        s.rewound(zero).wf(),
        s.restarted(target, play).wf(),
        s.played().wf(),
        s.toggled().0.wf(),
        s.sought(target).0.wf(),
        s.end_taken().0.wf(),
        s.stepped(g).0.wf(),
        (PlaybackState { position: target, ..s }).wf(),
        s.finished(g, zero).0.wf(),
{
}

/// Loading a track or starting over retires the decoding thread that was
/// running: its generation is no longer current, the new one is.
pub proof fn lemma_new_decoder_retires_old<P>(s: PlaybackState<P>, zero: P, start: P, play: bool)
    ensures
        !s.loaded(zero).current_for(s.generation),
        s.loaded(zero).current_for(s.loaded(zero).generation),
        !s.restarted(start, play).current_for(s.generation),
        s.restarted(start, play).current_for(s.restarted(start, play).generation),
{
}

/// A thread that is not current changes nothing and is told to exit.
pub proof fn lemma_stale_decoder_is_inert<P>(s: PlaybackState<P>, g: u64, zero: P)
    requires
        !s.current_for(g),
    ensures
        s.stepped(g) == (s, DecoderStep::<P>::Exit),
        s.gate(g) == DecodeGate::Exit,
        s.finished(g, zero) == (s, false),
{
}

/// After `stop` and while halted, no decoding thread is current.
pub proof fn lemma_stop_retires_every_decoder<P>(s: PlaybackState<P>, zero: P, g: u64)
    ensures
        !s.stopped_at(zero).current_for(g),
        !s.halted().current_for(g),
{
}

/// When the current decoder reaches the end of the track, the end is
/// reported exactly once, and playback is then paused at the start.
pub proof fn lemma_end_reported_once<P>(s: PlaybackState<P>, g: u64, zero: P)
    requires
        s.current_for(g),
    ensures
        ({
            let t = s.finished(g, zero).0;
            let (u, first) = t.end_taken();
            let (_, second) = u.end_taken();
            &&& first
            &&& !second
            &&& !u.is_playing
            &&& u.position == zero
            &&& u.seek_target == Some(zero)
        }),
{
}

/// `take_ended` reports nothing twice in a row.
pub proof fn lemma_take_ended_idempotent<P>(s: PlaybackState<P>)
    requires
        s.wf(),
    ensures
        !s.end_taken().0.end_taken().1,
        s.end_taken().0.end_taken().0 == s.end_taken().0,
{
}

/// Toggling twice during a track restores the playing state, and the two
/// sink commands are opposite.
pub proof fn lemma_toggle_twice<P>(s: PlaybackState<P>)
    requires
        !s.ended,
    ensures
        s.toggled().0.toggled().0 == s,
        s.toggled().1 != s.toggled().0.toggled().1,
        s.toggled().1 == (if s.is_playing { SinkCommand::Pause } else { SinkCommand::Play }),
{
}

/// Play/pause after the end of the track plays it again.
pub proof fn lemma_toggle_after_end_plays<P>(s: PlaybackState<P>)
    requires
        s.ended,
    ensures
        s.toggled().0.is_playing,
        !s.toggled().0.ended,
        s.toggled().1 == SinkCommand::Play,
{
}

/// A seek during a track shows at once in the position, and the current
/// decoder picks it up on its next step, exactly once.
pub proof fn lemma_seek_reaches_decoder<P>(s: PlaybackState<P>, target: P, g: u64)
    requires
        !s.ended,
        s.current_for(g),
    ensures
        ({
            let (t, outcome) = s.sought(target);
            let (u, step) = t.stepped(g);
            &&& outcome == SeekOutcome::Queued
            &&& t.position == target
            &&& step == DecoderStep::Seek(target)
            &&& u.stepped(g).1 == DecoderStep::<P>::Run { playing: s.is_playing }
        }),
{
}

/// A seek after the end of the track starts a new, paused decoder at the
/// target.
pub proof fn lemma_seek_after_end_restarts<P>(s: PlaybackState<P>, target: P)
    requires
        s.ended,
    ensures
        ({
            let (t, outcome) = s.sought(target);
            &&& outcome == SeekOutcome::Restart(t.generation)
            &&& t.current_for(t.generation)
            &&& !t.is_playing
            &&& !t.ended
            &&& t.position == target
            &&& t.seek_target is None
        }),
{
}

/// The sink is commanded only when it disagrees with the playing state, and
/// the command brings it in line.
pub proof fn lemma_sink_adjustment_agrees(is_playing: bool, sink_paused: bool)
    ensures
        sink_adjustment_spec(is_playing, sink_paused) is None <==> (is_playing == !sink_paused),
        sink_adjustment_spec(is_playing, sink_paused) == Some(SinkCommand::Play) ==> is_playing,
        sink_adjustment_spec(is_playing, sink_paused) == Some(SinkCommand::Pause) ==> !is_playing,
{
}

/// `take_ended` reports a pending end once: it answers true exactly when the
/// track ended and the end was not reported yet, and then only marks the end
/// reported and pauses; otherwise it answers false and changes nothing (a
/// playing track keeps playing).
pub proof fn lemma_take_ended_effect<P>(s: PlaybackState<P>)
    ensures
        s.end_taken().1 == (s.ended && !s.end_notified),
        !(s.ended && !s.end_notified) ==> s.end_taken() == (s, false),
        s.ended && !s.end_notified ==> ({
            let t = s.end_taken().0;
            &&& t.end_notified
            &&& !t.is_playing
            &&& t.ended
            &&& t.position == s.position
            &&& t.seek_target == s.seek_target
            &&& t.generation == s.generation
            &&& t.stopped == s.stopped
        }),
{
}

/// Loading a track resets it to the start, paused, with no pending seek and
/// no end, and makes a new generation current; starting over does the same
/// at `start`, playing or not as asked.
pub proof fn lemma_load_and_restart_effect<P>(s: PlaybackState<P>, zero: P, start: P, play: bool)
    ensures
        ({
            let t = s.loaded(zero);
            &&& t.position == zero
            &&& !t.is_playing
            &&& t.seek_target is None
            &&& !t.ended
            &&& !t.end_notified
            &&& !t.stopped
            &&& t.generation != s.generation
            &&& t.generation == (if s.generation == u64::MAX { 0 } else { (s.generation + 1) as u64 })
        }),
        ({
            let t = s.restarted(start, play);
            &&& t.position == start
            &&& t.is_playing == play
            &&& t.seek_target is None
            &&& !t.ended
            &&& !t.end_notified
            &&& !t.stopped
            &&& t.generation != s.generation
            &&& t.generation == s.loaded(zero).generation
        }),
{
}

/// What `stop`, `rewind`, `play`, `halt` and `set_position` change, and
/// that they change nothing else.
pub proof fn lemma_simple_operations_effect<P>(s: PlaybackState<P>, zero: P, p: P)
    ensures
        ({
            let t = s.stopped_at(zero);
            &&& t.stopped && !t.is_playing && t.position == zero && !t.ended && !t.end_notified
            &&& t.seek_target == s.seek_target && t.generation == s.generation
        }),
        ({
            let t = s.rewound(zero);
            &&& !t.is_playing && t.position == zero && !t.ended && !t.end_notified
            &&& t.seek_target == s.seek_target && t.generation == s.generation && t.stopped
                == s.stopped
        }),
        ({
            let t = s.played();
            &&& t.is_playing
            &&& t.position == s.position && t.seek_target == s.seek_target && t.ended == s.ended
            &&& t.end_notified == s.end_notified && t.generation == s.generation && t.stopped
                == s.stopped
        }),
        ({
            let t = s.halted();
            &&& t.stopped
            &&& t.position == s.position && t.is_playing == s.is_playing && t.seek_target
                == s.seek_target
            &&& t.ended == s.ended && t.end_notified == s.end_notified && t.generation
                == s.generation
        }),
{
}

/// Play/pause flips the playing state during a track (and tells the sink to
/// match it), plays after the end, and changes nothing else.
pub proof fn lemma_toggle_effect<P>(s: PlaybackState<P>)
    ensures
        ({
            let (t, cmd) = s.toggled();
            &&& t.is_playing == (s.ended || !s.is_playing)
            &&& (cmd == SinkCommand::Play) == t.is_playing
            &&& !t.ended
            &&& (s.ended ==> !t.end_notified)
            &&& (!s.ended ==> t.end_notified == s.end_notified)
            &&& t.position == s.position && t.seek_target == s.seek_target
            &&& t.generation == s.generation && t.stopped == s.stopped
        }),
{
}

/// A seek during a track moves the position to the target at once and
/// leaves the request for the decoder; after the end it starts over there,
/// paused, with a new generation that it returns.
pub proof fn lemma_seek_effect<P>(s: PlaybackState<P>, target: P)
    ensures
        ({
            let (t, outcome) = s.sought(target);
            &&& t.position == target
            &&& (!s.ended ==> outcome == SeekOutcome::Queued && t.seek_target == Some(target)
                && t.is_playing == s.is_playing && t.generation == s.generation && t.stopped
                == s.stopped && t.ended == s.ended && t.end_notified == s.end_notified)
            &&& (s.ended ==> outcome == SeekOutcome::Restart(t.generation) && t.seek_target is None
                && !t.is_playing && !t.ended && !t.end_notified && t.generation != s.generation
                && !t.stopped)
        }),
{
}

/// The decoder of a generation works only while it is current: it takes a
/// pending seek (clearing it) before anything else, else runs in the
/// playing state; at the end of the stream it marks the end and queues a
/// rewind to the start.
pub proof fn lemma_decoder_effect<P>(s: PlaybackState<P>, g: u64, zero: P)
    ensures
        ({
            let (t, step) = s.stepped(g);
            &&& (step == DecoderStep::<P>::Exit) == !(s.generation == g && !s.stopped)
            &&& (s.generation == g && !s.stopped && s.seek_target is Some) ==> (step
                == DecoderStep::Seek(s.seek_target->0) && t == PlaybackState {
                seek_target: None,
                ..s
            })
            &&& (s.generation == g && !s.stopped && s.seek_target is None) ==> (step
                == DecoderStep::<P>::Run { playing: s.is_playing } && t == s)
            &&& !(s.generation == g && !s.stopped) ==> t == s
        }),
        s.gate(g) == (if !(s.generation == g && !s.stopped) {
            DecodeGate::Exit
        } else if s.seek_target is Some {
            DecodeGate::Retry
        } else {
            DecodeGate::Decode
        }),
        ({
            let (t, marked) = s.finished(g, zero);
            &&& marked == (s.generation == g && !s.stopped)
            &&& marked ==> (t.ended && !t.end_notified && !t.is_playing && t.position == zero
                && t.seek_target == Some(zero) && t.generation == s.generation && t.stopped
                == s.stopped)
            &&& !marked ==> t == s
        }),
{
}

} // verus!
