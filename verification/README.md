# waveplayer

The verified core of WavePlayer, a minimal Linux audio player with a
waveform display. `src/` is the library, proved with Verus; `app/` is the
iced application around it (window, audio output, decoding, files, sockets),
which performs the work that the library decides.

- `text`, `numbers`, `paths`: character-level text handling, number syntax
  as `str::parse` reads it, and Unix path components.
- `config`: the settings file format (`parse_config`, `render_config`), with
  the proof that written settings read back unchanged.
- `playback`: the playback state shared by the audio engine and its decoding
  thread, with every decision taken on it.
- `player`: the window's state and the work each event calls for.
- `ipc`: the single-instance socket names and messages.
- `desktop`: KDE and COSMIC accent colours and the `xrandr` screen width.
- `display`, `waveform`: the time label, mouse handling, and the layout of the
  waveform's bars.
