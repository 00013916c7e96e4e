# volume_control_rs

Lists the audio sessions of a desktop (application streams, playback and
capture devices), finds them by name, and changes their volume and mute
state.

- `src/` is the library, verified with Verus: the session list and the rules
  that fill it from what the sound server reports (which devices and streams
  are listed, under which names), the name queries, the bookkeeping of
  acknowledged volume and mute changes, and the text handling these need
  (trimming, number parsing, prefix tests).
- `app/` connects the library to the sound server: PulseAudio on Linux
  (through `libpulse-binding`), the Windows audio session API on Windows. It
  performs the queries and change requests, and holds the floating-point
  volume arithmetic.
- `tests/` exercises the library on concrete inputs.
