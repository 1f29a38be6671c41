# wavoic

The verified core of WaVoic, a desktop mixer that plays music and sound
effects into a game's voice chat: the microphone, the playing voices and a
quiet looping "carrier" recording are mixed into a virtual audio cable.

`src/` is the library, proved with Verus:

- `audio::carrier` — the looping carrier sample (which sample goes to which
  output slot, and where the loop stands afterwards);
- `audio::music_player` — one-shot and looping voices and the pool of at most
  eight of them (the oldest is dropped for a ninth);
- `audio::virtual_sink` — picking devices by name and spotting the VB-Cable
  playback device;
- `hotkeys` — parsing accelerators such as `Ctrl+Shift+F1`;
- `library` — the index of imported files, keyed by generated ids;
- `config` — where the data folder is;
- `text` — the character-level helpers the parsers share.

Samples are held as the bit patterns of 32-bit floats: the library decides
what is read and written where, and the program around it does the
floating-point arithmetic.

`app/` is that program: audio devices (cpal), decoding (symphonia), the mixing
arithmetic, global hotkey registration, JSON persistence and the commands the
front end calls.
