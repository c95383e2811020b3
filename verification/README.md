# Lightspeed

An LED lighting controller: scenes of masks and global effects rendered onto
pixel strips and sent out as sACN (E1.31) DMX, with beat tracking from audio,
Ableton Link and a Launchpad for triggering scenes.

The decision-making core is a library verified with Verus (`src/`); the
desktop application around it (`app/`) does the drawing, audio, MIDI, network
and database work and calls into the library for every decision it can hand
over.

## Library modules

- `palette`: the Launchpad's 128-colour palette and the nearest palette code
  for an RGB colour (redmean distance).
- `text`: character-level equality and substring search for names and settings.
- `dmx`: colour orders, universe offsets and the packing of rendered strips
  into 512-channel universe frames and sACN payloads.
- `tempo`: tap tempo from audio onsets (weighted median of beat intervals)
  and the debouncing of onsets in the audio stream.
- `midi`: decoding Launchpad input, encoding colour commands, the MIDI
  service's decisions and the choice of the Launchpad's ports.
- `pads`: scene bindings to pads and buttons, board repaints, pad
  reassignment and the controller's side of the MIDI connection.
- `effects`: musical rates and other effect settings, strip targeting, zone
  groups, scene selection for rendering and pixel-buffer fills.
- `hex`: reading and writing `#RRGGBB` colour codes.
- `config`: network defaults, the record plan of a configuration import and
  the database encodings of flags, ids and codes.

Each public function states its result in its `ensures`; the properties that
span several calls are public proof functions named `lemma_*`.

## Layout

- `src/`: the verified library.
- `tests/`: tests of the library on concrete values.
- `app/`: the egui application (needs eframe, cpal, midir, rusty_link, rfd
  and image besides the crates in `Cargo.toml`).
