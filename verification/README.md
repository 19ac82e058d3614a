# typingsucks

Hold-to-talk voice transcription for Linux: hold a hotkey, speak, let go, and the
text is put on the clipboard and pasted at the cursor.

The crate is a Verus library (`src/`) with a thin program around it (`app/`).

`src/` holds what the program decides, each function with its contract, proved by
Verus:

- `state`, `popup`: the hold-to-talk cycle and the popup's codes.
- `daemon`: the daemon loop's decisions, as a step from state and event to the
  next state, the work to do, and the popup code to publish; the PID file's reading.
- `hotkey`: hotkey names and their parsing, the tracking of a hotkey across key
  events, and the recording of a new combo.
- `config`: the configuration, its defaults, and where its files live.
- `model`: the catalog of whisper models, the choice of the model file, the scan for
  existing files.
- `transcribe`: the transcriber's settings, the API endpoint, the WAV upload, the
  joining of whisper's segments.
- `api_models`: the model list of an API test (its ids, filtered and sorted) and its
  errors.
- `audio`: the choice of the input device, and the frames that samples are processed in.
- `paste`: the window class, terminal detection and the paste keystrokes.
- `settings`: what the settings window holds and how its events change it.
- `text`, `disk`: character-level helpers, and the disk queries.

`app/` holds `main`, the configuration file (TOML through serde), the audio devices
and the floating-point signal processing, the keyboard devices, the network, the
clipboard and key injection, and the windows.

`tests/` exercises the library on concrete values.
