# audio_device

Audio device access with two backends: RtAudio on native hosts and the Web
Audio API in browsers.

- `src/` is the verified library. `device_rtaudio` holds the RtAudio
  backend's state (host API, selected devices, open stream) and its
  decisions: device and API selection by name, device listings, and the
  stream request built from a `Config`. `web_audio` holds the browser
  backend's state and decisions: error classification and messages, device
  classification, capture constraints and processor configuration.
  `interleave` moves samples between planar and interleaved layouts, with
  both round trips proved. `text` holds substring search over characters.
- `app/` performs the host and browser calls (RtAudio, `web-sys`,
  `js-sys`, promises) and the float sample callbacks, and hands plain
  values to the library.
- `tests/` exercises the library on concrete values.
