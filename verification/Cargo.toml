[package]
name = "audio_device"
version = "0.1.0"
edition = "2021"
publish = false

[dependencies]
rtaudio = "=0.8.1"
thiserror = "=2.0.21"
wasm-bindgen = "=0.2.130"
wasm-bindgen-futures = "=0.4.80"
js-sys = "=0.3.107"
web-sys = { version = "=0.3.107", features = ["AudioContext", "AudioContextState", "BaseAudioContext", "AudioNode", "AudioDestinationNode", "AudioBuffer", "AudioProcessingEvent", "ScriptProcessorNode", "MediaStreamAudioSourceNode", "MediaStream", "MediaStreamTrack", "MediaStreamConstraints", "MediaTrackConstraints", "MediaDevices", "MediaDeviceInfo", "MediaDeviceKind", "Navigator", "Window"] }
audio-blocks = "=0.7.0"
