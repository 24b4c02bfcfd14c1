//! The decisions of the browser Web Audio backend: how errors reported by
//! the browser are classified and described, which media devices are audio
//! inputs and outputs, what capture is requested, how the processor is
//! configured, and which device selection and stream the backend holds.
use vstd::prelude::*;
use vstd::string::*;

use crate::text::{contains_text, join_text, lemma_contains_text_at_some_position, text_contains};

verus! {

/// The channel count reported for a browser device: the browser does not
/// tell it before a stream is created, so stereo is assumed.
pub const ASSUMED_CHANNELS: u16 = 2;

/// Information about an available audio device.
#[derive(Debug, Clone)]
pub struct AudioDeviceInfo {
    /// Unique device identifier (use this for selection).
    pub device_id: String,
    /// Human-readable device name.
    pub label: String,
    /// Number of channels.
    pub channels: u16,
}

/// Errors of the Web Audio backend.
#[derive(Debug)]
pub enum WebAudioError {
    /// The browser lacks a required Web Audio feature.
    NotSupported(String),
    /// The user denied access to the microphone or device.
    PermissionDenied,
    /// The requested device was not found.
    DeviceNotFound(String),
    /// The audio context is in the wrong state.
    InvalidState(String),
    /// An error raised by a browser API.
    JsError(String),
}

/// The human-readable description of `error`.
pub open spec fn error_text(error: WebAudioError) -> Seq<char> {
    match error {
        WebAudioError::NotSupported(msg) => "Not supported: "@ + msg@,
        WebAudioError::PermissionDenied => "Permission denied for audio device"@,
        WebAudioError::DeviceNotFound(id) => "Device not found: "@ + id@,
        WebAudioError::InvalidState(msg) => "Invalid state: "@ + msg@,
        WebAudioError::JsError(msg) => "JavaScript error: "@ + msg@,
    }
}

/// Whether a browser error message tells of a refused permission.
pub open spec fn tells_permission_denied(msg: Seq<char>) -> bool {
    contains_text(msg, "Permission denied"@) || contains_text(msg, "NotAllowedError"@)
}

/// The text of a browser error: the error itself when it is a string,
/// else its `message` property when that is a string, else its debug
/// rendering.
pub open spec fn resolved_js_text(
    as_string: Option<String>,
    message_property: Option<String>,
    debug_text: String,
) -> String {
    match as_string {
        Some(text) => text,
        None => match message_property {
            Some(text) => text,
            None => debug_text,
        },
    }
}

/// The error for a browser error message: a refused permission when the
/// message tells of one, otherwise a browser API error with the message.
pub open spec fn js_message_error(msg: String) -> WebAudioError {
    if tells_permission_denied(msg@) {
        WebAudioError::PermissionDenied
    } else {
        WebAudioError::JsError(msg)
    }
}

/// Whether a browser error's name tells of a refused permission: the
/// browser rejects with a `NotAllowedError` when the user refuses access.
pub open spec fn names_permission_denied(name_property: Option<String>) -> bool {
    match name_property {
        Some(name) => name@ == "NotAllowedError"@,
        None => false,
    }
}

/// The error for a browser error value: a refused permission when its name
/// is `NotAllowedError`, otherwise the error for its text.
pub open spec fn js_value_error(
    as_string: Option<String>,
    message_property: Option<String>,
    name_property: Option<String>,
    debug_text: String,
) -> WebAudioError {
    if names_permission_denied(name_property) {
        WebAudioError::PermissionDenied
    } else {
        js_message_error(resolved_js_text(as_string, message_property, debug_text))
    }
}

impl WebAudioError {
    /// The human-readable description of the error.
    pub fn message(&self) -> (text: String)
        ensures
            text@ == error_text(*self),
    {
        match self {
            WebAudioError::NotSupported(msg) => join_text("Not supported: ", msg.as_str()),
            WebAudioError::PermissionDenied => String::from_str(
                "Permission denied for audio device",
            ),
            WebAudioError::DeviceNotFound(id) => join_text("Device not found: ", id.as_str()),
            WebAudioError::InvalidState(msg) => join_text("Invalid state: ", msg.as_str()),
            WebAudioError::JsError(msg) => join_text("JavaScript error: ", msg.as_str()),
        }
    }

    /// The error for the browser error message `msg`.
    pub fn from_js_message(msg: String) -> (error: Self)
        ensures
            error == js_message_error(msg),
    {
        if text_contains(msg.as_str(), "Permission denied") || text_contains(
            msg.as_str(),
            "NotAllowedError",
        ) {
            WebAudioError::PermissionDenied
        } else {
            WebAudioError::JsError(msg)
        }
    }

    /// The error for a browser error value, given what can be read of it:
    /// the value as a string, its `message` property as a string, its
    /// `name` property as a string, and its debug rendering.
    pub fn from_js_parts(
        as_string: Option<String>,
        message_property: Option<String>,
        name_property: Option<String>,
        debug_text: String,
    ) -> (error: Self)
        ensures
            error == js_value_error(as_string, message_property, name_property, debug_text),
    {
        if let Some(name) = &name_property {
            let refusal = String::from_str("NotAllowedError");
            if *name == refusal {
                return WebAudioError::PermissionDenied;
            }
        }
        let msg = match as_string {
            Some(text) => text,
            None => match message_property {
                Some(text) => text,
                None => debug_text,
            },
        };
        WebAudioError::from_js_message(msg)
    }

    /// A browser API error for a failed step: the step's description, a
    /// colon and a space, then what the browser reported.
    pub fn js_failure(step: &str, detail: &str) -> (error: Self)
        ensures
            error matches WebAudioError::JsError(msg) && msg@ == step@ + ": "@ + detail@,
    {
        let mut msg = join_text(step, ": ");
        msg.append(detail);
        WebAudioError::JsError(msg)
    }

    /// The page has no window object.
    pub fn no_window() -> (error: Self)
        ensures
            error matches WebAudioError::NotSupported(msg) && msg@ == "No window object"@,
    {
        WebAudioError::NotSupported(String::from_str("No window object"))
    }

    /// The browser has no `AudioContext`.
    pub fn no_audio_context() -> (error: Self)
        ensures
            error matches WebAudioError::NotSupported(msg) && msg@ == "AudioContext not available"@,
    {
        WebAudioError::NotSupported(String::from_str("AudioContext not available"))
    }

    /// The browser has no `mediaDevices`.
    pub fn no_media_devices() -> (error: Self)
        ensures
            error matches WebAudioError::NotSupported(msg) && msg@ == "mediaDevices not available"@,
    {
        WebAudioError::NotSupported(String::from_str("mediaDevices not available"))
    }
}

/// Whether an audio context can be created: it needs a window, and the
/// window must offer `AudioContext`.
pub fn check_support(has_window: bool, has_audio_context: bool) -> (result: Result<
    (),
    WebAudioError,
>)
    ensures
        has_window && has_audio_context ==> result is Ok,
        !has_window ==> (result matches Err(WebAudioError::NotSupported(msg)) && msg@
            == "No window object"@),
        has_window && !has_audio_context ==> (result matches Err(
            WebAudioError::NotSupported(msg),
        ) && msg@ == "AudioContext not available"@),
{
    if !has_window {
        Err(WebAudioError::no_window())
    } else if !has_audio_context {
        Err(WebAudioError::no_audio_context())
    } else {
        Ok(())
    }
}

/// The kind of a media device reported by the browser.
#[derive(Clone, Copy, PartialEq, Eq, Structural)]
pub enum MediaKind {
    AudioInput,
    AudioOutput,
    Other,
}

/// A media device as the browser reports it.
pub struct MediaDeviceEntry {
    pub device_id: String,
    pub label: String,
    pub kind: MediaKind,
}

/// How a media device is listed: its identifier and label, with the
/// assumed channel count.
pub open spec fn listed_device(entry: MediaDeviceEntry) -> AudioDeviceInfo {
    AudioDeviceInfo { device_id: entry.device_id, label: entry.label, channels: ASSUMED_CHANNELS }
}

/// The listing of the devices of kind `kind` among `entries`, in the
/// browser's order.
pub open spec fn devices_of_kind(entries: Seq<MediaDeviceEntry>, kind: MediaKind) -> Seq<
    AudioDeviceInfo,
>
    decreases entries.len(),
{
    if entries.len() == 0 {
        Seq::empty()
    } else {
        let rest = devices_of_kind(entries.drop_last(), kind);
        if entries.last().kind == kind {
            rest.push(listed_device(entries.last()))
        } else {
            rest
        }
    }
}

/// A listing of one kind holds at most as many devices as were reported.
pub proof fn lemma_devices_of_kind_len(entries: Seq<MediaDeviceEntry>, kind: MediaKind)
    ensures
        devices_of_kind(entries, kind).len() <= entries.len(),
    decreases entries.len(),
{
    if entries.len() > 0 {
        lemma_devices_of_kind_len(entries.drop_last(), kind);
    }
}

/// Splits the reported media devices into the audio inputs and the audio
/// outputs, each in the browser's order; other devices are left out.
pub fn classify_devices(entries: &Vec<MediaDeviceEntry>) -> (lists: (
    Vec<AudioDeviceInfo>,
    Vec<AudioDeviceInfo>,
))
    ensures
        lists.0@ == devices_of_kind(entries@, MediaKind::AudioInput),
        lists.1@ == devices_of_kind(entries@, MediaKind::AudioOutput),
{
    let mut inputs: Vec<AudioDeviceInfo> = Vec::new();
    let mut outputs: Vec<AudioDeviceInfo> = Vec::new();
    let n = entries.len();
    for i in 0..n
        invariant
            n == entries@.len(),
            inputs@ == devices_of_kind(entries@.take(i as int), MediaKind::AudioInput),
            outputs@ == devices_of_kind(entries@.take(i as int), MediaKind::AudioOutput),
    {
        proof {
            assert(entries@.take(i + 1).drop_last() =~= entries@.take(i as int));
        }
        let entry = &entries[i];
        let info = AudioDeviceInfo {
            device_id: entry.device_id.clone(),
            label: entry.label.clone(),
            channels: ASSUMED_CHANNELS,
        };
        match entry.kind {
            MediaKind::AudioInput => inputs.push(info),
            MediaKind::AudioOutput => outputs.push(info),
            MediaKind::Other => {},
        }
    }
    proof {
        assert(entries@.take(n as int) =~= entries@);
    }
    (inputs, outputs)
}

/// Which audio source a capture asks for.
pub enum AudioCapture {
    /// The browser's default microphone.
    AnyDevice,
    /// The device with this identifier.
    Device(String),
}

/// What a media capture asks for.
pub struct CaptureConstraints {
    pub audio: AudioCapture,
    pub video: bool,
}

/// The capture that asks for microphone permission: any audio device, no video.
pub fn permission_constraints() -> (constraints: CaptureConstraints)
    ensures
        constraints.audio is AnyDevice,
        !constraints.video,
{
    CaptureConstraints { audio: AudioCapture::AnyDevice, video: false }
}

/// The configuration of the script processor of a stream.
pub struct ProcessorConfig {
    /// The frames per callback handed to the browser.
    pub buffer_size: u32,
    /// The processor's input channel count.
    pub input_channels: u32,
    /// The processor's output channel count.
    pub output_channels: u32,
    /// The frames per callback used when moving samples.
    pub num_frames: usize,
    /// The channels per frame used when moving samples.
    pub channels: usize,
}

/// The processor configuration for `buffer_size` frames per callback and
/// `num_channels` channels; the browser is handed the frame count cut to
/// 32 bits.
pub fn processor_config(buffer_size: usize, num_channels: u16) -> (config: ProcessorConfig)
    ensures
        config.buffer_size == buffer_size as u32,
        config.input_channels == num_channels as u32,
        config.output_channels == num_channels as u32,
        config.num_frames == buffer_size,
        config.channels == num_channels as usize,
{
    ProcessorConfig {
        buffer_size: buffer_size as u32,
        input_channels: num_channels as u32,
        output_channels: num_channels as u32,
        num_frames: buffer_size,
        channels: num_channels as usize,
    }
}

/// A call on the backend, as it bears on whether a stream runs: a start
/// that succeeded or failed, a stop, or any other call.
#[derive(Clone, Copy, PartialEq, Eq, Structural, Debug)]
pub enum SessionCall {
    Start(bool),
    Stop,
    Other,
}

/// Whether a stream runs after `call`, given whether one ran before: a
/// start runs one exactly when it succeeded, a stop leaves none, and any
/// other call changes nothing.
pub open spec fn session_step(running: bool, call: SessionCall) -> bool {
    match call {
        SessionCall::Start(succeeded) => succeeded,
        SessionCall::Stop => false,
        SessionCall::Other => running,
    }
}

/// Whether a stream runs after the calls `calls`, made on a new backend.
pub open spec fn running_after(calls: Seq<SessionCall>) -> bool
    decreases calls.len(),
{
    if calls.len() == 0 {
        false
    } else {
        session_step(running_after(calls.drop_last()), calls.last())
    }
}

/// A stream runs after a sequence of calls exactly when the latest start
/// or stop among them is a start that succeeded.
pub proof fn lemma_running_after_latest_start(calls: Seq<SessionCall>)
    ensures
        running_after(calls) <==> exists|i: int|
            0 <= i < calls.len() && #[trigger] calls[i] == SessionCall::Start(true) && forall|j: int|
                i < j < calls.len() ==> calls[j] == SessionCall::Other,
    decreases calls.len(),
{
    if calls.len() > 0 {
        let init = calls.drop_last();
        let n = calls.len() - 1;
        lemma_running_after_latest_start(init);
        if running_after(calls) {
            if calls.last() == SessionCall::Start(true) {
                assert(calls[n] == SessionCall::Start(true));
            } else {
                assert(calls.last() == SessionCall::Other);
                let i = choose|i: int|
                    0 <= i < init.len() && #[trigger] init[i] == SessionCall::Start(true) && forall|
                        j: int,
                    | i < j < init.len() ==> init[j] == SessionCall::Other;
                assert(calls[i] == SessionCall::Start(true));
                assert forall|j: int| i < j < calls.len() implies calls[j] == SessionCall::Other by {
                    if j < n {
                        assert(calls[j] == init[j]);
                    }
                }
            }
        } else {
            assert forall|i: int|
                0 <= i < calls.len() && #[trigger] calls[i] == SessionCall::Start(true) implies !(
                forall|j: int| i < j < calls.len() ==> calls[j] == SessionCall::Other) by {
                if i == n {
                    assert(calls.last() == SessionCall::Start(true));
                } else if calls.last() == SessionCall::Other {
                    assert(init[i] == SessionCall::Start(true));
                    let j = choose|j: int| i < j < init.len() && init[j] != SessionCall::Other;
                    assert(calls[j] == init[j]);
                } else {
                    assert(calls[n] != SessionCall::Other);
                }
            }
        }
    }
}

/// The browser Web Audio backend: the audio context, the selected input
/// and output devices (none meaning the browser's default), and the graph
/// of the running stream, if any.
pub struct WebAudio<C, G> {
    context: C,
    input_device_id: Option<String>,
    output_device_id: Option<String>,
    stream: Option<G>,
}

impl<C, G> WebAudio<C, G> {
    /// The audio context.
    pub closed spec fn audio_context(&self) -> C {
        self.context
    }

    /// The selected input device.
    pub closed spec fn input_device(&self) -> Option<String> {
        self.input_device_id
    }

    /// The selected output device.
    pub closed spec fn output_device(&self) -> Option<String> {
        self.output_device_id
    }

    /// The graph of the running stream.
    pub closed spec fn active_stream(&self) -> Option<G> {
        self.stream
    }

    /// A backend on the audio context `context`, with the default devices
    /// selected and no stream.
    pub fn new(context: C) -> (audio: Self)
        ensures
            audio.audio_context() == context,
            audio.input_device() is None,
            audio.output_device() is None,
            audio.active_stream() is None,
    {
        WebAudio { context, input_device_id: None, output_device_id: None, stream: None }
    }

    /// The audio context.
    pub fn context(&self) -> (context: &C)
        ensures
            *context == self.audio_context(),
    {
        &self.context
    }

    /// Selects the input device by identifier; `None` selects the default.
    pub fn set_input_device(&mut self, device_id: Option<String>)
        ensures
            (final(self).active_stream() is Some) == session_step(
                old(self).active_stream() is Some,
                SessionCall::Other,
            ),
            final(self).input_device() == device_id,
            final(self).output_device() == old(self).output_device(),
            final(self).active_stream() == old(self).active_stream(),
            final(self).audio_context() == old(self).audio_context(),
    {
        self.input_device_id = device_id;
    }

    /// Selects the output device by identifier; `None` selects the default.
    /// Gives back the device to route the context's output to, if any.
    pub fn set_output_device(&mut self, device_id: Option<String>) -> (sink: Option<String>)
        ensures
            (final(self).active_stream() is Some) == session_step(
                old(self).active_stream() is Some,
                SessionCall::Other,
            ),
            final(self).output_device() == device_id,
            sink == device_id,
            final(self).input_device() == old(self).input_device(),
            final(self).active_stream() == old(self).active_stream(),
            final(self).audio_context() == old(self).audio_context(),
    {
        let sink = device_id.clone();
        self.output_device_id = device_id;
        sink
    }

    /// The capture a stream asks for: the selected input device, or any
    /// device when none is selected; never video.
    pub fn capture_constraints(&self) -> (constraints: CaptureConstraints)
        ensures
            match self.input_device() {
                Some(id) => constraints.audio == AudioCapture::Device(id),
                None => constraints.audio is AnyDevice,
            },
            !constraints.video,
    {
        let audio = match &self.input_device_id {
            Some(id) => AudioCapture::Device(id.clone()),
            None => AudioCapture::AnyDevice,
        };
        CaptureConstraints { audio, video: false }
    }

    /// The first step of a start: gives up the graph of the stream that
    /// runs, which the caller disconnects and releases before it requests a
    /// new stream; afterwards no stream runs.
    pub fn begin_start(&mut self) -> (previous: Option<G>)
        ensures
            previous == old(self).active_stream(),
            final(self).active_stream() is None,
            final(self).input_device() == old(self).input_device(),
            final(self).output_device() == old(self).output_device(),
            final(self).audio_context() == old(self).audio_context(),
    {
        self.stream.take()
    }

    /// The last step of a start: keeps the graph of the new stream when
    /// building it succeeded, and otherwise leaves no stream running and
    /// reports the error.
    pub fn finish_start(&mut self, outcome: Result<G, WebAudioError>) -> (result: Result<
        (),
        WebAudioError,
    >)
        ensures
            match outcome {
                Ok(stream) => result is Ok && final(self).active_stream() == Some(stream),
                Err(e) => result == Err::<(), WebAudioError>(e) && (final(self).active_stream() is None),
            },
            (final(self).active_stream() is Some) == session_step(
                old(self).active_stream() is Some,
                SessionCall::Start(outcome is Ok),
            ),
            final(self).input_device() == old(self).input_device(),
            final(self).output_device() == old(self).output_device(),
            final(self).audio_context() == old(self).audio_context(),
    {
        match outcome {
            Ok(stream) => {
                self.stream = Some(stream);
                Ok(())
            },
            Err(e) => {
                self.stream = None;
                Err(e)
            },
        }
    }

    /// Gives up the graph of the running stream, which the caller then
    /// disconnects and releases; afterwards no stream runs.
    pub fn stop(&mut self) -> (stream: Option<G>)
        ensures
            stream == old(self).active_stream(),
            (final(self).active_stream() is Some) == session_step(
                old(self).active_stream() is Some,
                SessionCall::Stop,
            ),
            final(self).active_stream() is None,
            final(self).input_device() == old(self).input_device(),
            final(self).output_device() == old(self).output_device(),
            final(self).audio_context() == old(self).audio_context(),
    {
        self.stream.take()
    }

    /// Whether a stream runs.
    pub fn is_running(&self) -> (running: bool)
        ensures
            running == self.active_stream() is Some,
    {
        self.stream.is_some()
    }
}

/// A browser message is classified as a refused permission when
/// "NotAllowedError" or "Permission denied" appears anywhere in it, and
/// otherwise as a browser API error carrying the whole message.
pub proof fn lemma_message_classification(msg: String)
    ensures
        ((exists|s: int|
            0 <= s && s + "NotAllowedError"@.len() <= msg@.len() && #[trigger] msg@.subrange(
                s,
                s + "NotAllowedError"@.len(),
            ) == "NotAllowedError"@) || (exists|s: int|
            0 <= s && s + "Permission denied"@.len() <= msg@.len() && #[trigger] msg@.subrange(
                s,
                s + "Permission denied"@.len(),
            ) == "Permission denied"@)) ==> js_message_error(msg) == WebAudioError::PermissionDenied,
        !((exists|s: int|
            0 <= s && s + "NotAllowedError"@.len() <= msg@.len() && #[trigger] msg@.subrange(
                s,
                s + "NotAllowedError"@.len(),
            ) == "NotAllowedError"@) || (exists|s: int|
            0 <= s && s + "Permission denied"@.len() <= msg@.len() && #[trigger] msg@.subrange(
                s,
                s + "Permission denied"@.len(),
            ) == "Permission denied"@)) ==> js_message_error(msg) == WebAudioError::JsError(msg),
{
    lemma_contains_text_at_some_position(msg@, "NotAllowedError"@);
    lemma_contains_text_at_some_position(msg@, "Permission denied"@);
}

/// A browser error value named `NotAllowedError` is a refused permission;
/// any other is classified by its text: the value itself when it is a
/// string, else its `message` property, else its debug rendering.
pub proof fn lemma_value_classification(
    as_string: Option<String>,
    message_property: Option<String>,
    name_property: Option<String>,
    debug_text: String,
)
    ensures
        (name_property matches Some(n) && n@ == "NotAllowedError"@) ==> js_value_error(
            as_string,
            message_property,
            name_property,
            debug_text,
        ) == WebAudioError::PermissionDenied,
        !(name_property matches Some(n) && n@ == "NotAllowedError"@) ==> js_value_error(
            as_string,
            message_property,
            name_property,
            debug_text,
        ) == js_message_error(
            if as_string is Some {
                as_string->0
            } else if message_property is Some {
                message_property->0
            } else {
                debug_text
            },
        ),
{
}

/// The listing of one kind is the reported devices of that kind, in the
/// browser's order, each with its identifier, its label and two channels.
pub proof fn lemma_devices_of_kind_are_reported(entries: Seq<MediaDeviceEntry>, kind: MediaKind)
    ensures
        devices_of_kind(entries, kind) == entries.filter_map(
            |e: MediaDeviceEntry|
                if e.kind == kind {
                    Some(AudioDeviceInfo { device_id: e.device_id, label: e.label, channels: 2 })
                } else {
                    None
                },
        ),
    decreases entries.len(),
{
    if entries.len() > 0 {
        lemma_devices_of_kind_are_reported(entries.drop_last(), kind);
        let rest = devices_of_kind(entries.drop_last(), kind);
        let e = entries.last();
        assert(rest.push(listed_device(e)) =~= rest + seq![listed_device(e)]);
    }
}

/// Every reported device of a kind is listed under that kind.
pub proof fn lemma_reported_device_listed(entries: Seq<MediaDeviceEntry>, i: int)
    requires
        0 <= i < entries.len(),
    ensures
        devices_of_kind(entries, entries[i].kind).contains(
            AudioDeviceInfo {
                device_id: entries[i].device_id,
                label: entries[i].label,
                channels: 2,
            },
        ),
    decreases entries.len(),
{
    let kind = entries[i].kind;
    let init = entries.drop_last();
    if i == entries.len() - 1 {
        let listed = devices_of_kind(entries, kind);
        assert(listed[listed.len() - 1] == listed_device(entries.last()));
    } else {
        assert(init[i] == entries[i]);
        lemma_reported_device_listed(init, i);
        let rest = devices_of_kind(init, kind);
        let k = choose|k: int|
            0 <= k < rest.len() && rest[k] == AudioDeviceInfo {
                device_id: entries[i].device_id,
                label: entries[i].label,
                channels: 2,
            };
        let listed = devices_of_kind(entries, kind);
        assert(listed[k] == rest[k]);
    }
}

/// The description of each error: its kind's words, followed by its detail
/// where it has one.
pub proof fn lemma_error_texts(detail: String)
    ensures
        error_text(WebAudioError::NotSupported(detail)) == "Not supported: "@ + detail@,
        error_text(WebAudioError::PermissionDenied) == "Permission denied for audio device"@,
        error_text(WebAudioError::DeviceNotFound(detail)) == "Device not found: "@ + detail@,
        error_text(WebAudioError::InvalidState(detail)) == "Invalid state: "@ + detail@,
        error_text(WebAudioError::JsError(detail)) == "JavaScript error: "@ + detail@,
{
}

} // verus!
