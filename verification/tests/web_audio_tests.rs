use audio_device::web_audio::{
    check_support, classify_devices, permission_constraints, processor_config, AudioCapture,
    MediaDeviceEntry, MediaKind, WebAudio, WebAudioError,
};

fn entry(id: &str, label: &str, kind: MediaKind) -> MediaDeviceEntry {
    MediaDeviceEntry { device_id: id.to_string(), label: label.to_string(), kind }
}

#[test]
fn error_messages() {
    assert_eq!(
        WebAudioError::NotSupported("x".to_string()).message(),
        "Not supported: x"
    );
    assert_eq!(WebAudioError::PermissionDenied.message(), "Permission denied for audio device");
    assert_eq!(
        WebAudioError::DeviceNotFound("abc".to_string()).message(),
        "Device not found: abc"
    );
    assert_eq!(
        WebAudioError::InvalidState("closed".to_string()).message(),
        "Invalid state: closed"
    );
    assert_eq!(
        WebAudioError::JsError("boom".to_string()).message(),
        "JavaScript error: boom"
    );
}

#[test]
fn js_messages_about_permission_are_classified() {
    let e = WebAudioError::from_js_message("NotAllowedError: Permission denied".to_string());
    assert!(matches!(e, WebAudioError::PermissionDenied));
    let e = WebAudioError::from_js_message("Permission denied by system".to_string());
    assert!(matches!(e, WebAudioError::PermissionDenied));
    let e = WebAudioError::from_js_message("NotFoundError: Requested device not found".to_string());
    match e {
        WebAudioError::JsError(msg) => assert_eq!(msg, "NotFoundError: Requested device not found"),
        _ => panic!("expected a JavaScript error"),
    }
    // matching is case sensitive
    let e = WebAudioError::from_js_message("permission denied".to_string());
    assert!(matches!(e, WebAudioError::JsError(_)));
}

#[test]
fn js_error_text_prefers_string_then_message() {
    let e = WebAudioError::from_js_parts(
        Some("plain".to_string()),
        Some("NotAllowedError".to_string()),
        None,
        "dbg".to_string(),
    );
    assert!(matches!(e, WebAudioError::JsError(ref m) if m == "plain"));
    let e = WebAudioError::from_js_parts(
        None,
        Some("NotAllowedError".to_string()),
        None,
        "dbg".to_string(),
    );
    assert!(matches!(e, WebAudioError::PermissionDenied));
    let e = WebAudioError::from_js_parts(None, None, None, "JsValue(Object)".to_string());
    assert!(matches!(e, WebAudioError::JsError(ref m) if m == "JsValue(Object)"));
}

#[test]
fn refusal_named_not_allowed_is_permission_denied() {
    // a user refusal as some browsers report it: the name tells, the message does not
    let e = WebAudioError::from_js_parts(
        None,
        Some(
            "The request is not allowed by the user agent or the platform in the current context."
                .to_string(),
        ),
        Some("NotAllowedError".to_string()),
        "dbg".to_string(),
    );
    assert!(matches!(e, WebAudioError::PermissionDenied));
    let e = WebAudioError::from_js_parts(
        None,
        Some("Requested device not found".to_string()),
        Some("NotFoundError".to_string()),
        "dbg".to_string(),
    );
    assert!(matches!(e, WebAudioError::JsError(ref m) if m == "Requested device not found"));
}

#[test]
fn js_failure_prefixes_step() {
    let e = WebAudioError::js_failure("getUserMedia failed", "JsValue(TypeError)");
    assert!(matches!(e, WebAudioError::JsError(ref m) if m == "getUserMedia failed: JsValue(TypeError)"));
}

#[test]
fn support_checks() {
    assert!(check_support(true, true).is_ok());
    assert!(matches!(check_support(false, true), Err(WebAudioError::NotSupported(ref m)) if m == "No window object"));
    assert!(matches!(check_support(false, false), Err(WebAudioError::NotSupported(ref m)) if m == "No window object"));
    assert!(matches!(check_support(true, false), Err(WebAudioError::NotSupported(ref m)) if m == "AudioContext not available"));
    assert!(matches!(WebAudioError::no_media_devices(), WebAudioError::NotSupported(ref m) if m == "mediaDevices not available"));
}

#[test]
fn classify_splits_inputs_and_outputs() {
    let entries = vec![
        entry("cam", "Webcam", MediaKind::Other),
        entry("mic1", "Microphone", MediaKind::AudioInput),
        entry("spk", "Speakers", MediaKind::AudioOutput),
        entry("mic2", "", MediaKind::AudioInput),
    ];
    let (inputs, outputs) = classify_devices(&entries);
    assert_eq!(inputs.len(), 2);
    assert_eq!(inputs[0].device_id, "mic1");
    assert_eq!(inputs[0].label, "Microphone");
    assert_eq!(inputs[0].channels, 2);
    assert_eq!(inputs[1].device_id, "mic2");
    assert_eq!(inputs[1].label, "");
    assert_eq!(outputs.len(), 1);
    assert_eq!(outputs[0].device_id, "spk");
    assert_eq!(outputs[0].channels, 2);
}

#[test]
fn classify_nothing() {
    let (inputs, outputs) = classify_devices(&Vec::new());
    assert!(inputs.is_empty());
    assert!(outputs.is_empty());
}

#[test]
fn capture_follows_selected_input() {
    let mut audio: WebAudio<(), u8> = WebAudio::new(());
    let c = audio.capture_constraints();
    assert!(matches!(c.audio, AudioCapture::AnyDevice));
    assert!(!c.video);
    audio.set_input_device(Some("mic-7".to_string()));
    let c = audio.capture_constraints();
    assert!(matches!(c.audio, AudioCapture::Device(ref id) if id == "mic-7"));
    assert!(!c.video);
    audio.set_input_device(None);
    assert!(matches!(audio.capture_constraints().audio, AudioCapture::AnyDevice));
    let p = permission_constraints();
    assert!(matches!(p.audio, AudioCapture::AnyDevice));
    assert!(!p.video);
}

#[test]
fn output_selection_returns_sink() {
    let mut audio: WebAudio<(), u8> = WebAudio::new(());
    assert_eq!(audio.set_output_device(Some("spk".to_string())), Some("spk".to_string()));
    assert_eq!(audio.set_output_device(None), None);
}

#[test]
fn stream_lifecycle() {
    let mut audio: WebAudio<u16, &str> = WebAudio::new(44100);
    assert_eq!(*audio.context(), 44100);
    assert!(!audio.is_running());
    assert_eq!(audio.stop(), None);
    assert_eq!(audio.begin_start(), None);
    assert!(audio.finish_start(Ok("graph")).is_ok());
    assert!(audio.is_running());
    assert_eq!(audio.stop(), Some("graph"));
    assert!(!audio.is_running());
    assert_eq!(audio.stop(), None);
    assert_eq!(*audio.context(), 44100);
}

#[test]
fn restart_gives_back_old_stream_and_failure_leaves_none() {
    let mut audio: WebAudio<(), u32> = WebAudio::new(());
    audio.begin_start();
    assert!(audio.finish_start(Ok(1)).is_ok());
    // restarting hands back the running stream before the new one is built
    assert_eq!(audio.begin_start(), Some(1));
    assert!(!audio.is_running());
    let result = audio.finish_start(Err(WebAudioError::PermissionDenied));
    assert!(matches!(result, Err(WebAudioError::PermissionDenied)));
    assert!(!audio.is_running());
    audio.begin_start();
    assert!(audio.finish_start(Ok(2)).is_ok());
    audio.set_input_device(Some("mic".to_string()));
    audio.set_output_device(None);
    assert!(audio.is_running());
    assert_eq!(audio.stop(), Some(2));
}

#[test]
fn processor_configuration() {
    let p = processor_config(1024, 2);
    assert_eq!(p.buffer_size, 1024);
    assert_eq!(p.input_channels, 2);
    assert_eq!(p.output_channels, 2);
    assert_eq!(p.num_frames, 1024);
    assert_eq!(p.channels, 2);
    let p = processor_config((1usize << 32) + 512, 1);
    assert_eq!(p.buffer_size, 512);
    assert_eq!(p.num_frames, (1usize << 32) + 512);
}
