use audio_device::device_rtaudio::{
    callback_channels, device_infos, find_api, find_device, AudioDevice, BackendApi, Direction,
    HostDevice, SampleKind,
};
use audio_device::{AudioDeviceError, Config};

fn device(name: &str, id: u32, ins: u32, outs: u32, def_in: bool, def_out: bool) -> HostDevice {
    HostDevice {
        name: name.to_string(),
        session_id: id,
        input_channels: ins,
        output_channels: outs,
        is_default_input: def_in,
        is_default_output: def_out,
    }
}

fn host_devices() -> Vec<HostDevice> {
    vec![
        device("HDMI Output", 1, 0, 8, false, false),
        device("Built-in Microphone", 2, 2, 0, true, false),
        device("Built-in Speakers", 3, 0, 2, false, true),
        device("USB Interface", 4, 4, 4, false, false),
        // marked default for input but has no input channels: never the input default
        device("Loopback", 5, 0, 2, true, false),
    ]
}

fn apis() -> Vec<BackendApi> {
    vec![
        BackendApi { code: 2, name: "ALSA".to_string() },
        BackendApi { code: 4, name: "Pulse".to_string() },
        BackendApi { code: 9, name: "Dummy".to_string() },
    ]
}

fn pulse() -> BackendApi {
    BackendApi { code: 4, name: "Pulse".to_string() }
}

#[test]
fn new_selects_host_defaults() {
    let dev: AudioDevice<u8> = AudioDevice::new(pulse(), &host_devices());
    assert_eq!(dev.api(), "Pulse");
    assert_eq!(dev.input(), "Built-in Microphone");
    assert_eq!(dev.output(), "Built-in Speakers");
    assert!(!dev.is_running());
}

#[test]
fn new_without_defaults_selects_nothing() {
    let devices = vec![device("USB Interface", 4, 4, 4, false, false)];
    let dev: AudioDevice<u8> = AudioDevice::new(pulse(), &devices);
    assert_eq!(dev.input(), "");
    assert_eq!(dev.output(), "");
}

#[test]
fn default_flag_without_channels_is_ignored() {
    let devices = vec![
        device("Loopback", 5, 0, 2, true, false),
        device("Mic", 6, 1, 0, true, false),
    ];
    let dev: AudioDevice<u8> = AudioDevice::new(pulse(), &devices);
    assert_eq!(dev.input(), "Mic");
}

#[test]
fn set_input_picks_first_matching_input() {
    let devices = host_devices();
    let mut dev: AudioDevice<u8> = AudioDevice::new(pulse(), &devices);
    assert!(dev.set_input(&devices, "USB").is_ok());
    assert_eq!(dev.input(), "USB Interface");
    // "Built-in" matches the microphone first among input devices
    assert!(dev.set_input(&devices, "Built-in").is_ok());
    assert_eq!(dev.input(), "Built-in Microphone");
    // output selection is untouched
    assert_eq!(dev.output(), "Built-in Speakers");
}

#[test]
fn set_input_skips_output_only_devices() {
    let devices = host_devices();
    let mut dev: AudioDevice<u8> = AudioDevice::new(pulse(), &devices);
    // the speakers have no input channels
    let result = dev.set_input(&devices, "Speakers");
    assert!(matches!(result, Err(AudioDeviceError::NotAvailable)));
    assert_eq!(dev.input(), "Built-in Microphone");
}

#[test]
fn set_output_unknown_leaves_selection() {
    let devices = host_devices();
    let mut dev: AudioDevice<u8> = AudioDevice::new(pulse(), &devices);
    let result = dev.set_output(&devices, "Headphones");
    assert!(matches!(result, Err(AudioDeviceError::NotAvailable)));
    assert_eq!(dev.output(), "Built-in Speakers");
    assert!(dev.set_output(&devices, "HDMI").is_ok());
    assert_eq!(dev.output(), "HDMI Output");
}

#[test]
fn reselecting_current_devices_succeeds() {
    // set_input(&device.input()) and set_output(&device.output()) keep working
    let devices = host_devices();
    let mut dev: AudioDevice<u8> = AudioDevice::new(pulse(), &devices);
    let input = dev.input();
    let output = dev.output();
    assert!(dev.set_input(&devices, &input).is_ok());
    assert!(dev.set_output(&devices, &output).is_ok());
    assert_eq!(dev.input(), input);
    assert_eq!(dev.output(), output);
}

#[test]
fn empty_name_selects_first_device_of_side() {
    let devices = host_devices();
    let mut dev: AudioDevice<u8> = AudioDevice::new(pulse(), &devices);
    assert!(dev.set_output(&devices, "").is_ok());
    assert_eq!(dev.output(), "HDMI Output");
    assert!(dev.set_input(&devices, "").is_ok());
    assert_eq!(dev.input(), "Built-in Microphone");
}

#[test]
fn set_api_matches_by_substring() {
    let devices = host_devices();
    let mut dev: AudioDevice<u8> = AudioDevice::new(pulse(), &devices);
    assert!(dev.set_api(&apis(), "ALS").is_ok());
    assert_eq!(dev.api(), "ALSA");
    let result = dev.set_api(&apis(), "Jack");
    assert!(matches!(result, Err(AudioDeviceError::NotAvailable)));
    assert_eq!(dev.api(), "ALSA");
    // reselecting the current API by its name succeeds
    let current = dev.api();
    assert!(dev.set_api(&apis(), &current).is_ok());
    assert_eq!(dev.api(), "ALSA");
}

#[test]
fn apis_lists_display_names() {
    let dev: AudioDevice<u8> = AudioDevice::new(pulse(), &host_devices());
    assert_eq!(dev.apis(&apis()), vec!["ALSA".to_string(), "Pulse".to_string(), "Dummy".to_string()]);
}

#[test]
fn select_default_devices_after_switch() {
    let mut dev: AudioDevice<u8> = AudioDevice::new(pulse(), &host_devices());
    let other = vec![
        device("Card A", 10, 2, 2, false, true),
        device("Card B", 11, 2, 2, true, false),
    ];
    dev.select_default_devices(&other);
    assert_eq!(dev.input(), "Card B");
    assert_eq!(dev.output(), "Card A");
}

#[test]
fn inputs_and_outputs_list_serving_devices() {
    let devices = host_devices();
    let dev: AudioDevice<u8> = AudioDevice::new(pulse(), &devices);
    let inputs = dev.inputs(&devices);
    let names: Vec<(String, u16)> = inputs.into_iter().map(|d| (d.name, d.num_channels)).collect();
    assert_eq!(
        names,
        vec![("Built-in Microphone".to_string(), 2), ("USB Interface".to_string(), 4)]
    );
    let outputs = dev.outputs(&devices);
    let names: Vec<(String, u16)> = outputs.into_iter().map(|d| (d.name, d.num_channels)).collect();
    assert_eq!(
        names,
        vec![
            ("HDMI Output".to_string(), 8),
            ("Built-in Speakers".to_string(), 2),
            ("USB Interface".to_string(), 4),
            ("Loopback".to_string(), 2),
        ]
    );
}

#[test]
fn channel_counts_are_cut_to_16_bits() {
    let devices = vec![device("Huge", 1, 70_000, 0, false, false)];
    let infos = device_infos(&devices, Direction::Input);
    assert_eq!(infos.len(), 1);
    assert_eq!(infos[0].num_channels, 4464);
}

#[test]
fn find_helpers_report_positions() {
    let devices = host_devices();
    assert_eq!(find_device(&devices, Direction::Input, None), Some(1));
    assert_eq!(find_device(&devices, Direction::Output, None), Some(2));
    assert_eq!(find_device(&devices, Direction::Output, Some("USB")), Some(3));
    assert_eq!(find_device(&devices, Direction::Input, Some("HDMI")), None);
    assert_eq!(find_api(&apis(), "Dum"), Some(2));
    assert_eq!(find_api(&apis(), "OSS"), None);
}

#[test]
fn stream_request_follows_config() {
    let devices = host_devices();
    let dev: AudioDevice<u8> = AudioDevice::new(pulse(), &devices);
    let config = Config {
        num_input_channels: 2,
        num_output_channels: 2,
        sample_rate: 48000,
        num_frames: 1024,
    };
    let request = dev.stream_request(&config);
    let input = request.input.expect("input requested");
    assert_eq!(input.device_name, "Built-in Microphone");
    assert_eq!(input.session_id, 2);
    assert_eq!(input.num_channels, 2);
    assert_eq!(input.first_channel, 0);
    assert!(input.fallback);
    assert!(input.no_device_fallback);
    let output = request.output.expect("output requested");
    assert_eq!(output.device_name, "Built-in Speakers");
    assert_eq!(output.session_id, 3);
    assert_eq!(request.sample_format, SampleKind::Float32);
    assert_eq!(request.flags, 0);
    assert_eq!(request.name, "");
    assert_eq!(request.sample_rate, Some(48000));
    assert_eq!(request.buffer_frames, 1024);
    assert_eq!(request.num_buffers, 2);
    assert_eq!(request.priority, -1);
}

#[test]
fn stream_request_without_channels_or_device() {
    let devices = vec![device("Speakers", 3, 0, 2, false, true)];
    let dev: AudioDevice<u8> = AudioDevice::new(pulse(), &devices);
    let config = Config {
        num_input_channels: 2,
        num_output_channels: 0,
        sample_rate: 44100,
        num_frames: (1usize << 32) + 256,
    };
    let request = dev.stream_request(&config);
    // no input device selected, no output channels wanted
    assert!(request.input.is_none());
    assert!(request.output.is_none());
    // the frame count is cut to 32 bits
    assert_eq!(request.buffer_frames, 256);
}

#[test]
fn default_config_is_zero() {
    let config = Config::default();
    assert_eq!(config.num_input_channels, 0);
    assert_eq!(config.num_output_channels, 0);
    assert_eq!(config.sample_rate, 0);
    assert_eq!(config.num_frames, 0);
}

#[test]
fn stop_gives_back_the_stream_once() {
    let mut dev: AudioDevice<u32> = AudioDevice::new(pulse(), &host_devices());
    assert!(dev.stop().is_none());
    dev.attach_stream(7);
    assert!(dev.is_running());
    assert_eq!(dev.stop(), Some(7));
    assert!(!dev.is_running());
    assert_eq!(dev.stop(), None);
}

#[test]
fn callback_channels_at_least_one() {
    assert_eq!(callback_channels(0), 1);
    assert_eq!(callback_channels(1), 1);
    assert_eq!(callback_channels(6), 6);
    assert_eq!(callback_channels(65_537), 1);
}

#[test]
fn not_available_message() {
    assert_eq!(
        AudioDeviceError::NotAvailable.message(),
        "Wanted setting not available, leaving at default"
    );
}
