//! Audio device access: choosing host APIs and devices, describing the
//! stream to open, and moving samples between planar and interleaved
//! layouts, with the decisions proved correct.
use vstd::prelude::*;
use vstd::string::*;

pub mod device_rtaudio;
pub mod interleave;
pub mod text;
pub mod web_audio;

verus! {

/// A wanted setting could not be applied; the previous one stays in place.
#[derive(Debug)]
pub enum AudioDeviceError {
    NotAvailable,
}

impl AudioDeviceError {
    /// The human-readable description of the error.
    pub fn message(&self) -> (text: String)
        ensures
            text@ == "Wanted setting not available, leaving at default"@,
    {
        match self {
            AudioDeviceError::NotAvailable => String::from_str(
                "Wanted setting not available, leaving at default",
            ),
        }
    }
}

/// A device as listed to the user: its name and its channel count.
#[derive(Debug)]
pub struct DeviceInfo {
    pub name: String,
    pub num_channels: u16,
}

/// The parameters with which an audio stream is started.
#[derive(Debug)]
pub struct Config {
    pub num_input_channels: u16,
    pub num_output_channels: u16,
    pub sample_rate: u32,
    pub num_frames: usize,
}

impl Default for Config {
    fn default() -> (config: Self)
        ensures
            config.num_input_channels == 0,
            config.num_output_channels == 0,
            config.sample_rate == 0,
            config.num_frames == 0,
    {
        Config { num_input_channels: 0, num_output_channels: 0, sample_rate: 0, num_frames: 0 }
    }
}

} // verus!
