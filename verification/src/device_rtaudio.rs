//! The decisions of the RtAudio backend: which host API and which devices
//! are in use, what stream is requested from the host, and whether a stream
//! is running.
use vstd::prelude::*;

use crate::text::{
    contains_text, lemma_contains_itself, lemma_contains_text_at_some_position, text_contains,
};
use crate::{AudioDeviceError, Config, DeviceInfo};

verus! {

/// The side of a stream that a device serves.
#[derive(Clone, Copy, PartialEq, Eq, Structural)]
pub enum Direction {
    Input,
    Output,
}

/// An audio API compiled into the host library: its code and its display name.
#[derive(Debug)]
pub struct BackendApi {
    pub code: i32,
    pub name: String,
}

impl BackendApi {
    /// A copy of this API entry.
    pub fn duplicate(&self) -> (copy: Self)
        ensures
            copy == *self,
    {
        BackendApi { code: self.code, name: self.name.clone() }
    }
}

/// What the host reports of one audio device.
#[derive(Debug)]
pub struct HostDevice {
    pub name: String,
    pub session_id: u32,
    pub input_channels: u32,
    pub output_channels: u32,
    pub is_default_input: bool,
    pub is_default_output: bool,
}

impl HostDevice {
    /// The number of channels the device offers on side `dir`.
    pub open spec fn channels(self, dir: Direction) -> u32 {
        match dir {
            Direction::Input => self.input_channels,
            Direction::Output => self.output_channels,
        }
    }

    /// The device can serve side `dir`: it has at least one channel there.
    pub open spec fn serves(self, dir: Direction) -> bool {
        self.channels(dir) > 0
    }

    /// The device serves side `dir` and the host marks it as that side's default.
    pub open spec fn is_default_for(self, dir: Direction) -> bool {
        &&& self.serves(dir)
        &&& match dir {
            Direction::Input => self.is_default_input,
            Direction::Output => self.is_default_output,
        }
    }

    /// A copy of this device entry.
    pub fn duplicate(&self) -> (copy: Self)
        ensures
            copy == *self,
    {
        HostDevice {
            name: self.name.clone(),
            session_id: self.session_id,
            input_channels: self.input_channels,
            output_channels: self.output_channels,
            is_default_input: self.is_default_input,
            is_default_output: self.is_default_output,
        }
    }
}

/// Whether `d` is what a search on side `dir` looks for: with no query the
/// side's default device, with a query a device of that side whose name
/// contains the query.
pub open spec fn wanted(d: HostDevice, dir: Direction, query: Option<Seq<char>>) -> bool {
    match query {
        None => d.is_default_for(dir),
        Some(q) => d.serves(dir) && contains_text(d.name@, q),
    }
}

/// The first device of `devices` that a search on side `dir` looks for.
pub open spec fn first_wanted(
    devices: Seq<HostDevice>,
    dir: Direction,
    query: Option<Seq<char>>,
) -> Option<HostDevice>
    decreases devices.len(),
{
    if devices.len() == 0 {
        None
    } else if wanted(devices[0], dir, query) {
        Some(devices[0])
    } else {
        first_wanted(devices.drop_first(), dir, query)
    }
}

/// The first API of `apis` whose display name contains `query`.
pub open spec fn first_api_named(apis: Seq<BackendApi>, query: Seq<char>) -> Option<BackendApi>
    decreases apis.len(),
{
    if apis.len() == 0 {
        None
    } else if contains_text(apis[0].name@, query) {
        Some(apis[0])
    } else {
        first_api_named(apis.drop_first(), query)
    }
}

/// Skipping a prefix of devices that are not wanted does not change the
/// first wanted device.
proof fn lemma_first_wanted_skip(
    devices: Seq<HostDevice>,
    dir: Direction,
    query: Option<Seq<char>>,
    k: int,
)
    requires
        0 <= k <= devices.len(),
        forall|j: int| 0 <= j < k ==> !wanted(#[trigger] devices[j], dir, query),
    ensures
        first_wanted(devices, dir, query) == first_wanted(
            devices.subrange(k, devices.len() as int),
            dir,
            query,
        ),
    decreases k,
{
    if k == 0 {
        assert(devices.subrange(0, devices.len() as int) =~= devices);
    } else {
        let rest = devices.drop_first();
        assert forall|j: int| 0 <= j < k - 1 implies !wanted(#[trigger] rest[j], dir, query) by {
            assert(rest[j] == devices[j + 1]);
        }
        lemma_first_wanted_skip(rest, dir, query, k - 1);
        assert(rest.subrange(k - 1, rest.len() as int) =~= devices.subrange(
            k,
            devices.len() as int,
        ));
    }
}

/// Skipping a prefix of APIs whose names do not match does not change the
/// first matching API.
proof fn lemma_first_api_skip(apis: Seq<BackendApi>, query: Seq<char>, k: int)
    requires
        0 <= k <= apis.len(),
        forall|j: int| 0 <= j < k ==> !contains_text(#[trigger] apis[j].name@, query),
    ensures
        first_api_named(apis, query) == first_api_named(apis.subrange(k, apis.len() as int), query),
    decreases k,
{
    if k == 0 {
        assert(apis.subrange(0, apis.len() as int) =~= apis);
    } else {
        let rest = apis.drop_first();
        assert forall|j: int| 0 <= j < k - 1 implies !contains_text(
            #[trigger] rest[j].name@,
            query,
        ) by {
            assert(rest[j] == apis[j + 1]);
        }
        lemma_first_api_skip(rest, query, k - 1);
        assert(rest.subrange(k - 1, rest.len() as int) =~= apis.subrange(k, apis.len() as int));
    }
}

/// Whether `d` is wanted by a search on side `dir`.
fn is_wanted(d: &HostDevice, dir: Direction, query: Option<&str>) -> (r: bool)
    ensures
        r == wanted(*d, dir, match query {
            Some(q) => Some(q@),
            None => None,
        }),
{
    let channels = match dir {
        Direction::Input => d.input_channels,
        Direction::Output => d.output_channels,
    };
    if channels == 0 {
        return false;
    }
    match query {
        None => match dir {
            Direction::Input => d.is_default_input,
            Direction::Output => d.is_default_output,
        },
        Some(q) => text_contains(d.name.as_str(), q),
    }
}

/// The position of the first device that a search on side `dir` looks for.
pub fn find_device(devices: &Vec<HostDevice>, dir: Direction, query: Option<&str>) -> (found:
    Option<usize>)
    ensures
        ({
            let q = match query {
                Some(q) => Some(q@),
                None => None,
            };
            match found {
                Some(i) => i < devices@.len() && first_wanted(devices@, dir, q) == Some(
                    devices@[i as int],
                ),
                None => first_wanted(devices@, dir, q) is None,
            }
        }),
{
    let ghost q = match query {
        Some(q) => Some(q@),
        None => None,
    };
    let n = devices.len();
    let mut i: usize = 0;
    while i < n
        invariant
            n == devices@.len(),
            i <= n,
            q == match query {
                Some(q) => Some(q@),
                None => None,
            },
            forall|j: int| 0 <= j < i ==> !wanted(#[trigger] devices@[j], dir, q),
        decreases n - i,
    {
        if is_wanted(&devices[i], dir, query) {
            proof {
                lemma_first_wanted_skip(devices@, dir, q, i as int);
                let tail = devices@.subrange(i as int, n as int);
                assert(tail[0] == devices@[i as int]);
            }
            return Some(i);
        }
        i = i + 1;
    }
    proof {
        lemma_first_wanted_skip(devices@, dir, q, n as int);
        assert(devices@.subrange(n as int, n as int).len() == 0);
    }
    None
}

/// The position of the first API whose display name contains `query`.
pub fn find_api(apis: &Vec<BackendApi>, query: &str) -> (found: Option<usize>)
    ensures
        match found {
            Some(i) => i < apis@.len() && first_api_named(apis@, query@) == Some(apis@[i as int]),
            None => first_api_named(apis@, query@) is None,
        },
{
    let n = apis.len();
    let mut i: usize = 0;
    while i < n
        invariant
            n == apis@.len(),
            i <= n,
            forall|j: int| 0 <= j < i ==> !contains_text(#[trigger] apis@[j].name@, query@),
        decreases n - i,
    {
        if text_contains(apis[i].name.as_str(), query) {
            proof {
                lemma_first_api_skip(apis@, query@, i as int);
                let tail = apis@.subrange(i as int, n as int);
                assert(tail[0] == apis@[i as int]);
            }
            return Some(i);
        }
        i = i + 1;
    }
    proof {
        lemma_first_api_skip(apis@, query@, n as int);
        assert(apis@.subrange(n as int, n as int).len() == 0);
    }
    None
}

/// The first device that a search on side `dir` looks for, copied out of the list.
fn pick_device(devices: &Vec<HostDevice>, dir: Direction, query: Option<&str>) -> (picked:
    Option<HostDevice>)
    ensures
        picked == first_wanted(devices@, dir, match query {
            Some(q) => Some(q@),
            None => None,
        }),
{
    match find_device(devices, dir, query) {
        Some(i) => Some(devices[i].duplicate()),
        None => None,
    }
}

/// The name of a selected device, or the empty text when none is selected.
pub open spec fn selected_name(selected: Option<HostDevice>) -> Seq<char> {
    match selected {
        Some(d) => d.name@,
        None => Seq::empty(),
    }
}

/// How a device is listed to the user for side `dir`: its name, and its
/// channel count on that side cut to 16 bits.
pub open spec fn listed_info(d: HostDevice, dir: Direction) -> DeviceInfo {
    DeviceInfo { name: d.name, num_channels: d.channels(dir) as u16 }
}

/// The listing of the devices that serve side `dir`, in the host's order.
pub open spec fn listing(devices: Seq<HostDevice>, dir: Direction) -> Seq<DeviceInfo>
    decreases devices.len(),
{
    if devices.len() == 0 {
        Seq::empty()
    } else {
        let rest = listing(devices.drop_last(), dir);
        if devices.last().serves(dir) {
            rest.push(listed_info(devices.last(), dir))
        } else {
            rest
        }
    }
}

/// The channel count handed to a processing block: the count the stream
/// reports, but at least one, cut to 16 bits.
pub open spec fn block_channels(reported: usize) -> u16 {
    (if reported == 0 {
        1
    } else {
        reported
    }) as u16
}

/// The parameters of one side of a stream to open.
pub struct ChannelRequest {
    pub device_name: String,
    pub session_id: u32,
    pub num_channels: u32,
    pub first_channel: u32,
    pub fallback: bool,
    pub no_device_fallback: bool,
}

/// The sample format of a stream.
#[derive(Clone, Copy, PartialEq, Eq, Structural, Debug)]
pub enum SampleKind {
    /// 32-bit floating point samples, the format the processing blocks use.
    Float32,
}

/// The stream to open on the host.
pub struct StreamRequest {
    pub input: Option<ChannelRequest>,
    pub output: Option<ChannelRequest>,
    pub sample_format: SampleKind,
    /// The stream option flags, as the host's flag bits.
    pub flags: u32,
    /// The name of the stream.
    pub name: String,
    pub sample_rate: Option<u32>,
    pub buffer_frames: u32,
    pub num_buffers: u32,
    pub priority: i32,
}

/// The request for one side: present when channels are wanted on that side
/// and a device is selected for it; it names that device, asks for the
/// wanted number of channels from the first one on, and lets the host fall
/// back to its default device, or to none.
pub open spec fn side_request(selected: Option<HostDevice>, wanted_channels: u16) -> Option<
    ChannelRequest,
> {
    if wanted_channels > 0 {
        match selected {
            Some(d) => Some(
                ChannelRequest {
                    device_name: d.name,
                    session_id: d.session_id,
                    num_channels: wanted_channels as u32,
                    first_channel: 0,
                    fallback: true,
                    no_device_fallback: true,
                },
            ),
            None => None,
        }
    } else {
        None
    }
}

/// The request for side `wanted_channels` of a stream.
fn make_side_request(selected: &Option<HostDevice>, wanted_channels: u16) -> (request: Option<
    ChannelRequest,
>)
    ensures
        request == side_request(*selected, wanted_channels),
{
    if wanted_channels > 0 {
        match selected {
            Some(d) => Some(
                ChannelRequest {
                    device_name: d.name.clone(),
                    session_id: d.session_id,
                    num_channels: wanted_channels as u32,
                    first_channel: 0,
                    fallback: true,
                    no_device_fallback: true,
                },
            ),
            None => None,
        }
    } else {
        None
    }
}

/// The channel count to hand to a processing block for a stream side that
/// reports `reported` channels.
pub fn callback_channels(reported: usize) -> (channels: u16)
    ensures
        channels == block_channels(reported),
{
    let at_least_one: usize = if reported == 0 {
        1
    } else {
        reported
    };
    at_least_one as u16
}

/// The audio device of the RtAudio backend: the host API in use, the
/// selected input and output devices, and the handle of the running stream,
/// if any.
pub struct AudioDevice<S> {
    api: BackendApi,
    input_device: Option<HostDevice>,
    output_device: Option<HostDevice>,
    stream_handle: Option<S>,
}

impl<S> AudioDevice<S> {
    /// The host API in use.
    pub closed spec fn current_api(&self) -> BackendApi {
        self.api
    }

    /// The selected input device.
    pub closed spec fn selected_input(&self) -> Option<HostDevice> {
        self.input_device
    }

    /// The selected output device.
    pub closed spec fn selected_output(&self) -> Option<HostDevice> {
        self.output_device
    }

    /// The selected device of side `dir`.
    pub open spec fn selected(&self, dir: Direction) -> Option<HostDevice> {
        match dir {
            Direction::Input => self.selected_input(),
            Direction::Output => self.selected_output(),
        }
    }

    /// The handle of the open stream.
    pub closed spec fn stream(&self) -> Option<S> {
        self.stream_handle
    }

    /// A device on host API `api` whose devices are `devices`, with the
    /// host's default input and output devices selected and no stream.
    pub fn new(api: BackendApi, devices: &Vec<HostDevice>) -> (device: Self)
        ensures
            device.current_api() == api,
            device.selected_input() == first_wanted(devices@, Direction::Input, None),
            device.selected_output() == first_wanted(devices@, Direction::Output, None),
            device.stream() is None,
    {
        AudioDevice {
            api,
            input_device: pick_device(devices, Direction::Input, None),
            output_device: pick_device(devices, Direction::Output, None),
            stream_handle: None,
        }
    }

    /// The entry of the host API in use.
    pub fn backend_api(&self) -> (api: BackendApi)
        ensures
            api == self.current_api(),
    {
        self.api.duplicate()
    }

    /// The display name of the host API in use.
    pub fn api(&self) -> (name: String)
        ensures
            name@ == self.current_api().name@,
    {
        self.api.name.clone()
    }

    /// The display names of the compiled APIs, in order.
    pub fn apis(&self, compiled: &Vec<BackendApi>) -> (names: Vec<String>)
        ensures
            names@.len() == compiled@.len(),
            forall|i: int| 0 <= i < compiled@.len() ==> #[trigger] names@[i] == compiled@[i].name,
    {
        let mut names: Vec<String> = Vec::new();
        let n = compiled.len();
        for i in 0..n
            invariant
                n == compiled@.len(),
                names@.len() == i,
                forall|j: int| 0 <= j < i ==> #[trigger] names@[j] == compiled@[j].name,
        {
            names.push(compiled[i].name.clone());
        }
        names
    }

    /// The name of the selected input device, or the empty text.
    pub fn input(&self) -> (name: String)
        ensures
            name@ == selected_name(self.selected_input()),
    {
        match &self.input_device {
            Some(d) => d.name.clone(),
            None => String::new(),
        }
    }

    /// The name of the selected output device, or the empty text.
    pub fn output(&self) -> (name: String)
        ensures
            name@ == selected_name(self.selected_output()),
    {
        match &self.output_device {
            Some(d) => d.name.clone(),
            None => String::new(),
        }
    }

    /// The listing of the input devices among `devices`.
    pub fn inputs(&self, devices: &Vec<HostDevice>) -> (infos: Vec<DeviceInfo>)
        ensures
            infos@ == listing(devices@, Direction::Input),
    {
        device_infos(devices, Direction::Input)
    }

    /// The listing of the output devices among `devices`.
    pub fn outputs(&self, devices: &Vec<HostDevice>) -> (infos: Vec<DeviceInfo>)
        ensures
            infos@ == listing(devices@, Direction::Output),
    {
        device_infos(devices, Direction::Output)
    }

    /// Switches to the first compiled API whose display name contains
    /// `name`; when there is none, nothing changes and the setting is not
    /// available.
    pub fn set_api(&mut self, compiled: &Vec<BackendApi>, name: &str) -> (result: Result<
        (),
        AudioDeviceError,
    >)
        ensures
            match first_api_named(compiled@, name@) {
                Some(api) => result is Ok && final(self).current_api() == api,
                None => result is Err && final(self).current_api() == old(self).current_api(),
            },
            result is Ok ==> compiled@.contains(final(self).current_api()) && contains_text(
                final(self).current_api().name@,
                name@,
            ),
            final(self).selected_input() == old(self).selected_input(),
            final(self).selected_output() == old(self).selected_output(),
            final(self).stream() == old(self).stream(),
    {
        proof {
            lemma_first_api_found(compiled@, name@);
        }
        match find_api(compiled, name) {
            Some(i) => {
                self.api = compiled[i].duplicate();
                Ok(())
            },
            None => Err(AudioDeviceError::NotAvailable),
        }
    }

    /// Selects the host's default input and output devices among `devices`.
    pub fn select_default_devices(&mut self, devices: &Vec<HostDevice>)
        ensures
            final(self).current_api() == old(self).current_api(),
            final(self).selected_input() == first_wanted(devices@, Direction::Input, None),
            final(self).selected_output() == first_wanted(devices@, Direction::Output, None),
            final(self).stream() == old(self).stream(),
    {
        self.input_device = pick_device(devices, Direction::Input, None);
        self.output_device = pick_device(devices, Direction::Output, None);
    }

    /// Selects, for side `dir`, the first device of that side among
    /// `devices` whose name contains `query`; when there is none, nothing
    /// changes and the setting is not available.
    pub fn set_device(&mut self, dir: Direction, devices: &Vec<HostDevice>, query: &str) -> (result:
        Result<(), AudioDeviceError>)
        ensures
            match first_wanted(devices@, dir, Some(query@)) {
                Some(d) => result is Ok && final(self).selected(dir) == Some(d),
                None => result is Err && final(self).selected(dir) == old(self).selected(dir),
            },
            final(self).selected(other_side(dir)) == old(self).selected(other_side(dir)),
            final(self).current_api() == old(self).current_api(),
            final(self).stream() == old(self).stream(),
    {
        match pick_device(devices, dir, Some(query)) {
            Some(d) => {
                match dir {
                    Direction::Input => self.input_device = Some(d),
                    Direction::Output => self.output_device = Some(d),
                }
                Ok(())
            },
            None => Err(AudioDeviceError::NotAvailable),
        }
    }

    /// Selects the first input device among `devices` whose name contains
    /// `input`; when there is none, nothing changes and the setting is not
    /// available.
    pub fn set_input(&mut self, devices: &Vec<HostDevice>, input: &str) -> (result: Result<
        (),
        AudioDeviceError,
    >)
        ensures
            match first_wanted(devices@, Direction::Input, Some(input@)) {
                Some(d) => result is Ok && final(self).selected_input() == Some(d),
                None => result is Err && final(self).selected_input() == old(self).selected_input(),
            },
            final(self).selected_output() == old(self).selected_output(),
            final(self).current_api() == old(self).current_api(),
            final(self).stream() == old(self).stream(),
    {
        self.set_device(Direction::Input, devices, input)
    }

    /// Selects the first output device among `devices` whose name contains
    /// `output`; when there is none, nothing changes and the setting is not
    /// available.
    pub fn set_output(&mut self, devices: &Vec<HostDevice>, output: &str) -> (result: Result<
        (),
        AudioDeviceError,
    >)
        ensures
            match first_wanted(devices@, Direction::Output, Some(output@)) {
                Some(d) => result is Ok && final(self).selected_output() == Some(d),
                None => result is Err && final(self).selected_output() == old(
                    self,
                ).selected_output(),
            },
            final(self).selected_input() == old(self).selected_input(),
            final(self).current_api() == old(self).current_api(),
            final(self).stream() == old(self).stream(),
    {
        self.set_device(Direction::Output, devices, output)
    }

    /// The stream to open for `config`: each side asks for the selected
    /// device of that side when channels are wanted there; samples are
    /// 32-bit floats, no option flags are set and the name is empty; the
    /// sample rate is the configured one, the buffer size the configured
    /// frame count cut to 32 bits, with two buffers and the default priority.
    pub fn stream_request(&self, config: &Config) -> (request: StreamRequest)
        ensures
            request.input == side_request(self.selected_input(), config.num_input_channels),
            request.output == side_request(self.selected_output(), config.num_output_channels),
            request.sample_format == SampleKind::Float32,
            request.flags == 0,
            request.name@ == Seq::<char>::empty(),
            request.sample_rate == Some(config.sample_rate),
            request.buffer_frames == config.num_frames as u32,
            request.num_buffers == 2,
            request.priority == -1,
    {
        StreamRequest {
            input: make_side_request(&self.input_device, config.num_input_channels),
            output: make_side_request(&self.output_device, config.num_output_channels),
            sample_format: SampleKind::Float32,
            flags: 0,
            name: String::new(),
            sample_rate: Some(config.sample_rate),
            buffer_frames: config.num_frames as u32,
            num_buffers: 2,
            priority: -1,
        }
    }

    /// Keeps `handle` as the handle of the open stream, in place of any
    /// earlier one.
    pub fn attach_stream(&mut self, handle: S)
        ensures
            final(self).stream() == Some(handle),
            final(self).current_api() == old(self).current_api(),
            final(self).selected_input() == old(self).selected_input(),
            final(self).selected_output() == old(self).selected_output(),
    {
        self.stream_handle = Some(handle);
    }

    /// Gives up the handle of the open stream, which the caller then halts;
    /// afterwards no stream is open.
    pub fn stop(&mut self) -> (handle: Option<S>)
        ensures
            handle == old(self).stream(),
            final(self).stream() is None,
            final(self).current_api() == old(self).current_api(),
            final(self).selected_input() == old(self).selected_input(),
            final(self).selected_output() == old(self).selected_output(),
    {
        self.stream_handle.take()
    }

    /// Whether a stream is open.
    pub fn is_running(&self) -> (running: bool)
        ensures
            running == self.stream() is Some,
    {
        self.stream_handle.is_some()
    }
}

/// The other side of a stream.
pub open spec fn other_side(dir: Direction) -> Direction {
    match dir {
        Direction::Input => Direction::Output,
        Direction::Output => Direction::Input,
    }
}

/// The listing of the devices among `devices` that serve side `dir`: each
/// with its name and its channel count on that side cut to 16 bits.
pub fn device_infos(devices: &Vec<HostDevice>, dir: Direction) -> (infos: Vec<DeviceInfo>)
    ensures
        infos@ == listing(devices@, dir),
{
    let mut infos: Vec<DeviceInfo> = Vec::new();
    let n = devices.len();
    for i in 0..n
        invariant
            n == devices@.len(),
            infos@ == listing(devices@.take(i as int), dir),
    {
        proof {
            assert(devices@.take(i + 1).drop_last() =~= devices@.take(i as int));
        }
        let d = &devices[i];
        let channels = match dir {
            Direction::Input => d.input_channels,
            Direction::Output => d.output_channels,
        };
        if channels > 0 {
            infos.push(DeviceInfo { name: d.name.clone(), num_channels: channels as u16 });
        }
    }
    proof {
        assert(devices@.take(n as int) =~= devices@);
    }
    infos
}

/// The first device a search finds is one of the listed devices and is
/// what the search looks for; when the search finds none, no listed device
/// is.
pub proof fn lemma_first_wanted_found(
    devices: Seq<HostDevice>,
    dir: Direction,
    query: Option<Seq<char>>,
)
    ensures
        match first_wanted(devices, dir, query) {
            Some(d) => devices.contains(d) && wanted(d, dir, query),
            None => forall|i: int|
                0 <= i < devices.len() ==> !wanted(#[trigger] devices[i], dir, query),
        },
    decreases devices.len(),
{
    if devices.len() > 0 && !wanted(devices[0], dir, query) {
        let rest = devices.drop_first();
        lemma_first_wanted_found(rest, dir, query);
        match first_wanted(rest, dir, query) {
            Some(d) => {
                let k = choose|k: int| 0 <= k < rest.len() && rest[k] == d;
                assert(devices[k + 1] == d);
            },
            None => {
                assert forall|i: int| 0 <= i < devices.len() implies !wanted(
                    #[trigger] devices[i],
                    dir,
                    query,
                ) by {
                    if i > 0 {
                        assert(devices[i] == rest[i - 1]);
                    }
                }
            },
        }
    } else if devices.len() > 0 {
        assert(devices[0] == devices[0]);
    }
}

/// Looking up, on one side, the name of a listed device of that side
/// finds a device of that side whose name contains that name: reselecting
/// the device shown as selected succeeds while it is still listed.
pub proof fn lemma_reselect_by_name(devices: Seq<HostDevice>, dir: Direction, d: HostDevice)
    requires
        devices.contains(d),
        d.serves(dir),
    ensures
        first_wanted(devices, dir, Some(d.name@)) matches Some(e) && e.serves(dir)
            && contains_text(e.name@, d.name@),
{
    lemma_contains_itself(d.name@);
    lemma_first_wanted_found(devices, dir, Some(d.name@));
    let k = choose|k: int| 0 <= k < devices.len() && devices[k] == d;
    assert(wanted(devices[k], dir, Some(d.name@)));
}

/// The default device chosen for a side can be chosen again by its name:
/// after selecting the defaults, selecting the shown device by name on the
/// same devices succeeds.
pub proof fn lemma_default_reselectable(devices: Seq<HostDevice>, dir: Direction)
    ensures
        first_wanted(devices, dir, None) matches Some(d) ==> first_wanted(
            devices,
            dir,
            Some(d.name@),
        ) is Some,
{
    lemma_first_wanted_found(devices, dir, None);
    if let Some(d) = first_wanted(devices, dir, None) {
        lemma_reselect_by_name(devices, dir, d);
    }
}

/// Looking up the empty name on a side finds the first device of that
/// side, and finds one exactly when some listed device serves that side.
pub proof fn lemma_empty_name_finds_first(devices: Seq<HostDevice>, dir: Direction)
    ensures
        first_wanted(devices, dir, Some(Seq::empty())) is Some <==> exists|i: int|
            0 <= i < devices.len() && (#[trigger] devices[i]).serves(dir),
        first_wanted(devices, dir, Some(Seq::empty())) matches Some(d) ==> d.serves(dir),
{
    lemma_first_wanted_found(devices, dir, Some(Seq::empty()));
    if exists|i: int| 0 <= i < devices.len() && (#[trigger] devices[i]).serves(dir) {
        let i = choose|i: int| 0 <= i < devices.len() && (#[trigger] devices[i]).serves(dir);
        lemma_contains_itself(devices[i].name@);
        assert(wanted(devices[i], dir, Some(Seq::empty())));
    }
}

/// The first API a search by name finds is a compiled API whose name
/// contains the query; when it finds none, no compiled API name does.
pub proof fn lemma_first_api_found(apis: Seq<BackendApi>, query: Seq<char>)
    ensures
        match first_api_named(apis, query) {
            Some(a) => apis.contains(a) && contains_text(a.name@, query),
            None => forall|i: int|
                0 <= i < apis.len() ==> !contains_text(#[trigger] apis[i].name@, query),
        },
    decreases apis.len(),
{
    if apis.len() > 0 && !contains_text(apis[0].name@, query) {
        let rest = apis.drop_first();
        lemma_first_api_found(rest, query);
        match first_api_named(rest, query) {
            Some(a) => {
                let k = choose|k: int| 0 <= k < rest.len() && rest[k] == a;
                assert(apis[k + 1] == a);
            },
            None => {
                assert forall|i: int| 0 <= i < apis.len() implies !contains_text(
                    #[trigger] apis[i].name@,
                    query,
                ) by {
                    if i > 0 {
                        assert(apis[i] == rest[i - 1]);
                    }
                }
            },
        }
    } else if apis.len() > 0 {
        assert(apis[0] == apis[0]);
    }
}

/// Switching to the API shown as current, by its display name, succeeds
/// while that API is compiled in.
pub proof fn lemma_reselect_api(apis: Seq<BackendApi>, api: BackendApi)
    requires
        apis.contains(api),
    ensures
        first_api_named(apis, api.name@) matches Some(a) && contains_text(a.name@, api.name@),
{
    lemma_contains_itself(api.name@);
    lemma_first_api_found(apis, api.name@);
    let k = choose|k: int| 0 <= k < apis.len() && apis[k] == api;
    assert(contains_text(apis[k].name@, api.name@));
}

/// A listing holds at most as many entries as there are devices.
pub proof fn lemma_listing_len(devices: Seq<HostDevice>, dir: Direction)
    ensures
        listing(devices, dir).len() <= devices.len(),
    decreases devices.len(),
{
    if devices.len() > 0 {
        lemma_listing_len(devices.drop_last(), dir);
    }
}

/// The first device a search finds stands at a position where the search
/// matches, and the search matches no device before it; when the search
/// finds none, it matches no device.
proof fn lemma_first_wanted_position(
    devices: Seq<HostDevice>,
    dir: Direction,
    query: Option<Seq<char>>,
)
    ensures
        match first_wanted(devices, dir, query) {
            Some(d) => exists|i: int|
                0 <= i < devices.len() && devices[i] == d && wanted(d, dir, query) && forall|
                    j: int,
                | 0 <= j < i ==> !wanted(#[trigger] devices[j], dir, query),
            None => forall|i: int|
                0 <= i < devices.len() ==> !wanted(#[trigger] devices[i], dir, query),
        },
    decreases devices.len(),
{
    if devices.len() > 0 {
        let rest = devices.drop_first();
        lemma_first_wanted_position(rest, dir, query);
        if wanted(devices[0], dir, query) {
            assert(devices[0] == devices[0]);
        } else {
            match first_wanted(rest, dir, query) {
                Some(d) => {
                    let i = choose|i: int|
                        0 <= i < rest.len() && rest[i] == d && wanted(d, dir, query) && forall|
                            j: int,
                        | 0 <= j < i ==> !wanted(#[trigger] rest[j], dir, query);
                    assert(devices[i + 1] == d);
                    assert forall|j: int| 0 <= j < i + 1 implies !wanted(
                        #[trigger] devices[j],
                        dir,
                        query,
                    ) by {
                        if j > 0 {
                            assert(devices[j] == rest[j - 1]);
                        }
                    }
                },
                None => {
                    assert forall|i: int| 0 <= i < devices.len() implies !wanted(
                        #[trigger] devices[i],
                        dir,
                        query,
                    ) by {
                        if i > 0 {
                            assert(devices[i] == rest[i - 1]);
                        }
                    }
                },
            }
        }
    }
}

/// Selecting by name finds the first device that has channels on that side
/// and whose name holds the query as a contiguous run of characters,
/// anywhere in the name; it finds nothing exactly when no device is such.
pub proof fn lemma_search_by_name(devices: Seq<HostDevice>, dir: Direction, q: Seq<char>)
    ensures
        match first_wanted(devices, dir, Some(q)) {
            Some(d) => exists|i: int|
                0 <= i < devices.len() && devices[i] == d && (match dir {
                    Direction::Input => d.input_channels,
                    Direction::Output => d.output_channels,
                }) > 0 && (exists|s: int|
                    0 <= s && s + q.len() <= d.name@.len() && #[trigger] d.name@.subrange(
                        s,
                        s + q.len(),
                    ) == q) && forall|j: int|
                    0 <= j < i ==> !((match dir {
                        Direction::Input => (#[trigger] devices[j]).input_channels,
                        Direction::Output => devices[j].output_channels,
                    }) > 0 && exists|s: int|
                        0 <= s && s + q.len() <= devices[j].name@.len() && #[trigger] devices[j].name@.subrange(
                            s,
                            s + q.len(),
                        ) == q),
            None => forall|i: int|
                0 <= i < devices.len() ==> !((match dir {
                    Direction::Input => (#[trigger] devices[i]).input_channels,
                    Direction::Output => devices[i].output_channels,
                }) > 0 && exists|s: int|
                    0 <= s && s + q.len() <= devices[i].name@.len() && #[trigger] devices[i].name@.subrange(
                        s,
                        s + q.len(),
                    ) == q),
        },
{
    lemma_first_wanted_position(devices, dir, Some(q));
    assert forall|i: int| 0 <= i < devices.len() implies (wanted(#[trigger] devices[i], dir, Some(q))
        <==> ((match dir {
        Direction::Input => devices[i].input_channels,
        Direction::Output => devices[i].output_channels,
    }) > 0 && exists|s: int|
        0 <= s && s + q.len() <= devices[i].name@.len() && #[trigger] devices[i].name@.subrange(
            s,
            s + q.len(),
        ) == q)) by {
        lemma_contains_text_at_some_position(devices[i].name@, q);
    }
}

/// Every device that has channels on a side and whose name holds the query
/// anywhere is enough for selecting by name on that side to succeed.
pub proof fn lemma_name_anywhere_selects(
    devices: Seq<HostDevice>,
    dir: Direction,
    q: Seq<char>,
    i: int,
    s: int,
)
    requires
        0 <= i < devices.len(),
        (match dir {
            Direction::Input => devices[i].input_channels,
            Direction::Output => devices[i].output_channels,
        }) > 0,
        0 <= s,
        s + q.len() <= devices[i].name@.len(),
        devices[i].name@.subrange(s, s + q.len()) == q,
    ensures
        first_wanted(devices, dir, Some(q)) is Some,
{
    lemma_first_wanted_position(devices, dir, Some(q));
    assert(crate::text::occurs_at(devices[i].name@, q, s));
    assert(wanted(devices[i], dir, Some(q)));
}

/// Selecting the default finds the first device that has channels on that
/// side and is marked as that side's default; it finds nothing exactly when
/// no device is such.
pub proof fn lemma_search_default(devices: Seq<HostDevice>, dir: Direction)
    ensures
        match first_wanted(devices, dir, None) {
            Some(d) => exists|i: int|
                0 <= i < devices.len() && devices[i] == d && (match dir {
                    Direction::Input => d.input_channels > 0 && d.is_default_input,
                    Direction::Output => d.output_channels > 0 && d.is_default_output,
                }) && forall|j: int|
                    0 <= j < i ==> !(match dir {
                        Direction::Input => (#[trigger] devices[j]).input_channels > 0
                            && devices[j].is_default_input,
                        Direction::Output => devices[j].output_channels > 0
                            && devices[j].is_default_output,
                    }),
            None => forall|i: int|
                0 <= i < devices.len() ==> !(match dir {
                    Direction::Input => (#[trigger] devices[i]).input_channels > 0
                        && devices[i].is_default_input,
                    Direction::Output => devices[i].output_channels > 0
                        && devices[i].is_default_output,
                }),
        },
{
    lemma_first_wanted_position(devices, dir, None);
}

/// A listing is the devices that have channels on the side, in the host's
/// order, each given with its name and its channel count on that side cut
/// to 16 bits.
pub proof fn lemma_listing_is_side_devices(devices: Seq<HostDevice>, dir: Direction)
    ensures
        listing(devices, dir) == devices.filter_map(
            |d: HostDevice|
                {
                    let channels = match dir {
                        Direction::Input => d.input_channels,
                        Direction::Output => d.output_channels,
                    };
                    if channels > 0 {
                        Some(DeviceInfo { name: d.name, num_channels: channels as u16 })
                    } else {
                        None
                    }
                },
        ),
    decreases devices.len(),
{
    if devices.len() > 0 {
        lemma_listing_is_side_devices(devices.drop_last(), dir);
        let rest = listing(devices.drop_last(), dir);
        let d = devices.last();
        assert(rest.push(listed_info(d, dir)) =~= rest + seq![listed_info(d, dir)]);
    }
}

/// The request for one side is present exactly when at least one channel
/// is wanted there and a device is selected for it; it then names that
/// device, asks for exactly the wanted channels from the first one on, and
/// lets the host fall back.
pub proof fn lemma_side_request_shape(selected: Option<HostDevice>, wanted_channels: u16)
    ensures
        side_request(selected, wanted_channels) is Some <==> (wanted_channels >= 1
            && selected is Some),
        match selected {
            Some(d) => wanted_channels >= 1 ==> side_request(selected, wanted_channels) == Some(
                ChannelRequest {
                    device_name: d.name,
                    session_id: d.session_id,
                    num_channels: wanted_channels as u32,
                    first_channel: 0,
                    fallback: true,
                    no_device_fallback: true,
                },
            ),
            None => side_request(selected, wanted_channels) is None,
        },
{
}

/// Switching API by name finds the first compiled API whose display name
/// holds the query anywhere; it finds nothing exactly when no name does.
pub proof fn lemma_search_api(apis: Seq<BackendApi>, q: Seq<char>)
    ensures
        match first_api_named(apis, q) {
            Some(a) => exists|i: int|
                0 <= i < apis.len() && apis[i] == a && (exists|s: int|
                    0 <= s && s + q.len() <= a.name@.len() && #[trigger] a.name@.subrange(
                        s,
                        s + q.len(),
                    ) == q) && forall|j: int|
                    0 <= j < i ==> !exists|s: int|
                        0 <= s && s + q.len() <= (#[trigger] apis[j]).name@.len()
                            && #[trigger] apis[j].name@.subrange(s, s + q.len()) == q,
            None => forall|i: int|
                0 <= i < apis.len() ==> !exists|s: int|
                    0 <= s && s + q.len() <= (#[trigger] apis[i]).name@.len()
                        && #[trigger] apis[i].name@.subrange(s, s + q.len()) == q,
        },
{
    lemma_first_api_position(apis, q);
    assert forall|i: int| 0 <= i < apis.len() implies (contains_text(
        (#[trigger] apis[i]).name@,
        q,
    ) <==> exists|s: int|
        0 <= s && s + q.len() <= apis[i].name@.len() && #[trigger] apis[i].name@.subrange(
            s,
            s + q.len(),
        ) == q) by {
        lemma_contains_text_at_some_position(apis[i].name@, q);
    }
}

/// The first API a search by name finds stands at a position whose name
/// contains the query, and no name before it does; when the search finds
/// none, no name does.
proof fn lemma_first_api_position(apis: Seq<BackendApi>, q: Seq<char>)
    ensures
        match first_api_named(apis, q) {
            Some(a) => exists|i: int|
                0 <= i < apis.len() && apis[i] == a && contains_text(a.name@, q) && forall|j: int|
                    0 <= j < i ==> !contains_text((#[trigger] apis[j]).name@, q),
            None => forall|i: int|
                0 <= i < apis.len() ==> !contains_text((#[trigger] apis[i]).name@, q),
        },
    decreases apis.len(),
{
    if apis.len() > 0 {
        let rest = apis.drop_first();
        lemma_first_api_position(rest, q);
        if contains_text(apis[0].name@, q) {
            assert(apis[0] == apis[0]);
        } else {
            match first_api_named(rest, q) {
                Some(a) => {
                    let i = choose|i: int|
                        0 <= i < rest.len() && rest[i] == a && contains_text(a.name@, q) && forall|
                            j: int,
                        | 0 <= j < i ==> !contains_text((#[trigger] rest[j]).name@, q);
                    assert(apis[i + 1] == a);
                    assert forall|j: int| 0 <= j < i + 1 implies !contains_text(
                        (#[trigger] apis[j]).name@,
                        q,
                    ) by {
                        if j > 0 {
                            assert(apis[j] == rest[j - 1]);
                        }
                    }
                },
                None => {
                    assert forall|i: int| 0 <= i < apis.len() implies !contains_text(
                        (#[trigger] apis[i]).name@,
                        q,
                    ) by {
                        if i > 0 {
                            assert(apis[i] == rest[i - 1]);
                        }
                    }
                },
            }
        }
    }
}

/// A processing block gets the channel count the stream reports when that
/// count is between 1 and 65535, and one channel when the stream reports none.
pub proof fn lemma_block_channels(reported: usize)
    ensures
        reported == 0 ==> block_channels(reported) == 1,
        1 <= reported <= 65535 ==> block_channels(reported) == reported,
{
}

/// The name shown for a side is the selected device's name, or the empty
/// text when no device is selected.
pub proof fn lemma_selected_name(selected: Option<HostDevice>)
    ensures
        selected matches Some(d) ==> selected_name(selected) == d.name@,
        selected is None ==> selected_name(selected).len() == 0,
{
}

} // verus!
