//! Moving samples between a planar layout (one buffer per channel) and an
//! interleaved layout (frame after frame, each frame holding one sample per
//! channel), as the processing callbacks do.
use vstd::prelude::*;
use vstd::arithmetic::div_mod::{lemma_fundamental_div_mod, lemma_fundamental_div_mod_converse};

verus! {

/// The sample of channel `ch` at frame `frame`: the channel's own sample
/// when the channel holds that frame, otherwise `silence`.
pub open spec fn planar_sample<T>(planar: Seq<Seq<T>>, ch: int, frame: int, silence: T) -> T {
    if 0 <= frame < planar[ch].len() {
        planar[ch][frame]
    } else {
        silence
    }
}

/// The interleaved buffer of `num_frames` frames for the channels of
/// `planar`: position `frame * channels + ch` holds channel `ch` at `frame`.
pub open spec fn interleaved<T>(planar: Seq<Seq<T>>, num_frames: nat, silence: T) -> Seq<T> {
    let channels = planar.len() as int;
    Seq::new(
        num_frames * planar.len(),
        |i: int| planar_sample(planar, i % channels, i / channels, silence),
    )
}

/// Channel `ch` of an interleaved buffer with `channels` channels, over
/// its first `num_frames` frames.
pub open spec fn channel_of<T>(data: Seq<T>, channels: nat, ch: int, num_frames: nat) -> Seq<T> {
    Seq::new(num_frames, |frame: int| data[frame * channels + ch])
}

/// The contents of each channel buffer.
pub open spec fn planar_view<T>(planar: Seq<Vec<T>>) -> Seq<Seq<T>> {
    planar.map_values(|channel: Vec<T>| channel@)
}

/// Every channel of an interleaved buffer, over its first `num_frames` frames.
pub open spec fn deinterleaved<T>(data: Seq<T>, channels: nat, num_frames: nat) -> Seq<Seq<T>> {
    Seq::new(channels, |ch: int| channel_of(data, channels, ch, num_frames))
}

/// Frame `frame`, channel `ch` sits at a position inside the buffer, and
/// that position gives the frame and channel back.
proof fn lemma_slot(frame: int, ch: int, channels: int, num_frames: int)
    requires
        0 <= frame < num_frames,
        0 <= ch < channels,
    ensures
        0 <= frame * channels + ch < num_frames * channels,
        (frame * channels + ch) / channels == frame,
        (frame * channels + ch) % channels == ch,
{
    lemma_fundamental_div_mod_converse(frame * channels + ch, channels, frame, ch);
    assert(0 <= frame * channels) by (nonlinear_arith)
        requires
            0 <= frame,
            0 <= channels,
    ;
    assert((frame + 1) * channels <= num_frames * channels) by (nonlinear_arith)
        requires
            frame + 1 <= num_frames,
            0 <= channels,
    ;
    assert((frame + 1) * channels == frame * channels + channels) by (nonlinear_arith);
}

/// Every position inside the buffer is the slot of one frame and channel.
proof fn lemma_position(i: int, channels: int, num_frames: int)
    requires
        0 <= i < num_frames * channels,
        0 < channels,
    ensures
        0 <= i / channels < num_frames,
        0 <= i % channels < channels,
        i == (i / channels) * channels + i % channels,
{
    lemma_fundamental_div_mod(i, channels);
    assert((i / channels) * channels == channels * (i / channels)) by (nonlinear_arith);
    let q = i / channels;
    let r = i % channels;
    assert(0 <= q < num_frames) by (nonlinear_arith)
        requires
            i == channels * q + r,
            0 <= r < channels,
            0 <= i < num_frames * channels,
            0 < channels,
    ;
}

/// Interleaves the channel buffers of `planar` into `num_frames` frames;
/// where a channel holds fewer frames, the missing samples are `silence`.
pub fn interleave<T: Copy>(planar: &Vec<Vec<T>>, num_frames: usize, silence: T) -> (data: Vec<T>)
    requires
        num_frames * planar@.len() <= usize::MAX,
    ensures
        data@ == interleaved(planar_view(planar@), num_frames as nat, silence),
{
    let channels = planar.len();
    let ghost view = planar_view(planar@);
    let mut data: Vec<T> = Vec::new();
    for frame in 0..num_frames
        invariant
            channels == planar@.len(),
            view == planar_view(planar@),
            num_frames * channels <= usize::MAX,
            data@.len() == frame * channels,
            forall|i: int|
                0 <= i < data@.len() ==> #[trigger] data@[i] == planar_sample(
                    view,
                    i % (channels as int),
                    i / (channels as int),
                    silence,
                ),
    {
        for ch in 0..channels
            invariant
                channels == planar@.len(),
                view == planar_view(planar@),
                frame < num_frames,
                num_frames * channels <= usize::MAX,
                data@.len() == frame * channels + ch,
                forall|i: int|
                    0 <= i < data@.len() ==> #[trigger] data@[i] == planar_sample(
                        view,
                        i % (channels as int),
                        i / (channels as int),
                        silence,
                    ),
        {
            proof {
                lemma_slot(frame as int, ch as int, channels as int, num_frames as int);
            }
            let channel = &planar[ch];
            let sample: T = if frame < channel.len() {
                channel[frame]
            } else {
                silence
            };
            data.push(sample);
        }
        proof {
            assert(frame * channels + channels == (frame + 1) * channels) by (nonlinear_arith);
        }
    }
    proof {
        assert(data@ =~= interleaved(view, num_frames as nat, silence));
    }
    data
}

/// Channel `ch` of the interleaved buffer `data` with `channels`
/// channels, over its first `num_frames` frames.
pub fn deinterleave_channel<T: Copy>(data: &Vec<T>, channels: usize, ch: usize, num_frames: usize) -> (samples: Vec<T>)
    requires
        ch < channels,
        num_frames * channels <= data@.len(),
    ensures
        samples@ == channel_of(data@, channels as nat, ch as int, num_frames as nat),
{
    let mut samples: Vec<T> = Vec::new();
    let len = data.len();
    for frame in 0..num_frames
        invariant
            len == data@.len(),
            ch < channels,
            num_frames * channels <= data@.len(),
            samples@.len() == frame,
            forall|f: int|
                0 <= f < frame ==> #[trigger] samples@[f] == data@[f * channels + ch],
    {
        proof {
            lemma_slot(frame as int, ch as int, channels as int, num_frames as int);
        }
        samples.push(data[frame * channels + ch]);
    }
    proof {
        assert(samples@ =~= channel_of(data@, channels as nat, ch as int, num_frames as nat));
    }
    samples
}

/// Every channel of the interleaved buffer `data` with `channels`
/// channels, over its first `num_frames` frames.
pub fn deinterleave<T: Copy>(data: &Vec<T>, channels: usize, num_frames: usize) -> (planar: Vec<Vec<T>>)
    requires
        num_frames * channels <= data@.len(),
    ensures
        planar_view(planar@) == deinterleaved(data@, channels as nat, num_frames as nat),
{
    let mut planar: Vec<Vec<T>> = Vec::new();
    for ch in 0..channels
        invariant
            num_frames * channels <= data@.len(),
            planar@.len() == ch,
            forall|c: int|
                0 <= c < ch ==> #[trigger] planar@[c]@ == channel_of(
                    data@,
                    channels as nat,
                    c,
                    num_frames as nat,
                ),
    {
        planar.push(deinterleave_channel(data, channels, ch, num_frames));
    }
    proof {
        assert(planar_view(planar@) =~= deinterleaved(data@, channels as nat, num_frames as nat));
    }
    planar
}

/// Taking channel `ch` back out of an interleaved buffer gives that
/// channel's samples, with silence past its end; a channel holding at least
/// `num_frames` samples comes back as its first `num_frames` samples.
pub proof fn lemma_channel_of_interleaved<T>(planar: Seq<Seq<T>>, num_frames: nat, silence: T, ch: int)
    requires
        0 <= ch < planar.len(),
    ensures
        channel_of(interleaved(planar, num_frames, silence), planar.len(), ch, num_frames)
            == Seq::new(num_frames, |frame: int| planar_sample(planar, ch, frame, silence)),
        planar[ch].len() >= num_frames ==> channel_of(
            interleaved(planar, num_frames, silence),
            planar.len(),
            ch,
            num_frames,
        ) == planar[ch].take(num_frames as int),
{
    let channels = planar.len() as int;
    let data = interleaved(planar, num_frames, silence);
    let back = channel_of(data, planar.len(), ch, num_frames);
    assert forall|frame: int| 0 <= frame < num_frames implies #[trigger] back[frame]
        == planar_sample(planar, ch, frame, silence) by {
        lemma_slot(frame, ch, channels, num_frames as int);
    }
    assert(back =~= Seq::new(num_frames, |frame: int| planar_sample(planar, ch, frame, silence)));
    if planar[ch].len() >= num_frames {
        assert(back =~= planar[ch].take(num_frames as int));
    }
}

/// Interleaving the channels taken out of an interleaved buffer gives back
/// its first `num_frames` frames.
pub proof fn lemma_interleave_deinterleaved<T>(data: Seq<T>, channels: nat, num_frames: nat, silence: T)
    requires
        num_frames * channels <= data.len(),
    ensures
        interleaved(deinterleaved(data, channels, num_frames), num_frames, silence) == data.take(
            (num_frames * channels) as int,
        ),
{
    let planar = deinterleaved(data, channels, num_frames);
    let again = interleaved(planar, num_frames, silence);
    let c = channels as int;
    assert forall|i: int| 0 <= i < num_frames * channels implies #[trigger] again[i] == data[i] by {
        lemma_position(i, c, num_frames as int);
        let frame = i / c;
        let ch = i % c;
        assert(planar[ch] == channel_of(data, channels, ch, num_frames));
    }
    assert(again =~= data.take((num_frames * channels) as int));
}

/// The interleaved buffer holds every frame of every channel, frame after
/// frame: frame `frame` of channel `ch` sits at `frame * channels + ch`, and
/// is the channel's own sample when the channel holds that frame, otherwise
/// silence.
pub proof fn lemma_interleaved_layout<T>(planar: Seq<Seq<T>>, num_frames: nat, silence: T)
    ensures
        interleaved(planar, num_frames, silence).len() == num_frames * planar.len(),
        forall|frame: int, ch: int|
            0 <= frame < num_frames && 0 <= ch < planar.len() ==> #[trigger] interleaved(
                planar,
                num_frames,
                silence,
            )[frame * planar.len() + ch] == if frame < planar[ch].len() {
                planar[ch][frame]
            } else {
                silence
            },
{
    let data = interleaved(planar, num_frames, silence);
    assert forall|frame: int, ch: int| 0 <= frame < num_frames && 0 <= ch < planar.len() implies #[trigger] data[frame * planar.len() + ch] == if frame < planar[ch].len() {
        planar[ch][frame]
    } else {
        silence
    } by {
        lemma_slot(frame, ch, planar.len() as int, num_frames as int);
    }
}

/// A channel taken out of an interleaved buffer holds, at each frame, the
/// sample at that frame's slot for the channel; the channel buffers of a
/// planar layout are the contents of its vectors.
pub proof fn lemma_channel_layout<T>(data: Seq<T>, channels: nat, ch: int, num_frames: nat, planar: Seq<Vec<T>>)
    ensures
        channel_of(data, channels, ch, num_frames).len() == num_frames,
        forall|frame: int|
            0 <= frame < num_frames ==> #[trigger] channel_of(data, channels, ch, num_frames)[frame]
                == data[frame * channels + ch],
        planar_view(planar).len() == planar.len(),
        forall|i: int| 0 <= i < planar.len() ==> #[trigger] planar_view(planar)[i] == planar[i]@,
{
}

} // verus!
