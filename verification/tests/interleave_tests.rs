use audio_device::interleave::{deinterleave, deinterleave_channel, interleave};

#[test]
fn interleave_orders_frame_by_frame() {
    let planar = vec![vec![1, 2, 3], vec![10, 20, 30]];
    assert_eq!(interleave(&planar, 3, 0), vec![1, 10, 2, 20, 3, 30]);
}

#[test]
fn interleave_fills_missing_samples_with_silence() {
    // the second channel could not be read; the first holds more than needed
    let planar = vec![vec![1, 2, 3, 4], vec![]];
    assert_eq!(interleave(&planar, 2, 0), vec![1, 0, 2, 0]);
    let planar = vec![vec![5], vec![6, 7]];
    assert_eq!(interleave(&planar, 2, -1), vec![5, 6, -1, 7]);
}

#[test]
fn interleave_empty_shapes() {
    let none: Vec<Vec<i32>> = vec![];
    assert!(interleave(&none, 4, 0).is_empty());
    assert!(interleave(&vec![vec![1, 2]], 0, 0).is_empty());
}

#[test]
fn deinterleave_channel_picks_every_nth() {
    let data = vec![1, 10, 100, 2, 20, 200];
    assert_eq!(deinterleave_channel(&data, 3, 0, 2), vec![1, 2]);
    assert_eq!(deinterleave_channel(&data, 3, 2, 2), vec![100, 200]);
    assert_eq!(deinterleave_channel(&data, 3, 1, 1), vec![10]);
}

#[test]
fn roundtrip_planar_interleaved_planar() {
    let planar = vec![vec![1.0f32, 2.0, 3.0], vec![-1.0, -2.0, -3.0]];
    let data = interleave(&planar, 3, 0.0f32);
    assert_eq!(deinterleave(&data, 2, 3), planar);
}

#[test]
fn roundtrip_interleaved_planar_interleaved() {
    let data = vec![1, 2, 3, 4, 5, 6, 7, 8];
    let planar = deinterleave(&data, 4, 2);
    assert_eq!(planar, vec![vec![1, 5], vec![2, 6], vec![3, 7], vec![4, 8]]);
    assert_eq!(interleave(&planar, 2, 0), data);
}
