use lightspeed::dmx::{
    build_universe_frames, color_order_from_name, output_universe, sacn_payload, wire_pixel,
    ColorOrder, StripFrame,
};

fn strip(universe: u16, start_channel: u16, order: ColorOrder, pixels: Vec<[u8; 3]>) -> StripFrame {
    StripFrame { universe, start_channel, order, pixels }
}

#[test]
fn color_order_names() {
    assert_eq!(color_order_from_name("GRB"), ColorOrder::Grb);
    assert_eq!(color_order_from_name("BGR"), ColorOrder::Bgr);
    assert_eq!(color_order_from_name("RGB"), ColorOrder::Rgb);
    assert_eq!(color_order_from_name("grb"), ColorOrder::Rgb);
    assert_eq!(color_order_from_name(""), ColorOrder::Rgb);
}

#[test]
fn wire_pixel_reorders_channels() {
    assert_eq!(wire_pixel(ColorOrder::Rgb, [1, 2, 3]), [1, 2, 3]);
    assert_eq!(wire_pixel(ColorOrder::Grb, [1, 2, 3]), [2, 1, 3]);
    assert_eq!(wire_pixel(ColorOrder::Bgr, [1, 2, 3]), [3, 2, 1]);
}

#[test]
fn output_universe_offsets_and_clamps() {
    assert_eq!(output_universe(1, 1), 1);
    assert_eq!(output_universe(3, 5), 7);
    assert_eq!(output_universe(0, 0), 1);
    assert_eq!(output_universe(0, 1), 1);
    assert_eq!(output_universe(63999, 2), 63999);
    assert_eq!(output_universe(65535, 65535), 63999);
}

#[test]
fn single_strip_fills_its_channels() {
    let strips = vec![strip(1, 1, ColorOrder::Rgb, vec![[10, 20, 30], [40, 50, 60]])];
    let frames = build_universe_frames(&strips, 1);
    assert_eq!(frames.len(), 1);
    assert_eq!(frames[0].universe, 1);
    assert_eq!(frames[0].data.len(), 512);
    assert_eq!(&frames[0].data[0..6], &[10, 20, 30, 40, 50, 60]);
    assert!(frames[0].data[6..].iter().all(|&v| v == 0));
}

#[test]
fn grb_strip_at_offset() {
    let strips = vec![strip(2, 11, ColorOrder::Grb, vec![[1, 2, 3]])];
    let frames = build_universe_frames(&strips, 1);
    assert_eq!(frames.len(), 1);
    assert_eq!(frames[0].universe, 2);
    assert_eq!(&frames[0].data[10..13], &[2, 1, 3]);
    assert_eq!(frames[0].data[9], 0);
}

#[test]
fn later_strip_wins_where_channels_overlap() {
    let strips = vec![
        strip(1, 1, ColorOrder::Rgb, vec![[1, 1, 1], [2, 2, 2]]),
        strip(1, 4, ColorOrder::Rgb, vec![[9, 9, 9]]),
    ];
    let frames = build_universe_frames(&strips, 1);
    assert_eq!(frames.len(), 1);
    assert_eq!(&frames[0].data[0..6], &[1, 1, 1, 9, 9, 9]);
}

#[test]
fn universes_in_order_of_first_use() {
    let strips = vec![
        strip(3, 1, ColorOrder::Rgb, vec![[5, 5, 5]]),
        strip(1, 1, ColorOrder::Rgb, vec![[6, 6, 6]]),
        strip(3, 4, ColorOrder::Bgr, vec![[1, 2, 3]]),
    ];
    let frames = build_universe_frames(&strips, 2);
    let universes: Vec<u16> = frames.iter().map(|f| f.universe).collect();
    assert_eq!(universes, vec![4, 2]);
    assert_eq!(&frames[0].data[0..6], &[5, 5, 5, 3, 2, 1]);
    assert_eq!(&frames[1].data[0..3], &[6, 6, 6]);
}

#[test]
fn pixels_past_the_universe_end_are_dropped() {
    // Start channel 510: only one pixel fits (channels 509..511, zero-based).
    let strips = vec![strip(1, 510, ColorOrder::Rgb, vec![[7, 8, 9], [1, 1, 1]])];
    let frames = build_universe_frames(&strips, 1);
    assert_eq!(&frames[0].data[509..512], &[7, 8, 9]);
    let strips = vec![strip(1, 511, ColorOrder::Rgb, vec![[7, 8, 9]])];
    let frames = build_universe_frames(&strips, 1);
    assert!(frames[0].data.iter().all(|&v| v == 0));
}

#[test]
fn start_channel_zero_counts_as_one() {
    let strips = vec![strip(1, 0, ColorOrder::Rgb, vec![[4, 5, 6]])];
    let frames = build_universe_frames(&strips, 1);
    assert_eq!(&frames[0].data[0..3], &[4, 5, 6]);
}

#[test]
fn no_strips_no_frames() {
    let frames = build_universe_frames(&Vec::new(), 1);
    assert!(frames.is_empty());
}

#[test]
fn payload_starts_with_start_code() {
    let data = vec![1u8, 2, 3];
    assert_eq!(sacn_payload(&data), vec![0, 1, 2, 3]);
    assert_eq!(sacn_payload(&Vec::new()), vec![0]);
}
