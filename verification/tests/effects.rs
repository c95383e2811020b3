use lightspeed::effects::{
    add_light, flash_rate_half_beats, is_targeted, pulse_direction_from_name, rate_half_beats,
    render_source, scene_kind_from_name, set_zone_membership, start_offset_quarters,
    strip_position_index, toggle_target, waveform_from_name, zone_color_for_strip, zone_colors,
    zone_mode_from_name, PulseDirection, RenderSource, SceneKind, SceneRef, Waveform, ZoneMode,
};

#[test]
fn rates_in_half_beats() {
    assert_eq!(rate_half_beats("4 Bar"), 32);
    assert_eq!(rate_half_beats("2 Bar"), 16);
    assert_eq!(rate_half_beats("1 Bar"), 8);
    assert_eq!(rate_half_beats("1/2"), 4);
    assert_eq!(rate_half_beats("1/4"), 2);
    assert_eq!(rate_half_beats("1/8"), 1);
    assert_eq!(rate_half_beats("fast"), 2);
}

#[test]
fn flash_rates_default_to_a_bar() {
    assert_eq!(flash_rate_half_beats("4 Bar"), 32);
    assert_eq!(flash_rate_half_beats("2 Bar"), 8);
    assert_eq!(flash_rate_half_beats("1/8"), 1);
    assert_eq!(flash_rate_half_beats(""), 8);
}

#[test]
fn named_settings() {
    assert_eq!(start_offset_quarters("Right"), 1);
    assert_eq!(start_offset_quarters("Left"), 3);
    assert_eq!(start_offset_quarters("Center"), 0);
    assert_eq!(waveform_from_name("sine"), Waveform::Sine);
    assert_eq!(waveform_from_name("triangle"), Waveform::Triangle);
    assert_eq!(waveform_from_name("sawtooth"), Waveform::Sawtooth);
    assert_eq!(waveform_from_name("Sine"), Waveform::Flat);
    assert_eq!(pulse_direction_from_name("Reverse"), PulseDirection::Reverse);
    assert_eq!(pulse_direction_from_name("Bounce"), PulseDirection::Bounce);
    assert_eq!(pulse_direction_from_name("Forward"), PulseDirection::Forward);
    assert_eq!(pulse_direction_from_name("sideways"), PulseDirection::Forward);
    assert_eq!(zone_mode_from_name("Pulse"), ZoneMode::Pulse);
    assert_eq!(zone_mode_from_name("Swap"), ZoneMode::Swap);
    assert_eq!(zone_mode_from_name("other"), ZoneMode::Swap);
    assert_eq!(scene_kind_from_name("Masks"), SceneKind::Masks);
    assert_eq!(scene_kind_from_name("Global"), SceneKind::Global);
    assert_eq!(scene_kind_from_name("global"), SceneKind::Other);
}

#[test]
fn zone_colours_by_mode() {
    let a = [255, 0, 0];
    let b = [0, 0, 255];
    assert_eq!(zone_colors(ZoneMode::Swap, true, a, b), (a, b));
    assert_eq!(zone_colors(ZoneMode::Swap, false, a, b), (b, a));
    assert_eq!(zone_colors(ZoneMode::Pulse, true, a, b), (a, [0, 0, 0]));
    assert_eq!(zone_colors(ZoneMode::Pulse, false, a, b), ([0, 0, 0], b));
}

#[test]
fn zone_colour_for_strip() {
    let ga = vec![1u64, 2];
    let gb = vec![2u64, 3];
    let colours = ([1, 1, 1], [2, 2, 2]);
    assert_eq!(zone_color_for_strip(2, &ga, &gb, colours), Some([1, 1, 1]));
    assert_eq!(zone_color_for_strip(3, &ga, &gb, colours), Some([2, 2, 2]));
    assert_eq!(zone_color_for_strip(4, &ga, &gb, colours), None);
}

#[test]
fn targeting() {
    let t = vec![5u64, 6];
    assert!(is_targeted(None, 9));
    assert!(is_targeted(Some(&t), 6));
    assert!(!is_targeted(Some(&t), 9));
    assert!(!is_targeted(Some(&Vec::new()), 9));
}

#[test]
fn toggling_targets() {
    let all = vec![1u64, 2, 3];
    assert_eq!(toggle_target(None, &all, 2, true), None);
    assert_eq!(toggle_target(None, &all, 2, false), Some(vec![1, 3]));
    assert_eq!(toggle_target(Some(vec![1]), &all, 3, true), Some(vec![1, 3]));
    assert_eq!(toggle_target(Some(vec![1, 3]), &all, 3, true), Some(vec![1, 3]));
    assert_eq!(toggle_target(Some(vec![1, 3]), &all, 1, false), Some(vec![3]));
}

#[test]
fn zone_membership_keeps_groups_apart() {
    let mut a = vec![1u64];
    let mut b = vec![2u64, 3];
    set_zone_membership(&mut a, &mut b, 3, true, true);
    assert_eq!(a, vec![1, 3]);
    assert_eq!(b, vec![2]);
    set_zone_membership(&mut a, &mut b, 1, false, true);
    assert_eq!(a, vec![3]);
    assert_eq!(b, vec![2, 1]);
    set_zone_membership(&mut a, &mut b, 2, false, false);
    assert_eq!(b, vec![1]);
    set_zone_membership(&mut a, &mut b, 3, true, false);
    assert!(a.is_empty());
}

#[test]
fn light_adds_and_saturates() {
    assert_eq!(add_light([10, 20, 250], [5, 5, 10]), [15, 25, 255]);
    assert_eq!(add_light([0, 0, 0], [0, 255, 255]), [0, 255, 255]);
}

#[test]
fn flipped_strips_run_backwards() {
    assert_eq!(strip_position_index(50, 0, false), 0);
    assert_eq!(strip_position_index(50, 0, true), 49);
    assert_eq!(strip_position_index(50, 49, true), 0);
    assert_eq!(strip_position_index(1, 0, true), 0);
}

#[test]
fn render_source_follows_the_selected_scene() {
    let scenes = vec![
        SceneRef { id: 1, kind: SceneKind::Masks },
        SceneRef { id: 2, kind: SceneKind::Global },
        SceneRef { id: 3, kind: SceneKind::Other },
        SceneRef { id: 2, kind: SceneKind::Masks },
    ];
    assert_eq!(render_source(None, &scenes), RenderSource::LooseMasks);
    assert_eq!(render_source(Some(1), &scenes), RenderSource::SceneMasks(0));
    assert_eq!(render_source(Some(2), &scenes), RenderSource::SceneEffects(1));
    assert_eq!(render_source(Some(3), &scenes), RenderSource::LooseMasks);
    assert_eq!(render_source(Some(9), &scenes), RenderSource::LooseMasks);
}
