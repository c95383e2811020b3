use lightspeed::palette::{find_nearest_launchpad_color, launchpad_color_to_rgb, LAUNCHPAD_PALETTE};

#[test]
fn palette_codes_map_to_their_colours() {
    assert_eq!(launchpad_color_to_rgb(0), (0, 0, 0));
    assert_eq!(launchpad_color_to_rgb(5), (252, 0, 0));
    assert_eq!(launchpad_color_to_rgb(53), (252, 0, 252));
    assert_eq!(launchpad_color_to_rgb(127), (72, 20, 0));
}

#[test]
fn codes_beyond_palette_are_light_grey() {
    assert_eq!(launchpad_color_to_rgb(128), (200, 200, 200));
    assert_eq!(launchpad_color_to_rgb(255), (200, 200, 200));
}

#[test]
fn nearest_colour_examples() {
    assert_eq!(find_nearest_launchpad_color(255, 0, 255), 53);
    assert_eq!(find_nearest_launchpad_color(0, 0, 0), 0);
    assert_eq!(find_nearest_launchpad_color(255, 255, 255), 3);
    assert_eq!(find_nearest_launchpad_color(10, 200, 30), 122);
    assert_eq!(find_nearest_launchpad_color(100, 100, 100), 118);
    assert_eq!(find_nearest_launchpad_color(255, 128, 0), 12);
}

#[test]
fn duplicate_palette_colours_pick_lowest_code() {
    // (252, 0, 0) is both code 5 and code 72; (0, 0, 252) is both 45 and 67.
    assert_eq!(find_nearest_launchpad_color(252, 0, 0), 5);
    assert_eq!(find_nearest_launchpad_color(0, 0, 252), 45);
}

#[test]
fn every_palette_colour_is_kept() {
    for code in 0..128u8 {
        let (r, g, b) = launchpad_color_to_rgb(code);
        let nearest = find_nearest_launchpad_color(r, g, b);
        assert_eq!(launchpad_color_to_rgb(nearest), (r, g, b));
        assert_eq!(LAUNCHPAD_PALETTE[nearest as usize], (r, g, b));
    }
}

#[test]
fn nearest_code_is_idempotent() {
    for &(r, g, b) in &[(1u8, 2u8, 3u8), (200, 10, 90), (33, 180, 250), (128, 64, 32), (250, 250, 5)] {
        let first = find_nearest_launchpad_color(r, g, b);
        let (pr, pg, pb) = launchpad_color_to_rgb(first);
        assert_eq!(find_nearest_launchpad_color(pr, pg, pb), first);
    }
}
