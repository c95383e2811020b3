use lightspeed::effects::{
    blank_pixels, flood_pixels, light_pixels, paint_pixels, sparkle_slots, StripExtent,
};

#[test]
fn blank_frame_is_black() {
    assert_eq!(blank_pixels(3), vec![[0, 0, 0]; 3]);
    assert!(blank_pixels(0).is_empty());
}

#[test]
fn solid_light_adds_to_drawn_pixels_only() {
    let mut px = vec![[10, 10, 250], [0, 0, 0], [1, 1, 1]];
    light_pixels(&mut px, 2, [5, 0, 10]);
    assert_eq!(px, vec![[15, 10, 255], [5, 0, 10], [1, 1, 1]]);
    // A pixel count beyond the buffer draws the whole buffer.
    let mut px = vec![[0, 0, 0]; 2];
    light_pixels(&mut px, 10, [1, 2, 3]);
    assert_eq!(px, vec![[1, 2, 3]; 2]);
}

#[test]
fn paint_sets_drawn_pixels() {
    let mut px = vec![[9, 9, 9]; 4];
    paint_pixels(&mut px, 3, [1, 2, 3]);
    assert_eq!(px, vec![[1, 2, 3], [1, 2, 3], [1, 2, 3], [9, 9, 9]]);
}

#[test]
fn flood_sets_every_pixel() {
    let mut px = vec![[9, 9, 9]; 4];
    flood_pixels(&mut px, [7, 0, 7]);
    assert_eq!(px, vec![[7, 0, 7]; 4]);
}

#[test]
fn sparkles_land_on_drawn_pixels_of_targeted_strips() {
    let strips = vec![
        StripExtent { id: 7, pixel_count: 2, buffer_len: 5 },
        StripExtent { id: 8, pixel_count: 4, buffer_len: 1 },
        StripExtent { id: 9, pixel_count: 3, buffer_len: 3 },
    ];
    assert_eq!(sparkle_slots(&strips, None), vec![(7, 0), (7, 1), (8, 0), (9, 0), (9, 1), (9, 2)]);
    let targets = vec![9, 7];
    assert_eq!(sparkle_slots(&strips, Some(&targets)), vec![(7, 0), (7, 1), (9, 0), (9, 1), (9, 2)]);
    assert!(sparkle_slots(&strips, Some(&vec![])).is_empty());
}
