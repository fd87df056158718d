use discord_audio_binder::capture_control::ASPECT_UNIT;
use discord_audio_binder::geometry::{
    client_area_in_frame, client_area_in_range, crop_cache_fresh, crop_to_aspect, region_in_frame, CropOptions,
};

#[test]
fn horizontal_crop_uses_left_center_and_right_alignment() {
    let rect = (0, 0, 200, 100);
    assert_eq!(crop_to_aspect(rect, 1, 1, 0, 1), (0, 0, 100, 100));
    assert_eq!(crop_to_aspect(rect, 1, 1, 1, 1), (50, 0, 100, 100));
    assert_eq!(crop_to_aspect(rect, 1, 1, 2, 1), (100, 0, 100, 100));
}

#[test]
fn vertical_crop_uses_top_center_and_bottom_alignment() {
    let rect = (0, 0, 100, 200);
    assert_eq!(crop_to_aspect(rect, 1, 1, 1, 0), (0, 0, 100, 100));
    assert_eq!(crop_to_aspect(rect, 1, 1, 1, 1), (0, 50, 100, 100));
    assert_eq!(crop_to_aspect(rect, 1, 1, 1, 2), (0, 100, 100, 100));
}

#[test]
fn sixteen_by_nine_crop_of_a_taller_window() {
    let r = crop_to_aspect((0, 0, 1920, 1200), 16 * ASPECT_UNIT, 9 * ASPECT_UNIT, 1, 1);
    assert_eq!(r, (0, 60, 1920, 1080));
}

#[test]
fn aspect_crop_keeps_a_matching_rectangle() {
    assert_eq!(crop_to_aspect((5, 7, 160, 90), 16, 9, 0, 2), (5, 7, 160, 90));
}

#[test]
fn aspect_crop_ignores_empty_rectangles_and_zero_terms() {
    assert_eq!(crop_to_aspect((3, 4, 0, 90), 16, 9, 1, 1), (3, 4, 0, 90));
    assert_eq!(crop_to_aspect((3, 4, 160, -1), 16, 9, 1, 1), (3, 4, 160, -1));
    assert_eq!(crop_to_aspect((3, 4, 160, 100), 0, 9, 1, 1), (3, 4, 160, 100));
    assert_eq!(crop_to_aspect((3, 4, 160, 100), 16, 0, 1, 1), (3, 4, 160, 100));
}

#[test]
fn aspect_crop_rounds_half_away_from_zero() {
    // height 3 at ratio 1:2 keeps a width of 1.5, rounded to 2
    assert_eq!(crop_to_aspect((0, 0, 10, 3), 1, 2, 1, 1), (4, 0, 2, 3));
    // an odd margin leaves the extra pixel on the right when centred
    assert_eq!(crop_to_aspect((0, 0, 101, 100), 1, 1, 1, 1), (0, 0, 100, 100));
    assert_eq!(crop_to_aspect((0, 0, 101, 100), 1, 1, 2, 1), (1, 0, 100, 100));
}

#[test]
fn aspect_crop_keeps_at_least_one_pixel() {
    assert_eq!(crop_to_aspect((0, 0, 1000, 1), 1, 1000, 1, 1), (499, 0, 1, 1));
}

#[test]
fn aspect_crop_clamps_alignment_codes() {
    let rect = (10, 0, 200, 100);
    assert_eq!(crop_to_aspect(rect, 1, 1, 7, 1), (110, 0, 100, 100));
    assert_eq!(crop_to_aspect(rect, 1, 1, -3, 1), (10, 0, 100, 100));
}

#[test]
fn client_area_is_found_inside_the_frame() {
    let r = client_area_in_frame((0, 0, 1280, 720), (108, 131), (100, 100), 1296, 759);
    assert_eq!(r, Some((8, 31, 1280, 720)));
}

#[test]
fn client_area_is_cut_at_the_frame_edges() {
    let r = client_area_in_frame((0, 0, 1280, 720), (108, 131), (100, 100), 1000, 700);
    assert_eq!(r, Some((8, 31, 992, 669)));
    let left_of_bounds = client_area_in_frame((0, 0, 50, 40), (90, 95), (100, 100), 200, 200);
    assert_eq!(left_of_bounds, Some((0, 0, 50, 40)));
}

#[test]
fn client_area_is_absent_when_empty() {
    assert_eq!(client_area_in_frame((10, 10, 10, 50), (0, 0), (0, 0), 100, 100), None);
    assert_eq!(client_area_in_frame((0, 0, 50, 50), (108, 0), (100, 0), 5, 100), None);
}

fn options(client_only: bool, aspect_crop: bool) -> CropOptions {
    CropOptions {
        client_only,
        aspect_crop,
        aspect_w: 16 * ASPECT_UNIT,
        aspect_h: 9 * ASPECT_UNIT,
        align_x: 1,
        align_y: 1,
    }
}

#[test]
fn output_region_combines_client_area_and_aspect_crop() {
    let client = Some((8, 31, 1280, 720));
    assert_eq!(region_in_frame(&options(true, true), client, 1296, 759), (8, 31, 1280, 720));
    assert_eq!(region_in_frame(&options(false, true), client, 1296, 759), (0, 15, 1296, 729));
    assert_eq!(region_in_frame(&options(false, false), client, 1296, 759), (0, 0, 1296, 759));
    assert_eq!(region_in_frame(&options(true, false), None, 1296, 759), (0, 0, 1296, 759));
}

#[test]
fn crop_cache_is_fresh_for_half_a_second() {
    assert!(crop_cache_fresh(100, 80, 100, 80, 499));
    assert!(!crop_cache_fresh(100, 80, 100, 80, 500));
    assert!(!crop_cache_fresh(100, 80, 101, 80, 0));
}

#[test]
fn client_area_range_check_catches_overflow() {
    assert!(client_area_in_range((0, 0, 1280, 720), (108, 131), (100, 100), 1296, 759));
    assert!(client_area_in_range((10, 10, 10, 50), (i32::MAX, 0), (i32::MIN, 0), 100, 100));
    assert!(!client_area_in_range((i32::MIN, 0, i32::MAX, 10), (0, 0), (0, 0), 100, 100));
    assert!(!client_area_in_range((0, 0, 10, 10), (i32::MAX, 0), (-1, 0), 100, 100));
    assert!(!client_area_in_range((0, 0, 10, 10), (i32::MAX - 5, 0), (0, 0), 100, 100));
    assert!(!client_area_in_range((0, 0, 10, 10), (1, 0), (0, 0), i32::MIN, 100));
    assert!(client_area_in_range((0, 0, 10, 10), (1, 0), (0, 0), i32::MIN + 1, 100));
}
