use selection_ai_assistant_lib::platform::pixels::{
    collect_samples, colors_are_close, dominant_color, find_selection_boxes,
    sample_selection_color, selection_color_looks_like_highlight, ExcludedArea, PixelBuffer,
};

const HIGHLIGHT: (u8, u8, u8) = (51, 153, 255);

fn filled_buffer(width: i32, height: i32, color: (u8, u8, u8)) -> PixelBuffer {
    let mut bgra = Vec::new();
    for _ in 0..(width * height) {
        bgra.push(color.2);
        bgra.push(color.1);
        bgra.push(color.0);
        bgra.push(255);
    }
    PixelBuffer { origin_x: 0, origin_y: 0, width, height, bgra }
}

#[test]
fn pixel_reads_bgra_as_rgb() {
    let mut buffer = filled_buffer(2, 2, (0, 0, 0));
    // pixel (1, 1) starts at byte 12
    buffer.bgra[12] = 30;
    buffer.bgra[13] = 20;
    buffer.bgra[14] = 10;
    assert_eq!(buffer.pixel(1, 1), Some((10, 20, 30)));
    assert_eq!(buffer.pixel(2, 1), None);
    assert_eq!(buffer.pixel(-1, 0), None);
}

#[test]
fn pixel_respects_the_buffer_origin() {
    let mut buffer = filled_buffer(2, 1, (1, 2, 3));
    buffer.origin_x = 100;
    buffer.origin_y = 50;
    assert_eq!(buffer.pixel(101, 50), Some((1, 2, 3)));
    assert_eq!(buffer.pixel(1, 0), None);
}

#[test]
fn colors_are_close_within_channel_and_total_limits() {
    assert!(colors_are_close((100, 100, 100), (128, 100, 100)));
    assert!(!colors_are_close((100, 100, 100), (129, 100, 100)));
    assert!(colors_are_close((100, 100, 100), (124, 124, 124)));
    assert!(!colors_are_close((100, 100, 100), (125, 125, 123)));
}

#[test]
fn highlight_needs_tint_and_moderate_brightness() {
    assert!(selection_color_looks_like_highlight(&HIGHLIGHT));
    assert!(!selection_color_looks_like_highlight(&(128, 128, 128)));
    assert!(!selection_color_looks_like_highlight(&(20, 20, 44)));
    assert!(!selection_color_looks_like_highlight(&(255, 255, 200)));
}

#[test]
fn a_filled_block_makes_one_box() {
    let buffer = filled_buffer(40, 12, HIGHLIGHT);
    let boxes = find_selection_boxes(&buffer, &Vec::new(), HIGHLIGHT, 0, 40, 0, 12);
    assert_eq!(boxes.len(), 1);
    assert_eq!((boxes[0].x, boxes[0].y, boxes[0].width, boxes[0].height), (0, 0, 40, 12));
}

#[test]
fn excluded_rows_leave_a_group_too_short() {
    let buffer = filled_buffer(40, 12, HIGHLIGHT);
    let areas = vec![ExcludedArea { left: 0, top: 0, right: 39, bottom: 5 }];
    let boxes = find_selection_boxes(&buffer, &areas, HIGHLIGHT, 0, 40, 0, 12);
    assert!(boxes.is_empty());
}

#[test]
fn a_narrow_row_does_not_match() {
    let buffer = filled_buffer(40, 12, HIGHLIGHT);
    let boxes = find_selection_boxes(&buffer, &Vec::new(), HIGHLIGHT, 0, 17, 0, 12);
    assert!(boxes.is_empty());
}

#[test]
fn other_colours_make_no_box() {
    let buffer = filled_buffer(40, 12, (200, 30, 30));
    let boxes = find_selection_boxes(&buffer, &Vec::new(), HIGHLIGHT, 0, 40, 0, 12);
    assert!(boxes.is_empty());
}

#[test]
fn samples_are_taken_on_a_three_pixel_grid_inside_the_buffer() {
    let buffer = filled_buffer(40, 30, HIGHLIGHT);
    let samples = collect_samples(&buffer, &vec![(20, 6)]);
    // columns 8..=32 all inside; rows -6 and -3 fall outside
    assert_eq!(samples.len(), 63);
    assert!(samples.iter().all(|c| *c == HIGHLIGHT));
}

#[test]
fn dominant_color_averages_the_fullest_bucket() {
    let mut samples = vec![(50, 150, 250); 6];
    samples.push((60, 154, 254));
    samples.push((60, 154, 254));
    samples.push((200, 10, 10));
    // eight in the first bucket: (50 * 6 + 60 * 2) / 8 = 52
    assert_eq!(dominant_color(&samples), Some((52, 151, 251)));
}

#[test]
fn dominant_color_needs_six_samples_in_a_bucket() {
    let samples = vec![(50, 150, 250); 5];
    assert_eq!(dominant_color(&samples), None);
}

#[test]
fn sample_selection_color_finds_the_fill() {
    let buffer = filled_buffer(40, 30, HIGHLIGHT);
    assert_eq!(sample_selection_color(&buffer, &vec![(20, 6)]), Some(HIGHLIGHT));
}
