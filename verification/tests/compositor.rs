use gallerust::compositor::{composite, compute_layout, Layout};

fn test_image(iw: u32, ih: u32) -> Vec<u8> {
    let n = (iw * ih * 4) as usize;
    (0..n).map(|i| (i % 251) as u8).collect()
}

fn blank_frame(fw: u32, fh: u32) -> Vec<u8> {
    vec![42u8; (fw * fh * 4) as usize]
}

fn pixel(buf: &[u8], width: u32, x: u32, y: u32) -> [u8; 4] {
    let i = ((y * width + x) * 4) as usize;
    [buf[i], buf[i + 1], buf[i + 2], buf[i + 3]]
}

const BACKGROUND: [u8; 4] = [0, 0, 0, 255];

#[test]
fn layout_width_bound_image_fills_width_and_is_centered_vertically() {
    let l = compute_layout(100, 50, 400, 400, 1000);
    assert_eq!(l, Layout { scaled_w: 400, scaled_h: 200, offset_x: 0, offset_y: 100 });
}

#[test]
fn layout_height_bound_image_fills_height_and_is_centered_horizontally() {
    let l = compute_layout(50, 100, 400, 400, 1000);
    assert_eq!(l, Layout { scaled_w: 200, scaled_h: 400, offset_x: 100, offset_y: 0 });
}

#[test]
fn layout_shrinks_with_small_zoom() {
    let l = compute_layout(100, 50, 400, 400, 100);
    assert_eq!(l, Layout { scaled_w: 40, scaled_h: 20, offset_x: 180, offset_y: 190 });
}

#[test]
fn layout_overflows_buffer_at_high_zoom_with_zero_offsets() {
    let l = compute_layout(10, 10, 100, 100, 5000);
    assert_eq!(l, Layout { scaled_w: 500, scaled_h: 500, offset_x: 0, offset_y: 0 });
}

#[test]
fn layout_degenerate_inputs_are_all_zero() {
    let zero = Layout { scaled_w: 0, scaled_h: 0, offset_x: 0, offset_y: 0 };
    assert_eq!(compute_layout(0, 50, 400, 400, 1000), zero);
    assert_eq!(compute_layout(100, 0, 400, 400, 1000), zero);
    assert_eq!(compute_layout(100, 50, 0, 400, 1000), zero);
    assert_eq!(compute_layout(100, 50, 400, 0, 1000), zero);
}

#[test]
fn composite_centers_and_letterboxes() {
    let (iw, ih, fw, fh) = (100u32, 50u32, 400u32, 400u32);
    let img = test_image(iw, ih);
    let mut frame = blank_frame(fw, fh);
    composite(&mut frame, &img, iw, ih, fw, fh, 1000);

    // 100-sample bars above and below the image.
    assert_eq!(pixel(&frame, fw, 0, 0), BACKGROUND);
    assert_eq!(pixel(&frame, fw, 399, 99), BACKGROUND);
    assert_eq!(pixel(&frame, fw, 200, 300), BACKGROUND);
    assert_eq!(pixel(&frame, fw, 0, 399), BACKGROUND);

    // The image spans the full width at scale 4: dest (x, 100 + y) samples
    // source (x / 4, y / 4).
    assert_eq!(pixel(&frame, fw, 0, 100), pixel(&img, iw, 0, 0));
    assert_eq!(pixel(&frame, fw, 399, 100), pixel(&img, iw, 99, 0));
    assert_eq!(pixel(&frame, fw, 399, 299), pixel(&img, iw, 99, 49));
    assert_eq!(pixel(&frame, fw, 200, 200), pixel(&img, iw, 50, 25));
    assert_eq!(pixel(&frame, fw, 7, 103), pixel(&img, iw, 1, 0));
}

#[test]
fn composite_degenerate_inputs_only_clear() {
    // Zero-size image: the frame is fully cleared to opaque black.
    let mut frame = blank_frame(3, 2);
    composite(&mut frame, &Vec::new(), 0, 0, 3, 2, 1000);
    for x in 0..3 {
        for y in 0..2 {
            assert_eq!(pixel(&frame, 3, x, y), BACKGROUND);
        }
    }

    // Zero-height image with a non-zero width.
    let mut frame = blank_frame(3, 2);
    composite(&mut frame, &Vec::new(), 7, 0, 3, 2, 1000);
    for x in 0..3 {
        for y in 0..2 {
            assert_eq!(pixel(&frame, 3, x, y), BACKGROUND);
        }
    }

    // Zero-size destination buffer: nothing to check beyond a clean return.
    let img = test_image(4, 4);
    let mut empty: Vec<u8> = Vec::new();
    composite(&mut empty, &img, 4, 4, 0, 0, 1000);
    assert_eq!(empty.len(), 0);
}

#[test]
fn composite_clips_at_maximum_zoom() {
    let (iw, ih, fw, fh) = (10u32, 10u32, 100u32, 100u32);
    let img = test_image(iw, ih);
    let mut frame = blank_frame(fw, fh);
    composite(&mut frame, &img, iw, ih, fw, fh, 5000);

    // The scaled image (500 x 500) overflows the buffer; every buffer pixel
    // is an image sample at scale 50, and no write escaped the buffer.
    assert_eq!(pixel(&frame, fw, 0, 0), pixel(&img, iw, 0, 0));
    assert_eq!(pixel(&frame, fw, 49, 49), pixel(&img, iw, 0, 0));
    assert_eq!(pixel(&frame, fw, 50, 50), pixel(&img, iw, 1, 1));
    assert_eq!(pixel(&frame, fw, 99, 99), pixel(&img, iw, 1, 1));
    assert_eq!(frame.len(), (fw * fh * 4) as usize);
}

#[test]
fn session_composite_into_paints_the_resident_image() {
    let mut s = gallerust::nav::Session::new();
    let sel = String::from("a.png");
    s.load_collection(vec![String::from("a.png")], &sel).unwrap();
    let img = test_image(8, 6);
    assert!(s.install_decoded(img.clone(), 8, 6));
    let mut frame = blank_frame(8, 6);
    s.composite_into(&mut frame, 8, 6);
    assert_eq!(frame, img);

    // Without a resident image the repaint only clears.
    let empty = gallerust::nav::Session::new();
    let mut frame = blank_frame(2, 2);
    empty.composite_into(&mut frame, 2, 2);
    for x in 0..2 {
        for y in 0..2 {
            assert_eq!(pixel(&frame, 2, x, y), BACKGROUND);
        }
    }
}

#[test]
fn composite_at_exact_fit_and_equal_sizes_is_the_identity() {
    let (iw, ih) = (8u32, 6u32);
    let img = test_image(iw, ih);
    let mut frame = blank_frame(iw, ih);
    composite(&mut frame, &img, iw, ih, iw, ih, 1000);
    assert_eq!(frame, img);
}
